//! The records of the controller's HTTP surface.

use crate::text::{decimal, u64_to_string};
use vstd::prelude::*;
use vstd::string::*;

verus! {

/// A request that names a record by its id.
#[derive(Debug)]
pub struct OnlyId {
    pub id: usize,
}

/// One row of the cluster table.
#[derive(Debug)]
pub struct Element {
    pub id: usize,
    pub name: String,
    pub value: String,
}

impl Clone for Element {
    fn clone(&self) -> (r: Self)
        ensures
            r == *self,
    {
        Element { id: self.id, name: self.name.clone(), value: self.value.clone() }
    }
}

impl Element {
    pub fn new(id: usize, name: String, value: String) -> (r: Element)
        ensures
            r == (Element { id, name, value }),
    {
        Element { id, name, value }
    }

    pub fn set_name(&mut self, name: String)
        ensures
            *final(self) == (Element { name, ..*old(self) }),
    {
        self.name = name;
    }

    pub fn set_value(&mut self, value: String)
        ensures
            *final(self) == (Element { value, ..*old(self) }),
    {
        self.value = value;
    }

    /// `Id: <id>, Name: <name>, Value: <value>`.
    pub fn describe(&self) -> (r: String)
        ensures
            r@ == "Id: "@ + decimal(self.id as nat) + ", Name: "@ + self.name@ + ", Value: "@
                + self.value@,
    {
        let mut out = String::from_str("Id: ");
        out.append(u64_to_string(self.id as u64).as_str());
        out.append(", Name: ");
        out.append(self.name.as_str());
        out.append(", Value: ");
        out.append(self.value.as_str());
        out
    }
}

/// A request for instances of a workload.
#[derive(Debug)]
pub struct InstanceDefinition {
    pub name: Option<String>,
    pub workload_id: usize,
    pub replicas: Option<usize>,
}

/// A name made of an adjective and a noun, drawn by the `names` crate's
/// default generator. Trusted; nothing is claimed of the name. The generator
/// yields a name at every call.
#[verifier::external_body]
pub(crate) fn random_name() -> (r: String) {
    names::Generator::default().next().unwrap()
}

impl InstanceDefinition {
    pub fn set_name(&mut self, name: String)
        ensures
            *final(self) == (InstanceDefinition { name: Some(name), ..*old(self) }),
    {
        self.name = Some(name);
    }

    /// The replica count of the request. A request that names none asks for
    /// one replica from now on.
    pub fn get_replicas(&mut self) -> (r: usize)
        ensures
            r == (match old(self).replicas {
                Some(n) => n,
                None => 1,
            }),
            *final(self) == (InstanceDefinition { replicas: Some(r), ..*old(self) }),
    {
        match self.replicas {
            Some(n) => n,
            None => {
                self.replicas = Some(1);
                1
            },
        }
    }

    /// The name of the request. A request that has none is given `fallback`
    /// from now on.
    pub fn name_or(&mut self, fallback: String) -> (r: &String)
        ensures
            *r == (match old(self).name {
                Some(n) => n,
                None => fallback,
            }),
            *final(self) == (InstanceDefinition { name: Some(*r), ..*old(self) }),
    {
        if self.name.is_none() {
            self.name = Some(fallback);
        }
        self.name.as_ref().unwrap()
    }

    /// The name of the request. A request that has none is given a random
    /// name from now on.
    pub fn get_name(&mut self) -> (r: &String)
        ensures
            old(self).name matches Some(n) ==> *r == n,
            *final(self) == (InstanceDefinition { name: Some(*r), ..*old(self) }),
    {
        let fallback = random_name();
        self.name_or(fallback)
    }
}

/// A tenant of the cluster.
#[derive(Debug)]
pub struct Tenant {
    pub id: usize,
    pub name: String,
}

impl Tenant {
    pub fn new(id: usize, name: String) -> (r: Tenant)
        ensures
            r == (Tenant { id, name }),
    {
        Tenant { id, name }
    }

    /// `Id: <id>, Name: <name>`.
    pub fn describe(&self) -> (r: String)
        ensures
            r@ == "Id: "@ + decimal(self.id as nat) + ", Name: "@ + self.name@,
    {
        let mut out = String::from_str("Id: ");
        out.append(u64_to_string(self.id as u64).as_str());
        out.append(", Name: ");
        out.append(self.name.as_str());
        out
    }
}

} // verus!
