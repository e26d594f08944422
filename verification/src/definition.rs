//! The workload document: what a controller declares and a worker runs.

use crate::random::{get_random_hash, is_alphanumeric};
use vstd::prelude::*;

verus! {

/// One environment variable of a container.
#[derive(Debug)]
pub struct EnvConfig {
    pub name: String,
    pub value: String,
}

/// An environment variable as a value.
pub struct EnvConfigView {
    pub name: Seq<char>,
    pub value: Seq<char>,
}

impl View for EnvConfig {
    type V = EnvConfigView;

    open spec fn view(&self) -> EnvConfigView {
        EnvConfigView { name: self.name@, value: self.value@ }
    }
}

/// One published port of a container. `port_type` is the document's `type`.
#[derive(Debug)]
pub struct PortConfig {
    pub port: u16,
    pub target_port: u16,
    pub protocol: Option<String>,
    pub port_type: String,
}

/// A published port as a value.
pub struct PortConfigView {
    pub port: u16,
    pub target_port: u16,
    pub protocol: Option<Seq<char>>,
    pub port_type: Seq<char>,
}

impl View for PortConfig {
    type V = PortConfigView;

    open spec fn view(&self) -> PortConfigView {
        PortConfigView {
            port: self.port,
            target_port: self.target_port,
            protocol: match self.protocol {
                Some(p) => Some(p@),
                None => None,
            },
            port_type: self.port_type@,
        }
    }
}

/// One container of a workload.
#[derive(Debug)]
pub struct Container {
    pub name: String,
    pub image: String,
    pub env: Option<Vec<EnvConfig>>,
    pub ports: Option<Vec<PortConfig>>,
}

/// A container as a value.
pub struct ContainerView {
    pub name: Seq<char>,
    pub image: Seq<char>,
    pub env: Option<Seq<EnvConfigView>>,
    pub ports: Option<Seq<PortConfigView>>,
}

impl View for Container {
    type V = ContainerView;

    open spec fn view(&self) -> ContainerView {
        ContainerView {
            name: self.name@,
            image: self.image@,
            env: match self.env {
                Some(e) => Some(e@.map_values(|x: EnvConfig| x@)),
                None => None,
            },
            ports: match self.ports {
                Some(p) => Some(p@.map_values(|x: PortConfig| x@)),
                None => None,
            },
        }
    }
}

impl Container {
    /// A name of five random letters and digits for one run of the
    /// container.
    pub fn get_uuid(&self) -> (r: String)
        ensures
            r@.len() == 5,
            forall|i: int| 0 <= i < r@.len() ==> is_alphanumeric(#[trigger] r@[i]),
    {
        get_random_hash(5)
    }
}

/// The containers of a workload.
#[derive(Debug)]
pub struct Spec {
    pub containers: Vec<Container>,
}

/// A workload as its document declares it.
#[derive(Debug)]
pub struct WorkloadDefinition {
    pub api_version: String,
    pub kind: String,
    pub name: String,
    pub replicas: Option<u16>,
    pub spec: Spec,
}

/// A workload document as a value.
pub struct WorkloadDefinitionView {
    pub api_version: Seq<char>,
    pub kind: Seq<char>,
    pub name: Seq<char>,
    pub replicas: Option<u16>,
    pub containers: Seq<ContainerView>,
}

impl View for WorkloadDefinition {
    type V = WorkloadDefinitionView;

    open spec fn view(&self) -> WorkloadDefinitionView {
        WorkloadDefinitionView {
            api_version: self.api_version@,
            kind: self.kind@,
            name: self.name@,
            replicas: self.replicas,
            containers: self.spec.containers@.map_values(|c: Container| c@),
        }
    }
}

impl WorkloadDefinitionView {
    /// The replica count that the document declares: 1 where it is silent.
    pub open spec fn declared_replicas(self) -> u16 {
        match self.replicas {
            Some(r) => r,
            None => 1,
        }
    }
}

impl WorkloadDefinition {
    /// The replica count that the document declares: 1 where it is silent.
    pub fn declared_replicas(&self) -> (r: u16)
        ensures
            r == self@.declared_replicas(),
    {
        match self.replicas {
            Some(r) => r,
            None => 1,
        }
    }

    /// A name of fifteen random letters and digits for one run of the
    /// workload.
    pub fn get_uuid(&self) -> (r: String)
        ensures
            r@.len() == 15,
            forall|i: int| 0 <= i < r@.len() ==> is_alphanumeric(#[trigger] r@[i]),
    {
        get_random_hash(15)
    }

    /// Hands out the containers, in the document's order.
    pub fn get_containers(self) -> (r: Vec<Container>)
        ensures
            r@.map_values(|c: Container| c@) == self@.containers,
    {
        self.spec.containers
    }
}

} // verus!
