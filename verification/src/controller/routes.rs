//! What the HTTP routes answer. Reading the request and the store is the
//! caller's part; it hands in what it found.

use crate::controller::api::{ApiChannel, CRUD};
use crate::controller::types::{random_name, InstanceDefinition};
use crate::text::{decimal, u64_to_string};
use vstd::prelude::*;
use vstd::string::*;

verus! {

/// An answer: a status code, a body, and whether the body is JSON.
#[derive(Debug)]
pub struct Answer {
    pub status: u16,
    pub body: String,
    pub json: bool,
}

/// The key of a workload in the store: `/workload/<kind>/<namespace>/<name>`.
pub fn workload_key(kind: &str, namespace: &str, name: &str) -> (r: String)
    ensures
        r@ == "/workload/"@ + kind@ + "/"@ + namespace@ + "/"@ + name@,
{
    let mut out = String::from_str("/workload/");
    out.append(kind);
    out.append("/");
    out.append(namespace);
    out.append("/");
    out.append(name);
    out
}

/// The key of an instance in the store: `/instance/<kind>/default/<name>`.
pub fn instance_key(kind: &str, name: &str) -> (r: String)
    ensures
        r@ == "/instance/"@ + kind@ + "/default/"@ + name@,
{
    let mut out = String::from_str("/instance/");
    out.append(kind);
    out.append("/default/");
    out.append(name);
    out
}

/// The answer of a route that is not there yet: 204, nothing in the body.
pub fn not_implemented() -> (r: Answer)
    ensures
        r.status == 204,
        r.body@ == Seq::<char>::empty(),
        !r.json,
{
    Answer { status: 204, body: String::new(), json: false }
}

/// How many instances a request for instances creates, and what it is
/// answered with. With no such workload: none, 404. With a name that is
/// taken: none, 404. With a name and more than one replica: none, 400.
/// Otherwise: as many as the request has replicas, one if it names none, 201.
pub open spec fn instances_to_create(
    name: Option<String>,
    replicas: Option<usize>,
    workload_found: bool,
    name_taken: bool,
) -> (usize, u16) {
    let wanted = match replicas {
        Some(n) => n,
        None => 1,
    };
    if !workload_found {
        (0, 404)
    } else if name is Some && name_taken {
        (0, 404)
    } else if name is Some && wanted > 1 {
        (0, 400)
    } else {
        (wanted, 201)
    }
}

/// Answers a request for instances of a workload. `workload_found` says
/// whether the store has the workload, `name_taken` whether it has the
/// request's name already. Returns how many instances are to be created and
/// the answer; see `instances_to_create`.
pub fn create_instance(instance: &mut InstanceDefinition, workload_found: bool, name_taken: bool) -> (r: (
    usize,
    Answer,
))
    ensures
        (r.0, r.1.status) == instances_to_create(
            old(instance).name,
            old(instance).replicas,
            workload_found,
            name_taken,
        ),
        !r.1.json,
        r.1.status == 404 && !workload_found ==> r.1.body@ == "Workload id "@ + decimal(
            old(instance).workload_id as nat,
        ) + " not found"@,
        r.1.status == 404 && workload_found ==> r.1.body@ == "Name already used"@,
        r.1.status == 400 ==> r.1.body@ == "Cannot use name with multiple replicas"@,
        r.1.status == 201 ==> r.1.body@ == Seq::<char>::empty(),
        final(instance).name == old(instance).name,
        final(instance).workload_id == old(instance).workload_id,
{
    if !workload_found {
        let mut body = String::from_str("Workload id ");
        body.append(u64_to_string(instance.workload_id as u64).as_str());
        body.append(" not found");
        return (0, Answer { status: 404, body, json: false });
    }
    if instance.name.is_some() {
        if name_taken {
            return (
                0,
                Answer { status: 404, body: String::from_str("Name already used"), json: false },
            );
        }
        if instance.get_replicas() > 1 {
            return (
                0,
                Answer {
                    status: 400,
                    body: String::from_str("Cannot use name with multiple replicas"),
                    json: false,
                },
            );
        }
    }
    let wanted = instance.get_replicas();
    (wanted, Answer { status: 201, body: String::new(), json: false })
}

/// Answers a request for a new workload. `name_taken` says whether the store
/// has the name already, `stored` whether the store took the workload. The
/// body of a success is the request's own `content`.
pub fn create_workload(content: String, name_taken: bool, stored: bool) -> (r: Answer)
    ensures
        name_taken ==> r.status == 404 && r.body@ == "Name already used"@ && !r.json,
        !name_taken && stored ==> r.status == 200 && r.body == content && r.json,
        !name_taken && !stored ==> r.status == 500 && r.body@ == "Cannot create workload"@
            && !r.json,
{
    if name_taken {
        Answer { status: 404, body: String::from_str("Name already used"), json: false }
    } else if stored {
        Answer { status: 200, body: content, json: true }
    } else {
        Answer { status: 500, body: String::from_str("Cannot create workload"), json: false }
    }
}

/// Answers a request to delete the record `id` of the sort `what`
/// (`Workload`, `Tenant`): 204 if the store had it, 404 and
/// `<what> id <id> not found` if not.
pub fn delete(what: &str, id: usize, found: bool) -> (r: Answer)
    ensures
        found ==> r.status == 204 && r.body@ == Seq::<char>::empty(),
        !found ==> r.status == 404 && r.body@ == what@ + " id "@ + decimal(id as nat)
            + " not found"@,
        !r.json,
{
    if found {
        Answer { status: 204, body: String::new(), json: false }
    } else {
        let mut body = String::from_str(what);
        body.append(" id ");
        body.append(u64_to_string(id as u64).as_str());
        body.append(" not found");
        Answer { status: 404, body, json: false }
    }
}

/// Answers a request for all records of a sort: 200 and the records as
/// JSON if the store gave them, 500 and `failure` if not.
pub fn get(found: Option<String>, failure: &str) -> (r: Answer)
    ensures
        found matches Some(json) ==> r.status == 200 && r.body == json && r.json,
        found is None ==> r.status == 500 && r.body@ == failure@ && !r.json,
{
    match found {
        Some(json) => Answer { status: 200, body: json, json: true },
        None => Answer { status: 500, body: String::from_str(failure), json: false },
    }
}

/// The key under which a new instance of a workload of that kind is stored:
/// `/instance/<kind>/default/<name>`, with the name that was asked for, or
/// with a random name if none was.
pub fn send_create_instance(kind: &str, name: &Option<String>) -> (r: String)
    ensures
        name matches Some(n) ==> r@ == "/instance/"@ + kind@ + "/default/"@ + n@,
        name is None ==> exists|drawn: Seq<char>| r@ == "/instance/"@ + kind@ + "/default/"@ + drawn,
{
    match name {
        Some(n) => instance_key(kind, n.as_str()),
        None => {
            let drawn = random_name();
            instance_key(kind, drawn.as_str())
        },
    }
}

/// The message that tells the internal half of an instance that was stored
/// under `instance_id`.
pub fn instance_created(workload_id: usize, instance_id: usize, definition: String) -> (r: ApiChannel)
    ensures
        r.action == CRUD::Create,
        r.workload_id == workload_id,
        r.instance_id == Some(instance_id),
        r.workload_definition == Some(definition),
{
    ApiChannel {
        action: CRUD::Create,
        workload_id,
        instance_id: Some(instance_id),
        workload_definition: Some(definition),
    }
}

} // verus!