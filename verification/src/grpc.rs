//! The scheduler's RPC surface: what each call is answered with and which
//! event it puts on the scheduler's queue. The transport is the caller's
//! part.

use crate::definition::WorkloadDefinition;
use crate::proto::{
    StatusPayload, WorkerRegistration, WorkerStatus, WorkloadRequestKind, WorkloadScheduling,
};
use crate::scheduler::{
    Channel, Event, EventView, Metrics, SchedulerError, SchedulerErrorView, WorkloadRequest,
    WorkloadRequestView,
};
use vstd::prelude::*;
use vstd::string::*;

verus! {

/// The status codes that the scheduler answers with.
#[derive(Debug, PartialEq, Eq, Structural)]
pub enum Code {
    InvalidArgument,
    FailedPrecondition,
    AlreadyExists,
    ResourceExhausted,
    NotFound,
    Unavailable,
    Internal,
}

/// The answer to a call that failed.
#[derive(Debug)]
pub struct Status {
    pub code: Code,
    pub message: String,
}

/// The address that stands for a peer whose address is not known.
pub const UNKNOWN_PEER: &'static str = "0.0.0.0:0";

/// The address of the peer, or `0.0.0.0:0` if it is not known.
pub fn remote_addr(addr: Option<String>) -> (r: String)
    ensures
        r@ == (match addr {
            Some(a) => a@,
            None => UNKNOWN_PEER@,
        }),
{
    match addr {
        Some(a) => a,
        None => String::from_str(UNKNOWN_PEER),
    }
}

/// A worker registers. `channel` stands for the stream that answers the
/// call. Without a hostname the call fails as a failed precondition;
/// otherwise the registration goes on the queue.
pub fn register(registration: WorkerRegistration, channel: Channel, addr: Option<String>) -> (r:
    Result<Event, Status>)
    ensures
        registration.hostname@.len() == 0 ==> r is Err && r->Err_0.code == Code::FailedPrecondition
            && r->Err_0.message@ == "No hostname specified"@,
        registration.hostname@.len() > 0 ==> r is Ok && r->Ok_0@ == EventView::Register(
            channel,
            match addr {
                Some(a) => a@,
                None => UNKNOWN_PEER@,
            },
            registration.hostname@,
        ),
{
    if registration.hostname.as_str().is_empty() {
        Err(
            Status {
                code: Code::FailedPrecondition,
                message: String::from_str("No hostname specified"),
            },
        )
    } else {
        Ok(Event::Register(channel, remote_addr(addr), registration.hostname))
    }
}

/// A controller asks for a workload. `definition` is what reading the
/// workload's document gave, `None` if it could not be read: then the call
/// fails as an invalid argument. Otherwise the request goes on the queue,
/// with the document as it came.
pub fn schedule_instance(workload: WorkloadScheduling, definition: Option<WorkloadDefinition>) -> (r:
    Result<Event, Status>)
    ensures
        definition is None ==> r is Err && r->Err_0.code == Code::InvalidArgument,
        definition matches Some(d) ==> r is Ok && r->Ok_0@ == EventView::ScheduleRequest(
            WorkloadRequestView {
                workload_id: workload.workload_id@,
                definition: d@,
                document: workload.definition@,
                action: WorkloadRequestKind::of_code(workload.request as int),
            },
        ),
{
    match WorkloadRequest::new(workload, definition) {
        Ok(request) => Ok(Event::ScheduleRequest(request)),
        Err(_) => Err(
            Status {
                code: Code::InvalidArgument,
                message: String::from_str("The workload definition cannot be read"),
            },
        ),
    }
}

/// A controller subscribes to status updates. `channel` stands for the
/// stream that answers the call.
pub fn get_status_updates(channel: Channel, addr: Option<String>) -> (r: Event)
    ensures
        r@ == EventView::Subscribe(
            channel,
            match addr {
                Some(a) => a@,
                None => UNKNOWN_PEER@,
            },
        ),
{
    Event::Subscribe(channel, remote_addr(addr))
}

/// One status update of a worker's stream, as an event: a report on an
/// instance or on the worker itself, under the name that the update carries.
/// `metrics` is what reading the document of a worker's report gave, `None`
/// if it could not be read; it plays no part in a report on an instance.
pub fn send_status_updates(status: WorkerStatus, metrics: Option<Metrics>) -> (r: Event)
    ensures
        r@ == (match status.payload {
            StatusPayload::Instance(m) => EventView::InstanceMetric(status.identifier@, m@),
            StatusPayload::Worker(m) => EventView::WorkerMetric(
                status.identifier@,
                m@,
                match metrics {
                    Some(x) => Some(x.document@),
                    None => None,
                },
            ),
        }),
{
    match status.payload {
        StatusPayload::Instance(m) => Event::InstanceMetric(status.identifier, m),
        StatusPayload::Worker(m) => Event::WorkerMetric(status.identifier, m, metrics),
    }
}

/// The answer to a call whose event the queue could not take.
pub fn unavailable() -> (r: Status)
    ensures
        r.code == Code::Unavailable,
{
    Status { code: Code::Unavailable, message: String::from_str("The scheduler is busy") }
}

/// The code under which an error of the scheduler is answered. A
/// registration that failed for want of a hostname is a failed precondition;
/// one that failed under a hostname is answered as already existing.
pub open spec fn code_of(error: SchedulerErrorView) -> Code {
    match error {
        SchedulerErrorView::ClusterFull => Code::ResourceExhausted,
        SchedulerErrorView::RegistrationFailed(hostname) => if hostname.len() == 0 {
            Code::FailedPrecondition
        } else {
            Code::AlreadyExists
        },
        SchedulerErrorView::ClientDisconnected => Code::Unavailable,
        SchedulerErrorView::StateManagerFailed => Code::Internal,
        SchedulerErrorView::WorkloadDontExists(_) => Code::NotFound,
        SchedulerErrorView::CannotDoubleReplicas => Code::FailedPrecondition,
        SchedulerErrorView::Transport => Code::InvalidArgument,
    }
}

/// The words that tell a peer why its registration failed.
pub open spec fn registration_message(hostname: Seq<char>) -> Seq<char> {
    if hostname.len() == 0 {
        "No hostname specified"@
    } else {
        "Worker with this hostname already exist"@
    }
}

/// The answer that tells a peer of an error of the scheduler, under the code
/// of `code_of`. A registration that failed is answered in the words of
/// `registration_message`.
pub fn status_of(error: &SchedulerError) -> (r: Status)
    ensures
        r.code == code_of(error@),
        error@ matches SchedulerErrorView::RegistrationFailed(hostname) ==> r.message@
            == registration_message(hostname),
{
    match error {
        SchedulerError::ClusterFull => Status {
            code: Code::ResourceExhausted,
            message: String::from_str("The cluster is full"),
        },
        SchedulerError::RegistrationFailed(hostname) => {
            if hostname.as_str().is_empty() {
                Status {
                    code: Code::FailedPrecondition,
                    message: String::from_str("No hostname specified"),
                }
            } else {
                Status {
                    code: Code::AlreadyExists,
                    message: String::from_str("Worker with this hostname already exist"),
                }
            }
        },
        SchedulerError::ClientDisconnected => Status {
            code: Code::Unavailable,
            message: String::from_str("The client is gone"),
        },
        SchedulerError::StateManagerFailed => Status {
            code: Code::Internal,
            message: String::from_str("The state manager failed"),
        },
        SchedulerError::WorkloadDontExists(_) => Status {
            code: Code::NotFound,
            message: String::from_str("The workload does not exist"),
        },
        SchedulerError::CannotDoubleReplicas => Status {
            code: Code::FailedPrecondition,
            message: String::from_str("The workload is being destroyed"),
        },
        SchedulerError::Transport => Status {
            code: Code::InvalidArgument,
            message: String::from_str("The message cannot be read"),
        },
    }
}

} // verus!
