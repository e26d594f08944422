//! Messages exchanged between the controller, the scheduler and the workers.

use vstd::prelude::*;

verus! {

/// Status of a workload or of one of its instances.
#[derive(Debug, PartialEq, Eq, Structural)]
pub enum ResourceStatus {
    Unknown,
    Pending,
    Running,
    Failed,
    Terminated,
    Destroying,
}

impl Clone for ResourceStatus {
    fn clone(&self) -> (r: Self)
        ensures
            r == *self,
    {
        match self {
            ResourceStatus::Unknown => ResourceStatus::Unknown,
            ResourceStatus::Pending => ResourceStatus::Pending,
            ResourceStatus::Running => ResourceStatus::Running,
            ResourceStatus::Failed => ResourceStatus::Failed,
            ResourceStatus::Terminated => ResourceStatus::Terminated,
            ResourceStatus::Destroying => ResourceStatus::Destroying,
        }
    }
}

impl Copy for ResourceStatus {

}

impl ResourceStatus {
    /// The status that a number on the wire stands for.
    pub open spec fn of_code(code: int) -> Option<ResourceStatus> {
        if code == 0 {
            Some(ResourceStatus::Unknown)
        } else if code == 1 {
            Some(ResourceStatus::Pending)
        } else if code == 2 {
            Some(ResourceStatus::Running)
        } else if code == 3 {
            Some(ResourceStatus::Failed)
        } else if code == 4 {
            Some(ResourceStatus::Terminated)
        } else if code == 5 {
            Some(ResourceStatus::Destroying)
        } else {
            None
        }
    }

    /// The number that stands for this status on the wire.
    pub open spec fn code(self) -> int {
        match self {
            ResourceStatus::Unknown => 0,
            ResourceStatus::Pending => 1,
            ResourceStatus::Running => 2,
            ResourceStatus::Failed => 3,
            ResourceStatus::Terminated => 4,
            ResourceStatus::Destroying => 5,
        }
    }

    pub fn from_i32(value: i32) -> (r: Option<ResourceStatus>)
        ensures
            r == Self::of_code(value as int),
    {
        if value == 0 {
            Some(ResourceStatus::Unknown)
        } else if value == 1 {
            Some(ResourceStatus::Pending)
        } else if value == 2 {
            Some(ResourceStatus::Running)
        } else if value == 3 {
            Some(ResourceStatus::Failed)
        } else if value == 4 {
            Some(ResourceStatus::Terminated)
        } else if value == 5 {
            Some(ResourceStatus::Destroying)
        } else {
            None
        }
    }

    pub fn to_i32(self) -> (r: i32)
        ensures
            r == self.code(),
            Self::of_code(r as int) == Some(self),
    {
        match self {
            ResourceStatus::Unknown => 0,
            ResourceStatus::Pending => 1,
            ResourceStatus::Running => 2,
            ResourceStatus::Failed => 3,
            ResourceStatus::Terminated => 4,
            ResourceStatus::Destroying => 5,
        }
    }
}

/// What a controller asks for a workload.
#[derive(Debug, PartialEq, Eq, Structural)]
pub enum WorkloadRequestKind {
    Create,
    Destroy,
}

impl Clone for WorkloadRequestKind {
    fn clone(&self) -> (r: Self)
        ensures
            r == *self,
    {
        match self {
            WorkloadRequestKind::Create => WorkloadRequestKind::Create,
            WorkloadRequestKind::Destroy => WorkloadRequestKind::Destroy,
        }
    }
}

impl Copy for WorkloadRequestKind {

}

impl WorkloadRequestKind {
    /// On the wire 1 asks for destruction; every other number is a creation.
    pub open spec fn of_code(code: int) -> WorkloadRequestKind {
        if code == 1 {
            WorkloadRequestKind::Destroy
        } else {
            WorkloadRequestKind::Create
        }
    }

    pub fn from_i32(value: i32) -> (r: WorkloadRequestKind)
        ensures
            r == Self::of_code(value as int),
    {
        if value == 1 {
            WorkloadRequestKind::Destroy
        } else {
            WorkloadRequestKind::Create
        }
    }

    pub fn to_i32(self) -> (r: i32)
        ensures
            r == (if self == WorkloadRequestKind::Destroy { 1int } else { 0int }),
            Self::of_code(r as int) == self,
    {
        match self {
            WorkloadRequestKind::Create => 0,
            WorkloadRequestKind::Destroy => 1,
        }
    }
}

/// Controller to scheduler: a workload to create or destroy. `definition` is
/// the workload document as the controller wrote it.
#[derive(Debug)]
pub struct WorkloadScheduling {
    pub workload_id: String,
    pub definition: String,
    pub request: i32,
}

/// Worker to scheduler: first message of a worker.
#[derive(Debug)]
pub struct WorkerRegistration {
    pub hostname: String,
}

/// Scheduler to worker: create or destroy one instance.
#[derive(Debug)]
pub struct InstanceScheduling {
    pub instance_id: String,
    pub action: WorkloadRequestKind,
    pub definition: String,
}

/// An instance command as a value.
pub struct InstanceSchedulingView {
    pub instance_id: Seq<char>,
    pub action: WorkloadRequestKind,
    pub definition: Seq<char>,
}

impl View for InstanceScheduling {
    type V = InstanceSchedulingView;

    open spec fn view(&self) -> InstanceSchedulingView {
        InstanceSchedulingView {
            instance_id: self.instance_id@,
            action: self.action,
            definition: self.definition@,
        }
    }
}

impl Clone for InstanceScheduling {
    fn clone(&self) -> (r: Self)
        ensures
            r == *self,
    {
        InstanceScheduling {
            instance_id: self.instance_id.clone(),
            action: self.action,
            definition: self.definition.clone(),
        }
    }
}

/// Status of one instance, as a worker or the scheduler reports it.
#[derive(Debug)]
pub struct InstanceMetric {
    pub instance_id: String,
    pub status: ResourceStatus,
    pub metrics: String,
}

/// A report on an instance as a value.
pub struct InstanceMetricView {
    pub instance_id: Seq<char>,
    pub status: ResourceStatus,
    pub metrics: Seq<char>,
}

impl View for InstanceMetric {
    type V = InstanceMetricView;

    open spec fn view(&self) -> InstanceMetricView {
        InstanceMetricView {
            instance_id: self.instance_id@,
            status: self.status,
            metrics: self.metrics@,
        }
    }
}

impl Clone for InstanceMetric {
    fn clone(&self) -> (r: Self)
        ensures
            r == *self,
    {
        InstanceMetric {
            instance_id: self.instance_id.clone(),
            status: self.status,
            metrics: self.metrics.clone(),
        }
    }
}

/// Status of a worker node. `metrics` is the node's metrics document.
#[derive(Debug)]
pub struct WorkerMetric {
    pub status: ResourceStatus,
    pub metrics: String,
}

/// A report on a worker as a value.
pub struct WorkerMetricView {
    pub status: ResourceStatus,
    pub metrics: Seq<char>,
}

impl View for WorkerMetric {
    type V = WorkerMetricView;

    open spec fn view(&self) -> WorkerMetricView {
        WorkerMetricView { status: self.status, metrics: self.metrics@ }
    }
}

impl Clone for WorkerMetric {
    fn clone(&self) -> (r: Self)
        ensures
            r == *self,
    {
        WorkerMetric { status: self.status, metrics: self.metrics.clone() }
    }
}

/// The two things a status update can carry.
#[derive(Debug)]
pub enum StatusPayload {
    Instance(InstanceMetric),
    Worker(WorkerMetric),
}

/// The payload of a status update as a value.
pub enum StatusPayloadView {
    Instance(InstanceMetricView),
    Worker(WorkerMetricView),
}

impl View for StatusPayload {
    type V = StatusPayloadView;

    open spec fn view(&self) -> StatusPayloadView {
        match self {
            StatusPayload::Instance(m) => StatusPayloadView::Instance(m@),
            StatusPayload::Worker(m) => StatusPayloadView::Worker(m@),
        }
    }
}

impl Clone for StatusPayload {
    fn clone(&self) -> (r: Self)
        ensures
            r == *self,
    {
        match self {
            StatusPayload::Instance(m) => StatusPayload::Instance(m.clone()),
            StatusPayload::Worker(m) => StatusPayload::Worker(m.clone()),
        }
    }
}

/// A status update, on its way from a worker to the scheduler or from the
/// scheduler to a controller. `identifier` names the sender.
#[derive(Debug)]
pub struct WorkerStatus {
    pub identifier: String,
    pub payload: StatusPayload,
}

/// A status update as a value.
pub struct WorkerStatusView {
    pub identifier: Seq<char>,
    pub payload: StatusPayloadView,
}

impl View for WorkerStatus {
    type V = WorkerStatusView;

    open spec fn view(&self) -> WorkerStatusView {
        WorkerStatusView { identifier: self.identifier@, payload: self.payload@ }
    }
}

impl Clone for WorkerStatus {
    fn clone(&self) -> (r: Self)
        ensures
            r == *self,
    {
        WorkerStatus { identifier: self.identifier.clone(), payload: self.payload.clone() }
    }
}

} // verus!
