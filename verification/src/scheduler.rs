//! The scheduler's vocabulary: events, errors, workers and controllers.

use crate::definition::{WorkloadDefinition, WorkloadDefinitionView};
use crate::proto::{
    InstanceMetric, InstanceMetricView, InstanceScheduling, InstanceSchedulingView, WorkerMetric,
    WorkerMetricView, WorkloadRequestKind, WorkloadScheduling,
};
use vstd::prelude::*;
use vstd::string::*;

verus! {

/// Stands for the sending half of an outbound queue. The queue itself lives
/// with the caller; the scheduler keeps its number and whether it was last
/// seen closed.
#[derive(Clone, Copy, Debug, PartialEq, Eq, Structural)]
pub struct Channel {
    pub id: u64,
    pub closed: bool,
}

impl Channel {
    /// A channel that is open.
    pub fn new(id: u64) -> (r: Channel)
        ensures
            r == (Channel { id, closed: false }),
    {
        Channel { id, closed: false }
    }

    pub fn is_closed(&self) -> (r: bool)
        ensures
            r == self.closed,
    {
        self.closed
    }
}

/// What can go wrong in the scheduler.
#[derive(Debug)]
pub enum SchedulerError {
    /// The counter of worker ids is used up.
    ClusterFull,
    /// A worker asked for a hostname whose channel is still open, or gave
    /// no hostname: the hostname it gave.
    RegistrationFailed(String),
    /// A send found its channel closed.
    ClientDisconnected,
    /// The state manager's loop ended without a shutdown.
    StateManagerFailed,
    /// A destroy request names a workload that is not there.
    WorkloadDontExists(String),
    /// A create request names a workload that is being destroyed.
    CannotDoubleReplicas,
    /// A message could not be read.
    Transport,
}

/// An error of the scheduler as a value.
pub enum SchedulerErrorView {
    ClusterFull,
    RegistrationFailed(Seq<char>),
    ClientDisconnected,
    StateManagerFailed,
    WorkloadDontExists(Seq<char>),
    CannotDoubleReplicas,
    Transport,
}

impl View for SchedulerError {
    type V = SchedulerErrorView;

    open spec fn view(&self) -> SchedulerErrorView {
        match self {
            SchedulerError::ClusterFull => SchedulerErrorView::ClusterFull,
            SchedulerError::RegistrationFailed(h) => SchedulerErrorView::RegistrationFailed(h@),
            SchedulerError::ClientDisconnected => SchedulerErrorView::ClientDisconnected,
            SchedulerError::StateManagerFailed => SchedulerErrorView::StateManagerFailed,
            SchedulerError::WorkloadDontExists(id) => SchedulerErrorView::WorkloadDontExists(id@),
            SchedulerError::CannotDoubleReplicas => SchedulerErrorView::CannotDoubleReplicas,
            SchedulerError::Transport => SchedulerErrorView::Transport,
        }
    }
}

/// Whether a worker takes new instances.
#[derive(Debug, PartialEq, Eq, Structural)]
pub enum WorkerState {
    Ready,
    NotReady,
}

impl Clone for WorkerState {
    fn clone(&self) -> (r: Self)
        ensures
            r == *self,
    {
        match self {
            WorkerState::Ready => WorkerState::Ready,
            WorkerState::NotReady => WorkerState::NotReady,
        }
    }
}

impl Copy for WorkerState {

}

impl WorkerState {
    /// The state in words: `Ready` or `Not Ready`.
    pub fn label(&self) -> (r: String)
        ensures
            r@ == (if *self == WorkerState::Ready {
                "Ready"@
            } else {
                "Not Ready"@
            }),
    {
        match self {
            WorkerState::Ready => String::from_str("Ready"),
            WorkerState::NotReady => String::from_str("Not Ready"),
        }
    }
}

/// The metrics document that a worker last sent, once it was read
/// successfully.
#[derive(Debug)]
pub struct Metrics {
    pub document: String,
}

/// A subscription of a controller to status updates.
#[derive(Debug)]
pub struct Controller {
    pub channel: Channel,
    pub addr: String,
}

/// A subscription as a value.
pub struct ControllerView {
    pub channel: Channel,
    pub addr: Seq<char>,
}

impl View for Controller {
    type V = ControllerView;

    open spec fn view(&self) -> ControllerView {
        ControllerView { channel: self.channel, addr: self.addr@ }
    }
}

impl Controller {
    pub fn new(channel: Channel, addr: String) -> (r: Controller)
        ensures
            r@ == (ControllerView { channel, addr: addr@ }),
    {
        Controller { channel, addr }
    }
}

/// A worker node, as the registry knows it.
#[derive(Debug)]
pub struct Worker {
    /// Number of the worker, only used to bound the population.
    pub id: u8,
    /// Queue of instance commands toward the worker.
    pub channel: Channel,
    /// Where the worker connected from.
    pub addr: String,
    /// The worker's name, its key in the registry.
    pub hostname: String,
    pub state: WorkerState,
    pub metric: Option<Metrics>,
}

/// A worker as a value.
pub struct WorkerView {
    pub id: u8,
    pub channel: Channel,
    pub addr: Seq<char>,
    pub hostname: Seq<char>,
    pub state: WorkerState,
    pub metric: Option<Seq<char>>,
}

impl View for Worker {
    type V = WorkerView;

    open spec fn view(&self) -> WorkerView {
        WorkerView {
            id: self.id,
            channel: self.channel,
            addr: self.addr@,
            hostname: self.hostname@,
            state: self.state,
            metric: match self.metric {
                Some(m) => Some(m.document@),
                None => None,
            },
        }
    }
}

impl WorkerView {
    /// Ready exactly when the channel is open.
    pub open spec fn settled(self) -> WorkerView {
        WorkerView {
            state: if self.channel.closed {
                WorkerState::NotReady
            } else {
                WorkerState::Ready
            },
            ..self
        }
    }

    /// A worker that takes new instances has an open channel.
    pub open spec fn consistent(self) -> bool {
        self.state == WorkerState::Ready ==> !self.channel.closed
    }
}

impl Worker {
    /// A new worker is not ready and has no metrics yet.
    pub fn new(id: u8, channel: Channel, addr: String, hostname: String) -> (r: Worker)
        ensures
            r@ == (WorkerView {
                id,
                channel,
                addr: addr@,
                hostname: hostname@,
                state: WorkerState::NotReady,
                metric: None,
            }),
    {
        Worker { id, channel, addr, hostname, state: WorkerState::NotReady, metric: None }
    }

    /// Swaps the channel in place and looks at it: the worker is ready if the
    /// new channel is open, and not ready if it is closed.
    pub fn set_channel(&mut self, sender: Channel)
        ensures
            final(self)@ == (WorkerView { channel: sender, ..old(self)@ }).settled(),
    {
        self.channel = sender;
        self.update_state();
    }

    pub fn set_state(&mut self, state: WorkerState)
        ensures
            final(self)@ == (WorkerView { state, ..old(self)@ }),
    {
        self.state = state;
    }

    pub fn get_state(&self) -> (r: &WorkerState)
        ensures
            *r == self@.state,
    {
        &self.state
    }

    /// Stores the metrics and looks at the channel: the worker is ready if the
    /// channel is open, and not ready if it is closed.
    pub fn set_metrics(&mut self, metric: Metrics)
        ensures
            final(self)@ == (WorkerView { metric: Some(metric.document@), ..old(self)@ }).settled(),
    {
        self.metric = Some(metric);
        self.update_state();
    }

    pub fn get_metrics(&self) -> (r: &Option<Metrics>)
        ensures
            *r == self.metric,
    {
        &self.metric
    }

    /// Records that the channel was found closed: the worker is not ready.
    pub fn channel_closed(&mut self)
        ensures
            final(self)@ == (WorkerView {
                channel: Channel { closed: true, ..old(self)@.channel },
                state: WorkerState::NotReady,
                ..old(self)@
            }),
    {
        self.channel.closed = true;
        self.state = WorkerState::NotReady;
    }

    fn update_state(&mut self)
        ensures
            final(self)@ == old(self)@.settled(),
    {
        match self.state {
            WorkerState::Ready => {
                if self.channel.is_closed() {
                    self.set_state(WorkerState::NotReady);
                }
            },
            WorkerState::NotReady => {
                if !self.channel.is_closed() {
                    self.set_state(WorkerState::Ready);
                }
            },
        }
    }

    pub fn is_ready(&self) -> (r: bool)
        ensures
            r == (self@.state == WorkerState::Ready),
    {
        match self.state {
            WorkerState::Ready => true,
            WorkerState::NotReady => false,
        }
    }
}

/// A workload as it came over the wire, and the id of the worker that it
/// was given to, once it was given to one.
#[derive(Debug)]
pub struct WorkloadInstance {
    pub worker_id: Option<u8>,
    pub workload: WorkloadScheduling,
}

impl WorkloadInstance {
    /// The workload, given to `worker` if there is one.
    pub fn new(workload: WorkloadScheduling, worker: Option<Worker>) -> (r: WorkloadInstance)
        ensures
            r.workload == workload,
            r.worker_id == (match worker {
                Some(w) => Some(w.id),
                None => None,
            }),
    {
        WorkloadInstance {
            workload,
            worker_id: match worker {
                Some(worker) => Some(worker.id),
                _ => None,
            },
        }
    }

    pub fn set_worker(&mut self, id: u8)
        ensures
            final(self).worker_id == Some(id),
            final(self).workload == old(self).workload,
    {
        self.worker_id = Some(id);
    }

    pub fn has_worker(&self) -> (r: bool)
        ensures
            r == (self.worker_id is Some),
    {
        self.worker_id.is_some()
    }

    pub fn get_worker_id(&self) -> (r: Option<u8>)
        ensures
            r == self.worker_id,
    {
        self.worker_id
    }

    pub fn get_workload_id(&self) -> (r: String)
        ensures
            r@ == self.workload.workload_id@,
    {
        self.workload.workload_id.clone()
    }

    pub fn get_workload(self) -> (r: WorkloadScheduling)
        ensures
            r == self.workload,
    {
        self.workload
    }
}

/// A request of a controller, read from the wire. `document` is the workload
/// document as it came; `definition` is what was read from it.
#[derive(Debug)]
pub struct WorkloadRequest {
    pub workload_id: String,
    pub definition: WorkloadDefinition,
    pub document: String,
    pub action: WorkloadRequestKind,
}

/// A request as a value.
pub struct WorkloadRequestView {
    pub workload_id: Seq<char>,
    pub definition: WorkloadDefinitionView,
    pub document: Seq<char>,
    pub action: WorkloadRequestKind,
}

impl View for WorkloadRequest {
    type V = WorkloadRequestView;

    open spec fn view(&self) -> WorkloadRequestView {
        WorkloadRequestView {
            workload_id: self.workload_id@,
            definition: self.definition@,
            document: self.document@,
            action: self.action,
        }
    }
}

impl WorkloadRequest {
    /// Builds the request from the wire message and from what reading its
    /// document gave: `None` where the document could not be read, which is
    /// the one way to fail. The document is kept as it came.
    pub fn new(workload: WorkloadScheduling, definition: Option<WorkloadDefinition>) -> (r: Result<
        WorkloadRequest,
        SchedulerError,
    >)
        ensures
            definition is None ==> r is Err && r->Err_0@ == SchedulerErrorView::Transport,
            definition matches Some(d) ==> r is Ok && r->Ok_0@ == (WorkloadRequestView {
                workload_id: workload.workload_id@,
                definition: d@,
                document: workload.definition@,
                action: WorkloadRequestKind::of_code(workload.request as int),
            }),
    {
        match definition {
            None => Err(SchedulerError::Transport),
            Some(d) => Ok(
                WorkloadRequest {
                    workload_id: workload.workload_id,
                    definition: d,
                    document: workload.definition,
                    action: WorkloadRequestKind::from_i32(workload.request),
                },
            ),
        }
    }
}

/// Everything the scheduler's loop reacts to.
#[derive(Debug)]
pub enum Event {
    /// A worker registers: its channel, its address, its hostname.
    Register(Channel, String, String),
    /// A controller asks for a workload to be created or destroyed.
    ScheduleRequest(WorkloadRequest),
    /// A controller subscribes to status updates: its channel, its address.
    Subscribe(Channel, String),
    /// A worker reports on itself. The first string is its hostname; the
    /// metrics are there if the report's document could be read.
    WorkerMetric(String, WorkerMetric, Option<Metrics>),
    /// A report on one instance. The first string names the sender.
    InstanceMetric(String, InstanceMetric),
    /// The state manager wants a command delivered to the worker of that
    /// hostname.
    Schedule(String, InstanceScheduling),
    /// Stop.
    Shutdown,
}

/// An event as a value.
pub enum EventView {
    Register(Channel, Seq<char>, Seq<char>),
    ScheduleRequest(WorkloadRequestView),
    Subscribe(Channel, Seq<char>),
    WorkerMetric(Seq<char>, WorkerMetricView, Option<Seq<char>>),
    InstanceMetric(Seq<char>, InstanceMetricView),
    Schedule(Seq<char>, InstanceSchedulingView),
    Shutdown,
}

impl View for Event {
    type V = EventView;

    open spec fn view(&self) -> EventView {
        match self {
            Event::Register(c, a, h) => EventView::Register(*c, a@, h@),
            Event::ScheduleRequest(r) => EventView::ScheduleRequest(r@),
            Event::Subscribe(c, a) => EventView::Subscribe(*c, a@),
            Event::WorkerMetric(h, m, d) => EventView::WorkerMetric(
                h@,
                m@,
                match d {
                    Some(x) => Some(x.document@),
                    None => None,
                },
            ),
            Event::InstanceMetric(h, m) => EventView::InstanceMetric(h@, m@),
            Event::Schedule(h, s) => EventView::Schedule(h@, s@),
            Event::Shutdown => EventView::Shutdown,
        }
    }
}

/// The views of the workers, in order.
pub open spec fn worker_views(workers: Seq<Worker>) -> Seq<WorkerView> {
    workers.map_values(|w: Worker| w@)
}

/// The views of a run of events, in order.
pub open spec fn event_views(events: Seq<Event>) -> Seq<EventView> {
    events.map_values(|e: Event| e@)
}

} // verus!
