//! The manager: the registry of workers, the subscriptions of controllers,
//! and the step that the scheduler's loop takes for each event.

pub mod lemmas;
pub mod model;

use crate::manager::lemmas::{
    lemma_close_keeps_ok, lemma_dispatch_frame, lemma_ingest_known, lemma_reconciled_known,
    lemma_request_known, lemma_worker_position, lemma_worker_push_keeps_ok,
    lemma_worker_update_keeps_ok,
};
use crate::manager::model::{
    action_views, apply, apply_actions, close_all, close_worker_channel, controller_views, deliver,
    disconnect, dispatch, drop_subscription, manager_ok, may_send, register, register_response,
    relay, send_failure, send_refusal, set_metric, worker_position, ActionView, ManagerView,
};
use crate::proto::{InstanceScheduling, StatusPayload, WorkerStatus, WorkloadRequestKind};
use crate::scheduler::{
    event_views, worker_views, Channel, Controller, ControllerView, Event, Metrics, SchedulerError,
    SchedulerErrorView, Worker, WorkerState, WorkerView,
};
use crate::state_manager::StateManager;
use crate::state_manager::model::{pass_events, reconciliation};
use vstd::prelude::*;

verus! {

/// What the caller is to do after a step.
#[derive(Debug)]
pub enum Action {
    /// Send the command on the channel of that number, which is the channel
    /// of the worker of that hostname.
    Schedule(u64, String, InstanceScheduling),
    /// Send the status update on the channel of that number, which belongs
    /// to a controller.
    Notify(u64, WorkerStatus),
    /// Answer the registration that came with the channel of that number
    /// with the error.
    Refuse(u64, SchedulerError),
    /// Tell whoever asked that the request failed.
    Failed(SchedulerError),
    /// Close the channel of that number.
    Close(u64),
}

impl View for Action {
    type V = ActionView;

    open spec fn view(&self) -> ActionView {
        match self {
            Action::Schedule(c, h, s) => ActionView::Schedule(*c, h@, s@),
            Action::Notify(c, s) => ActionView::Notify(*c, s@),
            Action::Refuse(c, e) => ActionView::Refuse(*c, e@),
            Action::Failed(e) => ActionView::Failed(e@),
            Action::Close(c) => ActionView::Close(*c),
        }
    }
}

/// The largest number of workers that can ever register.
pub const MAX_WORKERS: u8 = 255;

/// The registry, the subscriptions and the state manager.
pub struct Manager {
    workers: Vec<Worker>,
    controllers: Vec<Controller>,
    worker_increment: u8,
    state: StateManager,
    running: bool,
}

impl View for Manager {
    type V = ManagerView;

    closed spec fn view(&self) -> ManagerView {
        ManagerView {
            workers: worker_views(self.workers@),
            controllers: controller_views(self.controllers@),
            worker_increment: self.worker_increment,
            state: self.state@,
            running: self.running,
        }
    }
}

impl Manager {
    /// The invariant of the manager.
    pub open spec fn wf(&self) -> bool {
        manager_ok(self@)
    }

    /// A manager with no worker, no subscription and no workload.
    pub fn new() -> (r: Manager)
        ensures
            r.wf(),
            r@ == (ManagerView {
                workers: Seq::empty(),
                controllers: Seq::empty(),
                worker_increment: 0,
                state: Seq::empty(),
                running: true,
            }),
    {
        let r = Manager {
            workers: Vec::new(),
            controllers: Vec::new(),
            worker_increment: 0,
            state: StateManager::new(),
            running: true,
        };
        assert(r@.workers =~= Seq::<WorkerView>::empty());
        assert(r@.controllers =~= Seq::<ControllerView>::empty());
        r
    }

    /// The next worker id: one more than the last, `ClusterFull` once 255 ids
    /// are given out.
    fn get_next_id(&mut self) -> (r: Result<u8, SchedulerError>)
        ensures
            old(self).worker_increment == MAX_WORKERS ==> r is Err && r->Err_0@
                == SchedulerErrorView::ClusterFull && *final(self) == *old(self),
            old(self).worker_increment < MAX_WORKERS ==> r == Ok::<u8, SchedulerError>(
                (old(self).worker_increment + 1) as u8,
            ) && final(self).worker_increment == old(self).worker_increment + 1
                && final(self).workers == old(self).workers && final(self).controllers == old(
                self,
            ).controllers && final(self).state == old(self).state && final(self).running == old(
                self,
            ).running,
    {
        if self.worker_increment == u8::MAX {
            Err(SchedulerError::ClusterFull)
        } else {
            self.worker_increment += 1;
            Ok(self.worker_increment)
        }
    }

    fn find_worker(&self, hostname: &String) -> (r: Option<usize>)
        requires
            self.wf(),
        ensures
            match r {
                Some(i) => worker_position(self@.workers, hostname@) == Some(i as int) && i
                    < self.workers.len(),
                None => worker_position(self@.workers, hostname@) is None,
            },
    {
        let mut i: usize = 0;
        while i < self.workers.len()
            invariant
                i <= self.workers.len(),
                self.wf(),
                forall|j: int| 0 <= j < i ==> self@.workers[j].hostname != hostname@,
            decreases self.workers.len() - i,
        {
            if self.workers[i].hostname == *hostname {
                proof {
                    assert(self@.workers[i as int].hostname == hostname@);
                    lemma_worker_position(self@.workers, hostname@, i as int);
                }
                return Some(i);
            }
            i += 1;
        }
        None
    }

    /// The worker of that hostname, if it is registered.
    pub fn get_worker_by_hostname(&self, hostname: &String) -> (r: Option<&Worker>)
        requires
            self.wf(),
        ensures
            match worker_position(self@.workers, hostname@) {
                Some(i) => r is Some && r->0@ == self@.workers[i],
                None => r is None,
            },
    {
        match self.find_worker(hostname) {
            Some(i) => Some(&self.workers[i]),
            None => None,
        }
    }

    /// How many workers are registered.
    pub fn worker_count(&self) -> (r: usize)
        ensures
            r == self@.workers.len(),
    {
        self.workers.len()
    }

    /// How many controllers are subscribed.
    pub fn controller_count(&self) -> (r: usize)
        ensures
            r == self@.controllers.len(),
    {
        self.controllers.len()
    }

    /// The workloads and their instances.
    pub fn state(&self) -> (r: &StateManager)
        ensures
            r@ == self@.state,
    {
        &self.state
    }

    /// Whether no shutdown was seen yet.
    pub fn is_running(&self) -> (r: bool)
        ensures
            r == self@.running,
    {
        self.running
    }

    /// One turn of the loop that listens on the queue of events: takes the
    /// event in, then reconciles.
    /// After a shutdown nothing is done any more. `apply` says what the event
    /// makes of the manager and `apply_actions` what is to be done about it;
    /// reconciliation then changes the workloads as `reconciliation` says
    /// and adds the dispatch of its events. A shutdown is not followed by
    /// reconciliation.
    pub fn listen(&mut self, event: Event) -> (actions: Vec<Action>)
        requires
            old(self).wf(),
        ensures
            final(self).wf(),
            !old(self)@.running ==> final(self)@ == old(self)@ && actions@.len() == 0,
            old(self)@.running ==> ({
                let mid = apply(old(self)@, event@);
                let end = final(self)@;
                &&& end == (ManagerView { state: end.state, ..mid })
                &&& event@ is Shutdown ==> end == mid && action_views(actions@) == apply_actions(
                    old(self)@,
                    event@,
                )
                &&& !(event@ is Shutdown) ==> {
                    let emitted = pass_events(mid.state, end.state);
                    &&& reconciliation(mid.state, end.state, mid.workers)
                    &&& action_views(actions@) == apply_actions(old(self)@, event@) + dispatch(
                        mid,
                        emitted,
                        emitted.len() as int,
                    )
                }
            }),
    {
        let mut actions: Vec<Action> = Vec::new();
        assert(action_views(actions@) =~= Seq::<ActionView>::empty());
        if !self.running {
            return actions;
        }
        let stop = match &event {
            Event::Shutdown => true,
            _ => false,
        };
        self.accept(event, &mut actions);
        if !stop {
            let ghost mid = self@;
            let ghost first = action_views(actions@);
            assert(first =~= apply_actions(old(self)@, event@));
            self.reconcile_into(&mut actions);
            proof {
                let emitted = pass_events(mid.state, self@.state);
                lemma_dispatch_frame(mid, self@, emitted, emitted.len() as int);
            }
        }
        actions
    }

    /// Takes an event in, without reconciling. See `apply` and
    /// `apply_actions`.
    pub fn accept(&mut self, event: Event, actions: &mut Vec<Action>)
        requires
            old(self).wf(),
        ensures
            final(self).wf(),
            final(self)@ == apply(old(self)@, event@),
            action_views(final(actions)@) == action_views(old(actions)@) + apply_actions(
                old(self)@,
                event@,
            ),
    {
        let ghost before = self@;
        let ghost base = action_views(actions@);
        match event {
            Event::Register(channel, addr, hostname) => {
                match self.register(channel, addr, hostname) {
                    Ok(_) => {
                        assert(action_views(actions@) =~= base + Seq::<ActionView>::empty());
                    },
                    Err(e) => {
                        let refuse = Action::Refuse(channel.id, e);
                        actions.push(refuse);
                        assert(action_views(actions@) =~= base + seq![refuse@]);
                    },
                }
            },
            Event::ScheduleRequest(request) => {
                proof {
                    lemma_request_known(before.state, request@, before.workers);
                }
                match self.state.process_schedule_request(request) {
                    Ok(_) => {
                        assert(action_views(actions@) =~= base + Seq::<ActionView>::empty());
                    },
                    Err(e) => {
                        let failed = Action::Failed(e);
                        actions.push(failed);
                        assert(action_views(actions@) =~= base + seq![failed@]);
                    },
                }
            },
            Event::Subscribe(channel, addr) => {
                let controller = Controller::new(channel, addr);
                self.controllers.push(controller);
                assert(self@.controllers =~= before.controllers.push(controller@));
                assert(action_views(actions@) =~= base + Seq::<ActionView>::empty());
            },
            Event::WorkerMetric(hostname, metric, document) => {
                match document {
                    Some(d) => {
                        self.set_metrics(&hostname, d);
                    },
                    None => {},
                }
                assert(action_views(actions@) =~= base + Seq::<ActionView>::empty());
            },
            Event::InstanceMetric(hostname, metric) => {
                proof {
                    lemma_ingest_known(
                        before.state,
                        metric@.instance_id,
                        metric@.status,
                        before.workers,
                    );
                }
                let found = self.state.update_instance_status(&metric.instance_id, metric.status);
                if found {
                    let status = WorkerStatus {
                        identifier: hostname,
                        payload: StatusPayload::Instance(metric),
                    };
                    self.relay(&status, actions);
                } else {
                    assert(action_views(actions@) =~= base + Seq::<ActionView>::empty());
                }
            },
            Event::Schedule(hostname, command) => {
                self.deliver(&hostname, command, actions);
            },
            Event::Shutdown => {
                self.running = false;
                self.close_channels(actions);
            },
        }
    }

    /// One pass of reconciliation, and what is to be done about it: each
    /// command goes to its worker, each report to every subscription.
    pub fn reconcile(&mut self) -> (actions: Vec<Action>)
        requires
            old(self).wf(),
        ensures
            final(self).wf(),
            final(self)@ == (ManagerView { state: final(self)@.state, ..old(self)@ }),
            reconciliation(old(self)@.state, final(self)@.state, old(self)@.workers),
            ({
                let emitted = pass_events(old(self)@.state, final(self)@.state);
                action_views(actions@) == dispatch(old(self)@, emitted, emitted.len() as int)
            }),
    {
        let mut actions: Vec<Action> = Vec::new();
        assert(action_views(actions@) =~= Seq::<ActionView>::empty());
        self.reconcile_into(&mut actions);
        proof {
            let emitted = pass_events(old(self)@.state, self@.state);
            lemma_dispatch_frame(old(self)@, self@, emitted, emitted.len() as int);
            assert(action_views(actions@) =~= dispatch(old(self)@, emitted, emitted.len() as int));
        }
        actions
    }

    fn reconcile_into(&mut self, actions: &mut Vec<Action>)
        requires
            old(self).wf(),
        ensures
            final(self).wf(),
            final(self)@ == (ManagerView { state: final(self)@.state, ..old(self)@ }),
            reconciliation(old(self)@.state, final(self)@.state, old(self)@.workers),
            ({
                let emitted = pass_events(old(self)@.state, final(self)@.state);
                action_views(final(actions)@) == action_views(old(actions)@) + dispatch(
                    final(self)@,
                    emitted,
                    emitted.len() as int,
                )
            }),
    {
        let ghost before = self@;
        let events = self.state.update_state(&self.workers);
        proof {
            lemma_reconciled_known(before.state, self@.state, before.workers);
        }
        self.dispatch_events(&events, actions);
    }

    fn dispatch_events(&self, events: &Vec<Event>, actions: &mut Vec<Action>)
        requires
            self.wf(),
        ensures
            action_views(final(actions)@) == action_views(old(actions)@) + dispatch(
                self@,
                event_views(events@),
                events.len() as int,
            ),
    {
        let ghost base = action_views(actions@);
        let mut i: usize = 0;
        assert(action_views(actions@) =~= base + dispatch(self@, event_views(events@), 0));
        while i < events.len()
            invariant
                self.wf(),
                i <= events.len(),
                action_views(actions@) == base + dispatch(self@, event_views(events@), i as int),
            decreases events.len() - i,
        {
            let ghost mid = action_views(actions@);
            assert(event_views(events@)[i as int] == events[i as int]@);
            match &events[i] {
                Event::Schedule(hostname, command) => {
                    self.deliver(hostname, command.clone(), actions);
                },
                Event::InstanceMetric(identifier, metric) => {
                    let status = WorkerStatus {
                        identifier: identifier.clone(),
                        payload: StatusPayload::Instance(metric.clone()),
                    };
                    self.relay(&status, actions);
                },
                _ => {
                    assert(action_views(actions@) =~= mid + Seq::<ActionView>::empty());
                },
            }
            assert(action_views(actions@) =~= base + dispatch(
                self@,
                event_views(events@),
                i + 1,
            ));
            i += 1;
        }
    }

    /// What is to be done to send `command` to the worker `hostname`: a send
    /// on that worker's channel, or nothing if the worker is not there. A
    /// worker whose channel is known to be closed cannot be sent to: the
    /// client is disconnected.
    pub fn schedule(&self, hostname: &String, command: InstanceScheduling) -> (r: Result<
        Vec<Action>,
        SchedulerError,
    >)
        requires
            self.wf(),
        ensures
            match worker_position(self@.workers, hostname@) {
                Some(i) => if self@.workers[i].channel.closed {
                    r is Err && r->Err_0@ == SchedulerErrorView::ClientDisconnected
                } else {
                    r is Ok && action_views(r->Ok_0@) == seq![
                        ActionView::Schedule(self@.workers[i].channel.id, hostname@, command@),
                    ]
                },
                None => r is Ok && r->Ok_0@.len() == 0,
            },
    {
        match self.find_worker(hostname) {
            Some(i) => {
                assert(self@.workers[i as int] == self.workers[i as int]@);
                if self.workers[i].channel.is_closed() {
                    return Err(SchedulerError::ClientDisconnected);
                }
            },
            None => {},
        }
        let mut actions: Vec<Action> = Vec::new();
        assert(action_views(actions@) =~= Seq::<ActionView>::empty());
        self.deliver(hostname, command, &mut actions);
        assert(action_views(actions@) =~= deliver(self@.workers, hostname@, command@));
        Ok(actions)
    }

    fn deliver(&self, hostname: &String, command: InstanceScheduling, actions: &mut Vec<Action>)
        requires
            self.wf(),
        ensures
            action_views(final(actions)@) == action_views(old(actions)@) + deliver(
                self@.workers,
                hostname@,
                command@,
            ),
    {
        let ghost base = action_views(actions@);
        match self.find_worker(hostname) {
            Some(i) => {
                let send = Action::Schedule(self.workers[i].channel.id, hostname.clone(), command);
                assert(self@.workers[i as int] == self.workers[i as int]@);
                actions.push(send);
                assert(action_views(actions@) =~= base + seq![send@]);
            },
            None => {
                assert(action_views(actions@) =~= base + Seq::<ActionView>::empty());
            },
        }
    }

    fn relay(&self, status: &WorkerStatus, actions: &mut Vec<Action>)
        ensures
            action_views(final(actions)@) == action_views(old(actions)@) + relay(
                self@.controllers,
                status@,
            ),
    {
        let ghost base = action_views(actions@);
        let mut k: usize = 0;
        assert(action_views(actions@) =~= base + Seq::new(
            0,
            |x: int| ActionView::Notify(self@.controllers[x].channel.id, status@),
        ));
        while k < self.controllers.len()
            invariant
                k <= self.controllers.len(),
                action_views(actions@) == base + Seq::new(
                    k as nat,
                    |x: int| ActionView::Notify(self@.controllers[x].channel.id, status@),
                ),
            decreases self.controllers.len() - k,
        {
            let ghost mid = action_views(actions@);
            let notify = Action::Notify(self.controllers[k].channel.id, status.clone());
            assert(self@.controllers[k as int] == self.controllers[k as int]@);
            actions.push(notify);
            assert(action_views(actions@) =~= mid.push(notify@));
            assert(action_views(actions@) =~= base + Seq::new(
                (k + 1) as nat,
                |x: int| ActionView::Notify(self@.controllers[x].channel.id, status@),
            ));
            k += 1;
        }
        assert(self@.controllers.len() == self.controllers.len());
    }

    fn close_channels(&self, actions: &mut Vec<Action>)
        ensures
            action_views(final(actions)@) == action_views(old(actions)@) + close_all(self@),
    {
        let ghost base = action_views(actions@);
        let mut k: usize = 0;
        assert(action_views(actions@) =~= base + Seq::new(
            0,
            |x: int| ActionView::Close(self@.workers[x].channel.id),
        ));
        while k < self.workers.len()
            invariant
                k <= self.workers.len(),
                action_views(actions@) == base + Seq::new(
                    k as nat,
                    |x: int| ActionView::Close(self@.workers[x].channel.id),
                ),
            decreases self.workers.len() - k,
        {
            let ghost mid = action_views(actions@);
            let close = Action::Close(self.workers[k].channel.id);
            assert(self@.workers[k as int] == self.workers[k as int]@);
            actions.push(close);
            assert(action_views(actions@) =~= mid.push(close@));
            assert(action_views(actions@) =~= base + Seq::new(
                (k + 1) as nat,
                |x: int| ActionView::Close(self@.workers[x].channel.id),
            ));
            k += 1;
        }
        assert(self@.workers.len() == self.workers.len());
        let ghost first = Seq::new(
            self@.workers.len(),
            |x: int| ActionView::Close(self@.workers[x].channel.id),
        );
        let mut c: usize = 0;
        assert(action_views(actions@) =~= base + first + Seq::new(
            0,
            |x: int| ActionView::Close(self@.controllers[x].channel.id),
        ));
        while c < self.controllers.len()
            invariant
                c <= self.controllers.len(),
                action_views(actions@) == base + first + Seq::new(
                    c as nat,
                    |x: int| ActionView::Close(self@.controllers[x].channel.id),
                ),
            decreases self.controllers.len() - c,
        {
            let ghost mid = action_views(actions@);
            let close = Action::Close(self.controllers[c].channel.id);
            assert(self@.controllers[c as int] == self.controllers[c as int]@);
            actions.push(close);
            assert(action_views(actions@) =~= mid.push(close@));
            assert(action_views(actions@) =~= base + first + Seq::new(
                (c + 1) as nat,
                |x: int| ActionView::Close(self@.controllers[x].channel.id),
            ));
            c += 1;
        }
        assert(self@.controllers.len() == self.controllers.len());
        assert(action_views(actions@) =~= base + close_all(self@));
    }

    /// Stores the metrics of the worker `hostname` and looks at its channel.
    /// See `set_metric`. Returns whether the worker is registered.
    pub fn set_metrics(&mut self, hostname: &String, metric: Metrics) -> (found: bool)
        requires
            old(self).wf(),
        ensures
            final(self).wf(),
            final(self)@ == (ManagerView {
                workers: set_metric(old(self)@.workers, hostname@, metric.document@),
                ..old(self)@
            }),
            found == (worker_position(old(self)@.workers, hostname@) is Some),
    {
        let ghost before = self@;
        match self.find_worker(hostname) {
            Some(i) => {
                self.workers[i].set_metrics(metric);
                proof {
                    let updated = (WorkerView {
                        metric: Some(metric.document@),
                        ..before.workers[i as int]
                    }).settled();
                    assert(self@.workers =~= before.workers.update(i as int, updated));
                    lemma_worker_update_keeps_ok(before, self@, i as int);
                }
                true
            },
            None => false,
        }
    }

    /// The channel of the worker with that id, if there is one.
    pub fn get_worker_sender(&self, worker_id: u8) -> (r: Option<Channel>)
        requires
            self.wf(),
        ensures
            r == (if 0 < worker_id <= self@.workers.len() {
                Some(self@.workers[worker_id - 1].channel)
            } else {
                None
            }),
    {
        let mut i: usize = 0;
        while i < self.workers.len()
            invariant
                i <= self.workers.len(),
                self.wf(),
                forall|j: int| 0 <= j < i ==> self@.workers[j].id != worker_id,
            decreases self.workers.len() - i,
        {
            assert(self@.workers[i as int] == self.workers[i as int]@);
            if self.workers[i].id == worker_id {
                return Some(self.workers[i].channel);
            }
            i += 1;
        }
        proof {
            if 0 < worker_id <= self@.workers.len() {
                assert(self@.workers[worker_id - 1].id == worker_id);
            }
        }
        None
    }

    /// One of the workers that take new instances, drawn at random; `None` if
    /// and only if there is none.
    pub fn get_eligible_worker(&self) -> (r: Option<&Worker>)
        ensures
            r is None <==> forall|i: int|
                0 <= i < self@.workers.len() ==> (#[trigger] self@.workers[i]).state
                    != WorkerState::Ready,
            r matches Some(w) ==> w@.state == WorkerState::Ready && exists|i: int|
                0 <= i < self@.workers.len() && self@.workers[i] == w@,
    {
        match crate::state_manager::eligible_worker(&self.workers) {
            None => {
                assert forall|i: int| 0 <= i < self@.workers.len() implies (
                #[trigger] self@.workers[i]).state != WorkerState::Ready by {
                    assert(self@.workers[i] == self.workers[i]@);
                }
                None
            },
            Some(i) => {
                assert(self@.workers[i as int] == self.workers[i as int]@);
                Some(&self.workers[i])
            },
        }
    }

    /// Records that the channel of number `channel` was found closed. See
    /// `disconnect`.
    pub fn disconnect(&mut self, channel: u64)
        requires
            old(self).wf(),
        ensures
            final(self).wf(),
            final(self)@ == disconnect(old(self)@, channel),
    {
        let ghost before = self@;
        let mut i: usize = 0;
        while i < self.workers.len()
            invariant
                i <= self.workers.len(),
                self@ == (ManagerView { workers: self@.workers, ..before }),
                self@.workers.len() == before.workers.len(),
                forall|j: int|
                    0 <= j < i ==> #[trigger] self@.workers[j] == close_worker_channel(
                        before.workers,
                        channel,
                    )[j],
                forall|j: int|
                    i <= j < before.workers.len() ==> #[trigger] self@.workers[j]
                        == before.workers[j],
            decreases self.workers.len() - i,
        {
            let ghost mid = self@;
            assert(self@.workers[i as int] == self.workers[i as int]@);
            if self.workers[i].channel.id == channel {
                self.workers[i].channel_closed();
            }
            proof {
                assert(self@.workers[i as int] == self.workers[i as int]@);
                assert forall|j: int| 0 <= j < before.workers.len() && j != i implies (
                #[trigger] self@.workers[j]) == mid.workers[j] by {}
            }
            i += 1;
        }
        proof {
            assert(self@.workers =~= close_worker_channel(before.workers, channel));
            lemma_close_keeps_ok(before, channel);
        }
        self.drop_subscriptions(channel);
    }

    fn drop_subscriptions(&mut self, channel: u64)
        ensures
            final(self)@ == (ManagerView {
                controllers: drop_subscription(old(self)@.controllers, channel),
                ..old(self)@
            }),
    {
        let ghost before = self@;
        let ghost mut seen: int = 0;
        let mut i: usize = 0;
        assert(before.controllers.subrange(0, 0) =~= Seq::<ControllerView>::empty());
        assert(self@.controllers =~= drop_subscription(before.controllers.subrange(0, 0), channel)
            + before.controllers.subrange(0, before.controllers.len() as int));
        while i < self.controllers.len()
            invariant
                self@ == (ManagerView { controllers: self@.controllers, ..before }),
                0 <= seen <= before.controllers.len(),
                i == drop_subscription(before.controllers.subrange(0, seen), channel).len(),
                self@.controllers == drop_subscription(
                    before.controllers.subrange(0, seen),
                    channel,
                ) + before.controllers.subrange(seen, before.controllers.len() as int),
                self@.controllers.len() == self.controllers.len(),
            decreases before.controllers.len() - seen,
        {
            let ghost kept = drop_subscription(before.controllers.subrange(0, seen), channel);
            let ghost rest = before.controllers.subrange(seen, before.controllers.len() as int);
            assert(self@.controllers[i as int] == self.controllers[i as int]@);
            assert(self@.controllers[i as int] == rest[0]);
            assert(rest[0] == before.controllers[seen]);
            proof {
                let next = before.controllers.subrange(0, seen + 1);
                assert(next.drop_last() =~= before.controllers.subrange(0, seen));
                assert(next.last() == before.controllers[seen]);
            }
            let ghost current = self@.controllers;
            if self.controllers[i].channel.id == channel {
                self.controllers.remove(i);
                proof {
                    assert(self@.controllers =~= current.remove(i as int));
                    assert(self@.controllers =~= kept + before.controllers.subrange(
                        seen + 1,
                        before.controllers.len() as int,
                    ));
                    seen = seen + 1;
                }
            } else {
                proof {
                    assert(self@.controllers =~= kept.push(before.controllers[seen])
                        + before.controllers.subrange(
                        seen + 1,
                        before.controllers.len() as int,
                    ));
                    seen = seen + 1;
                }
                i += 1;
            }
        }
        proof {
            assert(seen == before.controllers.len());
            assert(before.controllers.subrange(0, seen) =~= before.controllers);
            assert(self@.controllers =~= drop_subscription(before.controllers, channel));
        }
    }

    /// Records that the queue refused `action`: it was full, or it was
    /// found closed (`closed`). See `send_refusal`.
    pub fn send_refused(&mut self, action: &Action, closed: bool)
        requires
            old(self).wf(),
        ensures
            final(self).wf(),
            final(self)@ == send_refusal(old(self)@, action@, closed),
    {
        self.send_failed(action);
        if closed {
            match action {
                Action::Schedule(channel, hostname, command) => {
                    self.disconnect(*channel);
                },
                Action::Notify(channel, status) => {
                    self.disconnect(*channel);
                },
                _ => {},
            }
        }
    }

    /// Whether `action` may still be carried out: it is not a command to
    /// create an instance, or the worker it is for is ready. See `may_send`.
    /// An action that may not be carried out any more is to be reported with
    /// `send_failed`.
    pub fn may_send(&self, action: &Action) -> (r: bool)
        requires
            self.wf(),
        ensures
            r == may_send(self@, action@),
    {
        match action {
            Action::Schedule(channel, hostname, command) => {
                match command.action {
                    WorkloadRequestKind::Destroy => true,
                    WorkloadRequestKind::Create => match self.find_worker(hostname) {
                        Some(i) => {
                            assert(self@.workers[i as int] == self.workers[i as int]@);
                            self.workers[i].is_ready()
                        },
                        None => false,
                    },
                }
            },
            _ => true,
        }
    }

    /// Records that the caller could not carry out `action`. See
    /// `send_failure`.
    pub fn send_failed(&mut self, action: &Action)
        requires
            old(self).wf(),
        ensures
            final(self).wf(),
            final(self)@ == send_failure(old(self)@, action@),
    {
        let ghost before = self@;
        match action {
            Action::Schedule(channel, hostname, command) => {
                match command.action {
                    WorkloadRequestKind::Create => {
                        proof {
                            lemma_ingest_known(
                                before.state,
                                command@.instance_id,
                                crate::proto::ResourceStatus::Terminated,
                                before.workers,
                            );
                        }
                        self.state.revert_instance(&command.instance_id);
                    },
                    WorkloadRequestKind::Destroy => {},
                }
                let ghost mid = self@;
                match self.find_worker(hostname) {
                    Some(i) => {
                        self.workers[i].set_state(WorkerState::NotReady);
                        proof {
                            let updated = WorkerView {
                                state: WorkerState::NotReady,
                                ..mid.workers[i as int]
                            };
                            assert(self@.workers =~= mid.workers.update(i as int, updated));
                            lemma_worker_update_keeps_ok(mid, self@, i as int);
                        }
                    },
                    None => {},
                }
            },
            Action::Notify(channel, status) => {
                self.drop_subscriptions(*channel);
            },
            _ => {},
        }
    }

    /// Registers a worker. See `register` for what becomes of the registry
    /// and `register_response` for the answer.
    pub fn register(&mut self, channel: Channel, addr: String, hostname: String) -> (r: Result<
        (),
        SchedulerError,
    >)
        requires
            old(self).wf(),
        ensures
            final(self).wf(),
            final(self)@ == register(old(self)@, channel, addr@, hostname@),
            match register_response(old(self)@, hostname@) {
                Ok(_) => r is Ok,
                Err(e) => r is Err && r->Err_0@ == e,
            },
    {
        let ghost before = self@;
        match self.find_worker(&hostname) {
            Some(i) => {
                if !self.workers[i].channel.is_closed() {
                    Err(SchedulerError::RegistrationFailed(hostname))
                } else {
                    self.workers[i].set_channel(channel);
                    proof {
                        let updated = (WorkerView { channel, ..before.workers[i as int] }).settled();
                        assert(self@.workers =~= before.workers.update(i as int, updated));
                        lemma_worker_update_keeps_ok(before, self@, i as int);
                    }
                    Ok(())
                }
            },
            None => {
                if hostname.as_str().is_empty() {
                    return Err(SchedulerError::RegistrationFailed(hostname));
                }
                match self.get_next_id() {
                    Err(e) => Err(e),
                    Ok(id) => {
                        let worker = Worker::new(id, channel, addr, hostname);
                        self.workers.push(worker);
                        proof {
                            assert(self@.workers =~= before.workers.push(worker@));
                            lemma_worker_push_keeps_ok(before, self@);
                        }
                        Ok(())
                    },
                }
            },
        }
    }
}

} // verus!
