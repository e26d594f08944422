//! The state manager: the desired workloads, the instances observed for each,
//! and the reconciliation of the two.

pub mod lemmas;
pub mod model;

use crate::definition::WorkloadDefinition;
use crate::naming::{is_suffix, lemma_suffixes_cover, suffix, suffix_of, SUFFIXES};
use crate::proto::{InstanceMetric, InstanceScheduling, ResourceStatus, WorkloadRequestKind};
use crate::random::random_suffix;
use crate::scheduler::{
    event_views, worker_views, Event, EventView, SchedulerError, SchedulerErrorView, Worker,
    WorkerState, WorkloadRequest,
};
use crate::state_manager::lemmas::{
    lemma_create_events_frame, lemma_exhausted_kept, lemma_first_doomed, lemma_first_doomed_found,
    lemma_ids_kept, lemma_instance_id, lemma_instance_id_suffix, lemma_locate,
    lemma_place_keeps_well_formed, lemma_position, lemma_position_some, lemma_ready_indices,
    lemma_reap, lemma_reap_keeps, lemma_reap_removes, lemma_reap_unfold,
    lemma_reconcile_events_frame, lemma_remove_instance_keeps_well_formed,
    lemma_remove_keeps_well_formed, lemma_replicas_keep_well_formed,
    lemma_statuses_keep_well_formed,
};
use crate::state_manager::model::{
    add_replicas, create_event, create_events, create_response, create_workload, destroy_event,
    destroy_events, destroy_response, destroy_workload, doomed, exhausted, first_doomed, ids_kept,
    ingest, is_instance_id, locate, mark_excess, minus_replicas, new_instance, next_status,
    pass_events, pending_event, place, place_at, place_events, position, ready_hosts, ready_indices,
    reap, reconcile_events, reconciled, reconciliation, remove_instance, remove_instance_at,
    schedule_request, schedule_response, some_ready, well_formed, workload_events, InstanceView,
    WorkloadView,
};
use vstd::prelude::*;
use vstd::string::*;

verus! {

/// One replica of a workload, placed on a worker.
#[derive(Debug)]
pub struct WorkloadInstance {
    /// `<workload name>-<four lower-case letters or digits>`.
    pub id: String,
    pub status: ResourceStatus,
    /// Hostname of the worker that runs the instance.
    pub worker_id: Option<String>,
    /// The workload document as it was when the instance was scheduled.
    pub definition: String,
}

impl View for WorkloadInstance {
    type V = InstanceView;

    open spec fn view(&self) -> InstanceView {
        InstanceView {
            id: self.id@,
            status: self.status,
            worker_id: match self.worker_id {
                Some(w) => Some(w@),
                None => None,
            },
            definition: self.definition@,
        }
    }
}

impl WorkloadInstance {
    pub fn new(
        id: String,
        status: ResourceStatus,
        worker_id: Option<String>,
        definition: String,
    ) -> (r: WorkloadInstance)
        ensures
            r.id == id,
            r.status == status,
            r.worker_id == worker_id,
            r.definition == definition,
    {
        WorkloadInstance { id, status, worker_id, definition }
    }

    pub fn status_update(&mut self, status: ResourceStatus)
        ensures
            final(self)@ == (InstanceView { status, ..old(self)@ }),
    {
        self.status = status;
    }

    pub fn set_worker(&mut self, worker: Option<String>)
        ensures
            final(self)@ == (InstanceView {
                worker_id: match worker {
                    Some(w) => Some(w@),
                    None => None,
                },
                ..old(self)@
            }),
    {
        self.worker_id = worker;
    }
}

/// A desired workload and the instances observed for it, oldest first.
#[derive(Debug)]
pub struct Workload {
    /// How many instances the workload should have.
    pub replicas: u16,
    pub definition: WorkloadDefinition,
    /// The workload document as the controller sent it.
    pub document: String,
    pub instances: Vec<WorkloadInstance>,
    /// `Pending`, or `Destroying` once a destroy request took the last
    /// replicas away.
    pub status: ResourceStatus,
    pub id: String,
}

impl View for Workload {
    type V = WorkloadView;

    open spec fn view(&self) -> WorkloadView {
        WorkloadView {
            replicas: self.replicas,
            definition: self.definition@,
            document: self.document@,
            instances: self.instances@.map_values(|i: WorkloadInstance| i@),
            status: self.status,
            id: self.id@,
        }
    }
}

/// What the state manager's loop reacts to.
#[derive(Debug)]
pub enum StateManagerEvent {
    Schedule(WorkloadRequest),
    Shutdown,
}

/// The desired workloads with their observed instances, in the order in which
/// the workloads came.
pub struct StateManager {
    state: Vec<Workload>,
}

impl View for StateManager {
    type V = Seq<WorkloadView>;

    closed spec fn view(&self) -> Seq<WorkloadView> {
        self.state@.map_values(|w: Workload| w@)
    }
}

impl StateManager {
    /// The invariant of the state manager.
    pub open spec fn wf(&self) -> bool {
        well_formed(self@)
    }

    /// A state manager without workloads.
    pub fn new() -> (r: StateManager)
        ensures
            r@ == Seq::<WorkloadView>::empty(),
            r.wf(),
    {
        let r = StateManager { state: Vec::new() };
        assert(r@ =~= Seq::<WorkloadView>::empty());
        r
    }

    /// How many workloads are desired.
    pub fn len(&self) -> (r: usize)
        ensures
            r == self@.len(),
    {
        self.state.len()
    }

    /// The workload `id`, if it is there.
    pub fn get(&self, id: &String) -> (r: Option<&Workload>)
        requires
            self.wf(),
        ensures
            match position(self@, id@) {
                Some(i) => r is Some && r->0@ == self@[i],
                None => r is None,
            },
    {
        match self.find(id) {
            Some(i) => Some(&self.state[i]),
            None => None,
        }
    }

    /// Takes a request in. See `schedule_request` for what becomes of the
    /// workloads and `schedule_response` for the answer.
    pub fn process_schedule_request(&mut self, request: WorkloadRequest) -> (r: Result<
        (),
        SchedulerError,
    >)
        requires
            old(self).wf(),
        ensures
            final(self).wf(),
            final(self)@ == schedule_request(old(self)@, request@),
            match schedule_response(old(self)@, request@) {
                Ok(_) => r is Ok,
                Err(e) => r is Err && r->Err_0@ == e,
            },
    {
        match request.action {
            WorkloadRequestKind::Create => self.action_create_workload(request),
            WorkloadRequestKind::Destroy => self.action_destroy_workload(request),
        }
    }

    /// A create request: a new workload, or more replicas for one that is
    /// there. Fails, and changes nothing, on a workload that is being
    /// destroyed, whatever the request declares. On any other workload, and
    /// on one that is not there, a request that declares zero replicas is
    /// taken as a destroy request that declares zero replicas. See
    /// `create_workload` and `create_response`.
    pub fn action_create_workload(&mut self, request: WorkloadRequest) -> (r: Result<
        (),
        SchedulerError,
    >)
        requires
            old(self).wf(),
        ensures
            final(self).wf(),
            final(self)@ == create_workload(
                old(self)@,
                request@.workload_id,
                request@.definition,
                request@.document,
            ),
            match create_response(old(self)@, request@.workload_id, request@.definition) {
                Ok(_) => r is Ok,
                Err(e) => r is Err && r->Err_0@ == e,
            },
    {
        let found = self.find(&request.workload_id);
        let refused = match found {
            Some(i) => self.state[i].status == ResourceStatus::Destroying,
            None => false,
        };
        if refused {
            return Err(SchedulerError::CannotDoubleReplicas);
        }
        let zero = match request.definition.replicas {
            Some(n) => n == 0,
            None => false,
        };
        if zero {
            return self.action_destroy_workload(request);
        }
        match found {
            Some(i) => {
                let declared = request.definition.declared_replicas();
                self.action_add_replicas(&request.workload_id, &declared)
            },
            None => {
                let ghost before = self@;
                let workload = Workload {
                    replicas: request.definition.declared_replicas(),
                    definition: request.definition,
                    document: request.document,
                    instances: Vec::new(),
                    status: ResourceStatus::Pending,
                    id: request.workload_id,
                };
                assert(workload@.instances =~= Seq::<InstanceView>::empty());
                self.state.push(workload);
                assert(self@ =~= before.push(workload@));
                proof {
                    let after = self@;
                    assert forall|i: int, j: int| 0 <= i < j < after.len() implies after[i].id
                        != after[j].id by {
                        if j == before.len() {
                            if after[i].id == after[j].id {
                                assert(before[i].id == request@.workload_id);
                            }
                        }
                    }
                }
                Ok(())
            },
        }
    }

    /// Gives the workload `replicas` more, stopping at the largest count
    /// there is. Fails if the workload is not there. Not for a workload that
    /// is being destroyed: such a workload wants no replica.
    fn action_add_replicas(&mut self, workload_id: &String, replicas: &u16) -> (r: Result<
        (),
        SchedulerError,
    >)
        requires
            old(self).wf(),
            position(old(self)@, workload_id@) matches Some(i) ==> old(self)@[i].status
                != ResourceStatus::Destroying,
        ensures
            final(self).wf(),
            final(self)@ == add_replicas(old(self)@, workload_id@, *replicas),
            match position(old(self)@, workload_id@) {
                Some(i) => r is Ok,
                None => r is Err && r->Err_0@ == SchedulerErrorView::WorkloadDontExists(
                    workload_id@,
                ),
            },
    {
        match self.find(workload_id) {
            Some(i) => {
                let ghost before = self@;
                let current = self.state[i].replicas;
                let sum: u16 = if current > u16::MAX - *replicas {
                    u16::MAX
                } else {
                    current + *replicas
                };
                self.state[i].replicas = sum;
                assert(self@ =~= before.update(
                    i as int,
                    WorkloadView { replicas: sum, ..before[i as int] },
                ));
                proof {
                    lemma_replicas_keep_well_formed(before, self@, i as int);
                }
                Ok(())
            },
            None => Err(SchedulerError::WorkloadDontExists(workload_id.clone())),
        }
    }

    /// Takes `replicas` from the workload, stopping at zero. Fails if the
    /// workload is not there.
    fn action_minus_replicas(&mut self, workload_id: &String, replicas: &u16) -> (r: Result<
        (),
        SchedulerError,
    >)
        requires
            old(self).wf(),
        ensures
            final(self).wf(),
            final(self)@ == minus_replicas(old(self)@, workload_id@, *replicas),
            match position(old(self)@, workload_id@) {
                Some(i) => r is Ok,
                None => r is Err && r->Err_0@ == SchedulerErrorView::WorkloadDontExists(
                    workload_id@,
                ),
            },
    {
        match self.find(workload_id) {
            Some(i) => {
                let ghost before = self@;
                let current = self.state[i].replicas;
                let rest: u16 = if current < *replicas {
                    0
                } else {
                    current - *replicas
                };
                self.state[i].replicas = rest;
                assert(self@ =~= before.update(
                    i as int,
                    WorkloadView { replicas: rest, ..before[i as int] },
                ));
                proof {
                    lemma_replicas_keep_well_formed(before, self@, i as int);
                }
                Ok(())
            },
            None => Err(SchedulerError::WorkloadDontExists(workload_id.clone())),
        }
    }

    /// A destroy request: fewer replicas, or the workload is torn down: it
    /// is `Destroying` and wants no replica. Fails if the workload is not
    /// there. See `destroy_workload` and `destroy_response`.
    pub fn action_destroy_workload(&mut self, request: WorkloadRequest) -> (r: Result<
        (),
        SchedulerError,
    >)
        requires
            old(self).wf(),
        ensures
            final(self).wf(),
            final(self)@ == destroy_workload(
                old(self)@,
                request@.workload_id,
                request@.definition.declared_replicas(),
            ),
            match destroy_response(old(self)@, request@.workload_id) {
                Ok(_) => r is Ok,
                Err(e) => r is Err && r->Err_0@ == e,
            },
    {
        let ghost before = self@;
        match self.find(&request.workload_id) {
            None => Err(SchedulerError::WorkloadDontExists(request.workload_id)),
            Some(i) => {
                if self.state[i].status == ResourceStatus::Destroying {
                    return Ok(());
                }
                let declared = request.definition.declared_replicas();
                if self.state[i].replicas > declared {
                    self.action_minus_replicas(&request.workload_id, &declared)
                } else {
                    self.state[i].status = ResourceStatus::Destroying;
                    self.state[i].replicas = 0;
                    assert(self@ =~= before.update(
                        i as int,
                        WorkloadView {
                            replicas: 0,
                            status: ResourceStatus::Destroying,
                            ..before[i as int]
                        },
                    ));
                    proof {
                        lemma_replicas_keep_well_formed(before, self@, i as int);
                    }
                    Ok(())
                }
            },
        }
    }

    /// One turn of the state manager's loop. `message` is what the queue
    /// gave, `None` if the queue has ended: that is a failure. A shutdown
    /// ends the loop: `Ok(None)`. A request is taken in, whatever its answer,
    /// and followed by a pass of reconciliation, whose events are returned.
    pub fn run(&mut self, message: Option<StateManagerEvent>, workers: &Vec<Worker>) -> (r: Result<
        Option<Vec<Event>>,
        SchedulerError,
    >)
        requires
            old(self).wf(),
        ensures
            final(self).wf(),
            message is None ==> final(self)@ == old(self)@ && r is Err && r->Err_0@
                == SchedulerErrorView::StateManagerFailed,
            message == Some(StateManagerEvent::Shutdown) ==> final(self)@ == old(self)@ && r
                == Ok::<Option<Vec<Event>>, SchedulerError>(None),
            message matches Some(StateManagerEvent::Schedule(request)) ==> ({
                let mid = schedule_request(old(self)@, request@);
                &&& r matches Ok(Some(events)) && event_views(events@) == pass_events(
                    mid,
                    final(self)@,
                )
                &&& reconciliation(mid, final(self)@, worker_views(workers@))
            }),
    {
        match message {
            None => Err(SchedulerError::StateManagerFailed),
            Some(StateManagerEvent::Shutdown) => Ok(None),
            Some(StateManagerEvent::Schedule(request)) => {
                let _ = self.process_schedule_request(request);
                let events = self.update_state(workers);
                Ok(Some(events))
            },
        }
    }

    /// One pass of reconciliation over every workload, in their order.
    /// `workers` is the registry as it stands. The pass draws a worker and a
    /// name for each instance it adds, so which it adds is not determined;
    /// what holds of every outcome is in `reconciliation`: with a worker that
    /// is ready, every workload that had too few instances has exactly as
    /// many as it wants afterwards, unless the names for its instances ran
    /// out. Before anything else the pass removes the workloads that are
    /// being destroyed and have no instance left. The events returned are
    /// those of `pass_events` for the workloads before and after.
    pub fn update_state(&mut self, workers: &Vec<Worker>) -> (events: Vec<Event>)
        requires
            old(self).wf(),
        ensures
            final(self).wf(),
            reconciliation(old(self)@, final(self)@, worker_views(workers@)),
            event_views(events@) == pass_events(old(self)@, final(self)@),
    {
        let mut events: Vec<Event> = Vec::new();
        proof {
            lemma_reap(self@);
        }
        self.reap();
        let ghost before = self@;
        let ghost ready = ready_hosts(worker_views(workers@));
        assert(event_views(events@) =~= Seq::<EventView>::empty());
        let mut i: usize = 0;
        while i < self.state.len()
            invariant
                self.wf(),
                self@.len() == before.len(),
                i <= self.state.len(),
                ready == ready_hosts(worker_views(workers@)),
                forall|j: int| 0 <= j < i ==> reconciled(before[j], #[trigger] self@[j], ready),
                forall|j: int| i <= j < before.len() ==> #[trigger] self@[j] == before[j],
                event_views(events@) == reconcile_events(before, self@, i as int),
                forall|j: int|
                    0 <= j < i && (#[trigger] self@[j]).instances.len() < before[j].replicas
                        ==> !some_ready(worker_views(workers@)) || exhausted(
                        self@,
                        before[j].definition.name,
                    ),
                ids_kept(before, self@),
            decreases self.state.len() - i,
        {
            let ghost mid = self@;
            self.reconcile_workload(i, workers, &mut events);
            proof {
                lemma_reconcile_events_frame(before, mid, self@, i as int);
                assert(mid[i as int] == before[i as int]);
                assert forall|j: int|
                    0 <= j < i + 1 && (#[trigger] self@[j]).instances.len()
                        < before[j].replicas implies !some_ready(worker_views(workers@))
                    || exhausted(self@, before[j].definition.name) by {
                    if j < i {
                        assert(self@[j] == mid[j]);
                        if some_ready(worker_views(workers@)) {
                            lemma_exhausted_kept(mid, self@, before[j].definition.name);
                        }
                    }
                }
            }
            i += 1;
        }
        proof {
            assert forall|id: Seq<char>| (#[trigger] locate(old(self)@, id)) is Some implies locate(
                self@,
                id,
            ) is Some by {
                assert(locate(before, id) is Some);
            }
            assert forall|a: int|
                0 <= a < old(self)@.len() && doomed(#[trigger] old(self)@[a]) implies position(
                self@,
                old(self)@[a].id,
            ) is None by {
                let id = old(self)@[a].id;
                lemma_reap_removes(old(self)@, a);
                if position(self@, id) is Some {
                    lemma_position_some(self@, id);
                    let j = position(self@, id)->0;
                    assert(reconciled(before[j], self@[j], ready));
                    assert(before[j].id == id);
                }
            }
            assert forall|a: int|
                0 <= a < old(self)@.len() && !doomed(#[trigger] old(self)@[a]) implies ({
                let found = self@[position(self@, old(self)@[a].id)->0];
                &&& position(self@, old(self)@[a].id) is Some
                &&& reconciled(old(self)@[a], found, ready)
                &&& found.instances.len() < old(self)@[a].replicas ==> !some_ready(
                    worker_views(workers@),
                ) || exhausted(self@, old(self)@[a].definition.name)
            }) by {
                let id = old(self)@[a].id;
                lemma_reap_keeps(old(self)@, a);
                lemma_position_some(before, id);
                let j = position(before, id)->0;
                assert(reconciled(before[j], self@[j], ready));
                assert(self@[j].id == id);
                lemma_position(self@, id, j);
            }
        }
        events
    }

    /// Removes the workloads that are being destroyed and have no instance
    /// left.
    fn reap(&mut self)
        requires
            old(self).wf(),
        ensures
            final(self).wf(),
            final(self)@ == reap(old(self)@),
    {
        let ghost before = self@;
        let mut i: usize = 0;
        while i < self.state.len()
            invariant
                self.wf(),
                i <= self.state.len(),
                reap(self@) == reap(before),
                forall|j: int| 0 <= j < i ==> !doomed(#[trigger] self@[j]),
            decreases self.state.len() - i,
        {
            let ghost current = self@;
            assert(current[i as int].instances.len() == self.state[i as int].instances.len());
            if self.state[i].status == ResourceStatus::Destroying && self.state[i].instances.len()
                == 0 {
                proof {
                    lemma_first_doomed(current, i as int);
                    lemma_reap_unfold(current);
                    lemma_remove_keeps_well_formed(current, i as int);
                }
                self.state.remove(i);
                proof {
                    assert(self@ =~= current.remove(i as int));
                    assert forall|j: int| 0 <= j < i implies !doomed(#[trigger] self@[j]) by {
                        assert(self@[j] == current[j]);
                    }
                }
            } else {
                i += 1;
            }
        }
        proof {
            lemma_first_doomed_found(self@);
            if first_doomed(self@) is Some {
                let f = first_doomed(self@)->0;
                assert(!doomed(self@[f]));
            }
        }
    }

    /// Gives the workload `workload_id` one more instance, named by `suffix`,
    /// on `worker`: what reconciliation does with one draw. See `place` for
    /// when the instance is added and `place_events` for the events.
    pub fn place_instance(&mut self, workload_id: &String, suffix: &String, worker: String) -> (events:
        Vec<Event>)
        requires
            old(self).wf(),
        ensures
            final(self).wf(),
            final(self)@ == place(old(self)@, workload_id@, suffix@, worker@),
            event_views(events@) == place_events(old(self)@, workload_id@, suffix@, worker@),
    {
        let mut events: Vec<Event> = Vec::new();
        assert(event_views(events@) =~= Seq::<EventView>::empty());
        match self.find(workload_id) {
            None => {},
            Some(i) => {
                assert(self@[i as int].instances.len() == self.state[i as int].instances.len());
                if self.state[i].instances.len() < self.state[i].replicas as usize {
                    let id = instance_id(&self.state[i].definition.name, suffix);
                    if !self.contains_instance(&id) {
                        self.place_new(i, id, worker, &mut events);
                        assert(event_views(events@) =~= place_events(
                            old(self)@,
                            workload_id@,
                            suffix@,
                            worker@,
                        ));
                    }
                }
            },
        }
        events
    }

    /// One of the workers that take new instances, drawn at random; `None` if
    /// and only if there is none.
    pub fn get_eligible_worker(workers: &Vec<Worker>) -> (r: Option<String>)
        ensures
            r is None <==> forall|i: int|
                0 <= i < workers.len() ==> (#[trigger] workers[i]).state != WorkerState::Ready,
            r matches Some(h) ==> ready_hosts(worker_views(workers@)).contains(h@),
    {
        match eligible_worker(workers) {
            None => None,
            Some(i) => {
                assert(worker_views(workers@)[i as int] == workers[i as int]@);
                Some(workers[i].hostname.clone())
            },
        }
    }

    fn reconcile_workload(&mut self, i: usize, workers: &Vec<Worker>, events: &mut Vec<Event>)
        requires
            old(self).wf(),
            i < old(self)@.len(),
        ensures
            final(self).wf(),
            final(self)@.len() == old(self)@.len(),
            forall|j: int|
                0 <= j < old(self)@.len() && j != i ==> #[trigger] final(self)@[j] == old(self)@[j],
            reconciled(old(self)@[i as int], final(self)@[i as int], ready_hosts(worker_views(workers@))),
            event_views(final(events)@) == event_views(old(events)@) + workload_events(
                old(self)@[i as int],
                final(self)@[i as int],
            ),
            final(self)@[i as int].instances.len() < old(self)@[i as int].replicas ==> !some_ready(
                worker_views(workers@),
            ) || exhausted(final(self)@, old(self)@[i as int].definition.name),
            ids_kept(old(self)@, final(self)@),
    {
        let ghost before = self@;
        let ghost base = event_views(events@);
        assert(before[i as int].instances.len() == self.state[i as int].instances.len());
        let count = self.state[i].instances.len();
        let wanted = self.state[i].replicas as usize;
        if count > wanted {
            self.destroy_excess(i, events);
            proof {
                lemma_ids_kept(before, self@);
            }
        } else if count == wanted {
            proof {
                assert(mark_excess(before[i as int]).instances =~= before[i as int].instances);
                assert(create_events(before[i as int].instances, count as int, count as int)
                    =~= Seq::<EventView>::empty());
                assert(event_views(events@) =~= base + Seq::<EventView>::empty());
            }
        } else {
            let missing = wanted - count;
            let mut step: usize = 0;
            let mut placed: usize = 0;
            proof {
                assert(ids_kept(before, self@));
                assert(create_events(before[i as int].instances, count as int, count as int)
                    =~= Seq::<EventView>::empty());
                assert(event_views(events@) =~= base + Seq::<EventView>::empty());
                assert(self@[i as int].instances.subrange(0, count as int)
                    =~= before[i as int].instances);
            }
            while step < missing
                invariant
                    self.wf(),
                    i < self.state.len(),
                    self@.len() == before.len(),
                    count == before[i as int].instances.len(),
                    wanted == before[i as int].replicas,
                    missing == wanted - count,
                    placed <= step <= missing,
                    forall|j: int|
                        0 <= j < before.len() && j != i ==> #[trigger] self@[j] == before[j],
                    self@[i as int] == (WorkloadView {
                        instances: self@[i as int].instances,
                        ..before[i as int]
                    }),
                    self@[i as int].instances.len() == count + placed,
                    self@[i as int].instances.subrange(0, count as int)
                        == before[i as int].instances,
                    forall|k: int|
                        count <= k < count + placed ==> {
                            let added = #[trigger] self@[i as int].instances[k];
                            &&& is_instance_id(added.id, before[i as int].definition.name)
                            &&& added.worker_id is Some
                            &&& ready_hosts(worker_views(workers@)).contains(added.worker_id->0)
                            &&& added == new_instance(
                                before[i as int],
                                added.id,
                                added.worker_id->0,
                            )
                        },
                    event_views(events@) == base + create_events(
                        self@[i as int].instances,
                        count as int,
                        count + placed,
                    ),
                    placed < step ==> !some_ready(worker_views(workers@)) || exhausted(
                        self@,
                        before[i as int].definition.name,
                    ),
                    ids_kept(before, self@),
                decreases missing - step,
            {
                match Self::get_eligible_worker(workers) {
                    None => {
                        proof {
                            if some_ready(worker_views(workers@)) {
                                let w = choose|w: int|
                                    0 <= w < worker_views(workers@).len() && (
                                    #[trigger] worker_views(workers@)[w]).state
                                        == WorkerState::Ready;
                                assert(workers[w].state != WorkerState::Ready);
                                assert(worker_views(workers@)[w] == workers[w]@);
                            }
                        }
                    },
                    Some(worker) => {
                        match self.draw_instance_id(i) {
                            None => {},
                            Some(id) => {
                                let ghost mid = self@;
                                proof {
                                    // a free name was found, so the names are not all taken
                                    lemma_instance_id_suffix(
                                        id@,
                                        before[i as int].definition.name,
                                    );
                                    let tail = id@.subrange(
                                        before[i as int].definition.name.len() as int + 1,
                                        id@.len() as int,
                                    );
                                    assert(locate(
                                        mid,
                                        before[i as int].definition.name + "-"@ + tail,
                                    ) is None);
                                    assert(!exhausted(mid, before[i as int].definition.name));
                                    let h = worker@;
                                    assert(ready_hosts(worker_views(workers@)).contains(h));
                                    assert(some_ready(worker_views(workers@)));
                                }
                                self.place_new(i, id, worker, events);
                                proof {
                                    lemma_ids_kept(mid, self@);
                                    assert(ids_kept(before, self@)) by {
                                        assert forall|x: Seq<char>| (#[trigger] locate(
                                            before,
                                            x,
                                        )) is Some implies locate(self@, x) is Some by {
                                            assert(locate(mid, x) is Some);
                                        }
                                    }
                                    assert(self@.len() == self.state@.len());
                                    let now = self@[i as int].instances;
                                    let then = mid[i as int].instances;
                                    let added = new_instance(mid[i as int], id@, worker@);
                                    assert(now == then.push(added));
                                    assert(now.subrange(0, count as int) =~= then.subrange(
                                        0,
                                        count as int,
                                    ));
                                    lemma_create_events_frame(
                                        now,
                                        then,
                                        count as int,
                                        count + placed,
                                    );
                                    assert(event_views(events@) =~= base + create_events(
                                        now,
                                        count as int,
                                        count + placed + 1,
                                    ));
                                    assert forall|k: int|
                                        count <= k < count + placed + 1 implies {
                                        let a = #[trigger] self@[i as int].instances[k];
                                        &&& is_instance_id(a.id, before[i as int].definition.name)
                                        &&& a.worker_id is Some
                                        &&& ready_hosts(worker_views(workers@)).contains(a.worker_id->0)
                                        &&& a == new_instance(
                                            before[i as int],
                                            a.id,
                                            a.worker_id->0,
                                        )
                                    } by {
                                        if k < count + placed {
                                            assert(now[k] == then[k]);
                                        }
                                    }
                                }
                                placed += 1;
                            },
                        }
                    },
                }
                step += 1;
            }
        }
    }

    fn destroy_excess(&mut self, i: usize, events: &mut Vec<Event>)
        requires
            old(self).wf(),
            i < old(self)@.len(),
            old(self)@[i as int].instances.len() > old(self)@[i as int].replicas,
        ensures
            final(self).wf(),
            final(self)@ == old(self)@.update(i as int, mark_excess(old(self)@[i as int])),
            event_views(final(events)@) == event_views(old(events)@) + destroy_events(
                old(self)@[i as int].instances,
                old(self)@[i as int].instances.len() - old(self)@[i as int].replicas,
            ),
    {
        let ghost before = self@;
        let ghost base = event_views(events@);
        assert(before[i as int].instances.len() == self.state[i as int].instances.len());
        let count = self.state[i].instances.len();
        let excess = count - self.state[i].replicas as usize;
        let mut k: usize = 0;
        assert(event_views(events@) =~= base + destroy_events(before[i as int].instances, 0));
        while k < excess
            invariant
                i < self.state.len(),
                k <= excess <= count,
                self@.len() == before.len(),
                well_formed(before),
                count == before[i as int].instances.len(),
                excess == count - before[i as int].replicas,
                forall|j: int| 0 <= j < before.len() && j != i ==> #[trigger] self@[j] == before[j],
                self@[i as int] == (WorkloadView {
                    instances: self@[i as int].instances,
                    ..before[i as int]
                }),
                self@[i as int].instances.len() == count,
                self.state[i as int].instances.len() == count,
                forall|x: int|
                    0 <= x < k ==> #[trigger] self@[i as int].instances[x] == (InstanceView {
                        status: ResourceStatus::Destroying,
                        ..before[i as int].instances[x]
                    }),
                forall|x: int|
                    k <= x < count ==> #[trigger] self@[i as int].instances[x]
                        == before[i as int].instances[x],
                event_views(events@) == base + destroy_events(
                    before[i as int].instances,
                    k as int,
                ),
            decreases excess - k,
        {
            let ghost mid = self@;
            let ghost mid_events = event_views(events@);
            assert(before[i as int].instances[k as int].worker_id is Some);
            assert(self@[i as int].instances[k as int] == before[i as int].instances[k as int]);
            self.state[i].instances[k].status = ResourceStatus::Destroying;
            let instance = &self.state[i].instances[k];
            let worker = match &instance.worker_id {
                Some(w) => w.clone(),
                None => String::new(),
            };
            let command = InstanceScheduling {
                instance_id: instance.id.clone(),
                action: WorkloadRequestKind::Destroy,
                definition: instance.definition.clone(),
            };
            let event = Event::Schedule(worker, command);
            assert(event@ == destroy_event(before[i as int].instances[k as int]));
            events.push(event);
            proof {
                assert(event_views(events@) =~= mid_events.push(event@));
                assert(event_views(events@) =~= base + destroy_events(
                    before[i as int].instances,
                    k + 1,
                ));
                assert forall|x: int| 0 <= x < count implies #[trigger] self@[i as int].instances[x]
                    == (if x <= k {
                    InstanceView {
                        status: ResourceStatus::Destroying,
                        ..before[i as int].instances[x]
                    }
                } else {
                    before[i as int].instances[x]
                }) by {
                    if x != k {
                        assert(self@[i as int].instances[x] == mid[i as int].instances[x]);
                    }
                }
                assert forall|j: int| 0 <= j < before.len() && j != i implies #[trigger] self@[j]
                    == before[j] by {
                    assert(self@[j] == mid[j]);
                }
            }
            k += 1;
        }
        proof {
            assert(self@[i as int].instances =~= mark_excess(before[i as int]).instances);
            assert(self@ =~= before.update(i as int, mark_excess(before[i as int])));
            lemma_statuses_keep_well_formed(before, self@, i as int);
        }
    }

    fn place_new(&mut self, i: usize, id: String, worker: String, events: &mut Vec<Event>)
        requires
            old(self).wf(),
            i < old(self)@.len(),
            locate(old(self)@, id@) is None,
        ensures
            final(self).wf(),
            final(self)@ == place_at(old(self)@, i as int, id@, worker@),
            event_views(final(events)@) == event_views(old(events)@).push(
                create_event(new_instance(old(self)@[i as int], id@, worker@)),
            ).push(pending_event(new_instance(old(self)@[i as int], id@, worker@))),
    {
        let ghost before = self@;
        let ghost base = event_views(events@);
        let ghost added = new_instance(before[i as int], id@, worker@);
        let command = InstanceScheduling {
            instance_id: id.clone(),
            action: WorkloadRequestKind::Create,
            definition: self.state[i].document.clone(),
        };
        let mut note = String::from_str("\"workload_id\": \"");
        note.append(id.as_str());
        note.append("\"");
        let report = InstanceMetric {
            instance_id: id.clone(),
            status: ResourceStatus::Pending,
            metrics: note,
        };
        let create = Event::Schedule(worker.clone(), command);
        let pending = Event::InstanceMetric(String::from_str("scheduler"), report);
        assert(create@ == create_event(added));
        assert(pending@ == pending_event(added));
        events.push(create);
        events.push(pending);
        assert(event_views(events@) =~= base.push(create_event(added)).push(pending_event(added)));
        let instance = WorkloadInstance::new(
            id,
            ResourceStatus::Pending,
            Some(worker),
            self.state[i].document.clone(),
        );
        assert(instance@ == added);
        self.state[i].instances.push(instance);
        proof {
            assert(self@[i as int].instances =~= before[i as int].instances.push(added));
            assert(self@ =~= place_at(before, i as int, id@, worker@));
            lemma_place_keeps_well_formed(before, i as int, id@, worker@);
        }
    }

    /// A name for a new instance of the workload at `i` that no instance has
    /// yet. Names are drawn at random; after sixteen draws of a name that is
    /// taken, the first free name in the order of the suffixes is used.
    /// `None` only when every name is taken.
    fn draw_instance_id(&self, i: usize) -> (r: Option<String>)
        requires
            self.wf(),
            i < self@.len(),
        ensures
            r matches Some(id) ==> locate(self@, id@) is None && is_instance_id(
                id@,
                self@[i as int].definition.name,
            ),
            r is None ==> exhausted(self@, self@[i as int].definition.name),
    {
        let mut attempt: usize = 0;
        while attempt < 16
            invariant
                self.wf(),
                i < self.state.len(),
            decreases 16 - attempt,
        {
            let suffix = random_suffix(4);
            let id = instance_id(&self.state[i].definition.name, &suffix);
            if !self.contains_instance(&id) {
                proof {
                    lemma_instance_id(self@[i as int].definition.name, suffix@);
                }
                return Some(id);
            }
            attempt += 1;
        }
        self.first_free_id(i)
    }

    /// The first name for a new instance of the workload at `i`, in the
    /// order of the suffixes, that no instance has yet. `None` if and only if
    /// every name is taken.
    fn first_free_id(&self, i: usize) -> (r: Option<String>)
        requires
            self.wf(),
            i < self@.len(),
        ensures
            r matches Some(id) ==> locate(self@, id@) is None && is_instance_id(
                id@,
                self@[i as int].definition.name,
            ),
            r is None ==> exhausted(self@, self@[i as int].definition.name),
    {
        let ghost name = self@[i as int].definition.name;
        let mut k: u32 = 0;
        while k < SUFFIXES
            invariant
                self.wf(),
                i < self.state.len(),
                k <= SUFFIXES,
                name == self@[i as int].definition.name,
                forall|j: int| 0 <= j < k ==> locate(self@, name + "-"@ + #[trigger] suffix_of(j)) is Some,
            decreases SUFFIXES - k,
        {
            let tail = suffix(k);
            let id = instance_id(&self.state[i].definition.name, &tail);
            if !self.contains_instance(&id) {
                proof {
                    crate::naming::lemma_suffix_of(k as int);
                    lemma_instance_id(name, tail@);
                }
                return Some(id);
            }
            k += 1;
        }
        proof {
            assert forall|tail: Seq<char>| is_suffix(tail) implies (#[trigger] locate(
                self@,
                name + "-"@ + tail,
            )) is Some by {
                lemma_suffixes_cover(tail);
                let j = crate::naming::suffix_rank(tail);
                assert(suffix_of(j) == tail);
            }
        }
        None
    }

    /// Takes in a report on an instance. See `ingest` for what becomes of
    /// the workloads. Returns whether the instance was there.
    pub fn update_instance_status(&mut self, instance_id: &String, reported: ResourceStatus) -> (found:
        bool)
        requires
            old(self).wf(),
        ensures
            final(self).wf(),
            final(self)@ == ingest(old(self)@, instance_id@, reported),
            found == (locate(old(self)@, instance_id@) is Some),
    {
        let ghost before = self@;
        match self.find_instance(instance_id) {
            None => false,
            Some((i, k)) => {
                let next = next_status_of(
                    self.state[i].status,
                    self.state[i].instances[k].status,
                    reported,
                );
                match next {
                    Some(status) => {
                        self.state[i].instances[k].status = status;
                        proof {
                            let expected = before[i as int].instances.update(
                                k as int,
                                InstanceView { status, ..before[i as int].instances[k as int] },
                            );
                            assert(self@[i as int].instances =~= expected);
                            assert(self@ =~= before.update(
                                i as int,
                                WorkloadView { instances: expected, ..before[i as int] },
                            ));
                            lemma_statuses_keep_well_formed(before, self@, i as int);
                        }
                    },
                    None => {
                        self.remove_at(i, k);
                    },
                }
                true
            },
        }
    }

    /// Takes the instance `instance_id` away, as after a command to create it
    /// could not be delivered. Returns whether the instance was there.
    pub fn revert_instance(&mut self, instance_id: &String) -> (found: bool)
        requires
            old(self).wf(),
        ensures
            final(self).wf(),
            final(self)@ == remove_instance(old(self)@, instance_id@),
            found == (locate(old(self)@, instance_id@) is Some),
    {
        match self.find_instance(instance_id) {
            None => false,
            Some((i, k)) => {
                self.remove_at(i, k);
                true
            },
        }
    }

    /// Whether some instance has the id `instance_id`.
    pub fn contains_instance(&self, instance_id: &String) -> (r: bool)
        requires
            self.wf(),
        ensures
            r == (locate(self@, instance_id@) is Some),
    {
        self.find_instance(instance_id).is_some()
    }

    fn remove_at(&mut self, i: usize, k: usize)
        requires
            old(self).wf(),
            i < old(self)@.len(),
            k < old(self)@[i as int].instances.len(),
        ensures
            final(self).wf(),
            final(self)@ == remove_instance_at(old(self)@, i as int, k as int),
    {
        let ghost before = self@;
        assert(before[i as int].instances.len() == self.state[i as int].instances.len());
        if self.state[i].status == ResourceStatus::Destroying && self.state[i].instances.len()
            == 1 {
            self.state.remove(i);
            assert(self@ =~= before.remove(i as int));
        } else {
            self.state[i].instances.remove(k);
            proof {
                let expected = before[i as int].instances.remove(k as int);
                assert(self@[i as int].instances =~= expected);
                assert(self@ =~= before.update(
                    i as int,
                    WorkloadView { instances: expected, ..before[i as int] },
                ));
            }
        }
        proof {
            lemma_remove_instance_keeps_well_formed(before, i as int, k as int);
        }
    }

    fn find_instance(&self, id: &String) -> (r: Option<(usize, usize)>)
        requires
            self.wf(),
        ensures
            match r {
                Some((i, k)) => locate(self@, id@) == Some((i as int, k as int)) && i
                    < self.state.len() && k < self.state[i as int].instances.len(),
                None => locate(self@, id@) is None,
            },
    {
        let mut i: usize = 0;
        while i < self.state.len()
            invariant
                i <= self.state.len(),
                self.wf(),
                forall|a: int, b: int|
                    0 <= a < i && 0 <= b < self@[a].instances.len()
                        ==> #[trigger] self@[a].instances[b].id != id@,
            decreases self.state.len() - i,
        {
            let mut k: usize = 0;
            assert(self@[i as int].instances.len() == self.state[i as int].instances.len());
            while k < self.state[i].instances.len()
                invariant
                    i < self.state.len(),
                    k <= self.state[i as int].instances.len(),
                    self@[i as int].instances.len() == self.state[i as int].instances.len(),
                    self.wf(),
                    forall|b: int| 0 <= b < k ==> #[trigger] self@[i as int].instances[b].id != id@,
                decreases self.state[i as int].instances.len() - k,
            {
                if self.state[i].instances[k].id == *id {
                    proof {
                        assert(self@[i as int].instances[k as int].id == id@);
                        lemma_locate(self@, id@, i as int, k as int);
                    }
                    return Some((i, k));
                }
                k += 1;
            }
            i += 1;
        }
        None
    }

    fn find(&self, id: &String) -> (r: Option<usize>)
        requires
            self.wf(),
        ensures
            match r {
                Some(i) => position(self@, id@) == Some(i as int) && i < self.state.len(),
                None => position(self@, id@) is None,
            },
    {
        let mut i: usize = 0;
        while i < self.state.len()
            invariant
                i <= self.state.len(),
                self.wf(),
                forall|j: int| 0 <= j < i ==> self@[j].id != id@,
            decreases self.state.len() - i,
        {
            if self.state[i].id == *id {
                proof {
                    lemma_position(self@, id@, i as int);
                }
                return Some(i);
            }
            i += 1;
        }
        None
    }
}

/// Computes `next_status`.
pub fn next_status_of(workload: ResourceStatus, current: ResourceStatus, reported: ResourceStatus) -> (r:
    Option<ResourceStatus>)
    ensures
        r == next_status(workload, current, reported),
{
    if reported == ResourceStatus::Terminated {
        None
    } else if reported == ResourceStatus::Failed {
        if current == ResourceStatus::Destroying || workload == ResourceStatus::Destroying {
            None
        } else {
            Some(ResourceStatus::Failed)
        }
    } else if current == ResourceStatus::Destroying {
        Some(ResourceStatus::Destroying)
    } else if current == ResourceStatus::Failed && reported == ResourceStatus::Running {
        Some(ResourceStatus::Failed)
    } else {
        Some(reported)
    }
}

/// The indices of the workers that take new instances, in rising order.
pub fn eligible_workers(workers: &Vec<Worker>) -> (r: Vec<usize>)
    ensures
        r@ == ready_indices(workers@, workers.len() as int),
{
    let mut ready: Vec<usize> = Vec::new();
    let mut i: usize = 0;
    while i < workers.len()
        invariant
            i <= workers.len(),
            ready@ == ready_indices(workers@, i as int),
        decreases workers.len() - i,
    {
        if workers[i].is_ready() {
            ready.push(i);
        }
        i += 1;
    }
    ready
}

/// The index of one of the workers that take new instances, drawn at
/// random; `None` if and only if there is none.
pub fn eligible_worker(workers: &Vec<Worker>) -> (r: Option<usize>)
    ensures
        r is None <==> forall|i: int|
            0 <= i < workers.len() ==> (#[trigger] workers[i]).state != WorkerState::Ready,
        r matches Some(i) ==> i < workers.len() && workers[i as int].state == WorkerState::Ready,
{
    let ready = eligible_workers(workers);
    proof {
        lemma_ready_indices(workers@, workers.len() as int);
    }
    match crate::random::choose_index(ready.len()) {
        None => {
            assert forall|i: int| 0 <= i < workers.len() implies (#[trigger] workers[i]).state
                != WorkerState::Ready by {
                if workers[i].state == WorkerState::Ready {
                    assert(ready@.contains(i as usize));
                }
            }
            None
        },
        Some(k) => {
            let i = ready[k];
            assert(workers[i as int].state == WorkerState::Ready);
            Some(i)
        },
    }
}

/// The id of an instance: the workload's name, a hyphen, the suffix.
pub fn instance_id(name: &String, suffix: &String) -> (r: String)
    ensures
        r@ == name@ + "-"@ + suffix@,
{
    let mut id = name.clone();
    id.append("-");
    id.append(suffix.as_str());
    id
}

} // verus!
