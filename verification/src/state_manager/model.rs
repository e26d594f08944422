//! The state manager as mathematics: the workloads as a sequence of values,
//! and what requests, reports and reconciliation make of them.

use crate::definition::WorkloadDefinitionView;
use crate::naming::is_suffix;
use crate::proto::{InstanceMetricView, InstanceSchedulingView, ResourceStatus, WorkloadRequestKind};
use crate::random::is_lower_alphanumeric;
use crate::scheduler::{
    EventView, SchedulerErrorView, Worker, WorkerState, WorkerView, WorkloadRequestView,
};
use vstd::prelude::*;

verus! {

/// An instance as a value.
pub struct InstanceView {
    pub id: Seq<char>,
    pub status: ResourceStatus,
    pub worker_id: Option<Seq<char>>,
    pub definition: Seq<char>,
}

/// A workload with its instances as a value.
pub struct WorkloadView {
    pub replicas: u16,
    pub definition: WorkloadDefinitionView,
    pub document: Seq<char>,
    pub instances: Seq<InstanceView>,
    pub status: ResourceStatus,
    pub id: Seq<char>,
}

/// Where the workload `id` stands in `s`, if it is there.
pub open spec fn position(s: Seq<WorkloadView>, id: Seq<char>) -> Option<int> {
    if exists|i: int| 0 <= i < s.len() && s[i].id == id {
        Some(choose|i: int| 0 <= i < s.len() && s[i].id == id)
    } else {
        None
    }
}

/// Where the instance `id` stands in `s`: the index of its workload and its
/// index among that workload's instances.
pub open spec fn locate(s: Seq<WorkloadView>, id: Seq<char>) -> Option<(int, int)> {
    if exists|i: int, k: int|
        0 <= i < s.len() && 0 <= k < s[i].instances.len() && s[i].instances[k].id == id {
        let p = choose|p: (int, int)|
            0 <= p.0 < s.len() && 0 <= p.1 < s[p.0].instances.len() && s[p.0].instances[p.1].id
                == id;
        Some(p)
    } else {
        None
    }
}

/// What the state manager keeps true of its workloads: no two workloads share
/// an id, no two instances share an id wherever they stand, every instance has
/// a worker, and a workload is `Pending`, or `Destroying` with no replica
/// wanted.
pub open spec fn well_formed(s: Seq<WorkloadView>) -> bool {
    &&& forall|i: int, j: int| 0 <= i < j < s.len() ==> s[i].id != s[j].id
    &&& forall|i: int, k: int, j: int, l: int|
        0 <= i < s.len() && 0 <= k < s[i].instances.len() && 0 <= j < s.len() && 0 <= l
            < s[j].instances.len() && (i != j || k != l) ==> #[trigger] s[i].instances[k].id
            != #[trigger] s[j].instances[l].id
    &&& forall|i: int, k: int|
        0 <= i < s.len() && 0 <= k < s[i].instances.len()
            ==> #[trigger] s[i].instances[k].worker_id is Some
    &&& forall|i: int|
        0 <= i < s.len() ==> (#[trigger] s[i]).status == ResourceStatus::Pending || (s[i].status
            == ResourceStatus::Destroying && s[i].replicas == 0)
}

/// `a + b`, stopping at the largest replica count there is.
pub open spec fn saturating_sum(a: u16, b: u16) -> u16 {
    if a + b > u16::MAX {
        u16::MAX
    } else {
        (a + b) as u16
    }
}

/// `a - b`, stopping at zero.
pub open spec fn saturating_difference(a: u16, b: u16) -> u16 {
    if a < b {
        0
    } else {
        (a - b) as u16
    }
}

/// Whether the workload `id` is there and being destroyed.
pub open spec fn being_destroyed(s: Seq<WorkloadView>, id: Seq<char>) -> bool {
    position(s, id) matches Some(i) && s[i].status == ResourceStatus::Destroying
}

/// The workloads after a create request for `id` that declares `definition`.
/// A workload that is being destroyed stays as it is, whatever the request
/// declares. Otherwise a request that declares zero replicas is a destroy
/// request that declares zero replicas; any other adds a workload that is
/// not there, with the declared replica count and no instance, and gives one
/// that is there that many replicas more.
pub open spec fn create_workload(
    s: Seq<WorkloadView>,
    id: Seq<char>,
    definition: WorkloadDefinitionView,
    document: Seq<char>,
) -> Seq<WorkloadView> {
    if being_destroyed(s, id) {
        s
    } else if definition.replicas == Some(0u16) {
        destroy_workload(s, id, 0)
    } else {
        match position(s, id) {
            Some(i) => add_replicas(s, id, definition.declared_replicas()),
            None => s.push(
                WorkloadView {
                    replicas: definition.declared_replicas(),
                    definition,
                    document,
                    instances: Seq::empty(),
                    status: ResourceStatus::Pending,
                    id,
                },
            ),
        }
    }
}

/// What a create request is answered with. It fails on a workload that is
/// being destroyed, whatever it declares. On any other workload, and on one
/// that is not there, a request that declares zero replicas is answered as a
/// destroy request, and any other succeeds.
pub open spec fn create_response(
    s: Seq<WorkloadView>,
    id: Seq<char>,
    definition: WorkloadDefinitionView,
) -> Result<(), SchedulerErrorView> {
    if being_destroyed(s, id) {
        Err(SchedulerErrorView::CannotDoubleReplicas)
    } else if definition.replicas == Some(0u16) {
        destroy_response(s, id)
    } else {
        Ok(())
    }
}

/// What a destroy request is answered with: it fails on a workload that is
/// not there, and on no other.
pub open spec fn destroy_response(s: Seq<WorkloadView>, id: Seq<char>) -> Result<
    (),
    SchedulerErrorView,
> {
    match position(s, id) {
        Some(i) => Ok(()),
        None => Err(SchedulerErrorView::WorkloadDontExists(id)),
    }
}

/// The workloads after `id` was given `n` replicas more.
pub open spec fn add_replicas(s: Seq<WorkloadView>, id: Seq<char>, n: u16) -> Seq<WorkloadView> {
    match position(s, id) {
        Some(i) => s.update(i, WorkloadView { replicas: saturating_sum(s[i].replicas, n), ..s[i] }),
        None => s,
    }
}

/// The workloads after `n` replicas were taken from `id`.
pub open spec fn minus_replicas(s: Seq<WorkloadView>, id: Seq<char>, n: u16) -> Seq<WorkloadView> {
    match position(s, id) {
        Some(i) => s.update(
            i,
            WorkloadView { replicas: saturating_difference(s[i].replicas, n), ..s[i] },
        ),
        None => s,
    }
}

/// The workloads after a destroy request for `id` that declares `n` replicas.
/// A workload that wants more than `n` replicas loses `n`. Otherwise it is
/// torn down: it wants no replica any more and is `Destroying`, with the
/// instances it has. It is removed with its last instance, or by the next
/// pass of reconciliation if it has none. A workload that is already
/// `Destroying`, or not there, changes nothing.
pub open spec fn destroy_workload(s: Seq<WorkloadView>, id: Seq<char>, n: u16) -> Seq<
    WorkloadView,
> {
    match position(s, id) {
        Some(i) => if s[i].status == ResourceStatus::Destroying {
            s
        } else if s[i].replicas > n {
            minus_replicas(s, id, n)
        } else {
            s.update(i, WorkloadView { replicas: 0, status: ResourceStatus::Destroying, ..s[i] })
        },
        None => s,
    }
}

/// The workloads after a request.
pub open spec fn schedule_request(s: Seq<WorkloadView>, request: WorkloadRequestView) -> Seq<
    WorkloadView,
> {
    if request.action == WorkloadRequestKind::Create {
        create_workload(s, request.workload_id, request.definition, request.document)
    } else {
        destroy_workload(s, request.workload_id, request.definition.declared_replicas())
    }
}

/// What a request is answered with.
pub open spec fn schedule_response(s: Seq<WorkloadView>, request: WorkloadRequestView) -> Result<
    (),
    SchedulerErrorView,
> {
    if request.action == WorkloadRequestKind::Create {
        create_response(s, request.workload_id, request.definition)
    } else {
        destroy_response(s, request.workload_id)
    }
}

/// No two workloads share an id.
pub open spec fn distinct_ids(s: Seq<WorkloadView>) -> bool {
    forall|i: int, j: int| 0 <= i < j < s.len() ==> s[i].id != s[j].id
}

/// A workload that is being destroyed and has no instance left: there is
/// nothing to wait for.
pub open spec fn doomed(w: WorkloadView) -> bool {
    w.status == ResourceStatus::Destroying && w.instances.len() == 0
}

/// Where the first workload stands that is being destroyed and has no
/// instance left, if there is one.
#[verifier::opaque]
pub open spec fn first_doomed(s: Seq<WorkloadView>) -> Option<int> {
    if exists|i: int| 0 <= i < s.len() && doomed(#[trigger] s[i]) {
        Some(
            choose|i: int|
                0 <= i < s.len() && doomed(#[trigger] s[i]) && forall|j: int|
                    0 <= j < i ==> !doomed(#[trigger] s[j]),
        )
    } else {
        None
    }
}

/// The workloads without those that are being destroyed and have no instance
/// left, the others in their order.
#[verifier::opaque]
pub open spec fn reap(s: Seq<WorkloadView>) -> Seq<WorkloadView>
    decreases s.len(),
{
    match first_doomed(s) {
        Some(i) => if 0 <= i < s.len() {
            reap(s.remove(i))
        } else {
            s
        },
        None => s,
    }
}

/// What becomes of an instance's status when a report comes in, `None` where
/// the instance is to be removed. A terminated instance is removed. A failed
/// one is removed if it, or its workload, was being destroyed. An instance
/// that is being destroyed stays so until it is removed, and a failed one is
/// not revived by a report that it runs.
pub open spec fn next_status(
    workload: ResourceStatus,
    current: ResourceStatus,
    reported: ResourceStatus,
) -> Option<ResourceStatus> {
    if reported == ResourceStatus::Terminated {
        None
    } else if reported == ResourceStatus::Failed {
        if current == ResourceStatus::Destroying || workload == ResourceStatus::Destroying {
            None
        } else {
            Some(ResourceStatus::Failed)
        }
    } else if current == ResourceStatus::Destroying {
        Some(ResourceStatus::Destroying)
    } else if current == ResourceStatus::Failed && reported == ResourceStatus::Running {
        Some(ResourceStatus::Failed)
    } else {
        Some(reported)
    }
}

/// The workloads after the instance at `(i, k)` was taken away. A workload
/// that is being destroyed goes with its last instance.
pub open spec fn remove_instance_at(s: Seq<WorkloadView>, i: int, k: int) -> Seq<WorkloadView> {
    if s[i].status == ResourceStatus::Destroying && s[i].instances.len() == 1 {
        s.remove(i)
    } else {
        s.update(i, WorkloadView { instances: s[i].instances.remove(k), ..s[i] })
    }
}

/// The workloads after the instance `id` was taken away, if it was there.
pub open spec fn remove_instance(s: Seq<WorkloadView>, id: Seq<char>) -> Seq<WorkloadView> {
    match locate(s, id) {
        None => s,
        Some((i, k)) => remove_instance_at(s, i, k),
    }
}

/// The workloads after a report that the instance `id` is `reported`. A report
/// on an instance that is not there changes nothing.
pub open spec fn ingest(s: Seq<WorkloadView>, id: Seq<char>, reported: ResourceStatus) -> Seq<
    WorkloadView,
> {
    match locate(s, id) {
        None => s,
        Some((i, k)) => match next_status(s[i].status, s[i].instances[k].status, reported) {
            Some(status) => s.update(
                i,
                WorkloadView {
                    instances: s[i].instances.update(
                        k,
                        InstanceView { status, ..s[i].instances[k] },
                    ),
                    ..s[i]
                },
            ),
            None => remove_instance_at(s, i, k),
        },
    }
}

/// The hostnames of the workers that take new instances.
pub open spec fn ready_hosts(workers: Seq<WorkerView>) -> Set<Seq<char>> {
    Set::new(
        |h: Seq<char>|
            exists|i: int|
                0 <= i < workers.len() && (#[trigger] workers[i]).state == WorkerState::Ready
                    && workers[i].hostname == h,
    )
}

/// An instance id made for a workload of that name: the name, a hyphen, and
/// four lower-case letters or digits.
pub open spec fn is_instance_id(id: Seq<char>, name: Seq<char>) -> bool {
    &&& id.len() == name.len() + 5
    &&& id.subrange(0, name.len() as int) == name
    &&& id[name.len() as int] == '-'
    &&& forall|k: int| name.len() < k < id.len() ==> is_lower_alphanumeric(#[trigger] id[k])
}

/// The instance that reconciliation adds to a workload.
pub open spec fn new_instance(w: WorkloadView, id: Seq<char>, worker: Seq<char>) -> InstanceView {
    InstanceView {
        id,
        status: ResourceStatus::Pending,
        worker_id: Some(worker),
        definition: w.document,
    }
}

/// The workloads after the workload at `i` was given one more instance.
pub open spec fn place_at(s: Seq<WorkloadView>, i: int, id: Seq<char>, worker: Seq<char>) -> Seq<
    WorkloadView,
> {
    s.update(
        i,
        WorkloadView { instances: s[i].instances.push(new_instance(s[i], id, worker)), ..s[i] },
    )
}

/// A workload with more instances than it wants, after reconciliation: the
/// oldest instances, as many as there are too many, are `Destroying`.
pub open spec fn mark_excess(w: WorkloadView) -> WorkloadView {
    WorkloadView {
        instances: Seq::new(
            w.instances.len(),
            |k: int|
                if k < w.instances.len() - w.replicas {
                    InstanceView { status: ResourceStatus::Destroying, ..w.instances[k] }
                } else {
                    w.instances[k]
                },
        ),
        ..w
    }
}

/// What a pass of reconciliation may make of one workload. With as many
/// instances as wanted nothing changes; with too many the oldest are marked
/// (`mark_excess`); with too few, new ones are added behind the old ones, never
/// more than are missing, each `Pending`, on a worker that is ready, with the
/// workload's document and an id made for the workload.
pub open spec fn reconciled(pre: WorkloadView, post: WorkloadView, ready: Set<Seq<char>>) -> bool {
    if pre.instances.len() >= pre.replicas {
        post == mark_excess(pre)
    } else {
        &&& post == WorkloadView { instances: post.instances, ..pre }
        &&& pre.instances.len() <= post.instances.len() <= pre.replicas
        &&& post.instances.subrange(0, pre.instances.len() as int) == pre.instances
        &&& forall|k: int|
            pre.instances.len() <= k < post.instances.len() ==> {
                let added = #[trigger] post.instances[k];
                &&& is_instance_id(added.id, pre.definition.name)
                &&& added.worker_id is Some
                &&& ready.contains(added.worker_id->0)
                &&& added == new_instance(pre, added.id, added.worker_id->0)
            }
    }
}

/// The command that tells its worker to destroy an instance.
pub open spec fn destroy_event(instance: InstanceView) -> EventView {
    EventView::Schedule(
        instance.worker_id->0,
        InstanceSchedulingView {
            instance_id: instance.id,
            action: WorkloadRequestKind::Destroy,
            definition: instance.definition,
        },
    )
}

/// The command that tells its worker to create an instance.
pub open spec fn create_event(instance: InstanceView) -> EventView {
    EventView::Schedule(
        instance.worker_id->0,
        InstanceSchedulingView {
            instance_id: instance.id,
            action: WorkloadRequestKind::Create,
            definition: instance.definition,
        },
    )
}

/// The report by which controllers learn of a new instance before its worker
/// reports: sent in the scheduler's name, `Pending`.
pub open spec fn pending_event(instance: InstanceView) -> EventView {
    EventView::InstanceMetric(
        "scheduler"@,
        InstanceMetricView {
            instance_id: instance.id,
            status: ResourceStatus::Pending,
            metrics: "\"workload_id\": \""@ + instance.id + "\""@,
        },
    )
}

/// The destroy commands for the first `n` instances, oldest first.
pub open spec fn destroy_events(instances: Seq<InstanceView>, n: int) -> Seq<EventView>
    decreases n,
{
    if n <= 0 {
        Seq::empty()
    } else {
        destroy_events(instances, n - 1).push(destroy_event(instances[n - 1]))
    }
}

/// For each instance from index `from` up to `to`, its create command
/// followed by its pending report.
pub open spec fn create_events(instances: Seq<InstanceView>, from: int, to: int) -> Seq<EventView>
    decreases to - from,
{
    if to <= from {
        Seq::empty()
    } else {
        create_events(instances, from, to - 1).push(create_event(instances[to - 1])).push(
            pending_event(instances[to - 1]),
        )
    }
}

/// The events that reconciliation emits for one workload, given the workload
/// before and after.
pub open spec fn workload_events(pre: WorkloadView, post: WorkloadView) -> Seq<EventView> {
    if pre.instances.len() > pre.replicas {
        destroy_events(pre.instances, pre.instances.len() - pre.replicas)
    } else {
        create_events(post.instances, pre.instances.len() as int, post.instances.len() as int)
    }
}

/// The events that reconciliation emits for the first `n` workloads, in the
/// order of the workloads.
pub open spec fn reconcile_events(pre: Seq<WorkloadView>, post: Seq<WorkloadView>, n: int) -> Seq<
    EventView,
>
    decreases n,
{
    if n <= 0 {
        Seq::empty()
    } else {
        reconcile_events(pre, post, n - 1) + workload_events(pre[n - 1], post[n - 1])
    }
}

/// The workloads after an attempt to give the workload `workload_id` one more
/// instance, named by `suffix`, on `worker`. The instance is added if the
/// workload is there and has fewer instances than it wants, and no instance
/// has the new id yet. Otherwise nothing changes.
pub open spec fn place(
    s: Seq<WorkloadView>,
    workload_id: Seq<char>,
    suffix: Seq<char>,
    worker: Seq<char>,
) -> Seq<WorkloadView> {
    match placement(s, workload_id, suffix) {
        Some(i) => place_at(s, i, s[i].definition.name + "-"@ + suffix, worker),
        None => s,
    }
}

/// The index of the workload that `place` adds to, `None` where it adds
/// nothing.
pub open spec fn placement(s: Seq<WorkloadView>, workload_id: Seq<char>, suffix: Seq<char>) -> Option<
    int,
> {
    match position(s, workload_id) {
        Some(i) => if s[i].instances.len() < s[i].replicas && locate(
            s,
            s[i].definition.name + "-"@ + suffix,
        ) is None {
            Some(i)
        } else {
            None
        },
        None => None,
    }
}

/// The events that go with `place`: the create command and the pending
/// report of the new instance, or nothing.
pub open spec fn place_events(
    s: Seq<WorkloadView>,
    workload_id: Seq<char>,
    suffix: Seq<char>,
    worker: Seq<char>,
) -> Seq<EventView> {
    match placement(s, workload_id, suffix) {
        Some(i) => {
            let added = new_instance(s[i], s[i].definition.name + "-"@ + suffix, worker);
            seq![create_event(added), pending_event(added)]
        },
        None => Seq::empty(),
    }
}

/// The indices of the workers among the first `n` that take new instances,
/// in rising order.
pub open spec fn ready_indices(workers: Seq<Worker>, n: int) -> Seq<usize>
    decreases n,
{
    if n <= 0 {
        Seq::empty()
    } else if workers[n - 1].state == WorkerState::Ready {
        ready_indices(workers, n - 1).push((n - 1) as usize)
    } else {
        ready_indices(workers, n - 1)
    }
}

/// Some worker takes new instances.
pub open spec fn some_ready(workers: Seq<WorkerView>) -> bool {
    exists|i: int| 0 <= i < workers.len() && (#[trigger] workers[i]).state == WorkerState::Ready
}

/// Every name that an instance of a workload called `name` could be given
/// is taken. There are 1679616 such names.
pub open spec fn exhausted(s: Seq<WorkloadView>, name: Seq<char>) -> bool {
    forall|suffix: Seq<char>|
        is_suffix(suffix) ==> (#[trigger] locate(s, name + "-"@ + suffix)) is Some
}

/// How many instances the first `n` workloads have together.
pub open spec fn instance_count(s: Seq<WorkloadView>, n: int) -> int
    decreases n,
{
    if n <= 0 {
        0
    } else {
        instance_count(s, n - 1) + s[n - 1].instances.len()
    }
}

/// Every instance id of `s` is an instance id of `t`.
pub open spec fn ids_kept(s: Seq<WorkloadView>, t: Seq<WorkloadView>) -> bool {
    forall|id: Seq<char>| (#[trigger] locate(s, id)) is Some ==> locate(t, id) is Some
}

/// The events that a pass of reconciliation emits, given the workloads before
/// and after it: those of `reconcile_events` for the workloads that were not
/// reaped.
pub open spec fn pass_events(pre: Seq<WorkloadView>, post: Seq<WorkloadView>) -> Seq<EventView> {
    reconcile_events(reap(pre), post, post.len() as int)
}

/// What one pass of reconciliation makes of the workloads `pre`, with the
/// registry `workers`. The workloads that are being destroyed and have no
/// instance left are removed (`reap`). Of those that stay, `post` holds one
/// for each, in their order, such that every workload is reconciled
/// (`reconciled`), no instance id is lost, and a workload is left with fewer
/// instances than it wants only if no worker is ready or every name for its
/// instances is taken. A workload that was being destroyed and had no
/// instance left is not there afterwards; every other workload is found
/// under its id, reconciled.
pub open spec fn reconciliation(
    pre: Seq<WorkloadView>,
    post: Seq<WorkloadView>,
    workers: Seq<WorkerView>,
) -> bool {
    let kept = reap(pre);
    &&& post.len() == kept.len()
    &&& forall|i: int|
        0 <= i < kept.len() ==> reconciled(kept[i], #[trigger] post[i], ready_hosts(workers))
    &&& forall|i: int|
        0 <= i < kept.len() && (#[trigger] post[i]).instances.len() < kept[i].replicas
            ==> !some_ready(workers) || exhausted(post, kept[i].definition.name)
    &&& ids_kept(pre, post)
    &&& forall|i: int|
        0 <= i < pre.len() && doomed(#[trigger] pre[i]) ==> position(post, pre[i].id) is None
    &&& forall|i: int|
        0 <= i < pre.len() && !doomed(#[trigger] pre[i]) ==> {
            let found = post[position(post, pre[i].id)->0];
            &&& position(post, pre[i].id) is Some
            &&& reconciled(pre[i], found, ready_hosts(workers))
            &&& found.instances.len() < pre[i].replicas ==> !some_ready(workers) || exhausted(
                post,
                pre[i].definition.name,
            )
        }
}

} // verus!
