//! Laws of the scheduler: what follows from the definitions of the registry
//! and of the state manager, proved once for every state.

use crate::definition::WorkloadDefinitionView;
use crate::grpc::{code_of, Code};
use crate::manager::MAX_WORKERS;
use crate::manager::model::{
    apply, apply_actions, disconnect, manager_ok, register, register_response, registry_ok,
    worker_position, ActionView, ManagerView,
};
use crate::naming::SUFFIXES;
use crate::proto::{
    InstanceMetricView, ResourceStatus, StatusPayloadView, WorkerStatusView, WorkloadRequestKind,
};
use crate::scheduler::{
    Channel, EventView, SchedulerErrorView, WorkerState, WorkerView, WorkloadRequestView,
};
use crate::state_manager::lemmas::{
    lemma_exhausted_is_full, lemma_locate, lemma_locate_none, lemma_locate_some,
    lemma_place_keeps_well_formed, lemma_position, lemma_position_some, lemma_reap,
    lemma_reap_keeps, lemma_reap_keeps_absent, lemma_reap_removes,
    lemma_remove_instance_keeps_well_formed, lemma_removed_is_absent,
    lemma_replicas_keep_well_formed,
};
use crate::state_manager::model::{
    being_destroyed, create_event, create_workload, destroy_workload, doomed, exhausted, ingest,
    instance_count, locate, mark_excess, new_instance, place, place_at, placement, position,
    ready_hosts, reap, reconciled, reconciliation, schedule_request, schedule_response,
    some_ready, well_formed, InstanceView, WorkloadView,
};
use vstd::prelude::*;

verus! {

/// The ids of the instances, in order.
pub open spec fn instance_ids(instances: Seq<InstanceView>) -> Seq<Seq<char>> {
    instances.map_values(|i: InstanceView| i.id)
}

/// The workloads after each of `ids`, in order, was reported `Terminated`.
pub open spec fn drain(s: Seq<WorkloadView>, ids: Seq<Seq<char>>) -> Seq<WorkloadView>
    decreases ids.len(),
{
    if ids.len() == 0 {
        s
    } else {
        drain(ingest(s, ids[0], ResourceStatus::Terminated), ids.drop_first())
    }
}

/// The workloads after one instance was placed for each of `suffixes`, in
/// order, on the worker of the same index in `workers`.
pub open spec fn place_all(
    s: Seq<WorkloadView>,
    workload_id: Seq<char>,
    suffixes: Seq<Seq<char>>,
    workers: Seq<Seq<char>>,
) -> Seq<WorkloadView>
    decreases suffixes.len(),
{
    if suffixes.len() == 0 {
        s
    } else {
        place(
            place_all(s, workload_id, suffixes.drop_last(), workers),
            workload_id,
            suffixes.last(),
            workers[suffixes.len() - 1],
        )
    }
}

/// A status that an instance has while all is well.
pub open spec fn is_live(status: ResourceStatus) -> bool {
    status == ResourceStatus::Pending || status == ResourceStatus::Running
}

/// With a worker that is ready, one pass of reconciliation gives a workload
/// that has too few instances exactly the instances it wants, unless the
/// names for its instances ran out; and if its instances were all pending or
/// running before, they all are afterwards. The workloads are counted as the
/// pass leaves them: without those that it reaps.
pub proof fn law_reconciliation_converges(
    pre: Seq<WorkloadView>,
    post: Seq<WorkloadView>,
    workers: Seq<WorkerView>,
    i: int,
)
    requires
        reconciliation(pre, post, workers),
        0 <= i < reap(pre).len(),
        some_ready(workers),
        !exhausted(post, reap(pre)[i].definition.name),
        reap(pre)[i].instances.len() <= reap(pre)[i].replicas,
        forall|k: int|
            0 <= k < reap(pre)[i].instances.len() ==> is_live(
                #[trigger] reap(pre)[i].instances[k].status,
            ),
    ensures
        post[i].id == reap(pre)[i].id,
        post[i].replicas == reap(pre)[i].replicas,
        post[i].instances.len() == post[i].replicas,
        forall|k: int|
            0 <= k < post[i].instances.len() ==> is_live(#[trigger] post[i].instances[k].status),
{
    let kept = reap(pre);
    assert(reconciled(kept[i], post[i], ready_hosts(workers)));
    law_reconciled_instances_live(kept[i], post[i], ready_hosts(workers));
}

/// The same, for a workload named by its place before the pass: with a
/// worker that is ready and a name to spare, a workload that is not reaped
/// and has too few instances is found under its id after the pass with
/// exactly the instances it wants.
pub proof fn law_workload_converges(
    pre: Seq<WorkloadView>,
    post: Seq<WorkloadView>,
    workers: Seq<WorkerView>,
    i: int,
)
    requires
        reconciliation(pre, post, workers),
        0 <= i < pre.len(),
        !doomed(pre[i]),
        some_ready(workers),
        !exhausted(post, pre[i].definition.name),
        pre[i].instances.len() <= pre[i].replicas,
    ensures
        position(post, pre[i].id) is Some,
        post[position(post, pre[i].id)->0].id == pre[i].id,
        post[position(post, pre[i].id)->0].replicas == pre[i].replicas,
        post[position(post, pre[i].id)->0].instances.len() == pre[i].replicas,
{
    let found = post[position(post, pre[i].id)->0];
    assert(reconciled(pre[i], found, ready_hosts(workers)));
    lemma_reconciled_count(pre[i], found, ready_hosts(workers));
}

/// Reconciliation never gives a workload more instances than it wants.
proof fn lemma_reconciled_count(
    pre: WorkloadView,
    post: WorkloadView,
    ready: Set<Seq<char>>,
)
    requires
        reconciled(pre, post, ready),
        pre.instances.len() <= pre.replicas,
    ensures
        post.id == pre.id,
        post.replicas == pre.replicas,
        post.instances.len() <= pre.replicas,
{
    if pre.instances.len() == pre.replicas {
        assert(mark_excess(pre).instances.len() == pre.instances.len());
    }
}

/// Names do not run out while there are fewer instances than suffixes:
/// with fewer than 1679616 instances in all, some name is free for a new
/// instance of any workload.
pub proof fn law_names_suffice(s: Seq<WorkloadView>, name: Seq<char>)
    requires
        instance_count(s, s.len() as int) < SUFFIXES,
    ensures
        !exhausted(s, name),
{
    if exhausted(s, name) {
        lemma_exhausted_is_full(s, name);
    }
}

/// A workload that has exactly the instances it wants is left as it is by
/// every further pass of reconciliation.
pub proof fn law_reconciliation_is_stable(
    pre: Seq<WorkloadView>,
    post: Seq<WorkloadView>,
    workers: Seq<WorkerView>,
    i: int,
)
    requires
        reconciliation(pre, post, workers),
        0 <= i < reap(pre).len(),
        reap(pre)[i].instances.len() == reap(pre)[i].replicas,
    ensures
        post[i] == reap(pre)[i],
{
    let kept = reap(pre);
    assert(reconciled(kept[i], post[i], ready_hosts(workers)));
    assert(post[i] == mark_excess(kept[i]));
    assert(mark_excess(kept[i]).instances =~= kept[i].instances);
}

/// What a pass of reconciliation reaps: a workload that is being destroyed
/// and has no instance is gone after the pass; every other workload is still
/// there, under its id, with the replicas it wanted.
pub proof fn law_reaping(
    pre: Seq<WorkloadView>,
    post: Seq<WorkloadView>,
    workers: Seq<WorkerView>,
    i: int,
)
    requires
        well_formed(pre),
        reconciliation(pre, post, workers),
        0 <= i < pre.len(),
    ensures
        doomed(pre[i]) ==> forall|j: int| 0 <= j < post.len() ==> (#[trigger] post[j]).id
            != pre[i].id,
        !doomed(pre[i]) ==> exists|j: int|
            0 <= j < post.len() && (#[trigger] post[j]).id == pre[i].id && post[j].replicas
                == pre[i].replicas && post[j].status == pre[i].status,
{
    let kept = reap(pre);
    if doomed(pre[i]) {
        lemma_reap_removes(pre, i);
        assert forall|j: int| 0 <= j < post.len() implies (#[trigger] post[j]).id
            != pre[i].id by {
            assert(reconciled(kept[j], post[j], ready_hosts(workers)));
            if kept[j].id == pre[i].id {
                assert(position(kept, pre[i].id) is Some);
            }
        }
    } else {
        lemma_reap_keeps(pre, i);
        lemma_position_some(kept, pre[i].id);
        let j = position(kept, pre[i].id)->0;
        assert(reconciled(kept[j], post[j], ready_hosts(workers)));
    }
}

/// Reconciliation never gives a workload more instances than it wants, and a
/// workload whose instances were all pending or running has only such
/// instances afterwards.
pub proof fn law_reconciled_instances_live(pre: WorkloadView, post: WorkloadView, ready: Set<Seq<char>>)
    requires
        reconciled(pre, post, ready),
        pre.instances.len() <= pre.replicas,
        forall|k: int| 0 <= k < pre.instances.len() ==> is_live(#[trigger] pre.instances[k].status),
    ensures
        post.instances.len() <= pre.replicas,
        post.replicas == pre.replicas,
        forall|k: int|
            0 <= k < post.instances.len() ==> is_live(#[trigger] post.instances[k].status),
        ready.len() == 0 && ready.finite() ==> post == pre,
{
    if pre.instances.len() == pre.replicas {
        assert forall|k: int| 0 <= k < post.instances.len() implies is_live(
            #[trigger] post.instances[k].status,
        ) by {
            assert(post.instances[k] == pre.instances[k]);
        }
        assert(post.instances =~= pre.instances);
    } else {
        assert forall|k: int| 0 <= k < post.instances.len() implies is_live(
            #[trigger] post.instances[k].status,
        ) by {
            if k < pre.instances.len() {
                assert(post.instances.subrange(0, pre.instances.len() as int)[k]
                    == post.instances[k]);
            }
        }
        if ready.len() == 0 && ready.finite() {
            if post.instances.len() > pre.instances.len() {
                let added = post.instances[pre.instances.len() as int];
                assert(ready.contains(added.worker_id->0));
            }
            assert(post.instances =~= post.instances.subrange(0, pre.instances.len() as int));
        }
    }
}

/// Every draw of a name that no instance has yet brings the workload one
/// instance closer to the count it wants: after as many such draws as
/// instances are missing, the workload has exactly the instances it wants,
/// the old ones as they were and the new ones pending.
pub proof fn law_draws_reach_replicas(
    s: Seq<WorkloadView>,
    workload_id: Seq<char>,
    suffixes: Seq<Seq<char>>,
    workers: Seq<Seq<char>>,
)
    requires
        well_formed(s),
        position(s, workload_id) is Some,
        workers.len() == suffixes.len(),
        s[position(s, workload_id)->0].instances.len() + suffixes.len() == s[position(
            s,
            workload_id,
        )->0].replicas,
        forall|a: int|
            0 <= a < suffixes.len() ==> locate(
                s,
                s[position(s, workload_id)->0].definition.name + "-"@ + #[trigger] suffixes[a],
            ) is None,
        forall|a: int, b: int|
            0 <= a < b < suffixes.len() ==> s[position(s, workload_id)->0].definition.name + "-"@
                + suffixes[a] != s[position(s, workload_id)->0].definition.name + "-"@
                + suffixes[b],
    ensures
        ({
            let i = position(s, workload_id)->0;
            let t = place_all(s, workload_id, suffixes, workers);
            &&& well_formed(t)
            &&& t.len() == s.len()
            &&& position(t, workload_id) == Some(i)
            &&& t[i].replicas == s[i].replicas
            &&& t[i].instances.len() == t[i].replicas
            &&& t[i].instances.subrange(0, s[i].instances.len() as int) == s[i].instances
            &&& forall|k: int|
                s[i].instances.len() <= k < t[i].instances.len() ==> (#[trigger] t[i].instances[k])
                    == new_instance(
                    s[i],
                    s[i].definition.name + "-"@ + suffixes[k - s[i].instances.len()],
                    workers[k - s[i].instances.len()],
                )
        }),
{
    lemma_place_all(s, workload_id, suffixes, workers, suffixes.len() as int);
    assert(suffixes.subrange(0, suffixes.len() as int) =~= suffixes);
}

/// `place_all` over the first `n` draws.
proof fn lemma_place_all(
    s: Seq<WorkloadView>,
    workload_id: Seq<char>,
    suffixes: Seq<Seq<char>>,
    workers: Seq<Seq<char>>,
    n: int,
)
    requires
        well_formed(s),
        position(s, workload_id) is Some,
        0 <= n <= suffixes.len(),
        workers.len() == suffixes.len(),
        s[position(s, workload_id)->0].instances.len() + suffixes.len() <= s[position(
            s,
            workload_id,
        )->0].replicas,
        forall|a: int|
            0 <= a < suffixes.len() ==> locate(
                s,
                s[position(s, workload_id)->0].definition.name + "-"@ + #[trigger] suffixes[a],
            ) is None,
        forall|a: int, b: int|
            0 <= a < b < suffixes.len() ==> s[position(s, workload_id)->0].definition.name + "-"@
                + suffixes[a] != s[position(s, workload_id)->0].definition.name + "-"@
                + suffixes[b],
    ensures
        ({
            let i = position(s, workload_id)->0;
            let t = place_all(s, workload_id, suffixes.subrange(0, n), workers);
            &&& well_formed(t)
            &&& t.len() == s.len()
            &&& position(t, workload_id) == Some(i)
            &&& forall|j: int| 0 <= j < s.len() && j != i ==> t[j] == s[j]
            &&& t[i] == (WorkloadView { instances: t[i].instances, ..s[i] })
            &&& t[i].instances.len() == s[i].instances.len() + n
            &&& t[i].instances.subrange(0, s[i].instances.len() as int) == s[i].instances
            &&& forall|k: int|
                s[i].instances.len() <= k < t[i].instances.len() ==> (#[trigger] t[i].instances[k])
                    == new_instance(
                    s[i],
                    s[i].definition.name + "-"@ + suffixes[k - s[i].instances.len()],
                    workers[k - s[i].instances.len()],
                )
        }),
    decreases n,
{
    let i = position(s, workload_id)->0;
    lemma_position_some(s, workload_id);
    let name = s[i].definition.name;
    if n == 0 {
        assert(suffixes.subrange(0, 0) =~= Seq::<Seq<char>>::empty());
        let t = place_all(s, workload_id, suffixes.subrange(0, 0), workers);
        assert(t == s);
        assert(t[i].instances.subrange(0, s[i].instances.len() as int) =~= s[i].instances);
    } else {
        lemma_place_all(s, workload_id, suffixes, workers, n - 1);
        let head = suffixes.subrange(0, n);
        assert(head.drop_last() =~= suffixes.subrange(0, n - 1));
        assert(head.last() == suffixes[n - 1]);
        let u = place_all(s, workload_id, suffixes.subrange(0, n - 1), workers);
        let t = place_all(s, workload_id, head, workers);
        let id = name + "-"@ + suffixes[n - 1];
        assert(t == place(u, workload_id, suffixes[n - 1], workers[n - 1]));
        // the new id is free in u: it is free in s and differs from the ids added so far
        assert(locate(u, id) is None) by {
            lemma_locate_none(s, id);
            if locate(u, id) is Some {
                lemma_locate_some(u, id);
                let (a, b) = locate(u, id)->0;
                if a != i {
                    assert(u[a] == s[a]);
                    assert(s[a].instances[b].id != id);
                } else if b < s[i].instances.len() {
                    assert(u[i].instances.subrange(0, s[i].instances.len() as int)[b]
                        == u[i].instances[b]);
                    assert(s[i].instances[b].id != id);
                } else {
                    assert(u[i].instances[b].id == name + "-"@ + suffixes[b
                        - s[i].instances.len()]);
                }
            }
        }
        assert(placement(u, workload_id, suffixes[n - 1]) == Some(i));
        assert(t == place_at(u, i, id, workers[n - 1]));
        lemma_place_keeps_well_formed(u, i, id, workers[n - 1]);
        lemma_position(t, workload_id, i);
        assert(t[i].instances.subrange(0, s[i].instances.len() as int) =~= u[i].instances.subrange(
            0,
            s[i].instances.len() as int,
        ));
        assert forall|k: int| s[i].instances.len() <= k < t[i].instances.len() implies (
        #[trigger] t[i].instances[k]) == new_instance(
            s[i],
            name + "-"@ + suffixes[k - s[i].instances.len()],
            workers[k - s[i].instances.len()],
        ) by {
            if k < u[i].instances.len() {
                assert(t[i].instances[k] == u[i].instances[k]);
            }
        }
    }
}

/// A destroy request that declares at least as many replicas as the workload
/// wants tears the workload down: it is `Destroying`, wants no replica, and
/// keeps the instances it has. It is gone once each of its instances was
/// reported `Terminated` and a pass of reconciliation has reaped what was
/// left.
pub proof fn law_destroy_removes(s: Seq<WorkloadView>, workload_id: Seq<char>, declared: u16)
    requires
        well_formed(s),
        position(s, workload_id) is Some,
        s[position(s, workload_id)->0].status != ResourceStatus::Destroying,
        declared >= s[position(s, workload_id)->0].replicas,
    ensures
        ({
            let i = position(s, workload_id)->0;
            let t = destroy_workload(s, workload_id, declared);
            let quiet = reap(drain(t, instance_ids(s[i].instances)));
            &&& well_formed(t)
            &&& t == s.update(
                i,
                WorkloadView { replicas: 0, status: ResourceStatus::Destroying, ..s[i] },
            )
            &&& position(t, workload_id) == Some(i)
            &&& well_formed(quiet)
            &&& position(quiet, workload_id) is None
        }),
{
    let i = position(s, workload_id)->0;
    lemma_position_some(s, workload_id);
    let t = destroy_workload(s, workload_id, declared);
    lemma_replicas_keep_well_formed(s, t, i);
    lemma_position(t, workload_id, i);
    if s[i].instances.len() == 0 {
        assert(instance_ids(s[i].instances) =~= Seq::<Seq<char>>::empty());
        assert(drain(t, instance_ids(s[i].instances)) == t);
        lemma_reap(t);
        lemma_reap_removes(t, i);
    } else {
        lemma_drain(t, i);
        let d = drain(t, instance_ids(s[i].instances));
        lemma_reap(d);
        lemma_reap_keeps_absent(d, workload_id);
    }
}

/// A workload that is being destroyed is gone once each of its instances was
/// reported `Terminated`.
proof fn lemma_drain(s: Seq<WorkloadView>, i: int)
    requires
        well_formed(s),
        0 <= i < s.len(),
        s[i].status == ResourceStatus::Destroying,
        s[i].instances.len() > 0,
    ensures
        well_formed(drain(s, instance_ids(s[i].instances))),
        position(drain(s, instance_ids(s[i].instances)), s[i].id) is None,
    decreases s[i].instances.len(),
{
    let ids = instance_ids(s[i].instances);
    let first = ids[0];
    assert(first == s[i].instances[0].id);
    lemma_locate(s, first, i, 0);
    let t = ingest(s, first, ResourceStatus::Terminated);
    lemma_remove_instance_keeps_well_formed(s, i, 0);
    if s[i].instances.len() == 1 {
        assert(t == s.remove(i));
        lemma_removed_is_absent(s, i);
        assert(ids.drop_first() =~= Seq::<Seq<char>>::empty());
        assert(drain(t, ids.drop_first()) == t);
    } else {
        assert(t == s.update(i, WorkloadView { instances: s[i].instances.remove(0), ..s[i] }));
        assert(ids.drop_first() =~= instance_ids(t[i].instances));
        lemma_drain(t, i);
    }
}

/// A workload that was created, torn down by a destroy request that declares
/// at least as many replicas as it wants, whose instances were all reported
/// `Terminated`, and that a pass of reconciliation has reaped, is created
/// afresh by the next create request that declares a replica: it wants the
/// replicas which that request declares, and has no instance.
pub proof fn law_create_after_teardown(
    s: Seq<WorkloadView>,
    workload_id: Seq<char>,
    declared: u16,
    definition: WorkloadDefinitionView,
    document: Seq<char>,
)
    requires
        well_formed(s),
        position(s, workload_id) is Some,
        s[position(s, workload_id)->0].status != ResourceStatus::Destroying,
        declared >= s[position(s, workload_id)->0].replicas,
        definition.replicas != Some(0u16),
    ensures
        ({
            let i = position(s, workload_id)->0;
            let quiet = reap(
                drain(destroy_workload(s, workload_id, declared), instance_ids(s[i].instances)),
            );
            let t = create_workload(quiet, workload_id, definition, document);
            &&& position(t, workload_id) == Some(quiet.len() as int)
            &&& t.last().replicas == definition.declared_replicas()
            &&& t.last().instances.len() == 0
            &&& t.last().status == ResourceStatus::Pending
            &&& t.last().document == document
            &&& well_formed(t)
        }),
{
    law_destroy_removes(s, workload_id, declared);
    let i = position(s, workload_id)->0;
    let quiet = reap(
        drain(destroy_workload(s, workload_id, declared), instance_ids(s[i].instances)),
    );
    law_create_adds(quiet, workload_id, definition, document);
}

/// A create request that declares a replica, for a workload that is not
/// there, adds it behind the others, with the replicas and the document of
/// the request and no instance.
pub proof fn law_create_adds(
    s: Seq<WorkloadView>,
    workload_id: Seq<char>,
    definition: WorkloadDefinitionView,
    document: Seq<char>,
)
    requires
        well_formed(s),
        position(s, workload_id) is None,
        definition.replicas != Some(0u16),
    ensures
        ({
            let t = create_workload(s, workload_id, definition, document);
            &&& t.len() == s.len() + 1
            &&& position(t, workload_id) == Some(s.len() as int)
            &&& t.last().replicas == definition.declared_replicas()
            &&& t.last().instances.len() == 0
            &&& t.last().status == ResourceStatus::Pending
            &&& t.last().document == document
            &&& well_formed(t)
        }),
{
    let t = create_workload(s, workload_id, definition, document);
    assert forall|a: int, b: int| 0 <= a < b < t.len() implies t[a].id != t[b].id by {
        if b == s.len() {
            assert(t[a] == s[a]);
        }
    }
    assert(well_formed(t));
    lemma_position(t, workload_id, s.len() as int);
}

/// A destroy request for a workload that is already being destroyed changes
/// nothing and is answered with success.
pub proof fn law_destroy_twice(s: Seq<WorkloadView>, request: WorkloadRequestView)
    requires
        position(s, request.workload_id) is Some,
        s[position(s, request.workload_id)->0].status == ResourceStatus::Destroying,
        request.action == WorkloadRequestKind::Destroy,
    ensures
        schedule_request(s, request) == s,
        schedule_response(s, request) == Ok::<(), SchedulerErrorView>(()),
{
}

/// A create request for a workload that is being destroyed changes nothing
/// and is refused, whatever it declares: also where it declares zero
/// replicas.
pub proof fn law_create_while_destroying(s: Seq<WorkloadView>, request: WorkloadRequestView)
    requires
        being_destroyed(s, request.workload_id),
        request.action == WorkloadRequestKind::Create,
    ensures
        schedule_request(s, request) == s,
        schedule_response(s, request) == Err::<(), SchedulerErrorView>(
            SchedulerErrorView::CannotDoubleReplicas,
        ),
{
}

/// A create request that declares zero replicas, for a workload that is not
/// being destroyed, is a destroy request: it does to the workloads, and is
/// answered, as the same request would be if it asked for destruction.
pub proof fn law_create_zero_is_destroy(s: Seq<WorkloadView>, request: WorkloadRequestView)
    requires
        request.action == WorkloadRequestKind::Create,
        request.definition.replicas == Some(0u16),
        !being_destroyed(s, request.workload_id),
    ensures
        schedule_request(s, request) == schedule_request(
            s,
            WorkloadRequestView { action: WorkloadRequestKind::Destroy, ..request },
        ),
        schedule_response(s, request) == schedule_response(
            s,
            WorkloadRequestView { action: WorkloadRequestKind::Destroy, ..request },
        ),
        schedule_request(s, request) == destroy_workload(s, request.workload_id, 0),
{
}

/// The document of a workload reaches the worker as the controller sent it:
/// the command that creates an instance carries the document of the create
/// request that made the workload.
pub proof fn law_document_is_forwarded(
    s: Seq<WorkloadView>,
    workload_id: Seq<char>,
    definition: WorkloadDefinitionView,
    document: Seq<char>,
    instance_id: Seq<char>,
    worker: Seq<char>,
)
    requires
        well_formed(s),
        position(s, workload_id) is None,
        definition.replicas != Some(0u16),
    ensures
        ({
            let t = create_workload(s, workload_id, definition, document);
            let added = new_instance(t.last(), instance_id, worker);
            &&& added.definition == document
            &&& create_event(added) matches EventView::Schedule(h, command) && command.definition
                == document && h == worker
        }),
{
}

/// A worker that registers again after its channel was closed is accepted
/// and keeps its id: no new id is given out, and the worker is ready if its
/// new channel is open.
pub proof fn law_reconnect_keeps_id(
    m: ManagerView,
    first: Channel,
    second: Channel,
    addr: Seq<char>,
    again: Seq<char>,
    hostname: Seq<char>,
)
    requires
        manager_ok(m),
        register_response(m, hostname) is Ok,
    ensures
        ({
            let registered = register(m, first, addr, hostname);
            let closed = disconnect(registered, first.id);
            let back = register(closed, second, again, hostname);
            &&& worker_position(registered.workers, hostname) is Some
            &&& worker_position(back.workers, hostname) == worker_position(
                registered.workers,
                hostname,
            )
            &&& register_response(closed, hostname) is Ok
            &&& back.worker_increment == registered.worker_increment
            &&& back.workers.len() == registered.workers.len()
            &&& back.workers[worker_position(back.workers, hostname)->0].id
                == registered.workers[worker_position(registered.workers, hostname)->0].id
            &&& back.workers[worker_position(back.workers, hostname)->0].channel == second
            &&& !second.closed ==> back.workers[worker_position(back.workers, hostname)->0].state
                == WorkerState::Ready
        }),
{
    let registered = register(m, first, addr, hostname);
    lemma_registered(m, first, addr, hostname);
    let i = worker_position(registered.workers, hostname)->0;
    let closed = disconnect(registered, first.id);
    assert(closed.workers[i].hostname == hostname);
    assert forall|a: int, b: int| 0 <= a < b < closed.workers.len() implies closed.workers[a].hostname
        != closed.workers[b].hostname by {
        assert(closed.workers[a].hostname == registered.workers[a].hostname);
        assert(closed.workers[b].hostname == registered.workers[b].hostname);
    }
    crate::manager::lemmas::lemma_worker_position(closed.workers, hostname, i);
    assert(closed.workers[i].channel.closed);
    let back = register(closed, second, again, hostname);
    assert(back.workers[i].hostname == hostname);
    assert forall|a: int, b: int| 0 <= a < b < back.workers.len() implies back.workers[a].hostname
        != back.workers[b].hostname by {
        assert(back.workers[a].hostname == closed.workers[a].hostname);
        assert(back.workers[b].hostname == closed.workers[b].hostname);
    }
    crate::manager::lemmas::lemma_worker_position(back.workers, hostname, i);
}

/// After a registration that is accepted, the hostname is in the registry,
/// with the channel that came with the registration, and the registry is as
/// it should be.
proof fn lemma_registered(m: ManagerView, channel: Channel, addr: Seq<char>, hostname: Seq<char>)
    requires
        manager_ok(m),
        register_response(m, hostname) is Ok,
    ensures
        ({
            let r = register(m, channel, addr, hostname);
            &&& worker_position(r.workers, hostname) is Some
            &&& 0 <= worker_position(r.workers, hostname)->0 < r.workers.len()
            &&& r.workers[worker_position(r.workers, hostname)->0].hostname == hostname
            &&& r.workers[worker_position(r.workers, hostname)->0].channel == channel
            &&& registry_ok(r.workers, r.worker_increment)
        }),
{
    let r = register(m, channel, addr, hostname);
    match worker_position(m.workers, hostname) {
        Some(i) => {
            assert(0 <= i < m.workers.len() && m.workers[i].hostname == hostname);
            assert(r.workers[i].hostname == hostname);
            assert forall|a: int, b: int| 0 <= a < b < r.workers.len() implies r.workers[a].hostname
                != r.workers[b].hostname by {
                assert(r.workers[a].hostname == m.workers[a].hostname);
                assert(r.workers[b].hostname == m.workers[b].hostname);
            }
            crate::manager::lemmas::lemma_worker_position(r.workers, hostname, i);
            assert forall|a: int| 0 <= a < r.workers.len() implies {
                &&& (#[trigger] r.workers[a]).hostname.len() > 0
                &&& r.workers[a].consistent()
                &&& r.workers[a].id == a + 1
            } by {
                if a != i {
                    assert(r.workers[a] == m.workers[a]);
                }
            }
        },
        None => {
            let i = m.workers.len() as int;
            assert(r.workers[i].hostname == hostname);
            assert forall|a: int, b: int| 0 <= a < b < r.workers.len() implies r.workers[a].hostname
                != r.workers[b].hostname by {
                assert(r.workers[a] == m.workers[a]);
                if b < i {
                    assert(r.workers[b] == m.workers[b]);
                }
            }
            crate::manager::lemmas::lemma_worker_position(r.workers, hostname, i);
            assert forall|a: int| 0 <= a < r.workers.len() implies {
                &&& (#[trigger] r.workers[a]).hostname.len() > 0
                &&& r.workers[a].consistent()
                &&& r.workers[a].id == a + 1
            } by {
                if a < i {
                    assert(r.workers[a] == m.workers[a]);
                }
            }
        },
    }
}

/// Of two registrations under one hostname with channels that are open, the
/// first to be taken in is accepted and the second is refused as already
/// there; the refusal leaves the manager, and with it the first channel, as
/// it was.
pub proof fn law_live_collision(
    m: ManagerView,
    first: Channel,
    second: Channel,
    addr: Seq<char>,
    other: Seq<char>,
    hostname: Seq<char>,
)
    requires
        manager_ok(m),
        register_response(m, hostname) is Ok,
        !first.closed,
    ensures
        ({
            let registered = register(m, first, addr, hostname);
            &&& register_response(registered, hostname) == Err::<(), SchedulerErrorView>(
                SchedulerErrorView::RegistrationFailed(hostname),
            )
            &&& code_of(SchedulerErrorView::RegistrationFailed(hostname)) == Code::AlreadyExists
            &&& register(registered, second, other, hostname) == registered
            &&& registered.workers[worker_position(registered.workers, hostname)->0].channel
                == first
        }),
{
    lemma_registered(m, first, addr, hostname);
    if worker_position(m.workers, hostname) is Some {
        let i = worker_position(m.workers, hostname)->0;
        assert(m.workers[i].hostname.len() > 0);
    }
}

/// The registry takes 255 workers and no more: a new hostname is accepted
/// while fewer than 255 workers are registered, and refused as `ClusterFull`
/// once 255 are.
pub proof fn law_cluster_full(m: ManagerView, channel: Channel, addr: Seq<char>, hostname: Seq<char>)
    requires
        manager_ok(m),
        hostname.len() > 0,
        worker_position(m.workers, hostname) is None,
    ensures
        m.workers.len() <= MAX_WORKERS,
        m.workers.len() < MAX_WORKERS ==> register_response(m, hostname) is Ok && register(
            m,
            channel,
            addr,
            hostname,
        ).workers.len() == m.workers.len() + 1,
        m.workers.len() == MAX_WORKERS ==> register_response(m, hostname) == Err::<
            (),
            SchedulerErrorView,
        >(SchedulerErrorView::ClusterFull) && register(m, channel, addr, hostname) == m,
{
}

/// A registration without a hostname is refused as a failed precondition,
/// however many workers there are, and changes nothing.
pub proof fn law_empty_hostname(m: ManagerView, channel: Channel, addr: Seq<char>)
    requires
        manager_ok(m),
    ensures
        register_response(m, Seq::<char>::empty()) == Err::<(), SchedulerErrorView>(
            SchedulerErrorView::RegistrationFailed(Seq::<char>::empty()),
        ),
        code_of(SchedulerErrorView::RegistrationFailed(Seq::<char>::empty()))
            == Code::FailedPrecondition,
        register(m, channel, addr, Seq::<char>::empty()) == m,
{
    let h = Seq::<char>::empty();
    if worker_position(m.workers, h) is Some {
        let i = worker_position(m.workers, h)->0;
        assert(m.workers[i].hostname.len() > 0);
    }
}

/// A report on an instance that is there reaches every subscription: one
/// notification for each, in the order in which they subscribed, each with
/// the report as it came, under the name of its sender. The report leaves
/// the subscriptions as they are, so the next report reaches the same
/// subscriptions in the same order, after this one.
pub proof fn law_fan_out(m: ManagerView, hostname: Seq<char>, metric: InstanceMetricView)
    requires
        locate(m.state, metric.instance_id) is Some,
    ensures
        ({
            let actions = apply_actions(m, EventView::InstanceMetric(hostname, metric));
            &&& apply(m, EventView::InstanceMetric(hostname, metric)).controllers
                == m.controllers
            &&& actions.len() == m.controllers.len()
            &&& forall|k: int|
                0 <= k < m.controllers.len() ==> #[trigger] actions[k] == ActionView::Notify(
                    m.controllers[k].channel.id,
                    WorkerStatusView {
                        identifier: hostname,
                        payload: StatusPayloadView::Instance(metric),
                    },
                )
        }),
{
}

/// A report that an instance of a workload that is being destroyed has
/// terminated or failed removes that instance and no other. The workload
/// goes with its last instance; every other workload stays as it is.
pub proof fn law_terminal_report_removes(
    s: Seq<WorkloadView>,
    instance_id: Seq<char>,
    reported: ResourceStatus,
)
    requires
        well_formed(s),
        locate(s, instance_id) matches Some(p) && s[p.0].status == ResourceStatus::Destroying,
        reported == ResourceStatus::Terminated || reported == ResourceStatus::Failed,
    ensures
        ({
            let (i, k) = locate(s, instance_id)->0;
            let t = ingest(s, instance_id, reported);
            &&& well_formed(t)
            &&& locate(t, instance_id) is None
            &&& s[i].instances.len() == 1 ==> t == s.remove(i) && position(t, s[i].id) is None
            &&& s[i].instances.len() > 1 ==> t == s.update(
                i,
                WorkloadView { instances: s[i].instances.remove(k), ..s[i] },
            )
        }),
{
    lemma_locate_some(s, instance_id);
    let (i, k) = locate(s, instance_id)->0;
    let t = ingest(s, instance_id, reported);
    lemma_remove_instance_keeps_well_formed(s, i, k);
    if s[i].instances.len() == 1 {
        lemma_removed_is_absent(s, i);
    }
    if locate(t, instance_id) is Some {
        lemma_locate_some(t, instance_id);
        let (a, b) = locate(t, instance_id)->0;
        if s[i].instances.len() == 1 {
            let c = if a < i {
                a
            } else {
                a + 1
            };
            assert(t[a] == s[c]);
            assert(s[c].instances[b].id != s[i].instances[k].id);
        } else {
            let d = if a == i && b >= k {
                b + 1
            } else {
                b
            };
            assert(t[a].instances[b] == s[a].instances[d]);
            assert(s[a].instances[d].id != s[i].instances[k].id);
        }
    }
}

/// What a turn of the loop makes of a report that an instance of a
/// workload that is being destroyed has terminated or failed. `end` is the
/// manager after the turn, as `Manager::listen` ensures it. If the instance
/// was the workload's last, the workload is gone. Otherwise the workload is
/// still there, still being destroyed, with the instances it had but for
/// the one reported, in their order, each marked `Destroying`.
pub proof fn law_turn_on_terminal_report(
    m: ManagerView,
    end: ManagerView,
    hostname: Seq<char>,
    metric: InstanceMetricView,
)
    requires
        manager_ok(m),
        locate(m.state, metric.instance_id) matches Some(p) && m.state[p.0].status
            == ResourceStatus::Destroying,
        metric.status == ResourceStatus::Terminated || metric.status == ResourceStatus::Failed,
        end == (ManagerView {
            state: end.state,
            ..apply(m, EventView::InstanceMetric(hostname, metric))
        }),
        reconciliation(
            apply(m, EventView::InstanceMetric(hostname, metric)).state,
            end.state,
            apply(m, EventView::InstanceMetric(hostname, metric)).workers,
        ),
    ensures
        ({
            let (i, k) = locate(m.state, metric.instance_id)->0;
            let w = m.state[i];
            &&& w.instances.len() == 1 ==> position(end.state, w.id) is None
            &&& w.instances.len() > 1 ==> {
                let found = end.state[position(end.state, w.id)->0];
                &&& position(end.state, w.id) is Some
                &&& found.status == ResourceStatus::Destroying
                &&& found.replicas == 0
                &&& found.instances.len() == w.instances.len() - 1
                &&& forall|x: int|
                    0 <= x < found.instances.len() ==> #[trigger] found.instances[x]
                        == (InstanceView {
                        status: ResourceStatus::Destroying,
                        ..w.instances.remove(k)[x]
                    })
            }
        }),
{
    let s = m.state;
    lemma_locate_some(s, metric.instance_id);
    let (i, k) = locate(s, metric.instance_id)->0;
    let w = s[i];
    let mid = apply(m, EventView::InstanceMetric(hostname, metric)).state;
    let workers = apply(m, EventView::InstanceMetric(hostname, metric)).workers;
    law_terminal_report_removes(s, metric.instance_id, metric.status);
    let kept = reap(mid);
    if w.instances.len() == 1 {
        lemma_reap_keeps_absent(mid, w.id);
        if position(end.state, w.id) is Some {
            lemma_position_some(end.state, w.id);
            let j = position(end.state, w.id)->0;
            assert(reconciled(kept[j], end.state[j], ready_hosts(workers)));
            assert(kept[j].id == w.id);
        }
    } else {
        assert(mid[i].id == w.id);
        assert(!doomed(mid[i]));
        let found = end.state[position(end.state, w.id)->0];
        assert(reconciled(mid[i], found, ready_hosts(workers)));
        assert(found == mark_excess(mid[i]));
    }
}

} // verus!
