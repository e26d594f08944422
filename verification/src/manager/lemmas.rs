//! What the manager's proofs rest on.

use crate::manager::MAX_WORKERS;
use crate::manager::model::{
    close_worker_channel, dispatch, manager_ok, worker_position, workers_known, ManagerView,
};
use crate::scheduler::{EventView, WorkerView};
use crate::state_manager::lemmas::lemma_reap_members;
use crate::state_manager::model::{
    ingest, locate, ready_hosts, reap, reconciled, reconciliation, remove_instance,
    schedule_request, WorkloadView,
};
use vstd::prelude::*;

verus! {

/// With distinct hostnames, the worker found at `i` is the one
/// `worker_position` names.
pub proof fn lemma_worker_position(workers: Seq<WorkerView>, hostname: Seq<char>, i: int)
    requires
        forall|a: int, b: int|
            0 <= a < b < workers.len() ==> workers[a].hostname != workers[b].hostname,
        0 <= i < workers.len(),
        workers[i].hostname == hostname,
    ensures
        worker_position(workers, hostname) == Some(i),
{
    let j = choose|j: int| 0 <= j < workers.len() && workers[j].hostname == hostname;
    if i < j {
        assert(workers[i].hostname != workers[j].hostname);
    } else if j < i {
        assert(workers[j].hostname != workers[i].hostname);
    }
}

/// Instances stay on known workers when every instance of the new state has
/// the worker of some instance of the old one.
pub proof fn lemma_drawn_keep_known(pre: Seq<WorkloadView>, post: Seq<WorkloadView>, workers: Seq<WorkerView>)
    requires
        workers_known(pre, workers),
        forall|i: int, k: int|
            0 <= i < post.len() && 0 <= k < post[i].instances.len() ==> exists|a: int, b: int|
                0 <= a < pre.len() && 0 <= b < pre[a].instances.len() && (
                #[trigger] pre[a].instances[b]).worker_id == (
                #[trigger] post[i].instances[k]).worker_id,
    ensures
        workers_known(post, workers),
{
    assert forall|i: int, k: int|
        0 <= i < post.len() && 0 <= k < post[i].instances.len() implies worker_position(
        workers,
        (#[trigger] post[i].instances[k]).worker_id->0,
    ) is Some by {
        let (a, b) = choose|a: int, b: int|
            0 <= a < pre.len() && 0 <= b < pre[a].instances.len() && (
            #[trigger] pre[a].instances[b]).worker_id == post[i].instances[k].worker_id;
        assert(worker_position(workers, pre[a].instances[b].worker_id->0) is Some);
    }
}

/// Taking an instance away leaves the others on known workers.
pub proof fn lemma_remove_instance_known(s: Seq<WorkloadView>, i: int, k: int, workers: Seq<WorkerView>)
    requires
        workers_known(s, workers),
        0 <= i < s.len(),
        0 <= k < s[i].instances.len(),
    ensures
        workers_known(crate::state_manager::model::remove_instance_at(s, i, k), workers),
{
    let t = crate::state_manager::model::remove_instance_at(s, i, k);
    assert forall|a: int, b: int|
        0 <= a < t.len() && 0 <= b < t[a].instances.len() implies exists|c: int, d: int|
        0 <= c < s.len() && 0 <= d < s[c].instances.len() && (#[trigger] s[c].instances[d]).worker_id
            == (#[trigger] t[a].instances[b]).worker_id by {
        if s[i].status == crate::proto::ResourceStatus::Destroying && s[i].instances.len() == 1 {
            let c = if a < i { a } else { a + 1 };
            assert(t[a] == s[c]);
            assert(s[c].instances[b].worker_id == t[a].instances[b].worker_id);
        } else {
            let d = if a == i && b >= k { b + 1 } else { b };
            assert(t[a].instances[b] == s[a].instances[d]);
            assert(s[a].instances[d].worker_id == t[a].instances[b].worker_id);
        }
    }
    lemma_drawn_keep_known(s, t, workers);
}

/// A report on an instance leaves the instances on known workers.
pub proof fn lemma_ingest_known(
    s: Seq<WorkloadView>,
    id: Seq<char>,
    reported: crate::proto::ResourceStatus,
    workers: Seq<WorkerView>,
)
    requires
        workers_known(s, workers),
    ensures
        workers_known(ingest(s, id, reported), workers),
        workers_known(remove_instance(s, id), workers),
{
    match locate(s, id) {
        None => {},
        Some((i, k)) => {
            crate::state_manager::lemmas::lemma_locate_some(s, id);
            lemma_remove_instance_known(s, i, k, workers);
            let t = ingest(s, id, reported);
            match crate::state_manager::model::next_status(s[i].status, s[i].instances[k].status, reported) {
                None => {},
                Some(status) => {
                    assert forall|a: int, b: int|
                        0 <= a < t.len() && 0 <= b < t[a].instances.len() implies exists|
                        c: int,
                        d: int,
                    |
                        0 <= c < s.len() && 0 <= d < s[c].instances.len() && (
                        #[trigger] s[c].instances[d]).worker_id == (
                        #[trigger] t[a].instances[b]).worker_id by {
                        assert(s[a].instances[b].worker_id == t[a].instances[b].worker_id);
                    }
                    lemma_drawn_keep_known(s, t, workers);
                },
            }
        },
    }
}

/// A request leaves the instances on known workers.
pub proof fn lemma_request_known(
    s: Seq<WorkloadView>,
    request: crate::scheduler::WorkloadRequestView,
    workers: Seq<WorkerView>,
)
    requires
        workers_known(s, workers),
    ensures
        workers_known(schedule_request(s, request), workers),
{
    let t = schedule_request(s, request);
    assert forall|a: int, b: int|
        0 <= a < t.len() && 0 <= b < t[a].instances.len() implies exists|c: int, d: int|
        0 <= c < s.len() && 0 <= d < s[c].instances.len() && (#[trigger] s[c].instances[d]).worker_id
            == (#[trigger] t[a].instances[b]).worker_id by {
        match crate::state_manager::model::position(s, request.workload_id) {
            None => {
                if a < s.len() {
                    assert(t[a] == s[a]);
                    assert(s[a].instances[b].worker_id == t[a].instances[b].worker_id);
                }
            },
            Some(i) => {
                crate::state_manager::lemmas::lemma_position_some(s, request.workload_id);
                if t.len() == s.len() {
                    assert(t[a].instances == s[a].instances);
                    assert(s[a].instances[b].worker_id == t[a].instances[b].worker_id);
                } else {
                    let c = if a < i { a } else { a + 1 };
                    assert(t[a] == s[c]);
                    assert(s[c].instances[b].worker_id == t[a].instances[b].worker_id);
                }
            },
        }
    }
    lemma_drawn_keep_known(s, t, workers);
}

/// A pass of reconciliation leaves the instances on known workers.
pub proof fn lemma_reconciled_known(pre: Seq<WorkloadView>, post: Seq<WorkloadView>, workers: Seq<WorkerView>)
    requires
        workers_known(pre, workers),
        reconciliation(pre, post, workers),
    ensures
        workers_known(post, workers),
{
    let kept = reap(pre);
    lemma_reap_members(pre);
    assert forall|i: int, k: int|
        0 <= i < post.len() && 0 <= k < post[i].instances.len() implies worker_position(
        workers,
        (#[trigger] post[i].instances[k]).worker_id->0,
    ) is Some by {
        assert(reconciled(kept[i], post[i], ready_hosts(workers)));
        assert(pre.contains(kept[i]));
        let a = choose|a: int| 0 <= a < pre.len() && pre[a] == kept[i];
        if kept[i].instances.len() >= kept[i].replicas {
            assert(post[i].instances[k].worker_id == kept[i].instances[k].worker_id);
            assert(worker_position(workers, pre[a].instances[k].worker_id->0) is Some);
        } else if k < kept[i].instances.len() {
            assert(post[i].instances.subrange(0, kept[i].instances.len() as int)[k]
                == post[i].instances[k]);
            assert(worker_position(workers, pre[a].instances[k].worker_id->0) is Some);
        } else {
            let h = post[i].instances[k].worker_id->0;
            assert(ready_hosts(workers).contains(h));
        }
    }
}

/// Closing a channel keeps the invariant.
pub proof fn lemma_close_keeps_ok(m: ManagerView, channel: u64)
    requires
        manager_ok(m),
    ensures
        manager_ok(ManagerView { workers: close_worker_channel(m.workers, channel), ..m }),
{
    let n = ManagerView { workers: close_worker_channel(m.workers, channel), ..m };
    assert forall|a: int, b: int| 0 <= a < b < n.workers.len() implies n.workers[a].hostname
        != n.workers[b].hostname by {
        assert(n.workers[a].hostname == m.workers[a].hostname);
        assert(n.workers[b].hostname == m.workers[b].hostname);
    }
    assert forall|a: int| 0 <= a < n.workers.len() implies {
        &&& (#[trigger] n.workers[a]).hostname.len() > 0
        &&& n.workers[a].consistent()
        &&& n.workers[a].id == a + 1
    } by {
        assert(n.workers[a].hostname == m.workers[a].hostname);
        assert(m.workers[a].consistent());
    }
    lemma_hostnames_keep_known(m.state, m.workers, n.workers);
}

/// What is dispatched depends on the workers and the subscriptions only.
pub proof fn lemma_dispatch_frame(a: ManagerView, b: ManagerView, events: Seq<EventView>, n: int)
    requires
        a.workers == b.workers,
        a.controllers == b.controllers,
    ensures
        dispatch(a, events, n) == dispatch(b, events, n),
    decreases n,
{
    if n > 0 {
        lemma_dispatch_frame(a, b, events, n - 1);
    }
}

/// Replacing a worker by one with the same hostname and id that is
/// consistent keeps the invariant.
pub proof fn lemma_worker_update_keeps_ok(m: ManagerView, n: ManagerView, i: int)
    requires
        manager_ok(m),
        0 <= i < m.workers.len(),
        n == (ManagerView { workers: n.workers, ..m }),
        n.workers.len() == m.workers.len(),
        forall|j: int| 0 <= j < m.workers.len() && j != i ==> n.workers[j] == m.workers[j],
        n.workers[i].hostname == m.workers[i].hostname,
        n.workers[i].id == m.workers[i].id,
        n.workers[i].consistent(),
    ensures
        manager_ok(n),
{
    assert forall|a: int, b: int| 0 <= a < b < n.workers.len() implies n.workers[a].hostname
        != n.workers[b].hostname by {
        assert(n.workers[a].hostname == m.workers[a].hostname);
        assert(n.workers[b].hostname == m.workers[b].hostname);
    }
    assert forall|a: int| 0 <= a < n.workers.len() implies {
        &&& (#[trigger] n.workers[a]).hostname.len() > 0
        &&& n.workers[a].consistent()
        &&& n.workers[a].id == a + 1
    } by {
        if a != i {
            assert(n.workers[a] == m.workers[a]);
        }
    }
    lemma_hostnames_keep_known(m.state, m.workers, n.workers);
}

/// Instances stay on known workers as long as every hostname stays in the
/// registry.
pub proof fn lemma_hostnames_keep_known(state: Seq<WorkloadView>, a: Seq<WorkerView>, b: Seq<WorkerView>)
    requires
        workers_known(state, a),
        a.len() <= b.len(),
        forall|j: int| 0 <= j < a.len() ==> (#[trigger] b[j]).hostname == a[j].hostname,
    ensures
        workers_known(state, b),
{
    assert forall|i: int, k: int|
        0 <= i < state.len() && 0 <= k < state[i].instances.len() implies worker_position(
        b,
        (#[trigger] state[i].instances[k]).worker_id->0,
    ) is Some by {
        let h = state[i].instances[k].worker_id->0;
        assert(worker_position(a, h) is Some);
        let j = choose|j: int| 0 <= j < a.len() && a[j].hostname == h;
        assert(b[j].hostname == h);
    }
}

/// Adding a worker with a new, non-empty hostname and the next id keeps the
/// invariant.
pub proof fn lemma_worker_push_keeps_ok(m: ManagerView, n: ManagerView)
    requires
        manager_ok(m),
        m.worker_increment < MAX_WORKERS,
        n == (ManagerView {
            workers: n.workers,
            worker_increment: (m.worker_increment + 1) as u8,
            ..m
        }),
        n.workers.len() == m.workers.len() + 1,
        forall|j: int| 0 <= j < m.workers.len() ==> n.workers[j] == m.workers[j],
        worker_position(m.workers, n.workers[m.workers.len() as int].hostname) is None,
        n.workers[m.workers.len() as int].hostname.len() > 0,
        n.workers[m.workers.len() as int].id == m.worker_increment + 1,
        n.workers[m.workers.len() as int].consistent(),
    ensures
        manager_ok(n),
{
    let last = m.workers.len() as int;
    assert forall|a: int, b: int| 0 <= a < b < n.workers.len() implies n.workers[a].hostname
        != n.workers[b].hostname by {
        assert(n.workers[a] == m.workers[a]);
        if b < last {
            assert(n.workers[b] == m.workers[b]);
        }
    }
    assert forall|a: int| 0 <= a < n.workers.len() implies {
        &&& (#[trigger] n.workers[a]).hostname.len() > 0
        &&& n.workers[a].consistent()
        &&& n.workers[a].id == a + 1
    } by {
        if a < last {
            assert(n.workers[a] == m.workers[a]);
        }
    }
    lemma_hostnames_keep_known(m.state, m.workers, n.workers);
}

} // verus!
