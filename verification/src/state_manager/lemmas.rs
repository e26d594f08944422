//! What the state manager's proofs rest on.

use crate::naming::{is_suffix, lemma_suffix_of, lemma_suffix_rank_of, suffix_of, SUFFIXES};
use crate::proto::ResourceStatus;
use crate::random::is_lower_alphanumeric;
use crate::scheduler::{Worker, WorkerState};
use crate::state_manager::model::{
    create_events, distinct_ids, doomed, exhausted, first_doomed, ids_kept, instance_count,
    is_instance_id, locate, place_at, position, ready_indices, reap, reconcile_events,
    remove_instance_at, well_formed, InstanceView, WorkloadView,
};
use vstd::prelude::*;
use vstd::string::*;

verus! {

/// Every entry of `ready_indices` is the index of a ready worker, and the
/// index of every ready worker is an entry.
pub proof fn lemma_ready_indices(workers: Seq<Worker>, n: int)
    requires
        0 <= n <= workers.len(),
        workers.len() <= usize::MAX,
    ensures
        forall|k: int|
            0 <= k < ready_indices(workers, n).len() ==> {
                let i = #[trigger] ready_indices(workers, n)[k];
                i < n && workers[i as int].state == WorkerState::Ready
            },
        forall|i: int|
            0 <= i < n && (#[trigger] workers[i]).state == WorkerState::Ready ==> ready_indices(
                workers,
                n,
            ).contains(i as usize),
    decreases n,
{
    if n > 0 {
        lemma_ready_indices(workers, n - 1);
        let prev = ready_indices(workers, n - 1);
        let cur = ready_indices(workers, n);
        if workers[n - 1].state == WorkerState::Ready {
            assert(cur == prev.push((n - 1) as usize));
            assert forall|i: int|
                0 <= i < n && (#[trigger] workers[i]).state == WorkerState::Ready implies cur.contains(
                i as usize,
            ) by {
                if i < n - 1 {
                    let k = choose|k: int| 0 <= k < prev.len() && prev[k] == i as usize;
                    assert(cur[k] == i as usize);
                } else {
                    assert(cur[prev.len() as int] == i as usize);
                }
            }
        }
    }
}

/// `create_events` looks only at the instances it speaks of.
pub proof fn lemma_create_events_frame(a: Seq<InstanceView>, b: Seq<InstanceView>, from: int, to: int)
    requires
        0 <= from,
        to <= a.len(),
        to <= b.len(),
        forall|k: int| from <= k < to ==> a[k] == b[k],
    ensures
        create_events(a, from, to) == create_events(b, from, to),
    decreases to - from,
{
    if to > from {
        lemma_create_events_frame(a, b, from, to - 1);
    }
}

/// `reconcile_events` looks only at the first `n` workloads.
pub proof fn lemma_reconcile_events_frame(
    pre: Seq<WorkloadView>,
    a: Seq<WorkloadView>,
    b: Seq<WorkloadView>,
    n: int,
)
    requires
        0 <= n <= a.len(),
        n <= b.len(),
        forall|j: int| 0 <= j < n ==> a[j] == b[j],
    ensures
        reconcile_events(pre, a, n) == reconcile_events(pre, b, n),
    decreases n,
{
    if n > 0 {
        lemma_reconcile_events_frame(pre, a, b, n - 1);
    }
}

/// A name, a hyphen and four lower-case letters or digits make an instance
/// id for that name.
pub proof fn lemma_instance_id(name: Seq<char>, suffix: Seq<char>)
    requires
        suffix.len() == 4,
        forall|k: int| 0 <= k < suffix.len() ==> is_lower_alphanumeric(#[trigger] suffix[k]),
    ensures
        is_instance_id(name + "-"@ + suffix, name),
{
    reveal_strlit("-");
    let id = name + "-"@ + suffix;
    assert(id.subrange(0, name.len() as int) =~= name);
    assert forall|k: int| name.len() < k < id.len() implies is_lower_alphanumeric(
        #[trigger] id[k],
    ) by {
        assert(id[k] == suffix[k - name.len() - 1]);
    }
}

/// An instance id is its workload's name, a hyphen and a suffix.
pub proof fn lemma_instance_id_suffix(id: Seq<char>, name: Seq<char>)
    requires
        is_instance_id(id, name),
    ensures
        is_suffix(id.subrange(name.len() as int + 1, id.len() as int)),
        id == name + "-"@ + id.subrange(name.len() as int + 1, id.len() as int),
{
    reveal_strlit("-");
    let suffix = id.subrange(name.len() as int + 1, id.len() as int);
    assert forall|k: int| 0 <= k < 4 implies is_lower_alphanumeric(#[trigger] suffix[k]) by {
        assert(suffix[k] == id[name.len() + 1 + k]);
    }
    assert(id =~= name + "-"@ + suffix) by {
        assert(id.subrange(0, name.len() as int) == name);
        assert forall|k: int| 0 <= k < id.len() implies id[k] == (name + "-"@ + suffix)[k] by {
            if k < name.len() {
                assert(id.subrange(0, name.len() as int)[k] == id[k]);
            }
        }
    }
}

/// Where ids are kept, names that were all taken stay all taken.
pub proof fn lemma_exhausted_kept(s: Seq<WorkloadView>, t: Seq<WorkloadView>, name: Seq<char>)
    requires
        exhausted(s, name),
        ids_kept(s, t),
    ensures
        exhausted(t, name),
{
    assert forall|suffix: Seq<char>| is_suffix(suffix) implies (#[trigger] locate(
        t,
        name + "-"@ + suffix,
    )) is Some by {
        assert(locate(s, name + "-"@ + suffix) is Some);
    }
}

/// Ids are kept where every workload keeps the ids of its instances, place
/// by place, and may have more instances.
pub proof fn lemma_ids_kept(s: Seq<WorkloadView>, t: Seq<WorkloadView>)
    requires
        t.len() == s.len(),
        forall|i: int, k: int|
            0 <= i < s.len() && 0 <= k < s[i].instances.len() ==> k < t[i].instances.len()
                && (#[trigger] t[i].instances[k]).id == s[i].instances[k].id,
    ensures
        ids_kept(s, t),
{
    assert forall|id: Seq<char>| (#[trigger] locate(s, id)) is Some implies locate(
        t,
        id,
    ) is Some by {
        lemma_locate_some(s, id);
        let (i, k) = locate(s, id)->0;
        assert(t[i].instances[k].id == id);
    }
}

/// With distinct ids, the workload found at `i` is the one `position` names.
pub proof fn lemma_position(s: Seq<WorkloadView>, id: Seq<char>, i: int)
    requires
        well_formed(s),
        0 <= i < s.len(),
        s[i].id == id,
    ensures
        position(s, id) == Some(i),
{
    let j = choose|j: int| 0 <= j < s.len() && s[j].id == id;
    if i < j {
        assert(s[i].id != s[j].id);
    } else if j < i {
        assert(s[j].id != s[i].id);
    }
}

/// With distinct ids, the instance found at `(i, k)` is the one `locate`
/// names.
pub proof fn lemma_locate(s: Seq<WorkloadView>, id: Seq<char>, i: int, k: int)
    requires
        well_formed(s),
        0 <= i < s.len(),
        0 <= k < s[i].instances.len(),
        s[i].instances[k].id == id,
    ensures
        locate(s, id) == Some((i, k)),
{
    let w = (i, k);
    assert(0 <= w.0 < s.len() && 0 <= w.1 < s[w.0].instances.len() && s[w.0].instances[w.1].id
        == id);
    let p = choose|p: (int, int)|
        0 <= p.0 < s.len() && 0 <= p.1 < s[p.0].instances.len() && s[p.0].instances[p.1].id == id;
    if p.0 != i || p.1 != k {
        assert(s[p.0].instances[p.1].id != s[i].instances[k].id);
    }
}

/// Changing only the replica count or the status of one workload keeps the
/// invariant, as long as that workload's own status rule holds.
pub proof fn lemma_replicas_keep_well_formed(s: Seq<WorkloadView>, t: Seq<WorkloadView>, i: int)
    requires
        well_formed(s),
        0 <= i < s.len(),
        t.len() == s.len(),
        forall|j: int| 0 <= j < s.len() && j != i ==> t[j] == s[j],
        t[i].id == s[i].id,
        t[i].instances == s[i].instances,
        t[i].status == ResourceStatus::Pending || (t[i].status == ResourceStatus::Destroying
            && t[i].replicas == 0),
    ensures
        well_formed(t),
{
    assert forall|a: int, b: int| 0 <= a < b < t.len() implies t[a].id != t[b].id by {
        assert(t[a].id == s[a].id);
        assert(t[b].id == s[b].id);
    }
    assert forall|a: int, k: int, b: int, l: int|
        0 <= a < t.len() && 0 <= k < t[a].instances.len() && 0 <= b < t.len() && 0 <= l
            < t[b].instances.len() && (a != b || k != l) implies #[trigger] t[a].instances[k].id
        != #[trigger] t[b].instances[l].id by {
        assert(t[a].instances == s[a].instances);
        assert(t[b].instances == s[b].instances);
        assert(s[a].instances[k].id != s[b].instances[l].id);
    }
    assert forall|a: int, k: int|
        0 <= a < t.len() && 0 <= k < t[a].instances.len() implies #[trigger] t[a].instances[k].worker_id is Some by {
        assert(t[a].instances == s[a].instances);
        assert(s[a].instances[k].worker_id is Some);
    }
    assert forall|a: int| 0 <= a < t.len() implies (#[trigger] t[a]).status
        == ResourceStatus::Pending || (t[a].status == ResourceStatus::Destroying && t[a].replicas
        == 0) by {
        if a != i {
            assert(t[a] == s[a]);
        }
    }
}

/// Taking a workload away keeps the invariant.
pub proof fn lemma_remove_keeps_well_formed(s: Seq<WorkloadView>, i: int)
    requires
        well_formed(s),
        0 <= i < s.len(),
    ensures
        well_formed(s.remove(i)),
{
    let t = s.remove(i);
    let at = |a: int| if a < i { a } else { a + 1 };
    assert forall|a: int| 0 <= a < t.len() implies t[a] == s[at(a)] by {}
    assert forall|a: int, b: int| 0 <= a < b < t.len() implies t[a].id != t[b].id by {
        assert(t[a] == s[at(a)]);
        assert(t[b] == s[at(b)]);
    }
    assert forall|a: int, k: int, b: int, l: int|
        0 <= a < t.len() && 0 <= k < t[a].instances.len() && 0 <= b < t.len() && 0 <= l
            < t[b].instances.len() && (a != b || k != l) implies #[trigger] t[a].instances[k].id
        != #[trigger] t[b].instances[l].id by {
        assert(t[a] == s[at(a)]);
        assert(t[b] == s[at(b)]);
        assert(s[at(a)].instances[k].id != s[at(b)].instances[l].id);
    }
    assert forall|a: int, k: int|
        0 <= a < t.len() && 0 <= k < t[a].instances.len() implies #[trigger] t[a].instances[k].worker_id is Some by {
        assert(t[a] == s[at(a)]);
        assert(s[at(a)].instances[k].worker_id is Some);
    }
    assert forall|a: int| 0 <= a < t.len() implies (#[trigger] t[a]).status
        == ResourceStatus::Pending || (t[a].status == ResourceStatus::Destroying && t[a].replicas
        == 0) by {
        assert(t[a] == s[at(a)]);
    }
}

/// What `locate` finds is an instance with that id.
pub proof fn lemma_locate_some(s: Seq<WorkloadView>, id: Seq<char>)
    requires
        locate(s, id) is Some,
    ensures
        ({
            let (i, k) = locate(s, id)->0;
            0 <= i < s.len() && 0 <= k < s[i].instances.len() && s[i].instances[k].id == id
        }),
{
    let (i, k) = choose|i: int, k: int|
        0 <= i < s.len() && 0 <= k < s[i].instances.len() && s[i].instances[k].id == id;
    let w = (i, k);
    assert(0 <= w.0 < s.len() && 0 <= w.1 < s[w.0].instances.len() && s[w.0].instances[w.1].id
        == id);
}

/// What `position` finds is a workload with that id.
pub proof fn lemma_position_some(s: Seq<WorkloadView>, id: Seq<char>)
    requires
        position(s, id) is Some,
    ensures
        0 <= position(s, id)->0 < s.len(),
        s[position(s, id)->0].id == id,
{
}

/// No instance of `s` has the id `id` if `locate` finds none.
pub proof fn lemma_locate_none(s: Seq<WorkloadView>, id: Seq<char>)
    requires
        locate(s, id) is None,
    ensures
        forall|i: int, k: int|
            0 <= i < s.len() && 0 <= k < s[i].instances.len() ==> #[trigger] s[i].instances[k].id
                != id,
{
}

/// Changing only the statuses of the instances of one workload keeps the
/// invariant.
pub proof fn lemma_statuses_keep_well_formed(s: Seq<WorkloadView>, t: Seq<WorkloadView>, i: int)
    requires
        well_formed(s),
        0 <= i < s.len(),
        t.len() == s.len(),
        forall|j: int| 0 <= j < s.len() && j != i ==> t[j] == s[j],
        t[i] == (WorkloadView { instances: t[i].instances, ..s[i] }),
        t[i].instances.len() == s[i].instances.len(),
        forall|k: int|
            0 <= k < s[i].instances.len() ==> (#[trigger] t[i].instances[k]) == (InstanceView {
                status: t[i].instances[k].status,
                ..s[i].instances[k]
            }),
    ensures
        well_formed(t),
{
    assert forall|a: int, b: int| 0 <= a < b < t.len() implies t[a].id != t[b].id by {
        assert(t[a].id == s[a].id);
        assert(t[b].id == s[b].id);
    }
    assert forall|a: int, k: int, b: int, l: int|
        0 <= a < t.len() && 0 <= k < t[a].instances.len() && 0 <= b < t.len() && 0 <= l
            < t[b].instances.len() && (a != b || k != l) implies #[trigger] t[a].instances[k].id
        != #[trigger] t[b].instances[l].id by {
        assert(t[a].instances[k].id == s[a].instances[k].id);
        assert(t[b].instances[l].id == s[b].instances[l].id);
    }
    assert forall|a: int, k: int|
        0 <= a < t.len() && 0 <= k < t[a].instances.len() implies #[trigger] t[a].instances[k].worker_id is Some by {
        assert(t[a].instances[k].worker_id == s[a].instances[k].worker_id);
    }
    assert forall|a: int| 0 <= a < t.len() implies (#[trigger] t[a]).status
        == ResourceStatus::Pending || (t[a].status == ResourceStatus::Destroying && t[a].replicas
        == 0) by {
        assert(t[a].status == s[a].status);
        assert(t[a].replicas == s[a].replicas);
    }
}

/// Adding an instance with a worker and an id that no instance has keeps the
/// invariant.
pub proof fn lemma_place_keeps_well_formed(
    s: Seq<WorkloadView>,
    i: int,
    id: Seq<char>,
    worker: Seq<char>,
)
    requires
        well_formed(s),
        0 <= i < s.len(),
        locate(s, id) is None,
    ensures
        well_formed(place_at(s, i, id, worker)),
        locate(place_at(s, i, id, worker), id) == Some((i, s[i].instances.len() as int)),
{
    let t = place_at(s, i, id, worker);
    let n = s[i].instances.len() as int;
    lemma_locate_none(s, id);
    assert forall|a: int, b: int| 0 <= a < b < t.len() implies t[a].id != t[b].id by {
        assert(t[a].id == s[a].id);
        assert(t[b].id == s[b].id);
    }
    assert forall|a: int, k: int, b: int, l: int|
        0 <= a < t.len() && 0 <= k < t[a].instances.len() && 0 <= b < t.len() && 0 <= l
            < t[b].instances.len() && (a != b || k != l) implies #[trigger] t[a].instances[k].id
        != #[trigger] t[b].instances[l].id by {
        let new_a = a == i && k == n;
        let new_b = b == i && l == n;
        if !new_a {
            assert(t[a].instances[k] == s[a].instances[k]);
        }
        if !new_b {
            assert(t[b].instances[l] == s[b].instances[l]);
        }
    }
    assert forall|a: int, k: int|
        0 <= a < t.len() && 0 <= k < t[a].instances.len() implies #[trigger] t[a].instances[k].worker_id is Some by {
        if !(a == i && k == n) {
            assert(t[a].instances[k] == s[a].instances[k]);
        }
    }
    assert forall|a: int| 0 <= a < t.len() implies (#[trigger] t[a]).status
        == ResourceStatus::Pending || (t[a].status == ResourceStatus::Destroying && t[a].replicas
        == 0) by {
        assert(t[a].status == s[a].status);
        assert(t[a].replicas == s[a].replicas);
    }
    assert(t[i].instances[n].id == id);
    lemma_locate(t, id, i, n);
}

/// Taking an instance away keeps the invariant.
pub proof fn lemma_remove_instance_keeps_well_formed(s: Seq<WorkloadView>, i: int, k: int)
    requires
        well_formed(s),
        0 <= i < s.len(),
        0 <= k < s[i].instances.len(),
    ensures
        well_formed(remove_instance_at(s, i, k)),
{
    if s[i].status == ResourceStatus::Destroying && s[i].instances.len() == 1 {
        lemma_remove_keeps_well_formed(s, i);
    } else {
        let t = remove_instance_at(s, i, k);
        let at = |a: int, x: int| if a == i && x >= k { x + 1 } else { x };
        assert forall|a: int, x: int|
            0 <= a < t.len() && 0 <= x < t[a].instances.len() implies #[trigger] t[a].instances[x]
            == s[a].instances[at(a, x)] by {}
        assert forall|a: int, b: int| 0 <= a < b < t.len() implies t[a].id != t[b].id by {
            assert(t[a].id == s[a].id);
            assert(t[b].id == s[b].id);
        }
        assert forall|a: int, x: int, b: int, l: int|
            0 <= a < t.len() && 0 <= x < t[a].instances.len() && 0 <= b < t.len() && 0 <= l
                < t[b].instances.len() && (a != b || x != l) implies #[trigger] t[a].instances[x].id
            != #[trigger] t[b].instances[l].id by {
            assert(t[a].instances[x] == s[a].instances[at(a, x)]);
            assert(t[b].instances[l] == s[b].instances[at(b, l)]);
            assert(s[a].instances[at(a, x)].id != s[b].instances[at(b, l)].id);
        }
        assert forall|a: int, x: int|
            0 <= a < t.len() && 0 <= x < t[a].instances.len() implies #[trigger] t[a].instances[x].worker_id is Some by {
            assert(t[a].instances[x] == s[a].instances[at(a, x)]);
            assert(s[a].instances[at(a, x)].worker_id is Some);
        }
        assert forall|a: int| 0 <= a < t.len() implies (#[trigger] t[a]).status
            == ResourceStatus::Pending || (t[a].status == ResourceStatus::Destroying
            && t[a].replicas == 0) by {
            assert(t[a].status == s[a].status);
            assert(t[a].replicas == s[a].replicas);
        }
    }
}

/// The count of instances grows with the number of workloads counted.
pub proof fn lemma_instance_count_grows(s: Seq<WorkloadView>, a: int, b: int)
    requires
        0 <= a <= b,
    ensures
        0 <= instance_count(s, a) <= instance_count(s, b),
    decreases b,
{
    if a == 0 && b == 0 {
    } else if a < b {
        lemma_instance_count_grows(s, a, b - 1);
    } else {
        lemma_instance_count_grows(s, a - 1, a - 1);
    }
}

/// Counting the instances workload by workload gives every instance a number
/// of its own below the count of all instances.
pub proof fn lemma_instance_numbers(s: Seq<WorkloadView>, i: int, k: int, j: int, l: int)
    requires
        0 <= i < s.len(),
        0 <= k < s[i].instances.len(),
        0 <= j < s.len(),
        0 <= l < s[j].instances.len(),
    ensures
        0 <= instance_count(s, i) + k < instance_count(s, s.len() as int),
        instance_count(s, i) + k == instance_count(s, j) + l ==> i == j && k == l,
{
    lemma_instance_count_grows(s, i, i);
    lemma_instance_count_grows(s, i + 1, s.len() as int);
    lemma_instance_count_grows(s, j, j);
    if i < j {
        lemma_instance_count_grows(s, i + 1, j);
    } else if j < i {
        lemma_instance_count_grows(s, j + 1, i);
    }
}

/// Names that are all taken take as many instances as there are suffixes.
pub proof fn lemma_exhausted_is_full(s: Seq<WorkloadView>, name: Seq<char>)
    requires
        exhausted(s, name),
    ensures
        instance_count(s, s.len() as int) >= SUFFIXES,
{
    reveal_strlit("-");
    let total = instance_count(s, s.len() as int);
    let number = |k: int|
        {
            let p = locate(s, name + "-"@ + suffix_of(k))->0;
            instance_count(s, p.0) + p.1
        };
    let all = vstd::set_lib::set_int_range(0, SUFFIXES as int);
    let taken = all.map(number);
    vstd::set_lib::lemma_int_range(0, SUFFIXES as int);
    lemma_instance_count_grows(s, 0, s.len() as int);
    vstd::set_lib::lemma_int_range(0, total);
    assert forall|a: int, b: int|
        all.contains(a) && all.contains(b) && #[trigger] number(a) == #[trigger] number(
            b,
        ) implies a == b by {
        lemma_suffix_of(a);
        lemma_suffix_of(b);
        let ida = name + "-"@ + suffix_of(a);
        let idb = name + "-"@ + suffix_of(b);
        assert(locate(s, ida) is Some);
        assert(locate(s, idb) is Some);
        lemma_locate_some(s, ida);
        lemma_locate_some(s, idb);
        let pa = locate(s, ida)->0;
        let pb = locate(s, idb)->0;
        lemma_instance_numbers(s, pa.0, pa.1, pb.0, pb.1);
        assert(ida == idb);
        assert(suffix_of(a) =~= ida.subrange(name.len() as int + 1, ida.len() as int));
        assert(suffix_of(b) =~= idb.subrange(name.len() as int + 1, idb.len() as int));
        lemma_suffix_rank_of(a);
        lemma_suffix_rank_of(b);
    }
    assert(vstd::relations::injective_on(number, all));
    vstd::set_lib::lemma_map_size(all, taken, number);
    assert forall|x: int| taken.contains(x) implies vstd::set_lib::set_int_range(
        0,
        total,
    ).contains(x) by {
        let k = choose|k: int| all.contains(k) && x == number(k);
        lemma_suffix_of(k);
        let id = name + "-"@ + suffix_of(k);
        assert(locate(s, id) is Some);
        lemma_locate_some(s, id);
        let p = locate(s, id)->0;
        lemma_instance_numbers(s, p.0, p.1, p.0, p.1);
    }
    vstd::set_lib::lemma_len_subset(taken, vstd::set_lib::set_int_range(0, total));
}

/// `first_doomed` names the workload at `i` if that one is being destroyed
/// without an instance and none before it is.
pub proof fn lemma_first_doomed(s: Seq<WorkloadView>, i: int)
    requires
        0 <= i < s.len(),
        doomed(s[i]),
        forall|j: int| 0 <= j < i ==> !doomed(#[trigger] s[j]),
    ensures
        first_doomed(s) == Some(i),
{
    reveal(first_doomed);
    let c = choose|c: int|
        0 <= c < s.len() && doomed(#[trigger] s[c]) && forall|j: int|
            0 <= j < c ==> !doomed(#[trigger] s[j]);
    if c < i {
        assert(!doomed(s[c]));
    } else if i < c {
        assert(!doomed(s[i]));
    }
}

/// What `first_doomed` names is a workload that is being destroyed without
/// an instance; where it names none, there is none.
pub proof fn lemma_first_doomed_found(s: Seq<WorkloadView>)
    ensures
        first_doomed(s) matches Some(i) ==> 0 <= i < s.len() && doomed(s[i]),
        first_doomed(s) is None ==> forall|j: int| 0 <= j < s.len() ==> !doomed(#[trigger] s[j]),
        first_doomed(s) is None ==> reap(s) == s,
{
    reveal(first_doomed);
    reveal_with_fuel(reap, 1);
    if exists|i: int| 0 <= i < s.len() && doomed(#[trigger] s[i]) {
        lemma_least_doomed(s, s.len() as int);
    }
}

/// Among the first `n` workloads, if one is being destroyed without an
/// instance, then one is the first such.
proof fn lemma_least_doomed(s: Seq<WorkloadView>, n: int)
    requires
        0 <= n <= s.len(),
    ensures
        (exists|i: int| 0 <= i < n && doomed(#[trigger] s[i])) ==> exists|i: int|
            0 <= i < n && doomed(#[trigger] s[i]) && forall|j: int|
                0 <= j < i ==> !doomed(#[trigger] s[j]),
    decreases n,
{
    if n > 0 {
        lemma_least_doomed(s, n - 1);
        if exists|i: int| 0 <= i < n - 1 && doomed(#[trigger] s[i]) {
        } else if doomed(s[n - 1]) {
            assert(forall|j: int| 0 <= j < n - 1 ==> !doomed(#[trigger] s[j]));
        }
    }
}

/// Taking away a workload without instances loses no instance id.
pub proof fn lemma_remove_empty_keeps_ids(s: Seq<WorkloadView>, i: int)
    requires
        0 <= i < s.len(),
        s[i].instances.len() == 0,
    ensures
        ids_kept(s, s.remove(i)),
        ids_kept(s.remove(i), s),
{
    let t = s.remove(i);
    assert forall|id: Seq<char>| (#[trigger] locate(s, id)) is Some implies locate(
        t,
        id,
    ) is Some by {
        lemma_locate_some(s, id);
        let (a, b) = locate(s, id)->0;
        let c = if a < i {
            a
        } else {
            a - 1
        };
        assert(t[c] == s[a]);
        assert(t[c].instances[b].id == id);
    }
    assert forall|id: Seq<char>| (#[trigger] locate(t, id)) is Some implies locate(
        s,
        id,
    ) is Some by {
        lemma_locate_some(t, id);
        let (a, b) = locate(t, id)->0;
        let c = if a < i {
            a
        } else {
            a + 1
        };
        assert(t[a] == s[c]);
        assert(s[c].instances[b].id == id);
    }
}

/// Reaping keeps the invariant, loses no instance id and adds none, and
/// leaves no workload that is being destroyed without an instance.
pub proof fn lemma_reap(s: Seq<WorkloadView>)
    requires
        well_formed(s),
    ensures
        well_formed(reap(s)),
        ids_kept(s, reap(s)),
        ids_kept(reap(s), s),
        reap(s).len() <= s.len(),
        forall|j: int| 0 <= j < reap(s).len() ==> !doomed(#[trigger] reap(s)[j]),
    decreases s.len(),
{
    lemma_first_doomed_found(s);
    lemma_reap_unfold(s);
    match first_doomed(s) {
        None => {},
        Some(i) => {
            let t = s.remove(i);
            lemma_remove_keeps_well_formed(s, i);
            lemma_remove_empty_keeps_ids(s, i);
            lemma_reap(t);
            assert forall|id: Seq<char>| (#[trigger] locate(s, id)) is Some implies locate(
                reap(s),
                id,
            ) is Some by {
                assert(locate(t, id) is Some);
            }
            assert forall|id: Seq<char>| (#[trigger] locate(reap(s), id)) is Some implies locate(
                s,
                id,
            ) is Some by {
                assert(locate(t, id) is Some);
            }
        },
    }
}

/// Reaping brings no workload in: an id that is not there is not there
/// afterwards.
pub proof fn lemma_reap_keeps_absent(s: Seq<WorkloadView>, id: Seq<char>)
    requires
        position(s, id) is None,
    ensures
        position(reap(s), id) is None,
    decreases s.len(),
{
    lemma_reap_unfold(s);
    match first_doomed(s) {
        None => {},
        Some(i) => {
            let t = s.remove(i);
            if position(t, id) is Some {
                lemma_position_some(t, id);
                let j = position(t, id)->0;
                let c = if j < i {
                    j
                } else {
                    j + 1
                };
                assert(t[j] == s[c]);
                assert(s[c].id == id);
            }
            lemma_reap_keeps_absent(t, id);
        },
    }
}

/// Taking a workload away leaves the ids distinct.
pub proof fn lemma_remove_keeps_distinct(s: Seq<WorkloadView>, f: int)
    requires
        distinct_ids(s),
        0 <= f < s.len(),
    ensures
        distinct_ids(s.remove(f)),
{
    let t = s.remove(f);
    assert forall|a: int, b: int| 0 <= a < b < t.len() implies t[a].id != t[b].id by {
        let x = if a < f {
            a
        } else {
            a + 1
        };
        let y = if b < f {
            b
        } else {
            b + 1
        };
        assert(t[a] == s[x]);
        assert(t[b] == s[y]);
        assert(s[x].id != s[y].id);
    }
}

/// A workload that was taken away is not there any more.
pub proof fn lemma_removed_is_absent(s: Seq<WorkloadView>, i: int)
    requires
        distinct_ids(s),
        0 <= i < s.len(),
    ensures
        position(s.remove(i), s[i].id) is None,
{
    let t = s.remove(i);
    if position(t, s[i].id) is Some {
        lemma_position_some(t, s[i].id);
        let j = position(t, s[i].id)->0;
        let c = if j < i {
            j
        } else {
            j + 1
        };
        assert(t[j] == s[c]);
        if c < i {
            assert(s[c].id != s[i].id);
        } else {
            assert(s[i].id != s[c].id);
        }
    }
}

/// With distinct ids, the workload found at `i` is the one `position` names.
pub proof fn lemma_position_distinct(s: Seq<WorkloadView>, id: Seq<char>, i: int)
    requires
        distinct_ids(s),
        0 <= i < s.len(),
        s[i].id == id,
    ensures
        position(s, id) == Some(i),
{
    let j = choose|j: int| 0 <= j < s.len() && s[j].id == id;
    if i < j {
        assert(s[i].id != s[j].id);
    } else if j < i {
        assert(s[j].id != s[i].id);
    }
}

/// One step of reaping: the first workload that is being destroyed without
/// an instance is taken away and the rest is reaped; with no such workload
/// nothing changes.
pub proof fn lemma_reap_unfold(s: Seq<WorkloadView>)
    ensures
        match first_doomed(s) {
            Some(f) => 0 <= f < s.len() && doomed(s[f]) && reap(s) == reap(s.remove(f)),
            None => reap(s) == s,
        },
{
    reveal_with_fuel(reap, 1);
    lemma_first_doomed_found(s);
}

/// Where a workload is being destroyed without an instance, `first_doomed`
/// names one.
pub proof fn lemma_some_doomed(s: Seq<WorkloadView>, i: int)
    requires
        0 <= i < s.len(),
        doomed(s[i]),
    ensures
        first_doomed(s) is Some,
{
    reveal(first_doomed);
}

/// Reaping removes a workload that is being destroyed and has no instance.
pub proof fn lemma_reap_removes(s: Seq<WorkloadView>, i: int)
    requires
        distinct_ids(s),
        0 <= i < s.len(),
        doomed(s[i]),
    ensures
        position(reap(s), s[i].id) is None,
    decreases s.len(),
{
    lemma_some_doomed(s, i);
    lemma_reap_unfold(s);
    let f = first_doomed(s)->0;
    let t = s.remove(f);
    if f == i {
        lemma_removed_is_absent(s, i);
        lemma_reap_keeps_absent(t, s[i].id);
    } else {
        lemma_remove_keeps_distinct(s, f);
        let c = if i < f {
            i
        } else {
            i - 1
        };
        assert(t[c] == s[i]);
        lemma_reap_removes(t, c);
    }
}

/// Reaping leaves a workload that has an instance, or is not being destroyed,
/// where `position` finds it, as it is.
pub proof fn lemma_reap_keeps(s: Seq<WorkloadView>, i: int)
    requires
        distinct_ids(s),
        0 <= i < s.len(),
        !doomed(s[i]),
    ensures
        position(reap(s), s[i].id) is Some,
        reap(s)[position(reap(s), s[i].id)->0] == s[i],
    decreases s.len(),
{
    lemma_reap_unfold(s);
    match first_doomed(s) {
        None => {
            lemma_position_distinct(s, s[i].id, i);
        },
        Some(f) => {
            let t = s.remove(f);
            lemma_remove_keeps_distinct(s, f);
            let c = if i < f {
                i
            } else {
                i - 1
            };
            assert(t[c] == s[i]);
            lemma_reap_keeps(t, c);
        },
    }
}

/// Every workload that reaping leaves is one of those it was given.
pub proof fn lemma_reap_members(s: Seq<WorkloadView>)
    ensures
        forall|j: int| 0 <= j < reap(s).len() ==> s.contains(#[trigger] reap(s)[j]),
    decreases s.len(),
{
    lemma_reap_unfold(s);
    match first_doomed(s) {
        None => {},
        Some(f) => {
            let t = s.remove(f);
            lemma_reap_members(t);
            assert forall|j: int| 0 <= j < reap(s).len() implies s.contains(
                #[trigger] reap(s)[j],
            ) by {
                assert(t.contains(reap(t)[j]));
                let a = choose|a: int| 0 <= a < t.len() && t[a] == reap(t)[j];
                let c = if a < f {
                    a
                } else {
                    a + 1
                };
                assert(s[c] == t[a]);
            }
        },
    }
}

} // verus!
