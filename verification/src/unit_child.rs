//! The child manager: which unit each watched process belongs to.
use crate::unit::{first_index, Unit};
use crate::unit_base::WaitStatus;
use crate::unit_sets::{name_index, UnitSets};
use vstd::prelude::*;

verus! {

/// A watched process and the unit it is attributed to.
#[derive(Clone, Copy, PartialEq, Eq, Debug, Structural)]
pub struct WatchedPid {
    pub pid: i32,
    pub unit: usize,
}

/// No process is watched twice.
pub open spec fn pids_unique(watch: Seq<WatchedPid>) -> bool {
    forall|i: int, j: int|
        0 <= i < j < watch.len() ==> (#[trigger] watch[i]).pid != (#[trigger] watch[j]).pid
}

/// The place among the first `upto` entries at which `pid` is watched.
pub open spec fn pid_index(watch: Seq<WatchedPid>, pid: i32, upto: int) -> Option<int>
    decreases upto,
{
    if upto <= 0 || upto > watch.len() {
        None
    } else {
        match pid_index(watch, pid, upto - 1) {
            Some(i) => Some(i),
            None => if watch[upto - 1].pid == pid {
                Some(upto - 1)
            } else {
                None
            },
        }
    }
}

/// The unit that `pid` is attributed to.
pub open spec fn pid_unit(watch: Seq<WatchedPid>, pid: i32) -> Option<usize> {
    match pid_index(watch, pid, watch.len() as int) {
        Some(i) => Some(watch[i].unit),
        None => None,
    }
}

/// The processes attributed to `unit`, in the order in which they came
/// to be watched.
pub open spec fn unit_pids(watch: Seq<WatchedPid>, unit: usize) -> Seq<i32>
    decreases watch.len(),
{
    if watch.len() == 0 {
        Seq::empty()
    } else {
        let rest = unit_pids(watch.drop_last(), unit);
        if watch.last().unit == unit {
            rest.push(watch.last().pid)
        } else {
            rest
        }
    }
}

/// The watch list after `pid` has been attributed to `unit`: a process
/// that was watched changes hands, a new one is added at the end.
pub open spec fn watch_added(watch: Seq<WatchedPid>, unit: usize, pid: i32) -> Seq<WatchedPid> {
    match pid_index(watch, pid, watch.len() as int) {
        Some(i) => watch.update(i, WatchedPid { pid, unit }),
        None => watch.push(WatchedPid { pid, unit }),
    }
}

/// The watch list after the first `upto` of `pids` have been attributed
/// to `unit`, one after another.
pub open spec fn watch_added_all(watch: Seq<WatchedPid>, unit: usize, pids: Seq<i32>, upto: int)
    -> Seq<WatchedPid>
    decreases upto,
{
    if upto <= 0 || upto > pids.len() {
        watch
    } else {
        watch_added(watch_added_all(watch, unit, pids, upto - 1), unit, pids[upto - 1])
    }
}

/// The watch list after `pid` is no longer watched.
pub open spec fn watch_removed(watch: Seq<WatchedPid>, pid: i32) -> Seq<WatchedPid> {
    match pid_index(watch, pid, watch.len() as int) {
        Some(i) => watch.remove(i),
        None => watch,
    }
}

/// A unit's own list of children with `pid` among them: at the end,
/// unless it was there.
pub open spec fn list_with(list: Seq<i32>, pid: i32) -> Seq<i32> {
    if list.contains(pid) {
        list
    } else {
        list.push(pid)
    }
}

/// A unit's own list of children without the first `pid`.
pub open spec fn list_without(list: Seq<i32>, pid: i32) -> Seq<i32> {
    match first_index(list, pid, list.len() as int) {
        Some(i) => list.remove(i),
        None => list,
    }
}

/// Whether a unit's own list of children is in step with the watch
/// list: the list names no process twice, and names exactly the
/// processes that are attributed to the unit at place `unit`.
pub open spec fn children_in_step(watch: Seq<WatchedPid>, unit: usize, list: Seq<i32>) -> bool {
    &&& list.no_duplicates()
    &&& forall|pid: i32| #[trigger] list.contains(pid) <==> pid_unit(watch, pid) == Some(unit)
}

/// [`pid_index`] finds `pid` exactly when it is watched.
pub proof fn lemma_pid_index(watch: Seq<WatchedPid>, pid: i32, upto: int)
    requires
        0 <= upto <= watch.len(),
    ensures
        match pid_index(watch, pid, upto) {
            Some(i) => 0 <= i < upto && watch[i].pid == pid && forall|k: int|
                0 <= k < i ==> (#[trigger] watch[k]).pid != pid,
            None => forall|k: int| 0 <= k < upto ==> (#[trigger] watch[k]).pid != pid,
        },
    decreases upto,
{
    if upto > 0 {
        lemma_pid_index(watch, pid, upto - 1);
    }
}

proof fn lemma_pid_index_found(watch: Seq<WatchedPid>, pid: i32, i: int, upto: int)
    requires
        0 <= i < upto <= watch.len(),
        pid_index(watch, pid, i) is None,
        watch[i].pid == pid,
    ensures
        pid_index(watch, pid, upto) == Some(i),
    decreases upto - i,
{
    if upto > i + 1 {
        lemma_pid_index_found(watch, pid, i, upto - 1);
    }
}

/// The processes of a unit are those entries of the watch list that
/// name it.
pub proof fn lemma_unit_pids(watch: Seq<WatchedPid>, unit: usize, pid: i32)
    ensures
        unit_pids(watch, unit).contains(pid) <==> exists|i: int|
            0 <= i < watch.len() && #[trigger] watch[i] == (WatchedPid { pid, unit }),
    decreases watch.len(),
{
    if watch.len() > 0 {
        let rest = watch.drop_last();
        lemma_unit_pids(rest, unit, pid);
        let out = unit_pids(watch, unit);
        if out.contains(pid) {
            let k = choose|k: int| 0 <= k < out.len() && out[k] == pid;
            if k < unit_pids(rest, unit).len() {
                assert(unit_pids(rest, unit)[k] == pid);
                let i = choose|i: int|
                    0 <= i < rest.len() && #[trigger] rest[i] == (WatchedPid { pid, unit });
                assert(watch[i] == rest[i]);
            } else {
                assert(watch[watch.len() - 1] == (WatchedPid { pid, unit }));
            }
        }
        if exists|i: int| 0 <= i < watch.len() && #[trigger] watch[i] == (WatchedPid { pid, unit }) {
            let i = choose|i: int|
                0 <= i < watch.len() && #[trigger] watch[i] == (WatchedPid { pid, unit });
            if i < rest.len() {
                assert(rest[i] == watch[i]);
                let k = choose|k: int|
                    0 <= k < unit_pids(rest, unit).len() && unit_pids(rest, unit)[k] == pid;
                assert(out[k] == pid);
            } else {
                assert(out[out.len() - 1] == pid);
            }
        }
    }
}

/// Every process among a unit's children is attributed to that unit
/// and to no other: for each unit `u` and each process `p` among the
/// children of `u`, the process index maps `p` back to `u`.
pub proof fn lemma_child_index(watch: Seq<WatchedPid>, unit: usize, pid: i32)
    requires
        pids_unique(watch),
    ensures
        unit_pids(watch, unit).contains(pid) <==> pid_unit(watch, pid) == Some(unit),
{
    lemma_unit_pids(watch, unit, pid);
    lemma_pid_index(watch, pid, watch.len() as int);
    if unit_pids(watch, unit).contains(pid) {
        let i = choose|i: int|
            0 <= i < watch.len() && #[trigger] watch[i] == (WatchedPid { pid, unit });
        let found = pid_index(watch, pid, watch.len() as int);
        assert(found is Some);
        if found->0 < i {
            assert(watch[found->0].pid != watch[i].pid);
        } else if i < found->0 {
            assert(watch[i].pid != watch[found->0].pid);
        }
    }
    if pid_unit(watch, pid) == Some(unit) {
        let i = pid_index(watch, pid, watch.len() as int)->0;
        assert(watch[i] == (WatchedPid { pid, unit }));
    }
}

proof fn lemma_first_index(list: Seq<i32>, pid: i32, upto: int)
    requires
        0 <= upto <= list.len(),
    ensures
        match first_index(list, pid, upto) {
            Some(i) => 0 <= i < upto && list[i] == pid,
            None => forall|k: int| 0 <= k < upto ==> list[k] != pid,
        },
    decreases upto,
{
    if upto > 0 {
        lemma_first_index(list, pid, upto - 1);
    }
}

/// Attributing a process to a unit leaves every other process with the
/// unit that it had.
pub proof fn lemma_watch_added_other(watch: Seq<WatchedPid>, unit: usize, pid: i32, other: i32)
    requires
        pids_unique(watch),
        other != pid,
    ensures
        pid_unit(watch_added(watch, unit, pid), other) == pid_unit(watch, other),
{
    let added = watch_added(watch, unit, pid);
    lemma_pid_index(watch, pid, watch.len() as int);
    lemma_pid_index(watch, other, watch.len() as int);
    lemma_pid_index(added, other, added.len() as int);
    let before = pid_index(watch, other, watch.len() as int);
    let after = pid_index(added, other, added.len() as int);
    assert(forall|k: int| 0 <= k < watch.len() ==> (#[trigger] added[k]).pid == watch[k].pid);
    match before {
        Some(i) => {
            assert(added[i].pid == other);
            assert(after is Some);
            assert(after->0 == i) by {
                if after->0 < i {
                    assert(added[after->0].pid == watch[after->0].pid);
                }
            }
            assert(added[i] == watch[i]);
        },
        None => {
            if after is Some {
                let j = after->0;
                if j < watch.len() {
                    assert(added[j].pid == watch[j].pid);
                }
            }
        },
    }
}

/// Giving a process up leaves every other process with the unit that
/// it had.
pub proof fn lemma_watch_removed_other(watch: Seq<WatchedPid>, pid: i32, other: i32)
    requires
        pids_unique(watch),
        other != pid,
    ensures
        pid_unit(watch_removed(watch, pid), other) == pid_unit(watch, other),
{
    let removed = watch_removed(watch, pid);
    lemma_pid_index(watch, pid, watch.len() as int);
    lemma_pid_index(watch, other, watch.len() as int);
    lemma_pid_index(removed, other, removed.len() as int);
    let before = pid_index(watch, other, watch.len() as int);
    let after = pid_index(removed, other, removed.len() as int);
    match pid_index(watch, pid, watch.len() as int) {
        None => {},
        Some(at) => {
            assert(forall|k: int| 0 <= k < at ==> #[trigger] removed[k] == watch[k]);
            assert(forall|k: int|
                at <= k < removed.len() ==> #[trigger] removed[k] == watch[k + 1]);
            match before {
                Some(i) => {
                    let to = if i < at {
                        i
                    } else {
                        i - 1
                    };
                    assert(removed[to] == watch[i]);
                    assert(after is Some);
                    let j = after->0;
                    let from = if j < at {
                        j
                    } else {
                        j + 1
                    };
                    assert(watch[from] == removed[j]);
                    if from < i {
                        assert(watch[from].pid != other);
                    } else if i < from {
                        assert(to < j);
                        assert(removed[to].pid != other);
                    }
                },
                None => {
                    if after is Some {
                        let j = after->0;
                        let from = if j < at {
                            j
                        } else {
                            j + 1
                        };
                        assert(watch[from] == removed[j]);
                    }
                },
            }
        },
    }
}

/// Attributing a process to a unit keeps the lists of children in
/// step with the watch list: the list of that unit once the process is
/// added to it, and the list of any other unit that does not name the
/// process.
pub proof fn lemma_watch_added_step(
    watch: Seq<WatchedPid>,
    unit: usize,
    pid: i32,
    other: usize,
    list: Seq<i32>,
)
    requires
        pids_unique(watch),
        children_in_step(watch, other, list),
        other != unit ==> !list.contains(pid),
    ensures
        children_in_step(
            watch_added(watch, unit, pid),
            other,
            if other == unit {
                list_with(list, pid)
            } else {
                list
            },
        ),
{
    let added = watch_added(watch, unit, pid);
    let after = if other == unit {
        list_with(list, pid)
    } else {
        list
    };
    lemma_watch_unique(watch, unit, pid);
    assert forall|q: i32| #[trigger] after.contains(q) <==> pid_unit(added, q) == Some(other) by {
        if q != pid {
            lemma_watch_added_other(watch, unit, pid, q);
            assert(list.contains(q) <==> pid_unit(watch, q) == Some(other));
            if after != list {
                lemma_push_contains(list, pid, q);
            }
        } else {
            if other == unit && !list.contains(pid) {
                assert(after.last() == pid);
            }
        }
    }
    if after != list {
        assert forall|i: int, j: int| 0 <= i < after.len() && 0 <= j < after.len() && i != j implies after[i] != after[j] by {
            if i < list.len() && j < list.len() {
            } else if i < list.len() {
                assert(list.contains(list[i]));
            } else if j < list.len() {
                assert(list.contains(list[j]));
            }
        }
    }
}

proof fn lemma_push_contains(list: Seq<i32>, pid: i32, q: i32)
    requires
        q != pid,
    ensures
        list.push(pid).contains(q) <==> list.contains(q),
{
    let longer = list.push(pid);
    if longer.contains(q) {
        let k = choose|k: int| 0 <= k < longer.len() && longer[k] == q;
        assert(list[k] == q);
    }
    if list.contains(q) {
        let k = choose|k: int| 0 <= k < list.len() && list[k] == q;
        assert(longer[k] == q);
    }
}

/// Giving a process up keeps the list of children of any unit in step
/// with the watch list, once the process is taken out of the list.
pub proof fn lemma_watch_removed_step(
    watch: Seq<WatchedPid>,
    pid: i32,
    other: usize,
    list: Seq<i32>,
)
    requires
        pids_unique(watch),
        children_in_step(watch, other, list),
    ensures
        children_in_step(watch_removed(watch, pid), other, list_without(list, pid)),
{
    let removed = watch_removed(watch, pid);
    let after = list_without(list, pid);
    lemma_watch_unique(watch, other, pid);
    lemma_first_index(list, pid, list.len() as int);
    let found = first_index(list, pid, list.len() as int);
    if found is Some {
        let at = found->0;
        assert(forall|k: int| 0 <= k < at ==> #[trigger] after[k] == list[k]);
        assert(forall|k: int| at <= k < after.len() ==> #[trigger] after[k] == list[k + 1]);
    }
    assert forall|q: i32| #[trigger] after.contains(q) <==> pid_unit(removed, q) == Some(other) by {
        if q != pid {
            lemma_watch_removed_other(watch, pid, q);
            assert(list.contains(q) <==> pid_unit(watch, q) == Some(other));
            if found is Some {
                let at = found->0;
                if after.contains(q) {
                    let k = choose|k: int| 0 <= k < after.len() && after[k] == q;
                    let from = if k < at {
                        k
                    } else {
                        k + 1
                    };
                    assert(list[from] == q);
                }
                if list.contains(q) {
                    let k = choose|k: int| 0 <= k < list.len() && list[k] == q;
                    let to = if k < at {
                        k
                    } else {
                        k - 1
                    };
                    assert(after[to] == q);
                }
            }
        } else {
            if after.contains(pid) {
                let k = choose|k: int| 0 <= k < after.len() && after[k] == pid;
                if found is Some {
                    let at = found->0;
                    let from = if k < at {
                        k
                    } else {
                        k + 1
                    };
                    assert(list[from] == pid && list[at] == pid && from != at);
                } else {
                    assert(list[k] == pid);
                }
            }
        }
    }
    if found is Some {
        let at = found->0;
        assert forall|i: int, j: int| 0 <= i < after.len() && 0 <= j < after.len() && i != j implies after[i] != after[j] by {
            let fi = if i < at {
                i
            } else {
                i + 1
            };
            let fj = if j < at {
                j
            } else {
                j + 1
            };
            assert(after[i] == list[fi] && after[j] == list[fj] && fi != fj);
        }
    }
}

/// Watching and unwatching keep every process watched at most once.
pub proof fn lemma_watch_unique(watch: Seq<WatchedPid>, unit: usize, pid: i32)
    requires
        pids_unique(watch),
    ensures
        pids_unique(watch_added(watch, unit, pid)),
        pids_unique(watch_removed(watch, pid)),
        pid_unit(watch_added(watch, unit, pid), pid) == Some(unit),
        pid_unit(watch_removed(watch, pid), pid) is None,
{
    lemma_pid_index(watch, pid, watch.len() as int);
    let added = watch_added(watch, unit, pid);
    let removed = watch_removed(watch, pid);
    lemma_pid_index(added, pid, added.len() as int);
    lemma_pid_index(removed, pid, removed.len() as int);
    match pid_index(watch, pid, watch.len() as int) {
        Some(i) => {
            assert(added[i].pid == pid);
            assert forall|a: int, b: int| 0 <= a < b < removed.len() implies (
            #[trigger] removed[a]).pid != (#[trigger] removed[b]).pid by {
                let a0 = if a < i {
                    a
                } else {
                    a + 1
                };
                let b0 = if b < i {
                    b
                } else {
                    b + 1
                };
                assert(watch[a0].pid != watch[b0].pid);
            }
            assert forall|k: int| 0 <= k < removed.len() implies (#[trigger] removed[k]).pid
                != pid by {
                let k0 = if k < i {
                    k
                } else {
                    k + 1
                };
                if k0 < i {
                    assert(watch[k0].pid != watch[i].pid);
                } else {
                    assert(watch[i].pid != watch[k0].pid);
                }
            }
            let found = pid_index(added, pid, added.len() as int);
            if found->0 < i {
                assert(watch[found->0].pid != pid);
            } else if i < found->0 {
                assert(watch[i].pid != watch[found->0].pid);
            }
        },
        None => {
            assert(added[watch.len() as int].pid == pid);
            let found = pid_index(added, pid, added.len() as int);
            if found->0 < watch.len() {
                assert(watch[found->0].pid != pid);
            }
        },
    }
}

/// The end of a process that no unit has claimed yet.
#[derive(Clone, Copy, PartialEq, Eq, Debug, Structural)]
pub struct BufferedExit {
    pub pid: i32,
    pub status: WaitStatus,
}

/// The most ends of unclaimed processes that are kept.
pub const CHILD_BUFFER_MAX: usize = 128;

/// The place among the first `upto` buffered ends that is that of
/// `pid`.
pub open spec fn buffered_index(buffer: Seq<BufferedExit>, pid: i32, upto: int) -> Option<int>
    decreases upto,
{
    if upto <= 0 || upto > buffer.len() {
        None
    } else {
        match buffered_index(buffer, pid, upto - 1) {
            Some(i) => Some(i),
            None => if buffer[upto - 1].pid == pid {
                Some(upto - 1)
            } else {
                None
            },
        }
    }
}

/// The buffer with one more end; where it is full, the oldest end makes
/// room.
pub open spec fn buffered(buffer: Seq<BufferedExit>, exit: BufferedExit) -> Seq<BufferedExit> {
    if buffer.len() >= CHILD_BUFFER_MAX {
        buffer.drop_first().push(exit)
    } else {
        buffer.push(exit)
    }
}

/// The watch list without the processes of `unit`.
pub open spec fn watch_without(watch: Seq<WatchedPid>, unit: usize) -> Seq<WatchedPid>
    decreases watch.len(),
{
    if watch.len() == 0 {
        Seq::empty()
    } else {
        let rest = watch_without(watch.drop_last(), unit);
        if watch.last().unit == unit {
            rest
        } else {
            rest.push(watch.last())
        }
    }
}

/// Taking a unit's processes off the watch list leaves every process
/// watched at most once, and none of the unit's.
pub proof fn lemma_watch_without(watch: Seq<WatchedPid>, unit: usize)
    ensures
        watch_without(watch, unit).len() <= watch.len(),
        forall|k: int|
            0 <= k < watch_without(watch, unit).len() ==> (#[trigger] watch_without(
                watch,
                unit,
            )[k]).unit != unit && exists|i: int|
                k <= i < watch.len() && watch[i] == watch_without(watch, unit)[k],
        pids_unique(watch) ==> pids_unique(watch_without(watch, unit)),
        unit_pids(watch_without(watch, unit), unit).len() == 0,
    decreases watch.len(),
{
    if watch.len() > 0 {
        let rest = watch.drop_last();
        lemma_watch_without(rest, unit);
        let out = watch_without(watch, unit);
        let out_rest = watch_without(rest, unit);
        assert forall|k: int| 0 <= k < out.len() implies (#[trigger] out[k]).unit != unit
            && exists|i: int| k <= i < watch.len() && watch[i] == out[k] by {
            if k < out_rest.len() {
                let i = choose|i: int| k <= i < rest.len() && rest[i] == out_rest[k];
                assert(watch[i] == out[k]);
            } else {
                assert(watch[watch.len() - 1] == out[k]);
            }
        }
        if pids_unique(watch) {
            assert(pids_unique(rest)) by {
                assert forall|i: int, j: int| 0 <= i < j < rest.len() implies (
                #[trigger] rest[i]).pid != (#[trigger] rest[j]).pid by {
                    assert(watch[i].pid != watch[j].pid);
                }
            }
            assert forall|a: int, b: int| 0 <= a < b < out.len() implies (#[trigger] out[a]).pid
                != (#[trigger] out[b]).pid by {
                if b < out_rest.len() {
                    assert(out_rest[a].pid != out_rest[b].pid);
                } else {
                    let i = choose|i: int| a <= i < rest.len() && rest[i] == out_rest[a];
                    assert(watch[i].pid != watch[watch.len() - 1].pid);
                }
            }
        }
        lemma_unit_pids_none(out, unit);
    } else {
        lemma_unit_pids_none(watch_without(watch, unit), unit);
    }
}

proof fn lemma_unit_pids_none(watch: Seq<WatchedPid>, unit: usize)
    requires
        forall|k: int| 0 <= k < watch.len() ==> (#[trigger] watch[k]).unit != unit,
    ensures
        unit_pids(watch, unit).len() == 0,
    decreases watch.len(),
{
    if watch.len() > 0 {
        assert(watch[watch.len() - 1].unit != unit);
        assert forall|k: int| 0 <= k < watch.drop_last().len() implies (
        #[trigger] watch.drop_last()[k]).unit != unit by {
            assert(watch[k].unit != unit);
        }
        lemma_unit_pids_none(watch.drop_last(), unit);
    }
}

proof fn lemma_buffered_index_found(buffer: Seq<BufferedExit>, pid: i32, i: int, upto: int)
    requires
        0 <= i < upto <= buffer.len(),
        buffered_index(buffer, pid, i) is None,
        buffer[i].pid == pid,
    ensures
        buffered_index(buffer, pid, upto) == Some(i),
    decreases upto - i,
{
    if upto > i + 1 {
        lemma_buffered_index_found(buffer, pid, i, upto - 1);
    }
}

/// The child manager.
pub struct UnitChild {
    watch_pids: Vec<WatchedPid>,
    buffer: Vec<BufferedExit>,
}

impl View for UnitChild {
    type V = Seq<WatchedPid>;

    closed spec fn view(&self) -> Seq<WatchedPid> {
        self.watch_pids@
    }
}

impl UnitChild {
    /// No process is watched twice.
    pub open spec fn wf(&self) -> bool {
        pids_unique(self@)
    }

    /// The ends of processes that no unit has claimed yet, oldest first.
    pub closed spec fn buffer(&self) -> Seq<BufferedExit> {
        self.buffer@
    }

    pub fn new() -> (r: UnitChild)
        ensures
            r@.len() == 0,
            r.buffer().len() == 0,
            r.wf(),
    {
        UnitChild { watch_pids: Vec::new(), buffer: Vec::new() }
    }

    /// Number of watched processes.
    pub fn len(&self) -> (r: usize)
        ensures
            r == self@.len(),
    {
        self.watch_pids.len()
    }

    fn find(&self, pid: i32) -> (r: Option<usize>)
        ensures
            match r {
                Some(i) => i < self@.len() && self@[i as int].pid == pid && pid_index(
                    self@,
                    pid,
                    self@.len() as int,
                ) == Some(i as int),
                None => pid_index(self@, pid, self@.len() as int) is None,
            },
    {
        let mut i: usize = 0;
        while i < self.watch_pids.len()
            invariant
                i <= self.watch_pids.len(),
                pid_index(self@, pid, i as int) is None,
            decreases self.watch_pids.len() - i,
        {
            if self.watch_pids[i].pid == pid {
                proof {
                    lemma_pid_index_found(self@, pid, i as int, self@.len() as int);
                }
                return Some(i);
            }
            i += 1;
        }
        None
    }

    /// Attributes `pid` to the unit called `id`, which must be
    /// registered.
    pub fn add_watch_pid(&mut self, units: &UnitSets, id: &String, pid: i32)
        requires
            old(self).wf(),
            name_index(units@, id@, units@.len() as int) is Some,
        ensures
            final(self).wf(),
            final(self).buffer() == old(self).buffer(),
            final(self)@ == watch_added(
                old(self)@,
                name_index(units@, id@, units@.len() as int)->0 as usize,
                pid,
            ),
            pid_unit(final(self)@, pid) == Some(
                name_index(units@, id@, units@.len() as int)->0 as usize,
            ),
    {
        match units.get(id) {
            None => {},
            Some(unit) => {
                self.watch_at(unit, pid);
            },
        }
    }

    /// Attributes `pid` to the unit at place `unit`.
    fn watch_at(&mut self, unit: usize, pid: i32)
        requires
            old(self).wf(),
        ensures
            final(self).wf(),
            final(self).buffer() == old(self).buffer(),
            final(self)@ == watch_added(old(self)@, unit, pid),
            pid_unit(final(self)@, pid) == Some(unit),
    {
        proof {
            lemma_watch_unique(self@, unit, pid);
        }
        match self.find(pid) {
            Some(i) => {
                self.watch_pids.set(i, WatchedPid { pid, unit });
            },
            None => {
                self.watch_pids.push(WatchedPid { pid, unit });
            },
        }
    }

    /// Stops watching `pid`, which the unit called `id` gives up. The
    /// unit must be registered.
    pub fn unwatch_pid(&mut self, units: &UnitSets, id: &String, pid: i32)
        requires
            old(self).wf(),
            name_index(units@, id@, units@.len() as int) is Some,
        ensures
            final(self).wf(),
            final(self).buffer() == old(self).buffer(),
            final(self)@ == watch_removed(old(self)@, pid),
            pid_unit(final(self)@, pid) is None,
    {
        self.unwatch(pid);
    }

    /// Stops watching `pid`.
    fn unwatch(&mut self, pid: i32)
        requires
            old(self).wf(),
        ensures
            final(self).wf(),
            final(self).buffer() == old(self).buffer(),
            final(self)@ == watch_removed(old(self)@, pid),
            pid_unit(final(self)@, pid) is None,
    {
        proof {
            lemma_watch_unique(self@, 0, pid);
        }
        match self.find(pid) {
            Some(i) => {
                self.watch_pids.remove(i);
            },
            None => {},
        }
    }

    /// Attributes `pid` to `unit`, in the watch list and in the unit's
    /// own list of children. The unit must be registered. Where the
    /// two were in step for the unit, they are so afterwards.
    pub fn watch_child(&mut self, units: &UnitSets, unit: &mut Unit, pid: i32)
        requires
            old(self).wf(),
            name_index(units@, old(unit).spec_id(), units@.len() as int) is Some,
        ensures
            final(self).wf(),
            final(self).buffer() == old(self).buffer(),
            final(self)@ == watch_added(
                old(self)@,
                name_index(units@, old(unit).spec_id(), units@.len() as int)->0 as usize,
                pid,
            ),
            final(unit).spec_child_pids() == list_with(old(unit).spec_child_pids(), pid),
            final(unit).spec_id() == old(unit).spec_id(),
            final(unit).spec_load_state() == old(unit).spec_load_state(),
            children_in_step(
                old(self)@,
                name_index(units@, old(unit).spec_id(), units@.len() as int)->0 as usize,
                old(unit).spec_child_pids(),
            ) ==> children_in_step(
                final(self)@,
                name_index(units@, old(unit).spec_id(), units@.len() as int)->0 as usize,
                final(unit).spec_child_pids(),
            ),
    {
        let id = unit.id().clone();
        proof {
            crate::unit_sets::lemma_name_index(units@, id@, units@.len() as int);
        }
        match units.get(&id) {
            None => {},
            Some(place) => {
                proof {
                    if children_in_step(self@, place, unit.spec_child_pids()) {
                        lemma_watch_added_step(self@, place, pid, place, unit.spec_child_pids());
                    }
                }
                self.watch_at(place, pid);
                unit.child_add_pids(pid);
            },
        }
    }

    /// Stops watching `pid`, which `unit` gives up, in the watch list
    /// and in the unit's own list of children. The unit must be
    /// registered. Where the two were in step for the unit, they are
    /// so afterwards.
    pub fn unwatch_child(&mut self, units: &UnitSets, unit: &mut Unit, pid: i32)
        requires
            old(self).wf(),
            name_index(units@, old(unit).spec_id(), units@.len() as int) is Some,
        ensures
            final(self).wf(),
            final(self).buffer() == old(self).buffer(),
            final(self)@ == watch_removed(old(self)@, pid),
            final(unit).spec_child_pids() == list_without(old(unit).spec_child_pids(), pid),
            final(unit).spec_id() == old(unit).spec_id(),
            final(unit).spec_load_state() == old(unit).spec_load_state(),
            children_in_step(
                old(self)@,
                name_index(units@, old(unit).spec_id(), units@.len() as int)->0 as usize,
                old(unit).spec_child_pids(),
            ) ==> children_in_step(
                final(self)@,
                name_index(units@, old(unit).spec_id(), units@.len() as int)->0 as usize,
                final(unit).spec_child_pids(),
            ),
    {
        proof {
            let place = name_index(units@, unit.spec_id(), units@.len() as int)->0 as usize;
            if children_in_step(self@, place, unit.spec_child_pids()) {
                lemma_watch_removed_step(self@, pid, place, unit.spec_child_pids());
            }
        }
        self.unwatch(pid);
        unit.child_remove_pids(pid);
    }

    /// A child of `unit`, which is registered at place `place`, has
    /// ended: the process is no longer watched, and leaves the unit's
    /// own list of children. Where the two were in step for the unit,
    /// they are so afterwards.
    pub fn child_ended(&mut self, unit: &mut Unit, place: usize, pid: i32)
        requires
            old(self).wf(),
            pid_unit(old(self)@, pid) == Some(place),
        ensures
            final(self).wf(),
            final(self).buffer() == old(self).buffer(),
            final(self)@ == watch_removed(old(self)@, pid),
            pid_unit(final(self)@, pid) is None,
            final(unit).spec_child_pids() == list_without(old(unit).spec_child_pids(), pid),
            final(unit).spec_id() == old(unit).spec_id(),
            final(unit).spec_load_state() == old(unit).spec_load_state(),
            children_in_step(old(self)@, place, old(unit).spec_child_pids()) ==> children_in_step(
                final(self)@,
                place,
                final(unit).spec_child_pids(),
            ),
    {
        proof {
            if children_in_step(self@, place, unit.spec_child_pids()) {
                lemma_watch_removed_step(self@, pid, place, unit.spec_child_pids());
            }
        }
        self.unwatch(pid);
        unit.child_remove_pids(pid);
    }

    /// The unit that `pid` is attributed to.
    pub fn get_unit_by_pid(&self, pid: i32) -> (r: Option<usize>)
        ensures
            r == pid_unit(self@, pid),
    {
        match self.find(pid) {
            Some(i) => Some(self.watch_pids[i].unit),
            None => None,
        }
    }

    /// The processes attributed to `unit`.
    pub fn child_pids(&self, unit: usize) -> (r: Vec<i32>)
        ensures
            r@ == unit_pids(self@, unit),
            self.wf() ==> forall|k: int|
                0 <= k < r@.len() ==> pid_unit(self@, #[trigger] r@[k]) == Some(unit),
    {
        let mut out: Vec<i32> = Vec::new();
        let mut i: usize = 0;
        while i < self.watch_pids.len()
            invariant
                i <= self.watch_pids.len(),
                out@ == unit_pids(self@.take(i as int), unit),
            decreases self.watch_pids.len() - i,
        {
            let entry = self.watch_pids[i];
            proof {
                assert(self@.take(i + 1).drop_last() == self@.take(i as int));
                assert(self@.take(i + 1).last() == entry);
            }
            if entry.unit == unit {
                out.push(entry.pid);
            }
            i += 1;
        }
        proof {
            assert(self@.take(self@.len() as int) == self@);
            if self.wf() {
                assert forall|k: int| 0 <= k < out@.len() implies pid_unit(
                    self@,
                    #[trigger] out@[k],
                ) == Some(unit) by {
                    assert(out@.contains(out@[k]));
                    lemma_child_index(self@, unit, out@[k]);
                }
            }
        }
        out
    }

    /// Takes up the recorded children of the unit called `id`: each of
    /// `pids` is attributed to it, in order.
    pub fn db_map(&mut self, units: &UnitSets, id: &String, pids: &Vec<i32>) -> (known: bool)
        requires
            old(self).wf(),
        ensures
            final(self).wf(),
            final(self).buffer() == old(self).buffer(),
            match name_index(units@, id@, units@.len() as int) {
                Some(unit) => known && final(self)@ == watch_added_all(
                    old(self)@,
                    unit as usize,
                    pids@,
                    pids@.len() as int,
                ) && forall|k: int|
                    0 <= k < pids@.len() ==> pid_unit(final(self)@, #[trigger] pids@[k]) == Some(
                        unit as usize,
                    ),
                None => !known && final(self)@ == old(self)@,
            },
    {
        let unit = match units.get(id) {
            None => {
                return false;
            },
            Some(unit) => unit,
        };
        let mut i: usize = 0;
        while i < pids.len()
            invariant
                i <= pids.len(),
                self.wf(),
                self.buffer() == old(self).buffer(),
                name_index(units@, id@, units@.len() as int) == Some(unit as int),
                self@ == watch_added_all(old(self)@, unit, pids@, i as int),
                forall|k: int|
                    0 <= k < i ==> pid_unit(self@, #[trigger] pids@[k]) == Some(unit),
            decreases pids.len() - i,
        {
            let ghost before = self@;
            self.add_watch_pid(units, id, pids[i]);
            proof {
                assert forall|k: int| 0 <= k < i implies pid_unit(self@, #[trigger] pids@[k])
                    == Some(unit) by {
                    lemma_added_keeps(before, unit, pids@[i as int], pids@[k]);
                }
            }
            i += 1;
        }
        true
    }

    /// A process has ended. Where a unit watches it, the process is no
    /// longer watched and the unit is returned, to be told. The end of a
    /// process that no unit watches is kept, in case a unit claims the
    /// process later.
    pub fn reap(&mut self, pid: i32, status: WaitStatus) -> (r: Option<usize>)
        requires
            old(self).wf(),
        ensures
            final(self).wf(),
            r == pid_unit(old(self)@, pid),
            match r {
                Some(unit) => final(self)@ == watch_removed(old(self)@, pid) && final(self).buffer()
                    == old(self).buffer() && pid_unit(final(self)@, pid) is None,
                None => final(self)@ == old(self)@ && final(self).buffer() == buffered(
                    old(self).buffer(),
                    BufferedExit { pid, status },
                ),
            },
    {
        match self.find(pid) {
            Some(i) => {
                proof {
                    lemma_watch_unique(self@, self.watch_pids@[i as int].unit, pid);
                }
                let entry = self.watch_pids.remove(i);
                Some(entry.unit)
            },
            None => {
                if self.buffer.len() >= CHILD_BUFFER_MAX {
                    self.buffer.remove(0);
                    proof {
                        assert(self.buffer@ =~= old(self).buffer@.drop_first());
                    }
                }
                self.buffer.push(BufferedExit { pid, status });
                None
            },
        }
    }

    /// The end of `pid` that was kept, if one was: the oldest where
    /// there are several. It is kept no longer.
    pub fn take_buffered(&mut self, pid: i32) -> (r: Option<WaitStatus>)
        ensures
            final(self)@ == old(self)@,
            match buffered_index(old(self).buffer(), pid, old(self).buffer().len() as int) {
                Some(i) => r == Some(old(self).buffer()[i].status) && final(self).buffer() == old(self).buffer().remove(i),
                None => r is None && final(self).buffer() == old(self).buffer(),
            },
    {
        let mut i: usize = 0;
        while i < self.buffer.len()
            invariant
                i <= self.buffer.len(),
                self.buffer@ == old(self).buffer@,
                self.watch_pids@ == old(self).watch_pids@,
                buffered_index(self.buffer@, pid, i as int) is None,
            decreases self.buffer.len() - i,
        {
            if self.buffer[i].pid == pid {
                proof {
                    lemma_buffered_index_found(
                        self.buffer@,
                        pid,
                        i as int,
                        self.buffer@.len() as int,
                    );
                }
                let exit = self.buffer.remove(i);
                return Some(exit.status);
            }
            i += 1;
        }
        None
    }

    /// The unit at `unit` is torn down: its processes are no longer
    /// watched.
    pub fn remove_unit(&mut self, unit: usize)
        requires
            old(self).wf(),
        ensures
            final(self).wf(),
            final(self)@ == watch_without(old(self)@, unit),
            final(self).buffer() == old(self).buffer(),
            unit_pids(final(self)@, unit).len() == 0,
    {
        let mut kept: Vec<WatchedPid> = Vec::new();
        let mut i: usize = 0;
        while i < self.watch_pids.len()
            invariant
                i <= self.watch_pids.len(),
                self.watch_pids@ == old(self).watch_pids@,
                self.buffer@ == old(self).buffer@,
                kept@ == watch_without(self.watch_pids@.take(i as int), unit),
            decreases self.watch_pids.len() - i,
        {
            let entry = self.watch_pids[i];
            proof {
                assert(self.watch_pids@.take(i + 1).drop_last() == self.watch_pids@.take(i as int));
                assert(self.watch_pids@.take(i + 1).last() == entry);
            }
            if entry.unit != unit {
                kept.push(entry);
            }
            i += 1;
        }
        proof {
            assert(self.watch_pids@.take(self.watch_pids@.len() as int) == self.watch_pids@);
            lemma_watch_without(self.watch_pids@, unit);
        }
        self.watch_pids = kept;
    }

    /// Forgets every process.
    pub fn entry_clear(&mut self)
        ensures
            final(self)@.len() == 0,
            final(self).buffer().len() == 0,
            final(self).wf(),
    {
        self.watch_pids.clear();
        self.buffer.clear();
    }
}

/// Attributing a process to a unit leaves what is attributed to that
/// unit attributed to it.
proof fn lemma_added_keeps(watch: Seq<WatchedPid>, unit: usize, pid: i32, other: i32)
    requires
        pids_unique(watch),
        pid_unit(watch, other) == Some(unit),
    ensures
        pid_unit(watch_added(watch, unit, pid), other) == Some(unit),
{
    let added = watch_added(watch, unit, pid);
    lemma_watch_unique(watch, unit, pid);
    lemma_pid_index(watch, other, watch.len() as int);
    lemma_pid_index(watch, pid, watch.len() as int);
    lemma_pid_index(added, other, added.len() as int);
    let i = pid_index(watch, other, watch.len() as int)->0;
    if other != pid {
        assert(added[i] == watch[i]);
        let found = pid_index(added, other, added.len() as int);
        assert(found is Some);
        if found->0 < i {
            assert(added[found->0].pid != added[i].pid);
        } else if i < found->0 {
            assert(added[i].pid != added[found->0].pid);
        }
    }
}

} // verus!
