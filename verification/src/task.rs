//! The instrumentation that is kept for each task: its scheduling status and
//! how often it has made each syscall.

use vstd::prelude::*;
use crate::config::MAX_SYSCALL_NUM;
use crate::marshal::MarshalError;
use crate::record::{TaskInfo, TaskStatus};

verus! {

/// The counters after one more call of syscall `id`.
pub open spec fn counted(counters: Seq<u32>, id: int) -> Seq<u32> {
    counters.update(id, (counters[id] + 1) as u32)
}

/// The counters after `n` more calls of syscall `id`.
pub open spec fn counted_times(counters: Seq<u32>, id: int, n: nat) -> Seq<u32>
    decreases n,
{
    if n == 0 {
        counters
    } else {
        counted(counted_times(counters, id, (n - 1) as nat), id)
    }
}

/// The status and the syscall counters of one task. The scheduler sets the
/// status; a counter changes only by one call of `record_syscall`.
pub struct TaskInfoTracker {
    status: TaskStatus,
    syscall_times: [u32; MAX_SYSCALL_NUM],
}

impl TaskInfoTracker {
    /// The status that the scheduler gave the task last.
    pub closed spec fn spec_status(&self) -> TaskStatus {
        self.status
    }

    /// The counters, one for each recognised syscall id.
    pub closed spec fn counter_array(&self) -> [u32; MAX_SYSCALL_NUM] {
        self.syscall_times
    }

    /// The counters as a sequence: index `id` holds how often the task has
    /// made syscall `id`.
    pub open spec fn counters(&self) -> Seq<u32> {
        self.counter_array()@
    }

    /// The record of a task that was just created: not yet initialised, and
    /// every counter at zero.
    pub fn new() -> (t: TaskInfoTracker)
        ensures
            t.spec_status() == TaskStatus::UnInit,
            forall|id: int| 0 <= id < MAX_SYSCALL_NUM ==> t.counters()[id] == 0,
    {
        TaskInfoTracker { status: TaskStatus::UnInit, syscall_times: [0u32; MAX_SYSCALL_NUM] }
    }

    /// The current status.
    pub fn status(&self) -> (s: TaskStatus)
        ensures
            s == self.spec_status(),
    {
        self.status
    }

    /// Stores the status that the scheduler has given the task.
    pub fn set_status(&mut self, status: TaskStatus)
        ensures
            final(self).spec_status() == status,
            final(self).counter_array() == old(self).counter_array(),
    {
        self.status = status;
    }

    /// How often the task has made syscall `id`; `None` where `id` is no
    /// recognised syscall.
    pub fn syscall_count(&self, id: usize) -> (res: Option<u32>)
        ensures
            id < MAX_SYSCALL_NUM ==> res == Some(self.counters()[id as int]),
            id >= MAX_SYSCALL_NUM ==> res is None,
    {
        if id < MAX_SYSCALL_NUM {
            Some(self.syscall_times[id])
        } else {
            None
        }
    }

    /// Counts one call of syscall `id`.
    ///
    /// A recognised id has its counter raised by one, and nothing else
    /// changes. Any other id is refused with `UnknownSyscall`, and nothing
    /// changes. A counter that stands at the largest value cannot count on.
    pub fn record_syscall(&mut self, id: usize) -> (res: Result<(), MarshalError>)
        requires
            id < MAX_SYSCALL_NUM ==> old(self).counters()[id as int] < u32::MAX,
        ensures
            res is Ok <==> id < MAX_SYSCALL_NUM,
            res is Err ==> res == Err::<(), MarshalError>(MarshalError::UnknownSyscall),
            res is Err ==> *final(self) == *old(self),
            final(self).spec_status() == old(self).spec_status(),
            res is Ok ==> final(self).counters() == counted(old(self).counters(), id as int),
    {
        if id >= MAX_SYSCALL_NUM {
            return Err(MarshalError::UnknownSyscall);
        }
        self.syscall_times[id] = self.syscall_times[id] + 1;
        Ok(())
    }

    /// The copy of the task's record at a moment when it has run for
    /// `running_time`.
    pub open spec fn spec_snapshot(&self, running_time: usize) -> TaskInfo {
        TaskInfo { status: self.spec_status(), syscall_times: self.counter_array(), time: running_time }
    }

    /// Copies the task's record. `running_time` is how long the scheduler
    /// says the task has run. The copy does not follow the task afterwards.
    pub fn snapshot(&self, running_time: usize) -> (info: TaskInfo)
        ensures
            info == self.spec_snapshot(running_time),
    {
        TaskInfo { status: self.status, syscall_times: self.syscall_times, time: running_time }
    }
}

/// Counting `n` calls of a recognised syscall raises its counter by `n` and
/// leaves every other counter as it was, as long as the counter can hold the
/// sum.
pub proof fn lemma_counted_times(counters: Seq<u32>, id: int, n: nat)
    requires
        0 <= id < counters.len(),
        counters[id] + n <= u32::MAX,
    ensures
        counted_times(counters, id, n).len() == counters.len(),
        counted_times(counters, id, n)[id] == counters[id] + n,
        forall|other: int|
            0 <= other < counters.len() && other != id ==> counted_times(counters, id, n)[other]
                == counters[other],
    decreases n,
{
    if n > 0 {
        lemma_counted_times(counters, id, (n - 1) as nat);
    }
}

/// Where a fresh task has made `n` calls of syscall `id` and nothing else,
/// a snapshot shows `n` for that syscall and zero for every other.
pub proof fn lemma_snapshot_counts_calls(fresh: TaskInfoTracker, task: TaskInfoTracker, id: int, n: nat, time: usize)
    requires
        0 <= id < MAX_SYSCALL_NUM,
        n <= u32::MAX,
        forall|k: int| 0 <= k < MAX_SYSCALL_NUM ==> fresh.counters()[k] == 0,
        task.counters() == counted_times(fresh.counters(), id, n),
    ensures
        task.spec_snapshot(time).syscall_times@[id] == n,
        forall|other: int|
            0 <= other < MAX_SYSCALL_NUM && other != id ==> task.spec_snapshot(time).syscall_times@[other]
                == 0,
{
    let start = fresh.counters();
    lemma_counted_times(start, id, n);
    assert forall|other: int| 0 <= other < MAX_SYSCALL_NUM && other != id implies task.spec_snapshot(
        time,
    ).syscall_times@[other] == 0 by {
        assert(counted_times(start, id, n)[other] == start[other]);
    }
}

/// A snapshot shows one more call right after it was counted.
pub proof fn lemma_snapshot_sees_last_call(before: TaskInfoTracker, after: TaskInfoTracker, id: int, time: usize)
    requires
        0 <= id < MAX_SYSCALL_NUM,
        before.counters()[id] < u32::MAX,
        after.counters() == counted(before.counters(), id),
    ensures
        after.spec_snapshot(time).syscall_times@[id] == before.spec_snapshot(time).syscall_times@[id] + 1,
{
}

/// Two snapshots of a task that has not changed in between, taken at the
/// same running time, are equal.
pub proof fn lemma_snapshot_repeats(first: TaskInfoTracker, second: TaskInfoTracker, time: usize)
    requires
        first.spec_status() == second.spec_status(),
        first.counters() == second.counters(),
    ensures
        first.spec_snapshot(time) == second.spec_snapshot(time),
{
    assert(first.counter_array() =~= second.counter_array());
}

} // verus!
