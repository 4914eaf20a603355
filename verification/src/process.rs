//! The process syscalls that write a record to the calling task, and the
//! reserved ones.
//!
//! A handler is given what its collaborators have found for this call: the
//! destination that address translation returned for the user pointer, the
//! clock reading, the task's record. It decides and copies; control transfer
//! is handed back to the dispatcher as a request.

use vstd::prelude::*;
use crate::config::{TASK_INFO_SIZE, TIME_VAL_SIZE};
use crate::marshal::{
    copied, copy_record, copy_request, flat, lemma_copy_round_trip, lemma_copy_truncates, total_len,
    Destination, TranslationRequest,
};
use crate::record::TimeVal;
use crate::task::TaskInfoTracker;

verus! {

/// What a handler asks of the scheduler.
#[derive(Clone, Copy, Debug, PartialEq, Eq, Structural)]
pub enum SchedulerRequest {
    /// Put the calling task aside and run the next one.
    Suspend,
    /// End the calling task with this exit code and run the next one.
    Exit(i32),
}

/// The status code of a syscall that succeeded.
pub const SUCCESS: isize = 0;

/// The status code of a syscall that failed or is not supported.
pub const FAILURE: isize = -1;

/// The task ends: the scheduler is asked to end it with `exit_code`. No
/// status code goes back to the task.
pub fn sys_exit(exit_code: i32) -> (req: SchedulerRequest)
    ensures
        req == SchedulerRequest::Exit(exit_code),
{
    SchedulerRequest::Exit(exit_code)
}

/// The task gives up the processor: the scheduler is asked to suspend it,
/// and the task sees status code 0 when it runs again.
pub fn sys_yield() -> (res: (SchedulerRequest, isize))
    ensures
        res.0 == SchedulerRequest::Suspend,
        res.1 == 0,
{
    (SchedulerRequest::Suspend, SUCCESS)
}

/// The user range that `sys_get_time` writes to: as long as a timestamp,
/// from the task's pointer on. The second argument of the syscall is reserved
/// and not looked at.
pub fn get_time_request(ts: usize, _tz: usize) -> (req: TranslationRequest)
    ensures
        req.ptr == ts,
        req.len == TIME_VAL_SIZE,
{
    copy_request(ts, None, TIME_VAL_SIZE)
}

/// The user range that `sys_task_info` writes to: as long as a task record,
/// from the task's pointer on.
pub fn task_info_request(ti: usize) -> (req: TranslationRequest)
    ensures
        req.ptr == ti,
        req.len == TASK_INFO_SIZE,
{
    copy_request(ti, None, TASK_INFO_SIZE)
}

/// Writes the timestamp of the clock reading `us`, in microseconds, to the
/// destination that translation returned for the task's pointer. The second
/// argument of the syscall is reserved and not looked at.
///
/// Returns 0 where there is a destination, which then holds the serialised
/// timestamp as far as it is long enough; else -1.
pub fn sys_get_time(ts: Option<&mut Destination>, _tz: usize, us: usize) -> (code: isize)
    ensures
        ts is Some ==> code == 0,
        ts is None ==> code == -1,
        ts matches Some(d) ==> final(d)@ == copied(d@, TimeVal::spec_from_us(us).spec_bytes()),
{
    let time = TimeVal::from_us(us);
    let bytes = time.to_bytes();
    match copy_record(ts, bytes.as_slice()) {
        Ok(()) => SUCCESS,
        Err(e) => e.status_code(),
    }
}

/// Reserved: setting a priority is not supported. Returns -1.
pub fn sys_set_priority(_prio: isize) -> (code: isize)
    ensures
        code == -1,
{
    FAILURE
}

/// Reserved: mapping memory is not supported. Returns -1.
pub fn sys_mmap(_start: usize, _len: usize, _port: usize) -> (code: isize)
    ensures
        code == -1,
{
    FAILURE
}

/// Reserved: unmapping memory is not supported. Returns -1.
pub fn sys_munmap(_start: usize, _len: usize) -> (code: isize)
    ensures
        code == -1,
{
    FAILURE
}

/// Writes a snapshot of `task`, which has run for `running_time`, to the
/// destination that translation returned for the task's pointer.
///
/// Returns 0 where there is a destination, which then holds the serialised
/// snapshot as far as it is long enough; else -1.
pub fn sys_task_info(ti: Option<&mut Destination>, task: &TaskInfoTracker, running_time: usize) -> (code: isize)
    ensures
        ti is Some ==> code == 0,
        ti is None ==> code == -1,
        ti matches Some(d) ==> final(d)@ == copied(d@, task.spec_snapshot(running_time).spec_bytes()),
{
    let info = task.snapshot(running_time);
    let bytes = info.to_bytes();
    match copy_record(ti, bytes.as_slice()) {
        Ok(()) => SUCCESS,
        Err(e) => e.status_code(),
    }
}

/// A timestamp written to a destination that is long enough is read back
/// from the same range as it was.
pub proof fn lemma_time_val_reads_back(t: TimeVal, chunks: Seq<Seq<u8>>)
    requires
        total_len(chunks) >= TIME_VAL_SIZE,
    ensures
        TimeVal::spec_from_bytes(flat(copied(chunks, t.spec_bytes())).take(TIME_VAL_SIZE as int)) == Some(t),
{
    t.lemma_round_trip();
    lemma_copy_round_trip(chunks, t.spec_bytes());
}

/// From a destination that is too short, what is read back is the
/// serialised timestamp cut off at the destination's length.
pub proof fn lemma_time_val_truncated(t: TimeVal, chunks: Seq<Seq<u8>>)
    requires
        total_len(chunks) <= TIME_VAL_SIZE,
    ensures
        flat(copied(chunks, t.spec_bytes())) == t.spec_bytes().take(total_len(chunks)),
{
    t.lemma_round_trip();
    lemma_copy_truncates(chunks, t.spec_bytes());
}

} // verus!
