//! The records that cross into user memory, and their byte layouts.
//!
//! A timestamp is two words, seconds then microseconds. A task record is the
//! status tag in one byte, the syscall counters, and the running time in a
//! word; every field stands at its natural alignment and the bytes between
//! fields are zero. Integers are little-endian.

use vstd::prelude::*;
use crate::config::{
    COUNTERS_END, COUNTERS_OFFSET, MAX_SYSCALL_NUM, MICROS_PER_SEC, TASK_INFO_SIZE, TIME_OFFSET,
    TIME_VAL_SIZE,
};
use crate::layout::{
    counter_at, counter_bytes, lemma_counter_round_trip, lemma_word_round_trip, push_counter,
    push_word, read_counter, read_word, word_at, word_bytes,
};

verus! {

/// A point in time: whole seconds, and the microseconds beyond them.
#[derive(Clone, Copy, Debug, PartialEq, Eq, Structural)]
pub struct TimeVal {
    pub sec: usize,
    pub usec: usize,
}

impl TimeVal {
    /// The timestamp of a clock reading in microseconds.
    pub open spec fn spec_from_us(us: usize) -> TimeVal {
        TimeVal { sec: (us / 1_000_000) as usize, usec: (us % 1_000_000) as usize }
    }

    /// The timestamp of a clock reading in microseconds.
    pub fn from_us(us: usize) -> (t: TimeVal)
        ensures
            t == Self::spec_from_us(us),
            t.sec * 1_000_000 + t.usec == us,
            t.usec < 1_000_000,
    {
        TimeVal { sec: us / MICROS_PER_SEC, usec: us % MICROS_PER_SEC }
    }

    /// The serialised form: the seconds, then the microseconds.
    pub open spec fn spec_bytes(self) -> Seq<u8> {
        word_bytes(self.sec as u64) + word_bytes(self.usec as u64)
    }

    /// Serialises the timestamp.
    pub fn to_bytes(&self) -> (out: Vec<u8>)
        ensures
            out@ == self.spec_bytes(),
            out@.len() == TIME_VAL_SIZE,
    {
        let mut out: Vec<u8> = Vec::with_capacity(TIME_VAL_SIZE);
        push_word(&mut out, self.sec as u64);
        push_word(&mut out, self.usec as u64);
        out
    }

    /// The timestamp that `s` is the serialised form of, if it is one: `s`
    /// has the length of a timestamp, and each word fits the machine's word.
    pub open spec fn spec_from_bytes(s: Seq<u8>) -> Option<TimeVal> {
        if s.len() == TIME_VAL_SIZE && word_at(s, 0) <= usize::MAX && word_at(s, 8) <= usize::MAX {
            Some(TimeVal { sec: word_at(s, 0) as usize, usec: word_at(s, 8) as usize })
        } else {
            None
        }
    }

    /// Reads a timestamp from its serialised form.
    pub fn from_bytes(s: &[u8]) -> (res: Option<TimeVal>)
        ensures
            res == Self::spec_from_bytes(s@),
    {
        if s.len() != TIME_VAL_SIZE {
            return None;
        }
        let sec = read_word(s, 0);
        let usec = read_word(s, 8);
        if sec > usize::MAX as u64 || usec > usize::MAX as u64 {
            return None;
        }
        Some(TimeVal { sec: sec as usize, usec: usec as usize })
    }

    /// A timestamp is read back from its serialised form.
    pub proof fn lemma_round_trip(self)
        ensures
            self.spec_bytes().len() == TIME_VAL_SIZE,
            Self::spec_from_bytes(self.spec_bytes()) == Some(self),
    {
        let s = self.spec_bytes();
        assert(s.subrange(0, 8) =~= word_bytes(self.sec as u64));
        assert(s.subrange(8, 16) =~= word_bytes(self.usec as u64));
        lemma_word_round_trip(s, 0, self.sec as u64);
        lemma_word_round_trip(s, 8, self.usec as u64);
    }
}

/// The scheduling state of a task.
#[derive(Clone, Copy, Debug, PartialEq, Eq, Structural)]
pub enum TaskStatus {
    UnInit,
    Ready,
    Running,
    Exited,
}

impl TaskStatus {
    /// The byte that stands for the status in a serialised task record.
    pub open spec fn spec_tag(self) -> u8 {
        match self {
            TaskStatus::UnInit => 0,
            TaskStatus::Ready => 1,
            TaskStatus::Running => 2,
            TaskStatus::Exited => 3,
        }
    }

    /// The byte that stands for the status in a serialised task record.
    pub fn tag(&self) -> (t: u8)
        ensures
            t == self.spec_tag(),
    {
        match self {
            TaskStatus::UnInit => 0,
            TaskStatus::Ready => 1,
            TaskStatus::Running => 2,
            TaskStatus::Exited => 3,
        }
    }

    /// The status that a tag stands for, if any.
    pub open spec fn spec_from_tag(t: u8) -> Option<TaskStatus> {
        if t == 0 {
            Some(TaskStatus::UnInit)
        } else if t == 1 {
            Some(TaskStatus::Ready)
        } else if t == 2 {
            Some(TaskStatus::Running)
        } else if t == 3 {
            Some(TaskStatus::Exited)
        } else {
            None
        }
    }

    /// The status that a tag stands for, if any.
    pub fn from_tag(t: u8) -> (res: Option<TaskStatus>)
        ensures
            res == Self::spec_from_tag(t),
    {
        if t == 0 {
            Some(TaskStatus::UnInit)
        } else if t == 1 {
            Some(TaskStatus::Ready)
        } else if t == 2 {
            Some(TaskStatus::Running)
        } else if t == 3 {
            Some(TaskStatus::Exited)
        } else {
            None
        }
    }
}

/// What a task is told about itself: its status, how often it has made each
/// syscall, and how long it has run. A copy taken at one moment.
#[derive(Clone, Copy, Debug, PartialEq, Eq)]
pub struct TaskInfo {
    pub status: TaskStatus,
    pub syscall_times: [u32; MAX_SYSCALL_NUM],
    pub time: usize,
}

impl TaskInfo {
    /// The byte at offset `i` of the serialised form.
    pub open spec fn byte_at(self, i: int) -> u8 {
        if i == 0 {
            self.status.spec_tag()
        } else if i < COUNTERS_OFFSET {
            0
        } else if i < COUNTERS_END {
            counter_bytes(self.syscall_times@[(i - COUNTERS_OFFSET) / 4])[(i - COUNTERS_OFFSET) % 4]
        } else if i < TIME_OFFSET {
            0
        } else {
            word_bytes(self.time as u64)[i - TIME_OFFSET]
        }
    }

    /// The serialised form.
    pub open spec fn spec_bytes(self) -> Seq<u8> {
        Seq::new(TASK_INFO_SIZE as nat, |i: int| self.byte_at(i))
    }

    /// Serialises the record.
    pub fn to_bytes(&self) -> (out: Vec<u8>)
        ensures
            out@ == self.spec_bytes(),
            out@.len() == TASK_INFO_SIZE,
    {
        let mut out: Vec<u8> = Vec::with_capacity(TASK_INFO_SIZE);
        out.push(self.status.tag());
        out.push(0);
        out.push(0);
        out.push(0);
        let mut k: usize = 0;
        while k < MAX_SYSCALL_NUM
            invariant
                k <= MAX_SYSCALL_NUM,
                out@.len() == COUNTERS_OFFSET + 4 * k,
                forall|i: int| 0 <= i < out@.len() ==> out@[i] == self.byte_at(i),
            decreases MAX_SYSCALL_NUM - k,
        {
            let ghost before = out@;
            push_counter(&mut out, self.syscall_times[k]);
            assert forall|i: int| 0 <= i < out@.len() implies out@[i] == self.byte_at(i) by {
                if i >= before.len() {
                    assert((i - COUNTERS_OFFSET) / 4 == k);
                    assert(out@[i] == counter_bytes(self.syscall_times@[k as int])[i - before.len()]);
                } else {
                    assert(out@[i] == before[i]);
                }
            }
            k += 1;
        }
        out.push(0);
        out.push(0);
        out.push(0);
        out.push(0);
        let ghost before = out@;
        push_word(&mut out, self.time as u64);
        assert forall|i: int| 0 <= i < out@.len() implies out@[i] == self.byte_at(i) by {
            if i >= before.len() {
                assert(out@[i] == word_bytes(self.time as u64)[i - before.len()]);
            } else {
                assert(out@[i] == before[i]);
            }
        }
        assert(out@ =~= self.spec_bytes());
        out
    }

    /// Whether `s` is the serialised form of some record: it has the length
    /// of one, its first byte is the tag of a status, and the running time
    /// fits the machine's word. The bytes between the fields are not looked at.
    pub open spec fn decodable(s: Seq<u8>) -> bool {
        &&& s.len() == TASK_INFO_SIZE
        &&& TaskStatus::spec_from_tag(s[0]) is Some
        &&& word_at(s, TIME_OFFSET as int) <= usize::MAX
    }

    /// Whether `self` is the record that the fields of `s` spell out.
    pub open spec fn decodes(self, s: Seq<u8>) -> bool {
        &&& TaskStatus::spec_from_tag(s[0]) == Some(self.status)
        &&& forall|k: int|
            0 <= k < MAX_SYSCALL_NUM ==> #[trigger] self.syscall_times@[k] == counter_at(
                s,
                COUNTERS_OFFSET + 4 * k,
            )
        &&& self.time == word_at(s, TIME_OFFSET as int)
    }

    /// Reads a record from its serialised form.
    pub fn from_bytes(s: &[u8]) -> (res: Option<TaskInfo>)
        ensures
            res is Some <==> Self::decodable(s@),
            res matches Some(info) ==> info.decodes(s@),
    {
        if s.len() != TASK_INFO_SIZE {
            return None;
        }
        let status = match TaskStatus::from_tag(s[0]) {
            Some(status) => status,
            None => {
                return None;
            },
        };
        let time = read_word(s, TIME_OFFSET);
        if time > usize::MAX as u64 {
            return None;
        }
        let mut syscall_times: [u32; MAX_SYSCALL_NUM] = [0u32; MAX_SYSCALL_NUM];
        let mut k: usize = 0;
        while k < MAX_SYSCALL_NUM
            invariant
                k <= MAX_SYSCALL_NUM,
                s@.len() == TASK_INFO_SIZE,
                forall|j: int|
                    0 <= j < k ==> #[trigger] syscall_times@[j] == counter_at(s@, COUNTERS_OFFSET + 4 * j),
            decreases MAX_SYSCALL_NUM - k,
        {
            syscall_times[k] = read_counter(s, COUNTERS_OFFSET + 4 * k);
            k += 1;
        }
        Some(TaskInfo { status, syscall_times, time: time as usize })
    }

    /// At most one record is spelled out by a byte sequence.
    pub proof fn lemma_decoding_is_unique(a: TaskInfo, b: TaskInfo, s: Seq<u8>)
        requires
            a.decodes(s),
            b.decodes(s),
        ensures
            a == b,
    {
        assert forall|k: int| 0 <= k < MAX_SYSCALL_NUM implies a.syscall_times[k] == b.syscall_times[k] by {
            assert(a.syscall_times@[k] == counter_at(s, COUNTERS_OFFSET + 4 * k));
            assert(b.syscall_times@[k] == counter_at(s, COUNTERS_OFFSET + 4 * k));
        }
        assert(a.syscall_times =~= b.syscall_times);
    }

    /// A record is read back from its serialised form.
    pub proof fn lemma_round_trip(self)
        ensures
            Self::decodable(self.spec_bytes()),
            self.decodes(self.spec_bytes()),
    {
        let s = self.spec_bytes();
        assert(s[0] == self.status.spec_tag());
        assert(s.subrange(TIME_OFFSET as int, TIME_OFFSET + 8) =~= word_bytes(self.time as u64));
        lemma_word_round_trip(s, TIME_OFFSET as int, self.time as u64);
        assert forall|k: int| 0 <= k < MAX_SYSCALL_NUM implies #[trigger] self.syscall_times@[k] == counter_at(
            s,
            COUNTERS_OFFSET + 4 * k,
        ) by {
            let at = COUNTERS_OFFSET + 4 * k;
            let c = counter_bytes(self.syscall_times@[k]);
            assert forall|j: int| 0 <= j < 4 implies s.subrange(at, at + 4)[j] == c[j] by {
                assert(s[at + j] == self.byte_at(at + j));
                assert((at + j - COUNTERS_OFFSET) / 4 == k);
                assert((at + j - COUNTERS_OFFSET) % 4 == j);
            }
            assert(s.subrange(at, at + 4) =~= c);
            lemma_counter_round_trip(s, at, self.syscall_times@[k]);
        }
    }
}

} // verus!
