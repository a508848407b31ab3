//! The release queue: for every slot, the tick at which its task is next
//! entitled to run.
//!
//! This is the discrete way to track releases. Each tick releases at most
//! one slot, the one that has waited for the earliest tick, and a slot is
//! scheduled again by adding its task's period to the tick at which it asks.
//! Deadlines are kept wider than the tick counter, so that adding a period
//! to the counter always fits.

use vstd::prelude::*;
use crate::task_man::{TaskID, TaskMan};
use crate::tasks::{Task, TaskState};

verus! {

/// The release record of one slot.
#[derive(Clone, Copy, Debug, PartialEq, Eq, Structural)]
pub struct ReleaseStruct {
    /// Whether the task has been released for the current period. While
    /// this is `false` the task is entitled to become ready once the tick
    /// counter reaches `time`.
    pub released: bool,
    /// The tick of the release.
    pub time: u64,
}

/// Slot `i` is the next to release: not yet released, with the least time
/// of all such slots, and the lowest index among those with that time.
pub open spec fn is_next_release(slots: Seq<ReleaseStruct>, i: int) -> bool {
    &&& 0 <= i < slots.len()
    &&& !slots[i].released
    &&& forall|j: int|
        0 <= j < slots.len() && !(#[trigger] slots[j]).released ==> slots[i].time < slots[j].time
            || (slots[i].time == slots[j].time && i <= j)
}

/// The slot to release next, if any slot waits for its release.
pub open spec fn next_release_of(slots: Seq<ReleaseStruct>) -> Option<int> {
    if exists|i: int| is_next_release(slots, i) {
        Some(choose|i: int| is_next_release(slots, i))
    } else {
        None
    }
}

/// The slot that a tick at `now` releases: the next to release, if its
/// time has come.
pub open spec fn due_at(slots: Seq<ReleaseStruct>, now: u32) -> Option<int> {
    match next_release_of(slots) {
        Some(i) => if slots[i].time <= now {
            Some(i)
        } else {
            None
        },
        None => None,
    }
}

/// Only one slot can be the next to release.
pub proof fn lemma_next_release_unique(slots: Seq<ReleaseStruct>, i: int, j: int)
    requires
        is_next_release(slots, i),
        is_next_release(slots, j),
    ensures
        i == j,
{
}

/// `next_release_of` is the slot that `is_next_release` singles out, and is
/// `None` exactly when every slot has been released.
pub proof fn lemma_next_release(slots: Seq<ReleaseStruct>)
    ensures
        match next_release_of(slots) {
            Some(i) => is_next_release(slots, i),
            None => forall|j: int| 0 <= j < slots.len() ==> (#[trigger] slots[j]).released,
        },
{
    if !(exists|i: int| is_next_release(slots, i)) {
        assert forall|j: int| 0 <= j < slots.len() implies (#[trigger] slots[j]).released by {
            if !slots[j].released {
                lemma_some_next_release(slots, slots.len() as int);
                assert(slots.take(slots.len() as int) =~= slots);
            }
        }
    }
}

/// Among the first `n` slots, if one waits for its release, one of them is
/// the next to release of those `n`.
proof fn lemma_some_next_release(slots: Seq<ReleaseStruct>, n: int)
    requires
        0 <= n <= slots.len(),
        exists|j: int| 0 <= j < n && !(#[trigger] slots[j]).released,
    ensures
        exists|i: int| is_next_release(slots.take(n), i),
    decreases n,
{
    let last = n - 1;
    let head = slots.take(n);
    if exists|j: int| 0 <= j < last && !(#[trigger] slots[j]).released {
        lemma_some_next_release(slots, last);
        let b = choose|i: int| is_next_release(slots.take(last), i);
        assert(slots.take(last)[b] == slots[b]);
        let best = if !slots[last].released && slots[last].time < slots[b].time {
            last
        } else {
            b
        };
        assert forall|j: int| 0 <= j < head.len() && !(#[trigger] head[j]).released implies head[best].time
            < head[j].time || (head[best].time == head[j].time && best <= j) by {
            if j < last {
                assert(slots.take(last)[j] == head[j]);
            }
        }
        assert(is_next_release(head, best));
    } else {
        assert(!slots[last].released);
        assert(is_next_release(head, last));
    }
}

/// The release records of a table of `N` slots.
pub struct ReleaseQueue<const N: usize> {
    release: [ReleaseStruct; N],
    ticks: u32,
}

impl<const N: usize> View for ReleaseQueue<N> {
    type V = Seq<ReleaseStruct>;

    closed spec fn view(&self) -> Seq<ReleaseStruct> {
        self.release@
    }
}

impl<const N: usize> ReleaseQueue<N> {
    /// Timer ticks in one unit of a task's period.
    pub closed spec fn ticks(&self) -> u32 {
        self.ticks
    }

    /// A queue in which every slot waits for its first release at tick 0.
    pub fn new(ticks: u32) -> (q: Self)
        ensures
            q@.len() == N,
            q.ticks() == ticks,
            forall|i: int|
                0 <= i < N ==> q@[i] == (ReleaseStruct { released: false, time: 0 }),
    {
        ReleaseQueue { release: [ReleaseStruct { released: false, time: 0 };N], ticks }
    }

    /// The slot to release next: the one that has not been released and
    /// waits for the earliest tick, the lowest in the table among equals.
    pub fn next_release(&self) -> (r: Option<usize>)
        ensures
            match r {
                Some(i) => next_release_of(self@) == Some(i as int),
                None => next_release_of(self@) is None,
            },
    {
        let mut best: Option<usize> = None;
        let mut i: usize = 0;
        while i < N
            invariant
                i <= N,
                self@.len() == N,
                match best {
                    Some(b) => b < i && is_next_release(self@.take(i as int), b as int),
                    None => forall|j: int| 0 <= j < i ==> (#[trigger] self@[j]).released,
                },
            decreases N - i,
        {
            let ghost head = self@.take(i as int);
            let ghost more = self@.take(i + 1);
            let slot: ReleaseStruct = self.release[i];
            let better: bool = !slot.released && match best {
                Some(b) => slot.time < self.release[b].time,
                None => true,
            };
            proof {
                assert forall|j: int| 0 <= j < i implies #[trigger] more[j] == head[j] by {}
                match best {
                    Some(b) => {
                        assert(head[b as int] == self@[b as int]);
                        let pick = if better {
                            i as int
                        } else {
                            b as int
                        };
                        assert forall|j: int|
                            0 <= j < more.len() && !(#[trigger] more[j]).released implies more[pick].time
                            < more[j].time || (more[pick].time == more[j].time && pick <= j) by {
                            if j < i {
                                assert(!head[j].released);
                            }
                        }
                    },
                    None => {
                        if better {
                            assert forall|j: int|
                                0 <= j < more.len() && !(#[trigger] more[j]).released implies j
                                == i by {
                                if j < i {
                                    assert(self@[j].released);
                                }
                            }
                        }
                    },
                }
            }
            if better {
                best = Some(i);
            }
            i = i + 1;
        }
        proof {
            assert(self@.take(N as int) =~= self@);
            lemma_next_release(self@);
            match best {
                Some(b) => {
                    lemma_next_release_unique(
                        self@,
                        b as int,
                        next_release_of(self@).unwrap(),
                    );
                },
                None => {
                    if let Some(k) = next_release_of(self@) {
                        assert(self@[k].released);
                    }
                },
            }
        }
        best
    }

    /// The tick of the next release, to set the timer's deadline by; `None`
    /// when no slot waits for its release.
    pub fn next_release_time(&self) -> (r: Option<u64>)
        ensures
            r == match next_release_of(self@) {
                Some(i) => Some(self@[i].time),
                None => None,
            },
    {
        proof {
            lemma_next_release(self@);
        }
        match self.next_release() {
            Some(i) => Some(self.release[i].time),
            None => None,
        }
    }

    /// The tick: the counter stands at `now`. If the next slot to release
    /// has reached its time, it is marked released and its task becomes
    /// ready; its index is returned. Otherwise nothing changes.
    pub fn update_release<T: Task>(&mut self, tm: &mut TaskMan<T, N>, now: u32) -> (r: Option<
        usize,
    >)
        ensures
            final(self).ticks() == old(self).ticks(),
            old(tm).wf() ==> final(tm).wf(),
            match due_at(old(self)@, now) {
                Some(i) => {
                    &&& r == Some(i as usize)
                    &&& final(self)@ == old(self)@.update(
                        i,
                        ReleaseStruct { released: true, time: old(self)@[i].time },
                    )
                    &&& final(tm)@ == old(tm)@.with_state(i, TaskState::Ready)
                },
                None => {
                    &&& r is None
                    &&& final(self)@ == old(self)@
                    &&& *final(tm) == *old(tm)
                },
            },
    {
        proof {
            lemma_next_release(self@);
            tm.lemma_view();
        }
        match self.next_release() {
            Some(i) => {
                let slot: ReleaseStruct = self.release[i];
                if slot.time <= now as u64 {
                    self.release[i] = ReleaseStruct { released: true, time: slot.time };
                    tm.set_state(TaskID::ID(i), TaskState::Ready);
                    Some(i)
                } else {
                    None
                }
            },
            None => None,
        }
    }

    /// Schedules the next release of the selected slot one period after
    /// `now`. A selector that stands for no slot changes nothing.
    pub fn set_next_release<T: Task>(&mut self, tm: &TaskMan<T, N>, id: TaskID, now: u32)
        ensures
            final(self).ticks() == old(self).ticks(),
            match tm@.resolve(id) {
                Some(i) => final(self)@ == old(self)@.update(
                    i,
                    ReleaseStruct {
                        released: false,
                        time: (now + tm@.periods[i] * old(self).ticks()) as u64,
                    },
                ),
                None => final(self)@ == old(self)@,
            },
    {
        proof {
            tm.lemma_view();
        }
        if let Some(i) = tm.resolve(id) {
            if let Some(prd) = tm.get_pri(TaskID::ID(i)) {
                assert(prd * self.ticks <= 0xffff_ffff * 0xffff_ffff) by (nonlinear_arith)
                    requires
                        0 <= prd <= 0xffff_ffff,
                        0 <= self.ticks <= 0xffff_ffff,
                ;
                let span: u64 = (prd as u64) * (self.ticks as u64);
                self.release[i] = ReleaseStruct { released: false, time: now as u64 + span };
            }
        }
    }
}

/// Between two releases of a task under the queue lies at least its period.
/// A slot scheduled at tick `at` for a task with `period` waits for tick
/// `at + period * ticks`; whatever ticks come before that, none of them
/// releases it.
pub proof fn lemma_queue_release_monotonic(
    slots: Seq<ReleaseStruct>,
    i: int,
    at: u32,
    period: u32,
    ticks: u32,
    now: u32,
)
    requires
        0 <= i < slots.len(),
        slots[i] == (ReleaseStruct { released: false, time: (at + period * ticks) as u64 }),
        due_at(slots, now) == Some(i),
    ensures
        now >= at + period * ticks,
{
    assert(period * ticks <= 0xffff_ffff * 0xffff_ffff) by (nonlinear_arith)
        requires
            0 <= period <= 0xffff_ffff,
            0 <= ticks <= 0xffff_ffff,
    ;
    assert(0 <= period * ticks) by (nonlinear_arith)
        requires
            0 <= period,
            0 <= ticks,
    ;
}

} // verus!
