//! What the three exception entry points decide.
//!
//! The tick releases tasks and asks for a switch when a more urgent task
//! waits. The pend-switch hands the processor from the running task to the
//! next one. The supervisor call retires the running task for this period.
//! Each handler is a step on the task table; the board support saves and
//! restores registers around it.

use vstd::prelude::*;
use crate::release::{ReleaseQueue, ReleaseStruct, due_at};
use crate::task_man::{TaskID, TaskMan, TaskTable, as_reload, least, lemma_first_among};
use crate::tasks::{Task, TaskState};
use crate::theorems::lemma_step_one_running;

verus! {

/// What the tick handler asks of the hardware.
#[derive(Clone, Copy, Debug)]
pub struct TickOutcome {
    /// Raise the pend-switch exception.
    pub pend: bool,
    /// The value to reload the timer with.
    pub reload: u32,
}

/// What the kernel asks of the hardware after an event.
#[derive(Clone, Copy, Debug)]
pub enum Action {
    /// After a tick: reload the timer, and raise the pend-switch if asked.
    Rearm(TickOutcome),
    /// After a pend-switch: resume the task whose registers lie at this
    /// stack pointer, or none.
    Resume(Option<usize>),
    /// After a yield: raise the pend-switch if `true`.
    Pend(bool),
}

/// Something that happens to the kernel.
#[derive(Clone, Copy, Debug)]
pub enum Event {
    /// The timer fired after this many ticks.
    Tick(u32),
    /// The pend-switch exception ran; a running task's registers were saved
    /// at this stack pointer.
    PendSwitch(usize),
    /// The task in this slot announced that its period's work is done; its
    /// registers were saved at this stack pointer.
    Yield(usize, usize),
}

impl TaskTable {
    /// Whether a switch is due: nothing runs, or the next task to run has a
    /// strictly shorter period than the running one.
    pub open spec fn preempts(self) -> bool {
        match self.current() {
            Some(c) => match self.next() {
                Some(n) => self.periods[n] < self.periods[c],
                None => false,
            },
            None => true,
        }
    }

    /// The table after a pend-switch: the next task to run, if any, is
    /// running; the task that ran is suspended with `saved_sp` on record.
    pub open spec fn switched(self, saved_sp: usize) -> TaskTable {
        let dispatched = match self.next() {
            Some(n) => self.with_state(n, TaskState::Running),
            None => self,
        };
        match self.current() {
            Some(c) => dispatched.with_stack_ptr(c, saved_sp).with_state(c, TaskState::Suspended),
            None => dispatched,
        }
    }

    /// The stack pointer to resume from after a pend-switch, if a task is
    /// dispatched.
    pub open spec fn resumed(self) -> Option<usize> {
        match self.next() {
            Some(n) => Some(self.stack_ptrs[n]),
            None => None,
        }
    }

    /// The table after the task in slot `id` has yielded: it is done, with
    /// `saved_sp` on record. A slot that the table lacks changes nothing.
    pub open spec fn yielded(self, id: usize, saved_sp: usize) -> TaskTable {
        if id < self.len() {
            self.with_stack_ptr(id as int, saved_sp).with_state(id as int, TaskState::Done)
        } else {
            self
        }
    }

    /// The table after one event.
    pub open spec fn step(self, e: Event) -> TaskTable {
        match e {
            Event::Tick(elapsed) => self.released(elapsed),
            Event::PendSwitch(saved_sp) => self.switched(saved_sp),
            Event::Yield(id, saved_sp) => self.yielded(id, saved_sp),
        }
    }

    /// Whether an event can come from correct hardware and tasks: only the
    /// running task yields.
    pub open spec fn admits(self, e: Event) -> bool {
        match e {
            Event::Yield(id, _) => id < self.len() && self.states[id as int] == TaskState::Running,
            _ => true,
        }
    }

    /// The table after a sequence of events, first to last.
    pub open spec fn run(self, events: Seq<Event>) -> TaskTable
        decreases events.len(),
    {
        if events.len() == 0 {
            self
        } else {
            self.run(events.drop_last()).step(events.last())
        }
    }

    /// Whether each event of a sequence is admitted by the table it meets.
    pub open spec fn admits_all(self, events: Seq<Event>) -> bool
        decreases events.len(),
    {
        if events.len() == 0 {
            true
        } else {
            &&& self.admits_all(events.drop_last())
            &&& self.run(events.drop_last()).admits(events.last())
        }
    }
}

/// The ticks that a sequence of events reports in all.
pub open spec fn total_elapsed(events: Seq<Event>) -> int
    decreases events.len(),
{
    if events.len() == 0 {
        0
    } else {
        total_elapsed(events.drop_last()) + match events.last() {
            Event::Tick(elapsed) => elapsed as int,
            _ => 0,
        }
    }
}

/// The tick: `elapsed` ticks have passed since the timer was last loaded.
/// Releases what is due, and reports whether to raise the pend-switch and
/// what to reload the timer with. No task's saved registers are touched.
pub fn sys_tick<T: Task, const N: usize>(tm: &mut TaskMan<T, N>, elapsed: u32) -> (out:
    TickOutcome)
    requires
        old(tm).wf(),
    ensures
        final(tm).wf(),
        final(tm)@ == old(tm)@.released(elapsed),
        out.pend == final(tm)@.preempts(),
        out.reload == as_reload(least(final(tm)@.countdowns)),
        old(tm)@.at_most_one_running() ==> final(tm)@.at_most_one_running(),
{
    proof {
        tm.lemma_view();
        if tm@.at_most_one_running() {
            lemma_step_one_running(tm@, Event::Tick(elapsed));
        }
    }
    tm.update_release(elapsed);
    let pend = if let Some(c) = tm.get_pri(TaskID::Current) {
        if let Some(n) = tm.get_pri(TaskID::Next) {
            n < c
        } else {
            false
        }
    } else {
        true
    };
    let reload = tm.next_release_time();
    TickOutcome { pend, reload }
}

/// The pend-switch: hands the processor on. The next task to run, if any,
/// becomes the running one and its saved stack pointer is returned to resume
/// from. The task that ran, if any, is suspended and `saved_sp`, where its
/// registers were put, goes on record. With no next task the result is
/// `None` and no task context is resumed.
pub fn pend_sv<T: Task, const N: usize>(tm: &mut TaskMan<T, N>, saved_sp: usize) -> (next: Option<
    usize,
>)
    ensures
        old(tm).wf() ==> final(tm).wf(),
        final(tm)@ == old(tm)@.switched(saved_sp),
        next == old(tm)@.resumed(),
        old(tm)@.at_most_one_running() ==> final(tm)@.at_most_one_running(),
{
    proof {
        tm.lemma_view();
        if tm@.at_most_one_running() {
            lemma_step_one_running(tm@, Event::PendSwitch(saved_sp));
        }
        lemma_first_among(tm@.states, seq![TaskState::Running]);
        lemma_first_among(tm@.states, seq![TaskState::Ready, TaskState::Suspended]);
    }
    let current: Option<usize> = tm.get_current();
    let next = match tm.next_to_run() {
        Some(i) => {
            tm.set_state(TaskID::ID(i), TaskState::Running);
            match tm.get(TaskID::ID(i)) {
                Some(n) => Some(n.get_stk_ptr()),
                None => None,
            }
        },
        None => None,
    };
    proof {
        tm.lemma_view();
    }
    if let Some(c) = current {
        tm.update_stk_ptr(TaskID::ID(c), saved_sp);
        tm.set_state(TaskID::ID(c), TaskState::Suspended);
    }
    next
}

/// The supervisor call: the task in slot `id` has finished this period's
/// work. It is marked done with `saved_sp` on record, and the result asks
/// for the pend-switch to hand the processor on. A slot that the table
/// lacks changes nothing and asks for nothing.
pub fn sv_call<T: Task, const N: usize>(tm: &mut TaskMan<T, N>, id: usize, saved_sp: usize) -> (pend:
    bool)
    ensures
        old(tm).wf() ==> final(tm).wf(),
        final(tm)@ == old(tm)@.yielded(id, saved_sp),
        pend == (id < N),
        old(tm)@.at_most_one_running() ==> final(tm)@.at_most_one_running(),
{
    proof {
        tm.lemma_view();
        if tm@.at_most_one_running() {
            lemma_step_one_running(tm@, Event::Yield(id, saved_sp));
        }
    }
    if id < N {
        tm.update_stk_ptr(TaskID::ID(id), saved_sp);
        proof {
            tm.lemma_view();
        }
        tm.set_state(TaskID::ID(id), TaskState::Done);
        true
    } else {
        false
    }
}

/// Takes the table through one event, by the handler the event belongs to,
/// and returns what that handler asks of the hardware.
pub fn handle<T: Task, const N: usize>(tm: &mut TaskMan<T, N>, e: Event) -> (action: Action)
    requires
        old(tm).wf(),
    ensures
        final(tm).wf(),
        final(tm)@ == old(tm)@.step(e),
        old(tm)@.at_most_one_running() ==> final(tm)@.at_most_one_running(),
        match e {
            Event::Tick(_) => action matches Action::Rearm(out) && out.pend == final(tm)@.preempts()
                && out.reload == as_reload(least(final(tm)@.countdowns)),
            Event::PendSwitch(_) => action matches Action::Resume(next) && next == old(
                tm,
            )@.resumed(),
            Event::Yield(id, _) => action matches Action::Pend(pend) && pend == (id < N),
        },
{
    match e {
        Event::Tick(elapsed) => Action::Rearm(sys_tick(tm, elapsed)),
        Event::PendSwitch(saved_sp) => Action::Resume(pend_sv(tm, saved_sp)),
        Event::Yield(id, saved_sp) => Action::Pend(sv_call(tm, id, saved_sp)),
    }
}

/// The tick under the release queue: the tick counter stands at `now`.
/// Releases the one slot that is due, if any, and reports whether to raise
/// the pend-switch. No task's saved registers are touched.
pub fn sys_tick_queued<T: Task, const N: usize>(
    tm: &mut TaskMan<T, N>,
    rq: &mut ReleaseQueue<N>,
    now: u32,
) -> (pend: bool)
    ensures
        old(tm).wf() ==> final(tm).wf(),
        final(rq).ticks() == old(rq).ticks(),
        match due_at(old(rq)@, now) {
            Some(i) => {
                &&& final(rq)@ == old(rq)@.update(
                    i,
                    ReleaseStruct { released: true, time: old(rq)@[i].time },
                )
                &&& final(tm)@ == old(tm)@.with_state(i, TaskState::Ready)
            },
            None => final(rq)@ == old(rq)@ && *final(tm) == *old(tm),
        },
        pend == final(tm)@.preempts(),
{
    rq.update_release(tm, now);
    if let Some(c) = tm.get_pri(TaskID::Current) {
        if let Some(n) = tm.get_pri(TaskID::Next) {
            n < c
        } else {
            false
        }
    } else {
        true
    }
}

/// The supervisor call under the release queue: the task in slot `id` has
/// finished this period's work at tick `now`. It is marked done with
/// `saved_sp` on record, its next release is scheduled one period after
/// `now`, and the result asks for the pend-switch. A slot that the table
/// lacks changes nothing and asks for nothing.
pub fn sv_call_queued<T: Task, const N: usize>(
    tm: &mut TaskMan<T, N>,
    rq: &mut ReleaseQueue<N>,
    id: usize,
    saved_sp: usize,
    now: u32,
) -> (pend: bool)
    ensures
        old(tm).wf() ==> final(tm).wf(),
        final(tm)@ == old(tm)@.yielded(id, saved_sp),
        final(rq).ticks() == old(rq).ticks(),
        final(rq)@ == if id < N {
            old(rq)@.update(
                id as int,
                ReleaseStruct {
                    released: false,
                    time: (now + old(tm)@.periods[id as int] * old(rq).ticks()) as u64,
                },
            )
        } else {
            old(rq)@
        },
        pend == (id < N),
{
    proof {
        tm.lemma_view();
    }
    let pend = sv_call(tm, id, saved_sp);
    proof {
        tm.lemma_view();
    }
    rq.set_next_release(tm, TaskID::ID(id), now);
    pend
}

} // verus!
