//! What holds of the kernel whatever events reach it.

use vstd::prelude::*;
use crate::exceptions::{Event, total_elapsed};
use crate::task_man::{TaskTable, counted_down, lemma_first_among};
use crate::tasks::TaskState;

verus! {

/// How many of `states` are `Running`.
pub open spec fn count_running(states: Seq<TaskState>) -> nat
    decreases states.len(),
{
    if states.len() == 0 {
        0
    } else {
        count_running(states.drop_last()) + if states.last() == TaskState::Running {
            1nat
        } else {
            0nat
        }
    }
}

/// No state is `Running` exactly when the count is zero.
pub proof fn lemma_count_zero(states: Seq<TaskState>)
    ensures
        count_running(states) == 0 <==> forall|i: int|
            0 <= i < states.len() ==> states[i] != TaskState::Running,
    decreases states.len(),
{
    if states.len() > 0 {
        lemma_count_zero(states.drop_last());
        if count_running(states) == 0 {
            assert forall|i: int| 0 <= i < states.len() implies states[i]
                != TaskState::Running by {
                if i < states.len() - 1 {
                    assert(states.drop_last()[i] == states[i]);
                }
            }
        } else if forall|i: int| 0 <= i < states.len() ==> states[i] != TaskState::Running {
            assert forall|i: int| 0 <= i < states.drop_last().len() implies states.drop_last()[i]
                != TaskState::Running by {
                assert(states.drop_last()[i] == states[i]);
            }
        }
    }
}

/// Where no two slots are running, the number of running slots is 0 or 1.
pub proof fn lemma_count_at_most_one(t: TaskTable)
    requires
        t.at_most_one_running(),
    ensures
        count_running(t.states) <= 1,
    decreases t.len(),
{
    let s = t.states;
    if s.len() > 0 {
        let rest = TaskTable { states: s.drop_last(), ..t };
        assert forall|i: int, j: int|
            0 <= i < rest.len() && 0 <= j < rest.len() && rest.states[i] == TaskState::Running
                && rest.states[j] == TaskState::Running implies i == j by {
            assert(s[i] == rest.states[i] && s[j] == rest.states[j]);
        }
        lemma_count_at_most_one(rest);
        if s.last() == TaskState::Running {
            assert forall|i: int| 0 <= i < rest.len() implies rest.states[i]
                != TaskState::Running by {
                assert(s[i] == rest.states[i]);
                assert(s[s.len() - 1] == TaskState::Running);
            }
            lemma_count_zero(rest.states);
        }
    }
}

/// An event keeps the table's shape: one entry per slot in every column,
/// the same periods and tick rate.
pub proof fn lemma_step_shape(t: TaskTable, e: Event)
    requires
        t.wf(),
    ensures
        t.step(e).wf(),
        t.step(e).len() == t.len(),
        t.step(e).periods == t.periods,
        t.step(e).ticks == t.ticks,
{
    lemma_first_among(t.states, seq![TaskState::Running]);
    lemma_first_among(t.states, seq![TaskState::Ready, TaskState::Suspended]);
}

/// A sequence of events keeps the table's shape.
pub proof fn lemma_run_shape(t: TaskTable, events: Seq<Event>)
    requires
        t.wf(),
    ensures
        t.run(events).wf(),
        t.run(events).len() == t.len(),
        t.run(events).periods == t.periods,
        t.run(events).ticks == t.ticks,
    decreases events.len(),
{
    if events.len() > 0 {
        lemma_run_shape(t, events.drop_last());
        lemma_step_shape(t.run(events.drop_last()), events.last());
    }
}

/// No event makes a second task run: if no two slots are running before an
/// event, no two are running after it.
pub proof fn lemma_step_one_running(t: TaskTable, e: Event)
    requires
        t.wf(),
        t.at_most_one_running(),
    ensures
        t.step(e).at_most_one_running(),
{
    lemma_first_among(t.states, seq![TaskState::Running]);
    lemma_first_among(t.states, seq![TaskState::Ready, TaskState::Suspended]);
    let u = t.step(e);
    match e {
        Event::Tick(elapsed) => {
            assert forall|i: int| 0 <= i < t.len() implies (u.states[i] == TaskState::Running
                <==> t.states[i] == TaskState::Running) by {}
        },
        Event::PendSwitch(saved_sp) => {
            match t.current() {
                Some(c) => {
                    assert(seq![TaskState::Running].contains(t.states[c]));
                    assert(t.states[c] == TaskState::Running);
                },
                None => {
                    assert forall|i: int| 0 <= i < t.len() implies t.states[i]
                        != TaskState::Running by {
                        assert(seq![TaskState::Running][0] == TaskState::Running);
                        if t.states[i] == TaskState::Running {
                            assert(seq![TaskState::Running].contains(t.states[i]));
                        }
                    }
                },
            }
        },
        Event::Yield(id, saved_sp) => {},
    }
}

/// At most one task runs in every state the kernel can reach: starting from
/// a table where no two slots are running, after any sequence of events the
/// number of running slots is 0 or 1.
pub proof fn lemma_at_most_one_running(t: TaskTable, events: Seq<Event>)
    requires
        t.wf(),
        t.at_most_one_running(),
    ensures
        t.run(events).at_most_one_running(),
        count_running(t.run(events).states) <= 1,
    decreases events.len(),
{
    if events.len() > 0 {
        lemma_at_most_one_running(t, events.drop_last());
        lemma_run_shape(t, events.drop_last());
        lemma_step_one_running(t.run(events.drop_last()), events.last());
    }
    lemma_count_at_most_one(t.run(events));
}

/// An event moves a task's state along an edge of the life cycle or leaves
/// it where it is, provided that only the running task yields.
pub proof fn lemma_step_follows_cycle(t: TaskTable, e: Event, i: int)
    requires
        t.wf(),
        t.admits(e),
        0 <= i < t.len(),
    ensures
        t.step(e).states[i] == t.states[i] || t.states[i].steps_to(t.step(e).states[i]),
{
    lemma_first_among(t.states, seq![TaskState::Running]);
    lemma_first_among(t.states, seq![TaskState::Ready, TaskState::Suspended]);
    match e {
        Event::PendSwitch(saved_sp) => {
            if let Some(c) = t.current() {
                assert(seq![TaskState::Running].contains(t.states[c]));
            }
            if let Some(n) = t.next() {
                let w = seq![TaskState::Ready, TaskState::Suspended];
                assert(w.contains(t.states[n]));
                let k = choose|k: int| 0 <= k < w.len() && w[k] == t.states[n];
                assert(w[k] == TaskState::Ready || w[k] == TaskState::Suspended);
            }
        },
        _ => {},
    }
}

/// Unless a pend-switch resumes a suspended task, an event moves a task's
/// state along the rotation ready, running, suspended or done, ready, or
/// leaves it where it is. The one edge outside the rotation is the resume
/// itself, from suspended straight to running.
pub proof fn lemma_step_follows_rotation(t: TaskTable, e: Event, i: int)
    requires
        t.wf(),
        t.admits(e),
        0 <= i < t.len(),
        !(e is PendSwitch && t.next() is Some && t.states[t.next().unwrap()]
            == TaskState::Suspended),
    ensures
        t.step(e).states[i] == t.states[i] || (t.states[i].steps_to(t.step(e).states[i]) && !(
        t.states[i] == TaskState::Suspended && t.step(e).states[i] == TaskState::Running)),
{
    lemma_step_follows_cycle(t, e, i);
    lemma_first_among(t.states, seq![TaskState::Running]);
    lemma_first_among(t.states, seq![TaskState::Ready, TaskState::Suspended]);
    if let Some(c) = t.current() {
        assert(seq![TaskState::Running].contains(t.states[c]));
    }
}

/// Every state of the life cycle has a way on: none is an end.
pub proof fn lemma_cycle_has_no_end(s: TaskState)
    ensures
        exists|next: TaskState| s.steps_to(next),
{
    match s {
        TaskState::PreInit => assert(s.steps_to(TaskState::Ready)),
        TaskState::Ready => assert(s.steps_to(TaskState::Running)),
        TaskState::Running => assert(s.steps_to(TaskState::Done)),
        TaskState::Suspended => assert(s.steps_to(TaskState::Running)),
        TaskState::Done => assert(s.steps_to(TaskState::Ready)),
    }
}

/// Over any sequence of events in which only the running task yields, a
/// task stays inside the life cycle: one that was initialised never falls
/// back to `PreInit`, and one that was not stays uninitialised.
pub proof fn lemma_run_stays_in_cycle(t: TaskTable, events: Seq<Event>, i: int)
    requires
        t.wf(),
        t.admits_all(events),
        0 <= i < t.len(),
    ensures
        t.run(events).states[i] == TaskState::PreInit <==> t.states[i] == TaskState::PreInit,
    decreases events.len(),
{
    if events.len() > 0 {
        let before = t.run(events.drop_last());
        lemma_run_stays_in_cycle(t, events.drop_last(), i);
        lemma_run_shape(t, events.drop_last());
        lemma_step_follows_cycle(before, events.last(), i);
    }
}

/// The kernel leaves the saved continuation of a task that is off the
/// processor alone: an event changes the stack pointer on record for a slot
/// only if that slot's task was running when the event came. So a task
/// resumes from the very stack pointer its registers were saved at.
pub proof fn lemma_step_keeps_saved_sp(t: TaskTable, e: Event, i: int)
    requires
        t.wf(),
        t.admits(e),
        0 <= i < t.len(),
        t.states[i] != TaskState::Running,
    ensures
        t.step(e).stack_ptrs[i] == t.stack_ptrs[i],
{
    lemma_first_among(t.states, seq![TaskState::Running]);
    lemma_first_among(t.states, seq![TaskState::Ready, TaskState::Suspended]);
    if let Some(c) = t.current() {
        assert(seq![TaskState::Running].contains(t.states[c]));
    }
}

/// A task that is taken off the processor by a pend-switch and put back on
/// by a later one is handed the stack pointer that was saved for it,
/// whatever events lie between, so long as the task stays off the processor
/// through them.
pub proof fn lemma_resume_where_suspended(
    t: TaskTable,
    saved_sp: usize,
    between: Seq<Event>,
    i: int,
)
    requires
        t.wf(),
        t.current() == Some(i),
        t.switched(saved_sp).admits_all(between),
        forall|k: int|
            0 <= k <= between.len() ==> (#[trigger] t.switched(saved_sp).run(
                between.take(k),
            )).states[i] != TaskState::Running,
        t.switched(saved_sp).run(between).next() == Some(i),
    ensures
        t.switched(saved_sp).run(between).resumed() == Some(saved_sp),
{
    let u = t.switched(saved_sp);
    lemma_first_among(t.states, seq![TaskState::Running]);
    lemma_first_among(t.states, seq![TaskState::Ready, TaskState::Suspended]);
    lemma_step_shape(t, Event::PendSwitch(saved_sp));
    assert(u == t.step(Event::PendSwitch(saved_sp)));
    assert(u.stack_ptrs[i] == saved_sp);
    lemma_run_keeps_saved_sp(u, between, i);
}

/// Over a sequence of events through which a task stays off the processor,
/// the stack pointer on record for it stays what it was.
proof fn lemma_run_keeps_saved_sp(u: TaskTable, events: Seq<Event>, i: int)
    requires
        u.wf(),
        0 <= i < u.len(),
        u.admits_all(events),
        forall|k: int|
            0 <= k <= events.len() ==> (#[trigger] u.run(events.take(k))).states[i]
                != TaskState::Running,
    ensures
        u.run(events).stack_ptrs[i] == u.stack_ptrs[i],
    decreases events.len(),
{
    if events.len() > 0 {
        let front = events.drop_last();
        assert(front =~= events.take(events.len() - 1));
        assert forall|k: int| 0 <= k <= front.len() implies (#[trigger] u.run(
            front.take(k),
        )).states[i] != TaskState::Running by {
            assert(front.take(k) =~= events.take(k));
        }
        lemma_run_keeps_saved_sp(u, front, i);
        lemma_run_shape(u, front);
        assert(u.run(events.take(events.len() - 1)).states[i] != TaskState::Running);
        lemma_step_keeps_saved_sp(u.run(front), events.last(), i);
    }
}

/// Of two tasks that are eligible at once, the one with the shorter period
/// runs first, provided it stands before the other in the table, as it
/// does when slots are assigned in priority order: the pend-switch does
/// not put the task with the longer period on the processor, and whatever
/// it dispatches stands no later in the table than the task with the
/// shorter period.
pub proof fn lemma_priority_preemption(t: TaskTable, i: int, j: int, saved_sp: usize)
    requires
        t.wf(),
        0 <= i < j < t.len(),
        t.states[i].runnable(),
        t.states[j].runnable(),
        t.periods[i] < t.periods[j],
    ensures
        t.next() is Some,
        t.next().unwrap() <= i,
        t.switched(saved_sp).states[t.next().unwrap()] == TaskState::Running,
        t.switched(saved_sp).states[j] != TaskState::Running,
{
    let w = seq![TaskState::Ready, TaskState::Suspended];
    lemma_first_among(t.states, w);
    lemma_first_among(t.states, seq![TaskState::Running]);
    assert(w[0] == TaskState::Ready && w[1] == TaskState::Suspended);
    assert(w.contains(t.states[i]));
    if let Some(c) = t.current() {
        assert(seq![TaskState::Running].contains(t.states[c]));
    }
}

/// With the slots in priority order, the task dispatched next has the
/// shortest period of all that are ready or suspended.
pub proof fn lemma_most_urgent_first(t: TaskTable, k: int)
    requires
        t.wf(),
        t.priority_ordered(),
        0 <= k < t.len(),
        t.states[k].runnable(),
    ensures
        t.next() is Some,
        t.periods[t.next().unwrap()] <= t.periods[k],
{
    let w = seq![TaskState::Ready, TaskState::Suspended];
    lemma_first_among(t.states, w);
    assert(w[0] == TaskState::Ready && w[1] == TaskState::Suspended);
    assert(w.contains(t.states[k]));
    if k < t.next().unwrap() {
        assert(!w.contains(t.states[k]));
    }
}

/// A task that has finished is released by the tick at which its countdown
/// runs out, not later: it is ready after that tick and its countdown
/// stands at a full period again.
pub proof fn lemma_released_when_due(t: TaskTable, elapsed: u32, i: int)
    requires
        t.wf(),
        t.reloads_fit(),
        t.due(i, elapsed),
    ensures
        t.released(elapsed).states[i] == TaskState::Ready,
        t.released(elapsed).countdowns[i] == t.reload(i),
{
    assert(0 <= t.reload(i) <= i32::MAX);
}

/// A tick releases no task but one that is due: every other slot keeps its
/// state, and its countdown runs down by the ticks elapsed.
pub proof fn lemma_kept_until_due(t: TaskTable, elapsed: u32, i: int)
    requires
        t.wf(),
        0 <= i < t.len(),
        !t.due(i, elapsed),
    ensures
        t.released(elapsed).states[i] == t.states[i],
        t.released(elapsed).countdowns[i] == counted_down(t.countdowns[i], elapsed),
{
}

/// Between two releases of a task lies at least its period. If slot `i`'s
/// countdown stands at a full period, as it does right after a release, and
/// a sequence of events ends in a tick that releases the slot again, the
/// ticks reported over the sequence add up to the period or more.
pub proof fn lemma_release_monotonic(t: TaskTable, events: Seq<Event>, i: int)
    requires
        t.wf(),
        t.reloads_fit(),
        0 <= i < t.len(),
        t.countdowns[i] == t.reload(i),
        events.len() > 0,
        events.last() matches Event::Tick(elapsed) && t.run(events.drop_last()).due(i, elapsed),
    ensures
        total_elapsed(events) >= t.reload(i),
{
    lemma_countdown_bound(t, events.drop_last(), i);
}

/// A countdown never runs down by more than the ticks that were reported.
proof fn lemma_countdown_bound(t: TaskTable, events: Seq<Event>, i: int)
    requires
        t.wf(),
        t.reloads_fit(),
        0 <= i < t.len(),
        t.countdowns[i] <= t.reload(i),
    ensures
        total_elapsed(events) >= 0,
        t.run(events).countdowns[i] >= t.countdowns[i] - total_elapsed(events),
        t.run(events).countdowns[i] <= t.reload(i),
    decreases events.len(),
{
    if events.len() > 0 {
        let before = t.run(events.drop_last());
        lemma_countdown_bound(t, events.drop_last(), i);
        lemma_run_shape(t, events.drop_last());
        lemma_first_among(before.states, seq![TaskState::Running]);
        lemma_first_among(before.states, seq![TaskState::Ready, TaskState::Suspended]);
        assert(before.reload(i) == t.reload(i));
        assert(0 <= t.reload(i) <= i32::MAX);
    }
}

} // verus!
