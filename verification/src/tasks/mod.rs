//! The capability every schedulable unit of work offers to the kernel.

use vstd::prelude::*;

pub mod accel;
pub mod board;
pub mod gyro;
pub mod led;

verus! {

/// Where a task stands in its periodic life cycle.
#[derive(Clone, Copy, Debug, PartialEq, Eq, Structural)]
pub enum TaskState {
    /// Not yet initialised; never eligible to run.
    PreInit,
    /// Released and waiting for the processor, starting from its entry point.
    Ready,
    /// Owns the processor.
    Running,
    /// Preempted; resumes from its saved continuation.
    Suspended,
    /// Finished this period's work and waiting for the next release.
    Done,
}

impl TaskState {
    /// Whether a task in this state may be handed the processor.
    pub open spec fn runnable(self) -> bool {
        self == TaskState::Ready || self == TaskState::Suspended
    }

    /// The edges of the life cycle: initialisation, dispatch of a ready or
    /// a suspended task, preemption, completion, and release of a task that
    /// is done or suspended. Nothing leads back to `PreInit`.
    pub open spec fn steps_to(self, next: TaskState) -> bool {
        match (self, next) {
            (TaskState::PreInit, TaskState::Ready) => true,
            (TaskState::Ready, TaskState::Running) => true,
            (TaskState::Suspended, TaskState::Running) => true,
            (TaskState::Running, TaskState::Suspended) => true,
            (TaskState::Running, TaskState::Done) => true,
            (TaskState::Done, TaskState::Ready) => true,
            (TaskState::Suspended, TaskState::Ready) => true,
            _ => false,
        }
    }

    /// Whether a task in this state may be handed the processor.
    pub fn is_runnable(self) -> (r: bool)
        ensures
            r == self.runnable(),
    {
        self == TaskState::Ready || self == TaskState::Suspended
    }

    /// Whether the life cycle has an edge from `self` to `next`.
    pub fn can_step_to(self, next: TaskState) -> (r: bool)
        ensures
            r == self.steps_to(next),
    {
        match (self, next) {
            (TaskState::PreInit, TaskState::Ready) => true,
            (TaskState::Ready, TaskState::Running) => true,
            (TaskState::Suspended, TaskState::Running) => true,
            (TaskState::Running, TaskState::Suspended) => true,
            (TaskState::Running, TaskState::Done) => true,
            (TaskState::Done, TaskState::Ready) => true,
            (TaskState::Suspended, TaskState::Ready) => true,
            _ => false,
        }
    }
}

/// One reading of a three-axis sensor.
#[derive(Clone, Copy, Debug, PartialEq, Eq, Structural)]
pub struct I16x3 {
    pub x: i16,
    pub y: i16,
    pub z: i16,
}

/// A schedulable unit of work, as the kernel sees it: a state, a saved
/// continuation and a period. The kernel never looks further into a task.
pub trait Task {
    /// The scheduling state on record.
    spec fn state(&self) -> TaskState;

    /// The saved continuation: the stack pointer at which the task's
    /// register file was last persisted on its private stack, counted in
    /// words from the low end of that stack.
    spec fn stk_ptr(&self) -> usize;

    /// The release interval, in scheduler ticks.
    spec fn prd(&self) -> u32;

    /// Whether the task has been initialised, so that `run` has what it needs.
    spec fn armed(&self) -> bool;

    /// Executes one quantum of the task's work. The task never touches its
    /// own scheduling record.
    fn run(&mut self)
        requires
            old(self).armed(),
        ensures
            final(self).armed(),
            final(self).state() == old(self).state(),
            final(self).stk_ptr() == old(self).stk_ptr(),
            final(self).prd() == old(self).prd(),
    ;

    /// The saved stack pointer.
    fn get_stk_ptr(&self) -> (p: usize)
        ensures
            p == self.stk_ptr(),
    ;

    /// Puts `p` on record as the saved stack pointer; nothing else changes
    /// in the scheduling record.
    fn update_stk_ptr(&mut self, p: usize)
        ensures
            final(self).stk_ptr() == p,
            final(self).state() == old(self).state(),
            final(self).prd() == old(self).prd(),
            final(self).armed() == old(self).armed(),
    ;

    /// The state on record.
    fn get_state(&self) -> (s: TaskState)
        ensures
            s == self.state(),
    ;

    /// Puts `s` on record as the state; nothing else changes in the
    /// scheduling record.
    fn set_state(&mut self, s: TaskState)
        ensures
            final(self).state() == s,
            final(self).stk_ptr() == old(self).stk_ptr(),
            final(self).prd() == old(self).prd(),
            final(self).armed() == old(self).armed(),
    ;

    /// The release interval, in scheduler ticks. It never changes.
    fn get_prd(&self) -> (p: u32)
        ensures
            p == self.prd(),
    ;
}

} // verus!
