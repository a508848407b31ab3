//! The control block that a kernel keeps for a task it schedules.

use core::cmp::Ordering;
use vstd::prelude::*;
use vstd::std_specs::cmp::{PartialEqSpecImpl, PartialOrdSpecImpl};
use vstd::std_specs::convert::{FromSpec, FromSpecImpl};
use crate::task::Task;

verus! {

/// Where a controlled task stands.
#[derive(Clone, Copy, Debug, PartialEq, Eq, Structural)]
pub enum TaskState {
    /// Waits for its turn.
    Waiting,
    /// Was taken off the processor.
    Stopped,
    /// Owns the processor.
    Running,
    /// Will not run again.
    Dead,
}

/// A task with the record the kernel keeps of it. Control blocks compare by
/// the priority of their tasks and by nothing else.
pub struct TCB<T: Task> {
    task: T,
    stack_ptr: usize,
    state: TaskState,
}

impl<T: Task> TCB<T> {
    /// The task under control.
    pub closed spec fn task(&self) -> T {
        self.task
    }

    /// The stack pointer on record.
    pub closed spec fn stack_ptr(&self) -> usize {
        self.stack_ptr
    }

    /// The state on record.
    pub closed spec fn state(&self) -> TaskState {
        self.state
    }

    /// The priority this block is ordered by: its task's.
    pub open spec fn pri(&self) -> usize {
        self.task().pri()
    }

    pub fn get_state(&self) -> (s: TaskState)
        ensures
            s == self.state(),
    {
        self.state
    }

    /// The priority of the task under control.
    pub fn get_pri(&self) -> (p: usize)
        ensures
            p == self.pri(),
    {
        self.task.get_pri()
    }

    /// The stack pointer on record.
    pub fn get_stack_ptr(&self) -> (p: usize)
        ensures
            p == self.stack_ptr(),
    {
        self.stack_ptr
    }

    /// Prepares the task under control: its `init` has run when this
    /// returns. The record stays as it is.
    pub fn init(&mut self)
        ensures
            *final(self) == *old(self),
            final(self).task().prepared(),
    {
        self.task.init();
    }
}

impl<T: Task + Copy> Clone for TCB<T> {
    fn clone(&self) -> (tcb: Self)
        ensures
            tcb == *self,
    {
        TCB { task: self.task, stack_ptr: self.stack_ptr, state: self.state }
    }
}

impl<T: Task + Copy> Copy for TCB<T> {

}

impl<T: Task> From<T> for TCB<T> {
    /// A block for `p`: waiting, with the stack pointer at the bottom of the
    /// task's stack.
    fn from(p: T) -> (tcb: Self) {
        TCB { stack_ptr: p.stack_bottom(), task: p, state: TaskState::Waiting }
    }
}

impl<T: Task> FromSpecImpl<T> for TCB<T> {
    open spec fn obeys_from_spec() -> bool {
        true
    }

    closed spec fn from_spec(p: T) -> Self {
        TCB { stack_ptr: p.bottom(), task: p, state: TaskState::Waiting }
    }
}

impl<T: Task> PartialEq for TCB<T> {
    fn eq(&self, other: &Self) -> (r: bool) {
        self.task.get_pri() == other.task.get_pri()
    }
}

impl<T: Task> PartialEqSpecImpl for TCB<T> {
    open spec fn obeys_eq_spec() -> bool {
        true
    }

    open spec fn eq_spec(&self, other: &Self) -> bool {
        self.pri() == other.pri()
    }
}

impl<T: Task> Eq for TCB<T> {

}

impl<T: Task> PartialOrd for TCB<T> {
    fn partial_cmp(&self, other: &Self) -> (r: Option<Ordering>) {
        let a: usize = self.task.get_pri();
        let b: usize = other.task.get_pri();
        if a < b {
            Some(Ordering::Less)
        } else if a == b {
            Some(Ordering::Equal)
        } else {
            Some(Ordering::Greater)
        }
    }
}

impl<T: Task> PartialOrdSpecImpl for TCB<T> {
    open spec fn obeys_partial_cmp_spec() -> bool {
        true
    }

    open spec fn partial_cmp_spec(&self, other: &Self) -> Option<Ordering> {
        if self.pri() < other.pri() {
            Some(Ordering::Less)
        } else if self.pri() == other.pri() {
            Some(Ordering::Equal)
        } else {
            Some(Ordering::Greater)
        }
    }
}

/// A block made from a task holds that task, waits, and has its stack
/// pointer at the bottom of the task's stack.
pub proof fn lemma_from<T: Task>(p: T)
    ensures
        <TCB<T> as FromSpec<T>>::from_spec(p).task() == p,
        <TCB<T> as FromSpec<T>>::from_spec(p).state() == TaskState::Waiting,
        <TCB<T> as FromSpec<T>>::from_spec(p).stack_ptr() == p.bottom(),
        <TCB<T> as FromSpec<T>>::from_spec(p).pri() == p.pri(),
{
}

} // verus!
