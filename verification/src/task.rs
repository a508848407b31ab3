//! Periodic tasks given as plain functions, for kernels that keep the
//! scheduling record outside the task.

use vstd::prelude::*;

verus! {

/// The index of a thread of execution.
pub type ThreadID = usize;

/// A unit of work with a priority and a stack of its own.
pub trait Task {
    /// The priority: the smaller, the more urgent.
    spec fn pri(&self) -> usize;

    /// Where the task's stack pointer starts.
    spec fn bottom(&self) -> usize;

    /// What holds once the task's work has been done: whatever that work
    /// promises of itself.
    spec fn worked(&self) -> bool;

    /// What holds once the task has been prepared: whatever the preparation
    /// promises of itself.
    spec fn prepared(&self) -> bool;

    /// Does the task's work once. Priority and stack stay as they are.
    fn run(&mut self)
        ensures
            final(self).worked(),
            final(self).pri() == old(self).pri(),
            final(self).bottom() == old(self).bottom(),
    ;

    /// Prepares the task before it first runs.
    fn init(&self)
        ensures
            self.prepared(),
    ;

    fn get_pri(&self) -> (p: usize)
        ensures
            p == self.pri(),
    ;

    /// Asks for priority `p`. A task whose priority is fixed ignores this.
    fn set_pri(&mut self, p: usize)
        ensures
            final(self).pri() == p || final(self).pri() == old(self).pri(),
            final(self).bottom() == old(self).bottom(),
    ;

    fn stack_bottom(&self) -> (b: usize)
        ensures
            b == self.bottom(),
    ;
}

/// A task that runs a function once per period. Its priority is its period,
/// which never changes.
pub struct PeriodicTask<R: Fn() + Copy, I: Fn() + Copy> {
    prd: usize,
    run_fn: R,
    init_fn: Option<I>,
    stack: &'static [usize],
}

impl<R: Fn() + Copy, I: Fn() + Copy> PeriodicTask<R, I> {
    /// The stack has a bottom word, and the functions can be called.
    #[verifier::type_invariant]
    closed spec fn inv(&self) -> bool {
        &&& self.stack@.len() > 0
        &&& call_requires(self.run_fn, ())
        &&& self.init_fn matches Some(f) ==> call_requires(f, ())
    }

    /// The period, in scheduler ticks.
    pub closed spec fn prd(&self) -> usize {
        self.prd
    }

    /// The words of the stack.
    pub closed spec fn stack(&self) -> Seq<usize> {
        self.stack@
    }

    /// Whether the task has a function to prepare it.
    pub closed spec fn has_init(&self) -> bool {
        self.init_fn is Some
    }

    /// The function that does the task's work.
    pub closed spec fn run_fn(&self) -> R {
        self.run_fn
    }

    /// The function that prepares the task, if it has one.
    pub closed spec fn init_fn(&self) -> Option<I> {
        self.init_fn
    }

    /// A task that calls `run_fn` once every `prd` ticks, after `init_fn`
    /// has prepared it, on `stack`.
    pub fn new(run_fn: R, init_fn: Option<I>, prd: usize, stack: &'static [usize]) -> (t: Self)
        requires
            stack@.len() > 0,
            call_requires(run_fn, ()),
            init_fn matches Some(f) ==> call_requires(f, ()),
        ensures
            t.prd() == prd,
            t.stack() == stack@,
            t.run_fn() == run_fn,
            t.init_fn() == init_fn,
            t.has_init() == init_fn.is_some(),
            t.pri() == prd,
            t.bottom() == stack@[0],
    {
        Self { run_fn, init_fn, prd, stack }
    }
}

impl<R: Fn() + Copy, I: Fn() + Copy> Clone for PeriodicTask<R, I> {
    fn clone(&self) -> (t: Self)
        ensures
            t == *self,
    {
        *self
    }
}

impl<R: Fn() + Copy, I: Fn() + Copy> Copy for PeriodicTask<R, I> {

}

impl<R: Fn() + Copy, I: Fn() + Copy> Task for PeriodicTask<R, I> {
    closed spec fn pri(&self) -> usize {
        self.prd
    }

    closed spec fn bottom(&self) -> usize {
        self.stack@[0]
    }

    /// The task's function has returned from a call.
    open spec fn worked(&self) -> bool {
        call_ensures(self.run_fn(), (), ())
    }

    /// The function that prepares the task, if it has one, has returned
    /// from a call.
    open spec fn prepared(&self) -> bool {
        self.init_fn() matches Some(f) ==> call_ensures(f, (), ())
    }

    /// Calls the task's function once. The task itself stays as it is.
    fn run(&mut self)
        ensures
            *final(self) == *old(self),
            call_ensures(old(self).run_fn(), (), ()),
    {
        proof {
            use_type_invariant(&*self);
        }
        (self.run_fn)();
    }

    /// Calls the function that prepares the task, if it has one.
    fn init(&self)
        ensures
            self.init_fn() matches Some(f) ==> call_ensures(f, (), ()),
    {
        proof {
            use_type_invariant(self);
        }
        if let Some(p) = self.init_fn {
            (p)()
        }
    }

    fn get_pri(&self) -> (p: usize) {
        self.prd
    }

    fn set_pri(&mut self, p: usize)
        ensures
            *final(self) == *old(self),
    {
    }

    fn stack_bottom(&self) -> (b: usize) {
        proof {
            use_type_invariant(self);
        }
        self.stack[0]
    }
}

} // verus!
