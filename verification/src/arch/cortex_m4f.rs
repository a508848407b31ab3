//! The Cortex-M4F core, as far as the kernel programs it: the tick callback
//! and the timer's deadline.

use vstd::prelude::*;
use crate::arch::Arch;

verus! {

/// The state of the core's timer.
pub struct CortexM4F<F: Fn()> {
    sys_cb: Option<F>,
    reload: usize,
}

impl<F: Fn()> CortexM4F<F> {
    /// A registered callback can be called.
    #[verifier::type_invariant]
    closed spec fn inv(&self) -> bool {
        self.sys_cb matches Some(f) ==> call_requires(f, ())
    }

    /// The callback registered for the tick, if any.
    pub closed spec fn sys_cb(&self) -> Option<F> {
        self.sys_cb
    }

    /// A core with no callback registered and the timer's deadline at zero.
    pub fn new() -> (core: Self)
        ensures
            core.sys_cb() is None,
            !core.has_systick_cb(),
            core.systick() == 0,
    {
        Self { sys_cb: None, reload: 0 }
    }

    /// The tick: calls the registered callback, if there is one.
    pub fn handle_systick(&self) {
        proof {
            use_type_invariant(self);
        }
        if let Some(c) = &self.sys_cb {
            c();
        }
    }

    /// The deadline the timer was last set to.
    pub fn get_systick(&self) -> (ticks: usize)
        ensures
            ticks == self.systick(),
    {
        self.reload
    }
}

impl<F: Fn()> Arch for CortexM4F<F> {
    type Callback = F;

    closed spec fn has_systick_cb(&self) -> bool {
        self.sys_cb is Some
    }

    closed spec fn systick(&self) -> usize {
        self.reload
    }

    /// Nothing is recorded of idling: the state of the timer is as before.
    fn wfi(&self) {
    }

    fn register_systick_cb(&mut self, cb: F)
        ensures
            final(self).sys_cb() == Some(cb),
    {
        self.sys_cb = Some(cb);
    }

    fn set_systick(&mut self, ticks: usize)
        ensures
            final(self).sys_cb() == old(self).sys_cb(),
    {
        proof {
            use_type_invariant(&*self);
        }
        self.reload = ticks;
    }
}

} // verus!
