//! What the kernel asks of the processor it runs on.

use vstd::prelude::*;

pub mod cortex_m4f;

verus! {

/// The timer and the idle state of a processor.
pub trait Arch {
    /// What the timer calls on every tick.
    type Callback: Fn();

    /// Whether a tick callback has been registered.
    spec fn has_systick_cb(&self) -> bool;

    /// The deadline the timer was last set to, in ticks.
    spec fn systick(&self) -> usize;

    /// Idles until the next interrupt.
    fn wfi(&self)
    ;

    /// Has the timer call `cb` on every tick from now on.
    fn register_systick_cb(&mut self, cb: Self::Callback)
        requires
            call_requires(cb, ()),
        ensures
            final(self).has_systick_cb(),
            final(self).systick() == old(self).systick(),
    ;

    /// Sets the timer's next deadline to `ticks`.
    fn set_systick(&mut self, ticks: usize)
        ensures
            final(self).systick() == ticks,
            final(self).has_systick_cb() == old(self).has_systick_cb(),
    ;
}

} // verus!
