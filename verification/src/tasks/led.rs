//! The task that strobes the row of eight LEDs.

use vstd::prelude::*;
use crate::context::{initial_frame, initial_sp, with_initial_frame};
use crate::tasks::{Task, TaskState};

verus! {

/// Words in the task's private stack.
pub const STK_SIZE: usize = 512;

/// The task's release interval, in scheduler ticks.
pub const PERIOD: u32 = 13;

/// An output pin, as the level it is driven to.
#[derive(Clone, Copy, Debug, PartialEq, Eq, Structural)]
pub struct LedPin {
    pub high: bool,
}

/// One LED on its pin, with the record of whether it was switched on.
#[derive(Clone, Copy, Debug)]
pub struct Led {
    pex: LedPin,
    on: bool,
}

impl Led {
    /// Whether the LED is on record as switched on.
    pub closed spec fn lit(&self) -> bool {
        self.on
    }

    /// The pin the LED hangs on.
    pub closed spec fn pin(&self) -> LedPin {
        self.pex
    }

    /// Drives the pin low. The record is left alone.
    pub fn off(&mut self)
        ensures
            !final(self).pin().high,
            final(self).lit() == old(self).lit(),
    {
        self.pex.high = false;
    }

    /// Drives the pin high. The record is left alone.
    pub fn on(&mut self)
        ensures
            final(self).pin().high,
            final(self).lit() == old(self).lit(),
    {
        self.pex.high = true;
    }

    /// Switches the LED over: off if it was on record as on, on otherwise.
    pub fn toggle(&mut self)
        ensures
            final(self).lit() == !old(self).lit(),
            final(self).pin().high == !old(self).lit(),
    {
        if self.on {
            self.off();
            self.on = false;
        } else {
            self.on();
            self.on = true;
        }
    }

    /// Whether the LED is on record as switched on.
    pub fn is_lit(&self) -> (r: bool)
        ensures
            r == self.lit(),
    {
        self.on
    }

    /// The level the pin is driven to.
    pub fn is_high(&self) -> (r: bool)
        ensures
            r == self.pin().high,
    {
        self.pex.high
    }
}

impl From<LedPin> for Led {
    /// An LED on `pex`, on record as off; the pin is left as it comes.
    fn from(pex: LedPin) -> (led: Led) {
        Led { pex, on: false }
    }
}

impl vstd::std_specs::convert::FromSpecImpl<LedPin> for Led {
    open spec fn obeys_from_spec() -> bool {
        true
    }

    closed spec fn from_spec(pex: LedPin) -> Led {
        Led { pex, on: false }
    }
}

/// `from` gives an LED on the pin handed in, on record as off.
pub proof fn lemma_led_from(pex: LedPin)
    ensures
        <Led as vstd::std_specs::convert::FromSpec<LedPin>>::from_spec(pex).pin() == pex,
        !<Led as vstd::std_specs::convert::FromSpec<LedPin>>::from_spec(pex).lit(),
{
}

/// The LED strobe task with its scheduling record and private stack.
pub struct LedTask {
    state: TaskState,
    stk_ptr: usize,
    prd: u32,
    leds: Option<[Led; 8]>,
    stack: [u32; STK_SIZE],
}

impl LedTask {
    /// The LEDs, once the task is initialised.
    pub closed spec fn leds(&self) -> Option<Seq<Led>> {
        match self.leds {
            Some(l) => Some(l@),
            None => None,
        }
    }

    /// The words of the private stack.
    pub closed spec fn stack(&self) -> Seq<u32> {
        self.stack@
    }

    /// Takes over the eight pins, builds the frame for the first dispatch
    /// from the task's own address and its entry address, and marks the task
    /// ready.
    #[allow(clippy::too_many_arguments)]
    pub fn init(
        &mut self,
        p0: LedPin,
        p1: LedPin,
        p2: LedPin,
        p3: LedPin,
        p4: LedPin,
        p5: LedPin,
        p6: LedPin,
        p7: LedPin,
        task: u32,
        entry: u32,
    )
        ensures
            final(self).state() == TaskState::Ready,
            final(self).prd() == old(self).prd(),
            final(self).stk_ptr() == initial_sp(STK_SIZE as int),
            final(self).stack() == with_initial_frame(old(self).stack(), task, entry),
            final(self).armed(),
            final(self).leds().unwrap().len() == 8,
            forall|k: int| 0 <= k < 8 ==> !(#[trigger] final(self).leds().unwrap()[k]).lit(),
            final(self).leds().unwrap()[0].pin() == p0,
            final(self).leds().unwrap()[1].pin() == p1,
            final(self).leds().unwrap()[2].pin() == p2,
            final(self).leds().unwrap()[3].pin() == p3,
            final(self).leds().unwrap()[4].pin() == p4,
            final(self).leds().unwrap()[5].pin() == p5,
            final(self).leds().unwrap()[6].pin() == p6,
            final(self).leds().unwrap()[7].pin() == p7,
    {
        let l: [Led; 8] = [
            Led { pex: p0, on: false },
            Led { pex: p1, on: false },
            Led { pex: p2, on: false },
            Led { pex: p3, on: false },
            Led { pex: p4, on: false },
            Led { pex: p5, on: false },
            Led { pex: p6, on: false },
            Led { pex: p7, on: false },
        ];
        self.leds = Some(l);
        self.stk_ptr = initial_frame(&mut self.stack, task, entry);
        self.state = TaskState::Ready;
    }

    /// A task that has not been initialised: no LEDs, an empty stack, and
    /// the strobe's period.
    pub fn default() -> (t: Self)
        ensures
            t.state() == TaskState::PreInit,
            t.stk_ptr() == 0,
            t.prd() == PERIOD,
            !t.armed(),
            t.leds() is None,
            t.stack().len() == STK_SIZE,
            forall|k: int| 0 <= k < STK_SIZE ==> t.stack()[k] == 0,
    {
        LedTask {
            state: TaskState::PreInit,
            stk_ptr: 0,
            prd: PERIOD,
            leds: None,
            stack: [0u32; STK_SIZE],
        }
    }

    /// Whether `init` has handed the task its LEDs.
    pub fn has_leds(&self) -> (r: bool)
        ensures
            r == self.armed(),
    {
        self.leds.is_some()
    }

    /// Whether LED `k` is on record as switched on; `None` before `init`
    /// and for a `k` beyond the row.
    pub fn led_lit(&self, k: usize) -> (r: Option<bool>)
        ensures
            r == match self.leds() {
                Some(l) => if k < 8 {
                    Some(l[k as int].lit())
                } else {
                    None
                },
                None => None,
            },
    {
        match &self.leds {
            Some(l) => if k < 8 {
                Some(l[k].is_lit())
            } else {
                None
            },
            None => None,
        }
    }

    /// The level LED `k`'s pin is driven to; `None` before `init` and for a
    /// `k` beyond the row.
    pub fn led_high(&self, k: usize) -> (r: Option<bool>)
        ensures
            r == match self.leds() {
                Some(l) => if k < 8 {
                    Some(l[k as int].pin().high)
                } else {
                    None
                },
                None => None,
            },
    {
        match &self.leds {
            Some(l) => if k < 8 {
                Some(l[k].is_high())
            } else {
                None
            },
            None => None,
        }
    }

    /// The word at index `k` of the private stack; `None` beyond its end.
    pub fn stack_word(&self, k: usize) -> (r: Option<u32>)
        ensures
            r == if k < STK_SIZE {
                Some(self.stack()[k as int])
            } else {
                None
            },
    {
        if k < STK_SIZE {
            Some(self.stack[k])
        } else {
            None
        }
    }
}

impl Task for LedTask {
    closed spec fn state(&self) -> TaskState {
        self.state
    }

    closed spec fn stk_ptr(&self) -> usize {
        self.stk_ptr
    }

    closed spec fn prd(&self) -> u32 {
        self.prd
    }

    closed spec fn armed(&self) -> bool {
        self.leds is Some
    }

    /// Switches every LED of the row over, first to last.
    fn run(&mut self)
        ensures
            final(self).stack() == old(self).stack(),
            final(self).leds().unwrap().len() == 8,
            forall|k: int|
                0 <= k < 8 ==> {
                    &&& (#[trigger] final(self).leds().unwrap()[k]).lit() == !old(
                        self,
                    ).leds().unwrap()[k].lit()
                    &&& final(self).leds().unwrap()[k].pin().high == !old(
                        self,
                    ).leds().unwrap()[k].lit()
                },
    {
        let mut leds: [Led; 8] = self.leds.unwrap();
        let ghost before = leds@;
        let mut k: usize = 0;
        while k < 8
            invariant
                k <= 8,
                before.len() == 8,
                forall|j: int| k <= j < 8 ==> #[trigger] leds[j] == before[j],
                forall|j: int|
                    0 <= j < k ==> (#[trigger] leds[j]).lit() == !before[j].lit() && leds[j].pin().high
                        == !before[j].lit(),
            decreases 8 - k,
        {
            leds[k].toggle();
            k = k + 1;
        }
        self.leds = Some(leds);
    }

    fn get_stk_ptr(&self) -> (p: usize) {
        self.stk_ptr
    }

    fn update_stk_ptr(&mut self, p: usize)
        ensures
            final(self).stack() == old(self).stack(),
            final(self).leds() == old(self).leds(),
    {
        self.stk_ptr = p;
    }

    fn get_state(&self) -> (s: TaskState) {
        self.state
    }

    fn set_state(&mut self, s: TaskState)
        ensures
            final(self).stack() == old(self).stack(),
            final(self).leds() == old(self).leds(),
    {
        self.state = s;
    }

    fn get_prd(&self) -> (p: u32) {
        self.prd
    }
}

} // verus!
