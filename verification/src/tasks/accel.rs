//! The task that polls the accelerometer.

use vstd::prelude::*;
use crate::context::{initial_frame, initial_sp, with_initial_frame};
use crate::tasks::{I16x3, Task, TaskState};

verus! {

/// Words in the task's private stack.
pub const STK_SIZE: usize = 512;

/// The task's release interval, in scheduler ticks.
pub const PERIOD: u32 = 5;

/// Readings the task keeps before it overwrites the oldest.
pub const BUFF_CAP: usize = 16;

/// The accelerometer task with its scheduling record, its readings and
/// its private stack.
pub struct AccelTask {
    state: TaskState,
    stk_ptr: usize,
    prd: u32,
    accel: Option<I16x3>,
    buff: [I16x3; BUFF_CAP],
    buff_head: usize,
    stack: [u32; STK_SIZE],
}

impl AccelTask {
    /// The next place to write always lies inside the buffer.
    #[verifier::type_invariant]
    closed spec fn inv(&self) -> bool {
        self.buff_head < BUFF_CAP
    }

    /// What the sensor shows at the moment, once it has been brought up.
    pub closed spec fn reading(&self) -> Option<I16x3> {
        self.accel
    }

    /// The readings kept, by place.
    pub closed spec fn buff(&self) -> Seq<I16x3> {
        self.buff@
    }

    /// The place the next reading goes to.
    pub closed spec fn buff_head(&self) -> usize {
        self.buff_head
    }

    /// The words of the private stack.
    pub closed spec fn stack(&self) -> Seq<u32> {
        self.stack@
    }

    /// Marks the sensor as brought up, builds the frame for the first
    /// dispatch from the task's own address and its entry address, and marks
    /// the task ready. Until the first measurement the sensor shows zeros.
    pub fn init(&mut self, task: u32, entry: u32)
        ensures
            final(self).state() == TaskState::Ready,
            final(self).prd() == old(self).prd(),
            final(self).stk_ptr() == initial_sp(STK_SIZE as int),
            final(self).stack() == with_initial_frame(old(self).stack(), task, entry),
            final(self).armed(),
            final(self).reading() == Some(I16x3 { x: 0, y: 0, z: 0 }),
            final(self).buff() == old(self).buff(),
            final(self).buff_head() == old(self).buff_head(),
    {
        proof {
            use_type_invariant(&*self);
        }
        self.accel = Some(I16x3 { x: 0, y: 0, z: 0 });
        self.state = TaskState::Ready;
        let sp: usize = {
            let mut stack: [u32; STK_SIZE] = self.stack;
            let sp: usize = initial_frame(&mut stack, task, entry);
            self.stack = stack;
            sp
        };
        self.stk_ptr = sp;
    }

    /// A task that has not been initialised: no sensor, no readings but
    /// zeros, an empty stack, and the poll's period.
    pub fn default() -> (t: Self)
        ensures
            t.state() == TaskState::PreInit,
            t.stk_ptr() == 0,
            t.prd() == PERIOD,
            !t.armed(),
            t.reading() is None,
            t.buff_head() == 0,
            t.buff().len() == BUFF_CAP,
            forall|k: int| 0 <= k < BUFF_CAP ==> t.buff()[k] == (I16x3 { x: 0, y: 0, z: 0 }),
            t.stack().len() == STK_SIZE,
            forall|k: int| 0 <= k < STK_SIZE ==> t.stack()[k] == 0,
    {
        AccelTask {
            state: TaskState::PreInit,
            stk_ptr: 0,
            prd: PERIOD,
            accel: None,
            buff: [I16x3 { x: 0, y: 0, z: 0 };BUFF_CAP],
            buff_head: 0,
            stack: [0u32; STK_SIZE],
        }
    }

    /// Takes what the sensor shows now. Before `init` there is no sensor
    /// and nothing is taken.
    pub fn measure(&mut self, reading: I16x3)
        ensures
            final(self).reading() == if old(self).armed() {
                Some(reading)
            } else {
                None
            },
            final(self).armed() == old(self).armed(),
            final(self).state() == old(self).state(),
            final(self).stk_ptr() == old(self).stk_ptr(),
            final(self).prd() == old(self).prd(),
            final(self).buff() == old(self).buff(),
            final(self).buff_head() == old(self).buff_head(),
            final(self).stack() == old(self).stack(),
    {
        proof {
            use_type_invariant(&*self);
        }
        if self.accel.is_some() {
            self.accel = Some(reading);
        }
    }

    /// What the sensor shows at the moment; `None` before `init`.
    pub fn latest(&self) -> (r: Option<I16x3>)
        ensures
            r == self.reading(),
            r.is_some() == self.armed(),
    {
        self.accel
    }

    /// The reading kept at place `k`; `None` beyond the buffer.
    pub fn sample(&self, k: usize) -> (r: Option<I16x3>)
        ensures
            r == if k < BUFF_CAP {
                Some(self.buff()[k as int])
            } else {
                None
            },
    {
        if k < BUFF_CAP {
            Some(self.buff[k])
        } else {
            None
        }
    }

    /// The place the next reading goes to.
    pub fn head(&self) -> (h: usize)
        ensures
            h == self.buff_head(),
            h < BUFF_CAP,
    {
        proof {
            use_type_invariant(self);
        }
        self.buff_head
    }

    /// The word at index `k` of the private stack; `None` beyond its end.
    pub fn stack_word(&self, k: usize) -> (r: Option<u32>)
        ensures
            r == if k < STK_SIZE {
                Some(self.stack()[k as int])
            } else {
                None
            },
    {
        if k < STK_SIZE {
            Some(self.stack[k])
        } else {
            None
        }
    }
}

impl Task for AccelTask {
    closed spec fn state(&self) -> TaskState {
        self.state
    }

    closed spec fn stk_ptr(&self) -> usize {
        self.stk_ptr
    }

    closed spec fn prd(&self) -> u32 {
        self.prd
    }

    closed spec fn armed(&self) -> bool {
        self.accel is Some
    }

    /// Keeps what the sensor shows at the place the head points to, and
    /// moves the head on by one place, back to the first after the last.
    fn run(&mut self)
        ensures
            final(self).buff() == old(self).buff().update(
                old(self).buff_head() as int,
                old(self).reading().unwrap(),
            ),
            final(self).buff_head() == if old(self).buff_head() + 1 >= BUFF_CAP {
                0
            } else {
                old(self).buff_head() + 1
            },
            final(self).reading() == old(self).reading(),
            final(self).stack() == old(self).stack(),
    {
        proof {
            use_type_invariant(&*self);
        }
        let reading: I16x3 = self.accel.unwrap();
        let mut buff: [I16x3; BUFF_CAP] = self.buff;
        buff[self.buff_head] = reading;
        self.buff = buff;
        self.buff_head = if self.buff_head + 1 >= BUFF_CAP {
            0
        } else {
            self.buff_head + 1
        };
    }

    fn get_stk_ptr(&self) -> (p: usize) {
        self.stk_ptr
    }

    fn update_stk_ptr(&mut self, p: usize)
        ensures
            final(self).reading() == old(self).reading(),
            final(self).buff() == old(self).buff(),
            final(self).buff_head() == old(self).buff_head(),
            final(self).stack() == old(self).stack(),
    {
        proof {
            use_type_invariant(&*self);
        }
        self.stk_ptr = p;
    }

    fn get_state(&self) -> (s: TaskState) {
        self.state
    }

    fn set_state(&mut self, s: TaskState)
        ensures
            final(self).reading() == old(self).reading(),
            final(self).buff() == old(self).buff(),
            final(self).buff_head() == old(self).buff_head(),
            final(self).stack() == old(self).stack(),
    {
        proof {
            use_type_invariant(&*self);
        }
        self.state = s;
    }

    fn get_prd(&self) -> (p: u32) {
        self.prd
    }
}

} // verus!
