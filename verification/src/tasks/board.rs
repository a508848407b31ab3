//! The closed set of tasks that the board runs, as one type, so that a
//! table of a fixed size can hold them side by side.

use vstd::prelude::*;
use crate::tasks::accel::AccelTask;
use crate::tasks::gyro::GyroTask;
use crate::tasks::led::LedTask;
use crate::tasks::{Task, TaskState};

verus! {

/// One of the board's tasks.
pub enum BoardTask {
    Gyro(GyroTask),
    Accel(AccelTask),
    Led(LedTask),
}

impl Task for BoardTask {
    open spec fn state(&self) -> TaskState {
        match self {
            BoardTask::Gyro(t) => t.state(),
            BoardTask::Accel(t) => t.state(),
            BoardTask::Led(t) => t.state(),
        }
    }

    open spec fn stk_ptr(&self) -> usize {
        match self {
            BoardTask::Gyro(t) => t.stk_ptr(),
            BoardTask::Accel(t) => t.stk_ptr(),
            BoardTask::Led(t) => t.stk_ptr(),
        }
    }

    open spec fn prd(&self) -> u32 {
        match self {
            BoardTask::Gyro(t) => t.prd(),
            BoardTask::Accel(t) => t.prd(),
            BoardTask::Led(t) => t.prd(),
        }
    }

    open spec fn armed(&self) -> bool {
        match self {
            BoardTask::Gyro(t) => t.armed(),
            BoardTask::Accel(t) => t.armed(),
            BoardTask::Led(t) => t.armed(),
        }
    }

    /// Runs one quantum of whichever task this is; the kind never changes.
    fn run(&mut self)
        ensures
            match (*old(self), *final(self)) {
                (BoardTask::Gyro(a), BoardTask::Gyro(b)) => {
                    &&& b.buff() == a.buff().update(a.buff_head() as int, a.reading().unwrap())
                    &&& b.buff_head() == if a.buff_head() + 1 >= crate::tasks::gyro::BUFF_CAP {
                        0
                    } else {
                        a.buff_head() + 1
                    }
                    &&& b.reading() == a.reading()
                    &&& b.stack() == a.stack()
                },
                (BoardTask::Accel(a), BoardTask::Accel(b)) => {
                    &&& b.buff() == a.buff().update(a.buff_head() as int, a.reading().unwrap())
                    &&& b.buff_head() == if a.buff_head() + 1 >= crate::tasks::accel::BUFF_CAP {
                        0
                    } else {
                        a.buff_head() + 1
                    }
                    &&& b.reading() == a.reading()
                    &&& b.stack() == a.stack()
                },
                (BoardTask::Led(a), BoardTask::Led(b)) => {
                    &&& b.stack() == a.stack()
                    &&& forall|k: int|
                        0 <= k < 8 ==> {
                            &&& (#[trigger] b.leds().unwrap()[k]).lit() == !a.leds().unwrap()[k].lit()
                            &&& b.leds().unwrap()[k].pin().high == !a.leds().unwrap()[k].lit()
                        }
                },
                _ => false,
            },
    {
        match self {
            BoardTask::Gyro(t) => t.run(),
            BoardTask::Accel(t) => t.run(),
            BoardTask::Led(t) => t.run(),
        }
    }

    fn get_stk_ptr(&self) -> (p: usize) {
        match self {
            BoardTask::Gyro(t) => t.get_stk_ptr(),
            BoardTask::Accel(t) => t.get_stk_ptr(),
            BoardTask::Led(t) => t.get_stk_ptr(),
        }
    }

    fn update_stk_ptr(&mut self, p: usize) {
        match self {
            BoardTask::Gyro(t) => t.update_stk_ptr(p),
            BoardTask::Accel(t) => t.update_stk_ptr(p),
            BoardTask::Led(t) => t.update_stk_ptr(p),
        }
    }

    fn get_state(&self) -> (s: TaskState) {
        match self {
            BoardTask::Gyro(t) => t.get_state(),
            BoardTask::Accel(t) => t.get_state(),
            BoardTask::Led(t) => t.get_state(),
        }
    }

    fn set_state(&mut self, s: TaskState) {
        match self {
            BoardTask::Gyro(t) => t.set_state(s),
            BoardTask::Accel(t) => t.set_state(s),
            BoardTask::Led(t) => t.set_state(s),
        }
    }

    fn get_prd(&self) -> (p: u32) {
        match self {
            BoardTask::Gyro(t) => t.get_prd(),
            BoardTask::Accel(t) => t.get_prd(),
            BoardTask::Led(t) => t.get_prd(),
        }
    }
}

} // verus!
