//! A small preemptive real-time kernel for a single-core microcontroller.
//!
//! Periodic tasks are released once per period and dispatched rate-monotonically:
//! the task with the shorter period preempts the one with the longer period.
//! Everything here is plain data and decisions; the board support around it
//! performs the hardware work and feeds the results back in.

pub mod arch;
pub mod context;
pub mod exceptions;
pub mod kernel;
pub mod release;
pub mod task;
pub mod task_control;
pub mod task_man;
pub mod tasks;
pub mod theorems;
