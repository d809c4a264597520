//! A cooperative, priority-ordered task scheduler for a single-core kernel,
//! with a synchronous syscall dispatch state machine, a PL011 UART driver and
//! a buffered console terminal.
//!
//! The hardware pieces that surround this logic (trap entry and return, the
//! register-switch primitive, privilege-level programming, memory-mapped
//! device access) are collaborators with documented contracts; they are
//! modelled here as plain data so that the scheduling and dispatch logic can
//! be stated and proved over explicit state.

pub mod ready_queue;
pub mod setup;
pub mod sys_syscall;
pub mod syscall;
pub mod tasks;
pub mod term;
