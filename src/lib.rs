//! A debugger engine for native processes: breakpoint bookkeeping, the logical
//! view of tracee memory, register access through an architecture profile, and
//! the session state machine. The operating system's tracing interface is
//! driven by the caller, which performs the actions that the engine plans and
//! hands back what it observed.

pub mod arch;
pub mod breakpoint;
pub mod error;
pub mod memory;
pub mod debugger;
pub mod laws;
pub mod parse;
pub mod commands;
