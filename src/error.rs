use vstd::prelude::*;

verus! {

/// The tracing request that the operating system refused.
#[derive(Clone, Copy, Debug, PartialEq, Eq, Structural)]
pub enum TraceCall {
    Spawn,
    TraceMe,
    Wait,
    PeekData,
    PokeData,
    GetRegs,
    SetRegs,
    Cont,
    SingleStep,
}

/// The outcomes of an engine operation that failed.
#[derive(Clone, Copy, Debug, PartialEq, Eq, Structural)]
pub enum DebugError {
    /// There is no tracee stopped under the engine's control.
    ProcessNotRunning,
    /// The tracee has terminated; the session admits no further operation.
    TargetExited,
    /// A tracing request failed with the given error number.
    OsTraceError { syscall: TraceCall, errno: i32 },
    /// The address range is not one the tracee's memory can hold.
    InvalidAddress,
    /// The session's architecture profile has no such register, or the register
    /// file does not match that profile.
    UnsupportedRegister,
    /// A command's arguments could not be read.
    MalformedArgument,
    /// A process is already attached to this session.
    AlreadyStarted,
}

} // verus!
