use vstd::prelude::*;
use crate::arch::{Arch, Register, RegisterFile, register_count, slot_of, TRAP_OPCODE, TRAP_WIDTH};
use crate::breakpoint::{BreakpointTable, Breakpoint, addresses_of};
use crate::error::DebugError;
use crate::memory::{fits, logical_window, physical_window, written_originals};

verus! {

/// Where a session stands with its tracee.
#[derive(Clone, Copy, Debug, PartialEq, Eq, Structural)]
pub enum SessionState {
    NotStarted,
    Running,
    Stopped,
    Exited(i32),
}

/// How the tracee was last resumed.
#[derive(Clone, Copy, Debug, PartialEq, Eq, Structural)]
pub enum ResumeMode {
    Continue,
    Step,
}

/// What the tracing interface reported when the resumed tracee came to rest.
#[derive(Clone, Copy, Debug, PartialEq, Eq, Structural)]
pub enum TraceEvent {
    /// Stopped by a trap signal, with the instruction pointer as the kernel left it.
    Trapped { pc: u64 },
    /// Stopped by another signal.
    Signaled { signal: i32, pc: u64 },
    /// Terminated, with its exit status.
    Exited { code: i32 },
}

/// Why the tracee stopped, as the engine reports it.
#[derive(Clone, Copy, Debug, PartialEq, Eq, Structural)]
pub enum StopReason {
    /// It ran into the breakpoint at `address`.
    Breakpoint { address: u64 },
    /// It executed one instruction and now stands at `pc`.
    Stepped { pc: u64 },
    /// It trapped at `pc` outside any breakpoint of this session.
    Trapped { pc: u64 },
    /// It received `signal` at `pc`.
    Signaled { signal: i32, pc: u64 },
    /// It terminated.
    Exited { code: i32 },
}

/// The report of a stop, and the instruction pointer to store in the tracee, if
/// it must be moved back onto a breakpoint.
#[derive(Clone, Copy, Debug, PartialEq, Eq, Structural)]
pub struct StopOutcome {
    pub reason: StopReason,
    pub new_pc: Option<u64>,
}

/// The byte writes around a single step: the saved byte to put back at the
/// instruction pointer before the step, and the trap to write there after it.
#[derive(Clone, Copy, Debug, PartialEq, Eq, Structural)]
pub struct StepPlan {
    pub restore: Option<u8>,
    pub rearm: Option<u8>,
}

/// The error an operation that needs a stopped tracee gives in `state`, if any.
pub open spec fn not_stopped_error(state: SessionState) -> Option<DebugError> {
    match state {
        SessionState::Stopped => None,
        SessionState::Exited(_) => Some(DebugError::TargetExited),
        _ => Some(DebugError::ProcessNotRunning),
    }
}

/// What setting a breakpoint at `address` asks to write there.
pub open spec fn set_write(originals: Map<u64, u8>, address: u64) -> Option<u8> {
    if originals.contains_key(address) {
        None
    } else {
        Some(TRAP_OPCODE)
    }
}

/// The saved bytes after a breakpoint is set at `address` over `live_byte`.
pub open spec fn set_originals(originals: Map<u64, u8>, address: u64, live_byte: u8) -> Map<
    u64,
    u8,
> {
    if originals.contains_key(address) {
        originals
    } else {
        originals.insert(address, live_byte)
    }
}

/// What removing the breakpoint at `address` asks to write there.
pub open spec fn remove_write(originals: Map<u64, u8>, address: u64) -> Option<u8> {
    if originals.contains_key(address) {
        Some(originals[address])
    } else {
        None
    }
}

/// The plan for one instruction step from `pc`.
pub open spec fn step_plan(originals: Map<u64, u8>, pc: u64) -> StepPlan {
    if originals.contains_key(pc) {
        StepPlan { restore: Some(originals[pc]), rearm: Some(TRAP_OPCODE) }
    } else {
        StepPlan { restore: None, rearm: None }
    }
}

/// How a stop is reported, given how the tracee was resumed.
pub open spec fn stop_outcome(mode: ResumeMode, originals: Map<u64, u8>, event: TraceEvent) -> StopOutcome {
    match event {
        TraceEvent::Trapped { pc } => match mode {
            ResumeMode::Step => StopOutcome { reason: StopReason::Stepped { pc }, new_pc: None },
            ResumeMode::Continue => if pc >= TRAP_WIDTH && originals.contains_key(
                (pc - TRAP_WIDTH) as u64,
            ) {
                StopOutcome {
                    reason: StopReason::Breakpoint { address: (pc - TRAP_WIDTH) as u64 },
                    new_pc: Some((pc - TRAP_WIDTH) as u64),
                }
            } else {
                StopOutcome { reason: StopReason::Trapped { pc }, new_pc: None }
            },
        },
        TraceEvent::Signaled { signal, pc } => StopOutcome {
            reason: StopReason::Signaled { signal, pc },
            new_pc: None,
        },
        TraceEvent::Exited { code } => StopOutcome {
            reason: StopReason::Exited { code },
            new_pc: None,
        },
    }
}

/// The state that a stop leaves the session in.
pub open spec fn stop_state(event: TraceEvent) -> SessionState {
    match event {
        TraceEvent::Exited { code } => SessionState::Exited(code),
        _ => SessionState::Stopped,
    }
}

/// Where `reg` can be read in `regs` under the session's profile `arch`.
pub open spec fn register_slot(arch: Option<Arch>, regs_arch: Arch, regs_len: nat, reg: Register) -> Option<nat> {
    match arch {
        Some(a) => if a == regs_arch && regs_len == register_count(a) {
            slot_of(a, reg)
        } else {
            None
        },
        None => None,
    }
}

/// The engine of one debugging session: the session state, the architecture
/// profile fixed at launch, and the breakpoint table.
pub struct Debugger {
    state: SessionState,
    mode: ResumeMode,
    arch: Option<Arch>,
    breakpoints: BreakpointTable,
}

impl Debugger {
    pub closed spec fn spec_state(&self) -> SessionState {
        self.state
    }

    pub closed spec fn spec_mode(&self) -> ResumeMode {
        self.mode
    }

    pub closed spec fn spec_arch(&self) -> Option<Arch> {
        self.arch
    }

    /// The saved byte of every address that holds a breakpoint.
    pub closed spec fn originals(&self) -> Map<u64, u8> {
        self.breakpoints.originals()
    }

    /// The breakpoints, in the order in which they were set.
    pub closed spec fn breakpoints(&self) -> Seq<Breakpoint> {
        self.breakpoints@
    }

    pub closed spec fn wf(&self) -> bool {
        &&& self.breakpoints.wf()
        &&& (self.state == SessionState::Stopped || self.state == SessionState::Running)
            ==> self.arch.is_some()
    }

    /// A session with no tracee yet.
    pub fn new() -> (r: Self)
        ensures
            r.wf(),
            r.spec_state() == SessionState::NotStarted,
            r.spec_arch().is_none(),
            r.originals() == Map::<u64, u8>::empty(),
            r.breakpoints() == Seq::<Breakpoint>::empty(),
    {
        Debugger {
            state: SessionState::NotStarted,
            mode: ResumeMode::Continue,
            arch: None,
            breakpoints: BreakpointTable::new(),
        }
    }

    pub fn state(&self) -> (r: SessionState)
        ensures
            r == self.spec_state(),
    {
        self.state
    }

    pub fn arch(&self) -> (r: Option<Arch>)
        ensures
            r == self.spec_arch(),
    {
        self.arch
    }

    /// Records that the tracee was launched or attached, stopped, with the
    /// register layout of `arch`, which stays the session's profile.
    pub fn start(&mut self, arch: Arch) -> (r: Result<(), DebugError>)
        requires
            old(self).wf(),
        ensures
            final(self).wf(),
            match old(self).spec_state() {
                SessionState::NotStarted => r == Ok::<(), DebugError>(())
                    && final(self).spec_state() == SessionState::Stopped
                    && final(self).spec_arch() == Some(arch)
                    && final(self).originals() == old(self).originals()
                    && final(self).breakpoints() == old(self).breakpoints(),
                SessionState::Exited(_) => r == Err::<(), DebugError>(DebugError::TargetExited)
                    && *final(self) == *old(self),
                _ => r == Err::<(), DebugError>(DebugError::AlreadyStarted) && *final(self) == *old(self),
            },
    {
        match self.state {
            SessionState::NotStarted => {
                self.state = SessionState::Stopped;
                self.arch = Some(arch);
                Ok(())
            },
            SessionState::Exited(_) => Err(DebugError::TargetExited),
            _ => Err(DebugError::AlreadyStarted),
        }
    }

    /// Sets a breakpoint at `address`, where the tracee's live byte is `live_byte`.
    /// Returns the byte to write at `address`: the trap, or nothing where a
    /// breakpoint is already set there, whose saved byte is kept.
    pub fn set_breakpoint_at(&mut self, address: u64, live_byte: u8) -> (r: Result<Option<u8>, DebugError>)
        requires
            old(self).wf(),
        ensures
            final(self).wf(),
            match not_stopped_error(old(self).spec_state()) {
                Some(e) => r == Err::<Option<u8>, DebugError>(e) && *final(self) == *old(self),
                None => r == Ok::<Option<u8>, DebugError>(set_write(old(self).originals(), address))
                    && final(self).originals() == set_originals(old(self).originals(), address, live_byte)
                    && final(self).breakpoints() == (if old(self).originals().contains_key(address) {
                        old(self).breakpoints()
                    } else {
                        old(self).breakpoints().push(
                            Breakpoint { address, original_byte: live_byte, enabled: true },
                        )
                    })
                    && final(self).spec_state() == old(self).spec_state()
                    && final(self).spec_mode() == old(self).spec_mode()
                    && final(self).spec_arch() == old(self).spec_arch(),
            },
    {
        if let Err(e) = self.ensure_stopped() {
            return Err(e);
        }
        if self.breakpoints.insert(address, live_byte) {
            Ok(Some(TRAP_OPCODE))
        } else {
            Ok(None)
        }
    }

    /// Removes the breakpoint at `address`, if any. Returns the saved byte to
    /// write back there, or nothing where no breakpoint was set.
    pub fn remove_breakpoint_at(&mut self, address: u64) -> (r: Result<Option<u8>, DebugError>)
        requires
            old(self).wf(),
        ensures
            final(self).wf(),
            match not_stopped_error(old(self).spec_state()) {
                Some(e) => r == Err::<Option<u8>, DebugError>(e) && *final(self) == *old(self),
                None => r == Ok::<Option<u8>, DebugError>(remove_write(old(self).originals(), address))
                    && final(self).originals() == old(self).originals().remove(address)
                    && addresses_of(final(self).breakpoints()) == addresses_of(
                        old(self).breakpoints(),
                    ).filter(|a: u64| a != address)
                    && final(self).spec_state() == old(self).spec_state()
                    && final(self).spec_mode() == old(self).spec_mode()
                    && final(self).spec_arch() == old(self).spec_arch(),
            },
    {
        if let Err(e) = self.ensure_stopped() {
            return Err(e);
        }
        Ok(self.breakpoints.remove(address))
    }

    /// The addresses of the breakpoints, in the order in which they were set.
    pub fn list(&self) -> (r: Vec<u64>)
        requires
            self.wf(),
        ensures
            r@ == addresses_of(self.breakpoints()),
    {
        self.breakpoints.list()
    }

    /// The logical content of the bytes at `address` whose live content is
    /// `live`: each patched byte shows what it saved, never the trap.
    pub fn read_memory(&self, address: u64, live: &Vec<u8>) -> (r: Result<Vec<u8>, DebugError>)
        requires
            self.wf(),
        ensures
            match not_stopped_error(self.spec_state()) {
                Some(e) => r == Err::<Vec<u8>, DebugError>(e),
                None => if fits(address, live@.len()) {
                    r.is_ok() && r.unwrap()@ == logical_window(self.originals(), address, live@)
                } else {
                    r == Err::<Vec<u8>, DebugError>(DebugError::InvalidAddress)
                },
            },
    {
        if let Err(e) = self.ensure_stopped() {
            return Err(e);
        }
        if address as u128 + live.len() as u128 > u64::MAX as u128 + 1 {
            return Err(DebugError::InvalidAddress);
        }
        let mut out: Vec<u8> = Vec::new();
        let mut i: usize = 0;
        while i < live.len()
            invariant
                self.wf(),
                i <= live@.len(),
                fits(address, live@.len()),
                out@ == logical_window(self.originals(), address, live@).take(i as int),
            decreases live@.len() - i,
        {
            let a: u64 = address + i as u64;
            let b = match self.breakpoints.original_at(a) {
                Some(o) => o,
                None => live[i],
            };
            out.push(b);
            i = i + 1;
            assert(out@ =~= logical_window(self.originals(), address, live@).take(i as int));
        }
        assert(out@ =~= logical_window(self.originals(), address, live@));
        Ok(out)
    }

    /// Writes `value` into the logical memory at `address`. A patched byte in the
    /// range keeps its trap and saves the new byte instead. Returns the bytes to
    /// store in the tracee at `address`.
    pub fn write_memory(&mut self, address: u64, value: &Vec<u8>) -> (r: Result<Vec<u8>, DebugError>)
        requires
            old(self).wf(),
        ensures
            final(self).wf(),
            match not_stopped_error(old(self).spec_state()) {
                Some(e) => r == Err::<Vec<u8>, DebugError>(e) && *final(self) == *old(self),
                None => if fits(address, value@.len()) {
                    r.is_ok() && r.unwrap()@ == physical_window(old(self).originals(), address, value@)
                        && final(self).originals() == written_originals(old(self).originals(), address, value@)
                        && addresses_of(final(self).breakpoints()) == addresses_of(old(self).breakpoints())
                        && final(self).spec_state() == old(self).spec_state()
                        && final(self).spec_mode() == old(self).spec_mode()
                        && final(self).spec_arch() == old(self).spec_arch()
                } else {
                    r == Err::<Vec<u8>, DebugError>(DebugError::InvalidAddress)
                        && *final(self) == *old(self)
                },
            },
    {
        if let Err(e) = self.ensure_stopped() {
            return Err(e);
        }
        if address as u128 + value.len() as u128 > u64::MAX as u128 + 1 {
            return Err(DebugError::InvalidAddress);
        }
        let ghost orig = self.originals();
        let ghost addrs = addresses_of(self.breakpoints());
        let mut out: Vec<u8> = Vec::new();
        let mut i: usize = 0;
        while i < value.len()
            invariant
                self.wf(),
                i <= value@.len(),
                fits(address, value@.len()),
                self.spec_state() == old(self).spec_state(),
                self.spec_mode() == old(self).spec_mode(),
                self.spec_arch() == old(self).spec_arch(),
                addresses_of(self.breakpoints()) == addrs,
                out@ == physical_window(orig, address, value@).take(i as int),
                self.originals() == written_originals(orig, address, value@.take(i as int)),
            decreases value@.len() - i,
        {
            let a: u64 = address + i as u64;
            let patched = self.breakpoints.update_original(a, value[i]);
            out.push(if patched { TRAP_OPCODE } else { value[i] });
            i = i + 1;
            assert(out@ =~= physical_window(orig, address, value@).take(i as int));
            assert(self.originals() =~= written_originals(orig, address, value@.take(i as int)));
        }
        assert(out@ =~= physical_window(orig, address, value@));
        assert(value@.take(i as int) =~= value@);
        Ok(out)
    }

    /// The value of `reg` in the register file `regs`, read through the
    /// session's architecture profile.
    pub fn get_register_value(&self, regs: &RegisterFile, reg: Register) -> (r: Result<u64, DebugError>)
        requires
            self.wf(),
        ensures
            match not_stopped_error(self.spec_state()) {
                Some(e) => r == Err::<u64, DebugError>(e),
                None => match register_slot(self.spec_arch(), regs.arch, regs.slots@.len(), reg) {
                    Some(n) => r == Ok::<u64, DebugError>(regs.slots@[n as int]),
                    None => r == Err::<u64, DebugError>(DebugError::UnsupportedRegister),
                },
            },
    {
        if let Err(e) = self.ensure_stopped() {
            return Err(e);
        }
        match self.slot_in(regs, reg) {
            Some(n) => Ok(regs.slots[n]),
            None => Err(DebugError::UnsupportedRegister),
        }
    }

    /// Stores `value` as `reg` in the register file `regs`, through the session's
    /// architecture profile; `regs` is left as it was on failure.
    pub fn set_register_value(&self, regs: &mut RegisterFile, reg: Register, value: u64) -> (r: Result<(), DebugError>)
        requires
            self.wf(),
        ensures
            final(regs).arch == old(regs).arch,
            match not_stopped_error(self.spec_state()) {
                Some(e) => r == Err::<(), DebugError>(e) && final(regs).slots@ == old(regs).slots@,
                None => match register_slot(self.spec_arch(), old(regs).arch, old(regs).slots@.len(), reg) {
                    Some(n) => r == Ok::<(), DebugError>(())
                        && final(regs).slots@ == old(regs).slots@.update(n as int, value),
                    None => r == Err::<(), DebugError>(DebugError::UnsupportedRegister)
                        && final(regs).slots@ == old(regs).slots@,
                },
            },
    {
        if let Err(e) = self.ensure_stopped() {
            return Err(e);
        }
        match self.slot_in(regs, reg) {
            Some(n) => {
                regs.slots.set(n, value);
                Ok(())
            },
            None => Err(DebugError::UnsupportedRegister),
        }
    }

    /// The slot of `reg` in `regs`, where the file matches the session's profile.
    fn slot_in(&self, regs: &RegisterFile, reg: Register) -> (r: Option<usize>)
        ensures
            match register_slot(self.spec_arch(), regs.arch, regs.slots@.len(), reg) {
                Some(n) => r == Some(n as usize) && n < regs.slots@.len(),
                None => r.is_none(),
            },
    {
        match self.arch {
            Some(a) => if a == regs.arch && regs.slots.len() == a.register_count() {
                a.slot(reg)
            } else {
                None
            },
            None => None,
        }
    }

    /// Resumes the stopped tracee whose instruction pointer is `pc`. Returns the
    /// saved byte at `pc` where a breakpoint stands there: the caller steps over
    /// that instruction as a single step does before it lets the tracee run.
    pub fn continue_execution(&mut self, pc: u64) -> (r: Result<Option<u8>, DebugError>)
        requires
            old(self).wf(),
        ensures
            final(self).wf(),
            match not_stopped_error(old(self).spec_state()) {
                Some(e) => r == Err::<Option<u8>, DebugError>(e) && *final(self) == *old(self),
                None => r == Ok::<Option<u8>, DebugError>(remove_write(old(self).originals(), pc))
                    && final(self).spec_state() == SessionState::Running
                    && final(self).spec_mode() == ResumeMode::Continue
                    && final(self).spec_arch() == old(self).spec_arch()
                    && final(self).originals() == old(self).originals()
                    && final(self).breakpoints() == old(self).breakpoints(),
            },
    {
        if let Err(e) = self.ensure_stopped() {
            return Err(e);
        }
        self.state = SessionState::Running;
        self.mode = ResumeMode::Continue;
        Ok(self.breakpoints.original_at(pc))
    }

    /// Executes one instruction from `pc`. Where a breakpoint stands at `pc`, the
    /// plan puts its saved byte back for the step and the trap again after it, so
    /// the breakpoint stays in place and this step does not hit it.
    pub fn single_step_instruction_with_breakpoints(&mut self, pc: u64) -> (r: Result<StepPlan, DebugError>)
        requires
            old(self).wf(),
        ensures
            final(self).wf(),
            match not_stopped_error(old(self).spec_state()) {
                Some(e) => r == Err::<StepPlan, DebugError>(e) && *final(self) == *old(self),
                None => r == Ok::<StepPlan, DebugError>(step_plan(old(self).originals(), pc))
                    && final(self).spec_state() == SessionState::Running
                    && final(self).spec_mode() == ResumeMode::Step
                    && final(self).spec_arch() == old(self).spec_arch()
                    && final(self).originals() == old(self).originals()
                    && final(self).breakpoints() == old(self).breakpoints(),
            },
    {
        if let Err(e) = self.ensure_stopped() {
            return Err(e);
        }
        self.state = SessionState::Running;
        self.mode = ResumeMode::Step;
        match self.breakpoints.original_at(pc) {
            Some(b) => Ok(StepPlan { restore: Some(b), rearm: Some(TRAP_OPCODE) }),
            None => Ok(StepPlan { restore: None, rearm: None }),
        }
    }

    /// Takes in the stop of the running tracee. A trap just past a breakpoint
    /// after a continue is reported at the breakpoint, with the instruction
    /// pointer to move back there; after a step a trap only reports the step.
    /// Once the tracee has terminated, its breakpoints are gone with it.
    pub fn on_stop(&mut self, event: TraceEvent) -> (r: Result<StopOutcome, DebugError>)
        requires
            old(self).wf(),
        ensures
            final(self).wf(),
            match old(self).spec_state() {
                SessionState::Running => r == Ok::<StopOutcome, DebugError>(
                    stop_outcome(old(self).spec_mode(), old(self).originals(), event),
                ) && final(self).spec_state() == stop_state(event)
                    && final(self).spec_mode() == old(self).spec_mode()
                    && final(self).spec_arch() == old(self).spec_arch()
                    && (match event {
                    TraceEvent::Exited { .. } => final(self).originals() == Map::<u64, u8>::empty()
                        && final(self).breakpoints() == Seq::<Breakpoint>::empty(),
                    _ => final(self).originals() == old(self).originals()
                        && final(self).breakpoints() == old(self).breakpoints(),
                }),
                SessionState::Exited(_) => r == Err::<StopOutcome, DebugError>(DebugError::TargetExited)
                    && *final(self) == *old(self),
                _ => r == Err::<StopOutcome, DebugError>(DebugError::ProcessNotRunning)
                    && *final(self) == *old(self),
            },
    {
        match self.state {
            SessionState::Running => {},
            SessionState::Exited(_) => {
                return Err(DebugError::TargetExited);
            },
            _ => {
                return Err(DebugError::ProcessNotRunning);
            },
        }
        match event {
            TraceEvent::Trapped { pc } => {
                self.state = SessionState::Stopped;
                match self.mode {
                    ResumeMode::Step => Ok(
                        StopOutcome { reason: StopReason::Stepped { pc }, new_pc: None },
                    ),
                    ResumeMode::Continue => {
                        if pc >= TRAP_WIDTH && self.breakpoints.original_at(pc - TRAP_WIDTH).is_some() {
                            let address = pc - TRAP_WIDTH;
                            Ok(
                                StopOutcome {
                                    reason: StopReason::Breakpoint { address },
                                    new_pc: Some(address),
                                },
                            )
                        } else {
                            Ok(StopOutcome { reason: StopReason::Trapped { pc }, new_pc: None })
                        }
                    },
                }
            },
            TraceEvent::Signaled { signal, pc } => {
                self.state = SessionState::Stopped;
                Ok(StopOutcome { reason: StopReason::Signaled { signal, pc }, new_pc: None })
            },
            TraceEvent::Exited { code } => {
                self.state = SessionState::Exited(code);
                self.breakpoints = BreakpointTable::new();
                Ok(StopOutcome { reason: StopReason::Exited { code }, new_pc: None })
            },
        }
    }

    /// Takes in a tracing failure while the tracee was resumed: the session is
    /// stopped again, and the error is handed on as it came.
    pub fn on_trace_error(&mut self, e: DebugError) -> (r: DebugError)
        requires
            old(self).wf(),
        ensures
            final(self).wf(),
            r == e,
            final(self).spec_state() == (if old(self).spec_state() == SessionState::Running {
                SessionState::Stopped
            } else {
                old(self).spec_state()
            }),
            final(self).spec_mode() == old(self).spec_mode(),
            final(self).spec_arch() == old(self).spec_arch(),
            final(self).originals() == old(self).originals(),
            final(self).breakpoints() == old(self).breakpoints(),
    {
        if let SessionState::Running = self.state {
            self.state = SessionState::Stopped;
        }
        e
    }

    /// Succeeds exactly when the tracee is stopped under the engine's control.
    pub fn ensure_stopped(&self) -> (r: Result<(), DebugError>)
        ensures
            r == match not_stopped_error(self.spec_state()) {
                Some(e) => Err::<(), DebugError>(e),
                None => Ok(()),
            },
    {
        match self.state {
            SessionState::Stopped => Ok(()),
            SessionState::Exited(_) => Err(DebugError::TargetExited),
            _ => Err(DebugError::ProcessNotRunning),
        }
    }
}

} // verus!
