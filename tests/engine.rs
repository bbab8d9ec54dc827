use std::collections::HashMap;

use rdbg::arch::{Arch, Register, RegisterFile, TRAP_OPCODE};
use rdbg::debugger::{Debugger, SessionState, StepPlan, StopReason, TraceEvent};
use rdbg::error::DebugError;

/// A stand-in for the tracee's address space.
struct Tracee {
    mem: HashMap<u64, u8>,
}

impl Tracee {
    fn new() -> Tracee {
        let mut mem = HashMap::new();
        for a in 0x401000u64..0x401010 {
            mem.insert(a, (a & 0xff) as u8 ^ 0x55);
        }
        for a in 0x601020u64..0x601030 {
            mem.insert(a, 0);
        }
        Tracee { mem }
    }

    fn peek(&self, address: u64, n: u64) -> Vec<u8> {
        (0..n).map(|i| self.mem[&(address + i)]).collect()
    }

    fn poke(&mut self, address: u64, bytes: &[u8]) {
        for (i, b) in bytes.iter().enumerate() {
            self.mem.insert(address + i as u64, *b);
        }
    }

    fn poke_byte(&mut self, address: u64, b: Option<u8>) {
        if let Some(b) = b {
            self.mem.insert(address, b);
        }
    }
}

fn started() -> (Debugger, Tracee) {
    let mut dbg = Debugger::new();
    dbg.start(Arch::X86_64).unwrap();
    (dbg, Tracee::new())
}

fn set(dbg: &mut Debugger, t: &mut Tracee, a: u64) -> Option<u8> {
    let live = t.mem[&a];
    let w = dbg.set_breakpoint_at(a, live).unwrap();
    t.poke_byte(a, w);
    w
}

fn remove(dbg: &mut Debugger, t: &mut Tracee, a: u64) -> Option<u8> {
    let w = dbg.remove_breakpoint_at(a).unwrap();
    t.poke_byte(a, w);
    w
}

#[test]
fn breakpoint_is_invisible_to_reads() {
    let (mut dbg, mut t) = started();
    let before = dbg.read_memory(0x401000, &t.peek(0x401000, 8)).unwrap();
    assert_eq!(set(&mut dbg, &mut t, 0x401003), Some(TRAP_OPCODE));
    assert_eq!(t.mem[&0x401003], 0xcc);
    let after = dbg.read_memory(0x401000, &t.peek(0x401000, 8)).unwrap();
    assert_eq!(before, after);
    assert_eq!(after, t.peek(0x401000, 8).iter().enumerate().map(|(i, b)| if i == 3 { 0x03 ^ 0x55 } else { *b }).collect::<Vec<u8>>());
}

#[test]
fn set_then_remove_restores_byte() {
    let (mut dbg, mut t) = started();
    let original = t.mem[&0x401004];
    set(&mut dbg, &mut t, 0x401004);
    assert_eq!(remove(&mut dbg, &mut t, 0x401004), Some(original));
    assert_eq!(t.mem[&0x401004], original);
    assert!(dbg.list().is_empty());
}

#[test]
fn remove_absent_is_noop() {
    let (mut dbg, mut t) = started();
    let snapshot = t.mem.clone();
    assert_eq!(remove(&mut dbg, &mut t, 0x401004), None);
    assert_eq!(t.mem, snapshot);
}

#[test]
fn setting_twice_keeps_first_saved_byte() {
    let (mut dbg, mut t) = started();
    let original = t.mem[&0x401002];
    assert_eq!(set(&mut dbg, &mut t, 0x401002), Some(0xcc));
    assert_eq!(set(&mut dbg, &mut t, 0x401002), None);
    assert_eq!(dbg.list(), vec![0x401002]);
    let r = dbg.read_memory(0x401002, &t.peek(0x401002, 1)).unwrap();
    assert_eq!(r, vec![original]);
    assert_eq!(remove(&mut dbg, &mut t, 0x401002), Some(original));
}

#[test]
fn list_keeps_insertion_order() {
    let (mut dbg, mut t) = started();
    set(&mut dbg, &mut t, 0x401008);
    set(&mut dbg, &mut t, 0x401001);
    set(&mut dbg, &mut t, 0x401005);
    assert_eq!(dbg.list(), vec![0x401008, 0x401001, 0x401005]);
    remove(&mut dbg, &mut t, 0x401001);
    assert_eq!(dbg.list(), vec![0x401008, 0x401005]);
}

#[test]
fn write_over_breakpoint_takes_precedence() {
    let (mut dbg, mut t) = started();
    set(&mut dbg, &mut t, 0x401000);
    let value = 0x1122334455667788i64.to_le_bytes().to_vec();
    let physical = dbg.write_memory(0x401000, &value).unwrap();
    assert_eq!(physical[0], 0xcc);
    assert_eq!(&physical[1..], &value[1..]);
    t.poke(0x401000, &physical);
    let read = dbg.read_memory(0x401000, &t.peek(0x401000, 8)).unwrap();
    assert_eq!(read, value);
    assert_eq!(remove(&mut dbg, &mut t, 0x401000), Some(0x88));
    assert_eq!(t.peek(0x401000, 8), value);
}

#[test]
fn step_over_breakpoint_keeps_it() {
    let (mut dbg, mut t) = started();
    let original = t.mem[&0x401000];
    set(&mut dbg, &mut t, 0x401000);
    let plan = dbg.single_step_instruction_with_breakpoints(0x401000).unwrap();
    assert_eq!(plan, StepPlan { restore: Some(original), rearm: Some(0xcc) });
    assert_eq!(dbg.state(), SessionState::Running);
    t.poke_byte(0x401000, plan.restore);
    assert_eq!(t.mem[&0x401000], original);
    t.poke_byte(0x401000, plan.rearm);
    let out = dbg.on_stop(TraceEvent::Trapped { pc: 0x401001 }).unwrap();
    assert_eq!(out.reason, StopReason::Stepped { pc: 0x401001 });
    assert_eq!(out.new_pc, None);
    assert_eq!(dbg.state(), SessionState::Stopped);
    assert_eq!(dbg.list(), vec![0x401000]);
    assert_eq!(t.mem[&0x401000], 0xcc);
}

#[test]
fn step_without_breakpoint_writes_nothing() {
    let (mut dbg, _t) = started();
    let plan = dbg.single_step_instruction_with_breakpoints(0x401000).unwrap();
    assert_eq!(plan, StepPlan { restore: None, rearm: None });
}

#[test]
fn continue_stops_at_breakpoint() {
    let (mut dbg, mut t) = started();
    let original = t.mem[&0x401000];
    let req = rdbg::commands::parse_break(&["0x401000"]).unwrap();
    assert_eq!(req, rdbg::commands::Request::Break { address: 0x401000 });
    set(&mut dbg, &mut t, 0x401000);
    assert_eq!(dbg.continue_execution(0x400500), Ok(None));
    let out = dbg.on_stop(TraceEvent::Trapped { pc: 0x401001 }).unwrap();
    assert_eq!(out.reason, StopReason::Breakpoint { address: 0x401000 });
    assert_eq!(out.new_pc, Some(0x401000));
    assert_eq!(dbg.state(), SessionState::Stopped);
    let mut regs = RegisterFile { arch: Arch::X86_64, slots: vec![0; 27] };
    regs.slots[16] = 0x401001;
    dbg.set_register_value(&mut regs, Register::Rip, out.new_pc.unwrap()).unwrap();
    assert_eq!(dbg.get_register_value(&regs, Register::Rip), Ok(0x401000));
    let read = dbg.read_memory(0x401000, &t.peek(0x401000, 1)).unwrap();
    assert_eq!(read, vec![original]);
    assert_ne!(read[0], 0xcc);
}

#[test]
fn continue_from_breakpoint_steps_over_it() {
    let (mut dbg, mut t) = started();
    let original = t.mem[&0x401000];
    set(&mut dbg, &mut t, 0x401000);
    assert_eq!(dbg.continue_execution(0x401000), Ok(Some(original)));
}

#[test]
fn trap_elsewhere_is_not_a_breakpoint() {
    let (mut dbg, _t) = started();
    dbg.continue_execution(0x400000).unwrap();
    let out = dbg.on_stop(TraceEvent::Trapped { pc: 0x400010 }).unwrap();
    assert_eq!(out.reason, StopReason::Trapped { pc: 0x400010 });
    assert_eq!(out.new_pc, None);
}

#[test]
fn signal_stop_is_reported() {
    let (mut dbg, _t) = started();
    dbg.continue_execution(0x400000).unwrap();
    let out = dbg.on_stop(TraceEvent::Signaled { signal: 11, pc: 0x400020 }).unwrap();
    assert_eq!(out.reason, StopReason::Signaled { signal: 11, pc: 0x400020 });
    assert_eq!(dbg.state(), SessionState::Stopped);
}

#[test]
fn write_then_read_returns_value() {
    let (mut dbg, mut t) = started();
    let req = rdbg::commands::parse_memory(&["write", "0x601020", "42"]).unwrap();
    assert_eq!(req, rdbg::commands::Request::MemoryWrite { address: 0x601020, value: 42 });
    let physical = dbg.write_memory(0x601020, &42i64.to_le_bytes().to_vec()).unwrap();
    t.poke(0x601020, &physical);
    let req = rdbg::commands::parse_memory(&["read", "0x601020"]).unwrap();
    assert_eq!(req, rdbg::commands::Request::MemoryRead { address: 0x601020 });
    let read = dbg.read_memory(0x601020, &t.peek(0x601020, 8)).unwrap();
    let mut word = [0u8; 8];
    word.copy_from_slice(&read);
    assert_eq!(i64::from_le_bytes(word), 42);
}

#[test]
fn continue_after_exit_fails() {
    let (mut dbg, mut t) = started();
    set(&mut dbg, &mut t, 0x401000);
    dbg.continue_execution(0x400000).unwrap();
    let out = dbg.on_stop(TraceEvent::Exited { code: 3 }).unwrap();
    assert_eq!(out.reason, StopReason::Exited { code: 3 });
    assert_eq!(dbg.state(), SessionState::Exited(3));
    assert!(dbg.list().is_empty());
    assert_eq!(dbg.continue_execution(0x400000), Err(DebugError::TargetExited));
    assert_eq!(dbg.state(), SessionState::Exited(3));
    assert_eq!(dbg.single_step_instruction_with_breakpoints(0x400000), Err(DebugError::TargetExited));
    assert_eq!(dbg.set_breakpoint_at(0x401000, 0), Err(DebugError::TargetExited));
    assert_eq!(dbg.on_stop(TraceEvent::Exited { code: 0 }), Err(DebugError::TargetExited));
    assert_eq!(dbg.start(Arch::X86_64), Err(DebugError::TargetExited));
    assert_eq!(dbg.state(), SessionState::Exited(3));
}

#[test]
fn operations_before_launch_fail() {
    let mut dbg = Debugger::new();
    assert_eq!(dbg.state(), SessionState::NotStarted);
    assert_eq!(dbg.continue_execution(0), Err(DebugError::ProcessNotRunning));
    assert_eq!(dbg.read_memory(0, &vec![0]), Err(DebugError::ProcessNotRunning));
    assert_eq!(dbg.write_memory(0, &vec![0]), Err(DebugError::ProcessNotRunning));
    assert_eq!(dbg.on_stop(TraceEvent::Trapped { pc: 1 }), Err(DebugError::ProcessNotRunning));
    assert_eq!(dbg.state(), SessionState::NotStarted);
}

#[test]
fn stop_without_resume_fails() {
    let (mut dbg, _t) = started();
    assert_eq!(dbg.on_stop(TraceEvent::Trapped { pc: 1 }), Err(DebugError::ProcessNotRunning));
    assert_eq!(dbg.state(), SessionState::Stopped);
}

#[test]
fn running_tracee_rejects_memory_access() {
    let (mut dbg, _t) = started();
    dbg.continue_execution(0).unwrap();
    assert_eq!(dbg.read_memory(0, &vec![0]), Err(DebugError::ProcessNotRunning));
}

#[test]
fn second_start_fails() {
    let (mut dbg, _t) = started();
    assert_eq!(dbg.start(Arch::X86), Err(DebugError::AlreadyStarted));
    assert_eq!(dbg.arch(), Some(Arch::X86_64));
}

#[test]
fn window_past_end_of_address_space_is_invalid() {
    let (mut dbg, _t) = started();
    assert_eq!(dbg.read_memory(u64::MAX - 3, &vec![0; 8]), Err(DebugError::InvalidAddress));
    assert_eq!(dbg.write_memory(u64::MAX - 3, &vec![0; 8]), Err(DebugError::InvalidAddress));
    assert_eq!(dbg.read_memory(u64::MAX - 7, &vec![1; 8]), Ok(vec![1; 8]));
}

#[test]
fn registers_follow_profile() {
    let (dbg, _t) = started();
    let regs = RegisterFile { arch: Arch::X86_64, slots: (0..27).collect() };
    assert_eq!(dbg.get_register_value(&regs, Register::Rax), Ok(10));
    assert_eq!(dbg.get_register_value(&regs, Register::Rsp), Ok(19));
    assert_eq!(dbg.get_register_value(&regs, Register::R15), Ok(0));
}

#[test]
fn register_missing_from_profile_is_unsupported() {
    let mut dbg = Debugger::new();
    dbg.start(Arch::X86).unwrap();
    let mut regs = RegisterFile { arch: Arch::X86, slots: (0..17).collect() };
    assert_eq!(dbg.get_register_value(&regs, Register::Rip), Ok(12));
    assert_eq!(dbg.get_register_value(&regs, Register::R8), Err(DebugError::UnsupportedRegister));
    assert_eq!(dbg.set_register_value(&mut regs, Register::R9, 5), Err(DebugError::UnsupportedRegister));
    assert_eq!(regs.slots, (0..17).collect::<Vec<u64>>());
    dbg.set_register_value(&mut regs, Register::Rax, 99).unwrap();
    assert_eq!(regs.slots[6], 99);
}

#[test]
fn register_file_of_other_arch_fails_closed() {
    let (dbg, _t) = started();
    let regs = RegisterFile { arch: Arch::X86, slots: vec![0; 17] };
    assert_eq!(dbg.get_register_value(&regs, Register::Rax), Err(DebugError::UnsupportedRegister));
    let short = RegisterFile { arch: Arch::X86_64, slots: vec![0; 5] };
    assert_eq!(dbg.get_register_value(&short, Register::Rax), Err(DebugError::UnsupportedRegister));
}

#[test]
fn trap_at_address_zero_is_not_moved() {
    let (mut dbg, mut t) = started();
    t.mem.insert(0, 0x90);
    set(&mut dbg, &mut t, 0);
    dbg.continue_execution(0x400000).unwrap();
    let out = dbg.on_stop(TraceEvent::Trapped { pc: 0 }).unwrap();
    assert_eq!(out.reason, StopReason::Trapped { pc: 0 });
    assert_eq!(out.new_pc, None);
}

#[test]
fn write_spanning_two_breakpoints() {
    let (mut dbg, mut t) = started();
    set(&mut dbg, &mut t, 0x401001);
    set(&mut dbg, &mut t, 0x401006);
    let value = vec![1, 2, 3, 4, 5, 6, 7, 8];
    let physical = dbg.write_memory(0x401000, &value).unwrap();
    assert_eq!(physical, vec![1, 0xcc, 3, 4, 5, 6, 0xcc, 8]);
    t.poke(0x401000, &physical);
    assert_eq!(dbg.read_memory(0x401000, &t.peek(0x401000, 8)).unwrap(), value);
    assert_eq!(dbg.read_memory(0x401004, &t.peek(0x401004, 4)).unwrap(), vec![5, 6, 7, 8]);
    remove(&mut dbg, &mut t, 0x401006);
    remove(&mut dbg, &mut t, 0x401001);
    assert_eq!(t.peek(0x401000, 8), value);
}

#[test]
fn profile_from_elf_machine() {
    assert_eq!(Arch::from_elf_machine(0x3e), Some(Arch::X86_64));
    assert_eq!(Arch::from_elf_machine(0x03), Some(Arch::X86));
    assert_eq!(Arch::from_elf_machine(0xb7), None);
    assert_eq!(Arch::X86_64.slot(Register::Rip), Some(16));
    assert_eq!(Arch::X86.slot(Register::R12), None);
}
