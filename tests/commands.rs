use rdbg::arch::{Arch, RegisterFile};
use rdbg::commands::{
    command_break, command_continue, command_memory, command_print, command_stepi, parse_break,
    parse_memory, Command, CommandKind, Observed, Plan, Request, Need,
};
use rdbg::debugger::{Debugger, SessionState, StepPlan, TraceEvent};
use rdbg::error::DebugError;
use rdbg::parse::{parse_address, parse_value};

#[test]
fn address_parses_with_or_without_prefix() {
    assert_eq!(parse_address("401000"), Some(0x401000));
    assert_eq!(parse_address("0x401000"), Some(0x401000));
    assert_eq!(parse_address("0XfF"), Some(0xff));
    assert_eq!(parse_address("ffffffffffffffff"), Some(u64::MAX));
}

#[test]
fn bad_addresses_are_rejected() {
    assert_eq!(parse_address(""), None);
    assert_eq!(parse_address("0x"), None);
    assert_eq!(parse_address("40g0"), None);
    assert_eq!(parse_address("10000000000000000"), None);
    assert_eq!(parse_address("-1"), None);
}

#[test]
fn values_parse_signed() {
    assert_eq!(parse_value("42"), Some(42));
    assert_eq!(parse_value("-42"), Some(-42));
    assert_eq!(parse_value("+7"), Some(7));
    assert_eq!(parse_value("9223372036854775807"), Some(i64::MAX));
    assert_eq!(parse_value("-9223372036854775808"), Some(i64::MIN));
    assert_eq!(parse_value("9223372036854775808"), None);
    assert_eq!(parse_value("-"), None);
    assert_eq!(parse_value("0x10"), None);
}

#[test]
fn break_needs_an_address() {
    assert_eq!(parse_break(&[]), Err(DebugError::MalformedArgument));
    assert_eq!(parse_break(&["zz"]), Err(DebugError::MalformedArgument));
    assert_eq!(parse_break(&["401000"]), Ok(Request::Break { address: 0x401000 }));
}

#[test]
fn memory_arguments_are_checked() {
    assert_eq!(parse_memory(&[]), Err(DebugError::MalformedArgument));
    assert_eq!(parse_memory(&["read"]), Err(DebugError::MalformedArgument));
    assert_eq!(parse_memory(&["write", "10"]), Err(DebugError::MalformedArgument));
    assert_eq!(parse_memory(&["write", "10", "x"]), Err(DebugError::MalformedArgument));
    assert_eq!(parse_memory(&["peek", "10"]), Err(DebugError::MalformedArgument));
    assert_eq!(
        parse_memory(&["write", "10", "-1"]),
        Ok(Request::MemoryWrite { address: 0x10, value: -1 })
    );
}

#[test]
fn commands_are_found_by_name() {
    let c = Command::find("break").unwrap();
    assert_eq!(c.kind, CommandKind::Break);
    assert_eq!(c.help, "Set breakpoint at specified location.");
    assert_eq!(Command::find("stepi").unwrap().kind, CommandKind::Stepi);
    assert!(Command::find("brea").is_none());
    assert!(Command::find("").is_none());
    assert_eq!(Command::builtins().len(), 5);
    assert_eq!(Command::builtins()[0].name, "continue");
}

#[test]
fn command_request_dispatches_on_kind() {
    let c = Command::find("memory").unwrap();
    assert_eq!(c.request(&["read", "601020"]), Ok(Request::MemoryRead { address: 0x601020 }));
    let c = Command::find("continue").unwrap();
    assert_eq!(c.request(&[]), Ok(Request::Continue));
}

#[test]
fn command_map_holds_every_builtin() {
    let m = Command::map();
    assert_eq!(m.lookup("break").unwrap().kind, CommandKind::Break);
    assert_eq!(m.lookup("memory").unwrap().help, "Read or write to process memory.");
    assert_eq!(m.lookup("continue").unwrap().name, "continue");
    assert_eq!(m.lookup("stepi").unwrap().kind, CommandKind::Stepi);
    assert_eq!(m.lookup("print").unwrap().kind, CommandKind::Print);
    assert!(m.lookup("quit").is_none());
    assert!(m.lookup("").is_none());
}

fn stopped() -> Debugger {
    let mut dbg = Debugger::new();
    dbg.start(Arch::X86_64).unwrap();
    dbg
}

fn regs_at(pc: u64) -> Observed {
    let mut slots = vec![0u64; 27];
    slots[16] = pc;
    Observed { regs: RegisterFile { arch: Arch::X86_64, slots }, bytes: Vec::new() }
}

fn bytes(b: Vec<u8>) -> Observed {
    Observed { regs: RegisterFile { arch: Arch::X86_64, slots: Vec::new() }, bytes: b }
}

fn store_bytes(p: Plan) -> (u64, Vec<u8>) {
    match p {
        Plan::Store { address, bytes } => (address, bytes),
        _ => panic!("expected a store"),
    }
}

#[test]
fn break_command_sets_breakpoint() {
    let mut dbg = stopped();
    let c = Command::find("break").unwrap();
    assert_eq!(c.prepare(&["0x401000"], &dbg), Ok(Need::Bytes { address: 0x401000, len: 1 }));
    let plan = command_break(&["0x401000"], &mut dbg, &bytes(vec![0x55])).unwrap();
    assert_eq!(store_bytes(plan), (0x401000, vec![0xcc]));
    assert_eq!(dbg.list(), vec![0x401000]);
    let again = command_break(&["401000"], &mut dbg, &bytes(vec![0xcc])).unwrap();
    assert_eq!(store_bytes(again), (0x401000, vec![]));
    assert_eq!(dbg.list(), vec![0x401000]);
    assert_eq!(dbg.remove_breakpoint_at(0x401000), Ok(Some(0x55)));
}

#[test]
fn break_command_refusals() {
    let mut dbg = stopped();
    assert_eq!(command_break(&[], &mut dbg, &bytes(vec![1])).err(), Some(DebugError::MalformedArgument));
    assert_eq!(command_break(&["10"], &mut dbg, &bytes(vec![])).err(), Some(DebugError::InvalidAddress));
    assert!(dbg.list().is_empty());
    let mut fresh = Debugger::new();
    assert_eq!(command_break(&["10"], &mut fresh, &bytes(vec![1])).err(), Some(DebugError::ProcessNotRunning));
}

#[test]
fn memory_write_then_read_command() {
    let mut dbg = stopped();
    let plan = command_memory(&["write", "0x601020", "42"], &mut dbg, &bytes(vec![0; 8])).unwrap();
    let (address, written) = store_bytes(plan);
    assert_eq!(address, 0x601020);
    assert_eq!(written, vec![42, 0, 0, 0, 0, 0, 0, 0]);
    match command_memory(&["read", "0x601020"], &mut dbg, &bytes(written)).unwrap() {
        Plan::ShowBytes { bytes } => {
            let mut w = [0u8; 8];
            w.copy_from_slice(&bytes);
            assert_eq!(i64::from_le_bytes(w), 42);
        }
        _ => panic!("expected bytes"),
    }
}

#[test]
fn memory_write_negative_value_bytes() {
    let mut dbg = stopped();
    let plan = command_memory(&["write", "10", "-2"], &mut dbg, &bytes(vec![0; 8])).unwrap();
    assert_eq!(store_bytes(plan).1, (-2i64).to_le_bytes().to_vec());
}

#[test]
fn memory_read_command_hides_traps() {
    let mut dbg = stopped();
    command_break(&["0x601021"], &mut dbg, &bytes(vec![0x77])).unwrap();
    match command_memory(&["read", "0x601020"], &mut dbg, &bytes(vec![1, 0xcc, 3])).unwrap() {
        Plan::ShowBytes { bytes } => assert_eq!(bytes, vec![1, 0x77, 3]),
        _ => panic!("expected bytes"),
    }
    assert_eq!(
        command_memory(&["read", "ffffffffffffffff"], &mut dbg, &bytes(vec![0; 8])).err(),
        Some(DebugError::InvalidAddress)
    );
}

#[test]
fn continue_command_plans_resume() {
    let mut dbg = stopped();
    command_break(&["0x401000"], &mut dbg, &bytes(vec![0x55])).unwrap();
    match command_continue(&[], &mut dbg, &regs_at(0x401000)).unwrap() {
        Plan::Resume { pc, step_over } => {
            assert_eq!(pc, 0x401000);
            assert_eq!(step_over, Some(0x55));
        }
        _ => panic!("expected a resume"),
    }
    assert_eq!(dbg.state(), SessionState::Running);
    let out = dbg.on_stop(TraceEvent::Exited { code: 0 }).unwrap();
    assert_eq!(out.new_pc, None);
    assert_eq!(command_continue(&[], &mut dbg, &regs_at(0)).err(), Some(DebugError::TargetExited));
    assert_eq!(command_stepi(&[], &mut dbg, &regs_at(0)).err(), Some(DebugError::TargetExited));
    assert_eq!(command_print(&[], &mut dbg, &regs_at(0)).err(), Some(DebugError::TargetExited));
    assert_eq!(dbg.state(), SessionState::Exited(0));
    let c = Command::find("continue").unwrap();
    assert_eq!(c.prepare(&[], &dbg), Err(DebugError::TargetExited));
}

#[test]
fn continue_without_tracee_fails() {
    let mut dbg = Debugger::new();
    assert_eq!(command_continue(&[], &mut dbg, &regs_at(0)).err(), Some(DebugError::ProcessNotRunning));
    assert_eq!(command_stepi(&[], &mut dbg, &regs_at(0)).err(), Some(DebugError::ProcessNotRunning));
    assert_eq!(dbg.state(), SessionState::NotStarted);
}

#[test]
fn stepi_command_plans_step_over() {
    let mut dbg = stopped();
    command_break(&["0x401000"], &mut dbg, &bytes(vec![0x55])).unwrap();
    match command_stepi(&[], &mut dbg, &regs_at(0x401000)).unwrap() {
        Plan::Step { pc, plan } => {
            assert_eq!(pc, 0x401000);
            assert_eq!(plan, StepPlan { restore: Some(0x55), rearm: Some(0xcc) });
        }
        _ => panic!("expected a step"),
    }
    assert_eq!(dbg.list(), vec![0x401000]);
}

#[test]
fn print_command_shows_pc() {
    let mut dbg = stopped();
    match command_print(&[], &mut dbg, &regs_at(0x401234)).unwrap() {
        Plan::Show { value } => assert_eq!(value, 0x401234),
        _ => panic!("expected a value"),
    }
    let bad = Observed { regs: RegisterFile { arch: Arch::X86, slots: vec![0; 17] }, bytes: vec![] };
    assert_eq!(command_print(&[], &mut dbg, &bad).err(), Some(DebugError::UnsupportedRegister));
}

#[test]
fn trace_error_returns_to_stopped() {
    let mut dbg = stopped();
    command_continue(&[], &mut dbg, &regs_at(0x400000)).unwrap();
    let e = DebugError::OsTraceError { syscall: rdbg::error::TraceCall::Cont, errno: 3 };
    assert_eq!(dbg.on_trace_error(e), e);
    assert_eq!(dbg.state(), SessionState::Stopped);
}

#[test]
fn execute_dispatches_on_kind() {
    let mut dbg = stopped();
    let c = Command::find("memory").unwrap();
    assert_eq!(c.prepare(&["read", "10"], &dbg), Ok(Need::Bytes { address: 0x10, len: 8 }));
    assert_eq!(c.prepare(&["nope"], &dbg), Err(DebugError::MalformedArgument));
    match c.execute(&["read", "10"], &mut dbg, &bytes(vec![9])).unwrap() {
        Plan::ShowBytes { bytes } => assert_eq!(bytes, vec![9]),
        _ => panic!("expected bytes"),
    }
    let p = Command::find("print").unwrap();
    assert_eq!(p.prepare(&[], &dbg), Ok(Need::Registers));
}
