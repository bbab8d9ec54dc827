use vstd::prelude::*;
use vstd::string::StringSliceAdditionalSpecFns;
use fnv::FnvHashMap;
use vstd::arithmetic::power::pow;
use crate::arch::{Register, RegisterFile};
use crate::breakpoint::{Breakpoint, addresses_of};
use crate::debugger::{
    Debugger, ResumeMode, SessionState, StepPlan, not_stopped_error, register_slot, remove_write,
    set_originals, set_write, step_plan,
};
use crate::error::DebugError;
use crate::memory::{fits, logical_window, physical_window, written_originals};
use crate::parse::{address_of, value_of, parse_address, parse_value};

verus! {

/// The built-in commands.
#[derive(Clone, Copy, Debug, PartialEq, Eq, Structural)]
pub enum CommandKind {
    Continue,
    Break,
    Print,
    Memory,
    Stepi,
}

/// The name by which a command is entered.
pub open spec fn name_of(kind: CommandKind) -> &'static str {
    match kind {
        CommandKind::Continue => "continue",
        CommandKind::Break => "break",
        CommandKind::Print => "print",
        CommandKind::Memory => "memory",
        CommandKind::Stepi => "stepi",
    }
}

/// The help message of a command.
pub open spec fn help_of(kind: CommandKind) -> &'static str {
    match kind {
        CommandKind::Continue => "Continue program being debugged, after signal or breakpoint.",
        CommandKind::Break => "Set breakpoint at specified location.",
        CommandKind::Print => "Print value of expression EXP.",
        CommandKind::Memory => "Read or write to process memory.",
        CommandKind::Stepi => "Step one instruction exactly.",
    }
}

/// The engine operation that a command line asks for, with its arguments read.
#[derive(Clone, Copy, Debug, PartialEq, Eq, Structural)]
pub enum Request {
    Continue,
    Break { address: u64 },
    Print,
    MemoryRead { address: u64 },
    MemoryWrite { address: u64, value: i64 },
    Stepi,
}

/// A built-in command: its name, its help message and which operation it runs.
#[derive(Clone, Copy, Debug)]
pub struct Command {
    pub name: &'static str,
    pub help: &'static str,
    pub kind: CommandKind,
}

impl CommandKind {
    pub fn name(self) -> (r: &'static str)
        ensures
            r == name_of(self),
    {
        match self {
            CommandKind::Continue => "continue",
            CommandKind::Break => "break",
            CommandKind::Print => "print",
            CommandKind::Memory => "memory",
            CommandKind::Stepi => "stepi",
        }
    }

    pub fn help(self) -> (r: &'static str)
        ensures
            r == help_of(self),
    {
        match self {
            CommandKind::Continue => "Continue program being debugged, after signal or breakpoint.",
            CommandKind::Break => "Set breakpoint at specified location.",
            CommandKind::Print => "Print value of expression EXP.",
            CommandKind::Memory => "Read or write to process memory.",
            CommandKind::Stepi => "Step one instruction exactly.",
        }
    }
}

/// The kinds of the built-in commands, in the order in which they are listed.
pub open spec fn builtin_kinds() -> Seq<CommandKind> {
    seq![
        CommandKind::Continue,
        CommandKind::Break,
        CommandKind::Print,
        CommandKind::Memory,
        CommandKind::Stepi,
    ]
}

/// Where `kind` stands among the built-in commands.
pub open spec fn kind_index(kind: CommandKind) -> int {
    match kind {
        CommandKind::Continue => 0,
        CommandKind::Break => 1,
        CommandKind::Print => 2,
        CommandKind::Memory => 3,
        CommandKind::Stepi => 4,
    }
}

/// No two commands share a name.
pub proof fn lemma_names_distinct()
    ensures
        forall|k1: CommandKind, k2: CommandKind|
            #[trigger] name_of(k1).spec_bytes() == #[trigger] name_of(k2).spec_bytes() ==> k1 == k2,
{
    reveal_strlit("continue");
    reveal_strlit("break");
    reveal_strlit("print");
    reveal_strlit("memory");
    reveal_strlit("stepi");
    assert(vstd::string::is_ascii("continue"));
    assert(vstd::string::is_ascii("break"));
    assert(vstd::string::is_ascii("print"));
    assert(vstd::string::is_ascii("memory"));
    assert(vstd::string::is_ascii("stepi"));
    vstd::string::is_ascii_spec_bytes("continue");
    vstd::string::is_ascii_spec_bytes("break");
    vstd::string::is_ascii_spec_bytes("print");
    vstd::string::is_ascii_spec_bytes("memory");
    vstd::string::is_ascii_spec_bytes("stepi");
    assert forall|k1: CommandKind, k2: CommandKind|
        #[trigger] name_of(k1).spec_bytes() == #[trigger] name_of(k2).spec_bytes() implies k1
        == k2 by {
        if k1 != k2 {
            let b1 = name_of(k1).spec_bytes();
            let b2 = name_of(k2).spec_bytes();
            assert(b1.len() != b2.len() || b1[0] != b2[0]);
        }
    }
}

/// The built-in commands keyed by name, held in an fnv hash map.
#[verifier::external_body]
pub struct CommandTable {
    map: FnvHashMap<&'static str, Command>,
}

/// What a command table holds: the bytes of each name, to its command.
pub uninterp spec fn table_contents(t: CommandTable) -> Map<Seq<u8>, Command>;

impl CommandTable {
    /// Relies on `FnvHashMap::default`: a new map is empty.
    #[verifier::external_body]
    fn new() -> (r: CommandTable)
        ensures
            table_contents(r).dom() == Set::<Seq<u8>>::empty(),
    {
        CommandTable { map: FnvHashMap::default() }
    }

    /// Relies on `HashMap::insert`: afterwards `name` maps to `c`, and every other
    /// key as before. Two `str` keys are equal exactly when their bytes are.
    #[verifier::external_body]
    fn insert(&mut self, name: &'static str, c: Command)
        ensures
            table_contents(*final(self)) == table_contents(*old(self)).insert(name.spec_bytes(), c),
    {
        self.map.insert(name, c);
    }

    /// Relies on `HashMap::get`: the value of the key equal to `name`, if any.
    #[verifier::external_body]
    fn get(&self, name: &str) -> (r: Option<Command>)
        ensures
            r == (if table_contents(*self).contains_key(name.spec_bytes()) {
                Some(table_contents(*self)[name.spec_bytes()])
            } else {
                None::<Command>
            }),
    {
        self.map.get(name).copied()
    }

    /// The command entered under `name`, if any.
    pub fn lookup(&self, name: &str) -> (r: Option<Command>)
        ensures
            r == (if table_contents(*self).contains_key(name.spec_bytes()) {
                Some(table_contents(*self)[name.spec_bytes()])
            } else {
                None::<Command>
            }),
    {
        self.get(name)
    }
}

/// Whether the bytes of `a` and `b` are the same.
fn same_bytes(a: &[u8], b: &[u8]) -> (r: bool)
    ensures
        r == (a@ == b@),
{
    if a.len() != b.len() {
        return false;
    }
    let mut i: usize = 0;
    while i < a.len()
        invariant
            a@.len() == b@.len(),
            i <= a@.len(),
            forall|j: int| 0 <= j < i ==> a@[j] == b@[j],
        decreases a@.len() - i,
    {
        if a[i] != b[i] {
            return false;
        }
        i = i + 1;
    }
    assert(a@ =~= b@);
    true
}

/// The request of `break <address>`.
pub open spec fn break_request(args: Seq<&str>) -> Result<Request, DebugError> {
    if args.len() < 1 {
        Err(DebugError::MalformedArgument)
    } else {
        match address_of(args[0].spec_bytes()) {
            Some(address) => Ok(Request::Break { address }),
            None => Err(DebugError::MalformedArgument),
        }
    }
}

/// The request of `memory read <address>` or `memory write <address> <value>`.
pub open spec fn memory_request(args: Seq<&str>) -> Result<Request, DebugError> {
    if args.len() >= 2 && args[0].spec_bytes() == "read".spec_bytes() {
        match address_of(args[1].spec_bytes()) {
            Some(address) => Ok(Request::MemoryRead { address }),
            None => Err(DebugError::MalformedArgument),
        }
    } else if args.len() >= 3 && args[0].spec_bytes() == "write".spec_bytes() {
        match (address_of(args[1].spec_bytes()), value_of(args[2].spec_bytes())) {
            (Some(address), Some(value)) => Ok(Request::MemoryWrite { address, value }),
            _ => Err(DebugError::MalformedArgument),
        }
    } else {
        Err(DebugError::MalformedArgument)
    }
}

/// Reads the arguments of `break <address>`, the address in base 16.
pub fn parse_break(args: &[&str]) -> (r: Result<Request, DebugError>)
    ensures
        r == break_request(args@),
{
    if args.len() < 1 {
        return Err(DebugError::MalformedArgument);
    }
    match parse_address(args[0]) {
        Some(address) => Ok(Request::Break { address }),
        None => Err(DebugError::MalformedArgument),
    }
}

/// Reads the arguments of `memory read <address>` and `memory write <address>
/// <value>`, the address in base 16 and the value a signed integer in base 10.
pub fn parse_memory(args: &[&str]) -> (r: Result<Request, DebugError>)
    ensures
        r == memory_request(args@),
{
    if args.len() >= 2 && same_bytes(args[0].as_bytes(), "read".as_bytes()) {
        match parse_address(args[1]) {
            Some(address) => Ok(Request::MemoryRead { address }),
            None => Err(DebugError::MalformedArgument),
        }
    } else if args.len() >= 3 && same_bytes(args[0].as_bytes(), "write".as_bytes()) {
        match (parse_address(args[1]), parse_value(args[2])) {
            (Some(address), Some(value)) => Ok(Request::MemoryWrite { address, value }),
            _ => Err(DebugError::MalformedArgument),
        }
    } else {
        Err(DebugError::MalformedArgument)
    }
}

/// The number of bytes that `memory read` shows and `memory write` stores.
pub const WORD_LEN: usize = 8;

/// What the caller reads from the tracee before a command runs.
#[derive(Clone, Copy, Debug, PartialEq, Eq, Structural)]
pub enum Need {
    /// The register file.
    Registers,
    /// The live bytes at `address`.
    Bytes { address: u64, len: usize },
}

/// What the caller read from the tracee: the register file, and the live bytes
/// that were asked for.
pub struct Observed {
    pub regs: RegisterFile,
    pub bytes: Vec<u8>,
}

/// The work that a command leaves to the caller, which drives the tracee.
pub enum Plan {
    /// Show `value`; the tracee is left as it is.
    Show { value: u64 },
    /// Show `bytes`; the tracee is left as it is.
    ShowBytes { bytes: Vec<u8> },
    /// Store `bytes` in the tracee at `address`.
    Store { address: u64, bytes: Vec<u8> },
    /// Let the tracee run from `pc`. Where `step_over` holds a byte, a breakpoint
    /// stands at `pc`: put the byte back, step once, and write the trap again first.
    Resume { pc: u64, step_over: Option<u8> },
    /// Execute one instruction from `pc`, with the writes of `plan` around it.
    Step { pc: u64, plan: StepPlan },
}

/// What a request needs read from the tracee.
pub open spec fn need_of(req: Request) -> Need {
    match req {
        Request::Break { address } => Need::Bytes { address, len: 1 },
        Request::MemoryRead { address } => Need::Bytes { address, len: WORD_LEN },
        Request::MemoryWrite { address, .. } => Need::Bytes { address, len: WORD_LEN },
        _ => Need::Registers,
    }
}

/// The bytes to store for an optional single-byte write.
pub open spec fn bytes_of(b: Option<u8>) -> Seq<u8> {
    match b {
        Some(v) => seq![v],
        None => Seq::empty(),
    }
}

/// The bytes of `v` in memory, least significant first.
pub open spec fn word_bytes(v: i64) -> Seq<u8> {
    Seq::new(WORD_LEN as nat, |i: int| ((v as u64) as int / pow(256, i as nat) % 256) as u8)
}

/// Relies on `i64::to_le_bytes`: the bytes of `v`, least significant first.
#[verifier::external_body]
fn le_bytes(v: i64) -> (r: Vec<u8>)
    ensures
        r@ == word_bytes(v),
{
    v.to_le_bytes().to_vec()
}

/// The instruction pointer in `regs`, read through the session's profile.
pub open spec fn pc_of(d: Debugger, regs: RegisterFile) -> Option<u64> {
    match register_slot(d.spec_arch(), regs.arch, regs.slots@.len(), Register::Rip) {
        Some(n) => Some(regs.slots@[n as int]),
        None => None,
    }
}

/// The session `d1` is `d0` with only its state and resume mode set.
pub open spec fn resumed(d0: Debugger, d1: Debugger, mode: ResumeMode) -> bool {
    &&& d1.spec_state() == SessionState::Running
    &&& d1.spec_mode() == mode
    &&& d1.spec_arch() == d0.spec_arch()
    &&& d1.originals() == d0.originals()
    &&& d1.breakpoints() == d0.breakpoints()
}

/// `continue` on session `d0` gave `r` and left `d1`.
pub open spec fn continue_done(d0: Debugger, d1: Debugger, obs: Observed, r: Result<Plan, DebugError>) -> bool {
    match not_stopped_error(d0.spec_state()) {
        Some(e) => r == Err::<Plan, DebugError>(e) && d1 == d0,
        None => match pc_of(d0, obs.regs) {
            None => r == Err::<Plan, DebugError>(DebugError::UnsupportedRegister) && d1 == d0,
            Some(pc) => r == Ok::<Plan, DebugError>(
                Plan::Resume { pc, step_over: remove_write(d0.originals(), pc) },
            ) && resumed(d0, d1, ResumeMode::Continue),
        },
    }
}

/// `stepi` on session `d0` gave `r` and left `d1`.
pub open spec fn stepi_done(d0: Debugger, d1: Debugger, obs: Observed, r: Result<Plan, DebugError>) -> bool {
    match not_stopped_error(d0.spec_state()) {
        Some(e) => r == Err::<Plan, DebugError>(e) && d1 == d0,
        None => match pc_of(d0, obs.regs) {
            None => r == Err::<Plan, DebugError>(DebugError::UnsupportedRegister) && d1 == d0,
            Some(pc) => r == Ok::<Plan, DebugError>(
                Plan::Step { pc, plan: step_plan(d0.originals(), pc) },
            ) && resumed(d0, d1, ResumeMode::Step),
        },
    }
}

/// `print` on session `d0` gave `r` and left `d1`.
pub open spec fn print_done(d0: Debugger, d1: Debugger, obs: Observed, r: Result<Plan, DebugError>) -> bool {
    &&& d1 == d0
    &&& match not_stopped_error(d0.spec_state()) {
        Some(e) => r == Err::<Plan, DebugError>(e),
        None => match pc_of(d0, obs.regs) {
            None => r == Err::<Plan, DebugError>(DebugError::UnsupportedRegister),
            Some(pc) => r == Ok::<Plan, DebugError>(Plan::Show { value: pc }),
        },
    }
}

/// `break` with `args` on session `d0` gave `r` and left `d1`.
pub open spec fn break_done(d0: Debugger, d1: Debugger, args: Seq<&str>, obs: Observed, r: Result<Plan, DebugError>) -> bool {
    match break_request(args) {
        Err(e) => r == Err::<Plan, DebugError>(e) && d1 == d0,
        Ok(Request::Break { address }) => match not_stopped_error(d0.spec_state()) {
            Some(e) => r == Err::<Plan, DebugError>(e) && d1 == d0,
            None => if obs.bytes@.len() < 1 {
                r == Err::<Plan, DebugError>(DebugError::InvalidAddress) && d1 == d0
            } else {
                &&& match r {
                    Ok(Plan::Store { address: a, bytes }) => a == address && bytes@ == bytes_of(
                        set_write(d0.originals(), address),
                    ),
                    _ => false,
                }
                &&& d1.originals() == set_originals(d0.originals(), address, obs.bytes@[0])
                &&& d1.breakpoints() == (if d0.originals().contains_key(address) {
                    d0.breakpoints()
                } else {
                    d0.breakpoints().push(
                        Breakpoint { address, original_byte: obs.bytes@[0], enabled: true },
                    )
                })
                &&& d1.spec_state() == d0.spec_state()
                &&& d1.spec_mode() == d0.spec_mode()
                &&& d1.spec_arch() == d0.spec_arch()
            },
        },
        Ok(_) => false,
    }
}

/// `memory` with `args` on session `d0` gave `r` and left `d1`.
pub open spec fn memory_done(d0: Debugger, d1: Debugger, args: Seq<&str>, obs: Observed, r: Result<Plan, DebugError>) -> bool {
    match memory_request(args) {
        Err(e) => r == Err::<Plan, DebugError>(e) && d1 == d0,
        Ok(req) => match not_stopped_error(d0.spec_state()) {
            Some(e) => r == Err::<Plan, DebugError>(e) && d1 == d0,
            None => match req {
                Request::MemoryRead { address } => d1 == d0 && if fits(address, obs.bytes@.len()) {
                    match r {
                        Ok(Plan::ShowBytes { bytes }) => bytes@ == logical_window(
                            d0.originals(),
                            address,
                            obs.bytes@,
                        ),
                        _ => false,
                    }
                } else {
                    r == Err::<Plan, DebugError>(DebugError::InvalidAddress)
                },
                Request::MemoryWrite { address, value } => if fits(address, WORD_LEN as nat) {
                    &&& match r {
                        Ok(Plan::Store { address: a, bytes }) => a == address && bytes@
                            == physical_window(d0.originals(), address, word_bytes(value)),
                        _ => false,
                    }
                    &&& d1.originals() == written_originals(d0.originals(), address, word_bytes(value))
                    &&& addresses_of(d1.breakpoints()) == addresses_of(d0.breakpoints())
                    &&& d1.spec_state() == d0.spec_state()
                    &&& d1.spec_mode() == d0.spec_mode()
                    &&& d1.spec_arch() == d0.spec_arch()
                } else {
                    r == Err::<Plan, DebugError>(DebugError::InvalidAddress) && d1 == d0
                },
                _ => false,
            },
        },
    }
}

/// `continue`: let the tracee run until it stops, from the instruction pointer
/// in the observed register file.
pub fn command_continue(args: &[&str], dbg: &mut Debugger, obs: &Observed) -> (r: Result<Plan, DebugError>)
    requires
        old(dbg).wf(),
    ensures
        final(dbg).wf(),
        continue_done(*old(dbg), *final(dbg), *obs, r),
{
    if let Err(e) = dbg.ensure_stopped() {
        return Err(e);
    }
    let pc = match dbg.get_register_value(&obs.regs, Register::Rip) {
        Ok(pc) => pc,
        Err(e) => {
            return Err(e);
        },
    };
    match dbg.continue_execution(pc) {
        Ok(step_over) => Ok(Plan::Resume { pc, step_over }),
        Err(e) => Err(e),
    }
}

/// `stepi`: execute exactly one instruction, stepping over a breakpoint at the
/// instruction pointer without hitting it.
pub fn command_stepi(args: &[&str], dbg: &mut Debugger, obs: &Observed) -> (r: Result<Plan, DebugError>)
    requires
        old(dbg).wf(),
    ensures
        final(dbg).wf(),
        stepi_done(*old(dbg), *final(dbg), *obs, r),
{
    if let Err(e) = dbg.ensure_stopped() {
        return Err(e);
    }
    let pc = match dbg.get_register_value(&obs.regs, Register::Rip) {
        Ok(pc) => pc,
        Err(e) => {
            return Err(e);
        },
    };
    match dbg.single_step_instruction_with_breakpoints(pc) {
        Ok(plan) => Ok(Plan::Step { pc, plan }),
        Err(e) => Err(e),
    }
}

/// `print`: show the instruction pointer.
pub fn command_print(args: &[&str], dbg: &mut Debugger, obs: &Observed) -> (r: Result<Plan, DebugError>)
    requires
        old(dbg).wf(),
    ensures
        final(dbg).wf(),
        print_done(*old(dbg), *final(dbg), *obs, r),
{
    match dbg.get_register_value(&obs.regs, Register::Rip) {
        Ok(pc) => Ok(Plan::Show { value: pc }),
        Err(e) => Err(e),
    }
}

/// `break <address>`: set a breakpoint over the observed live byte there.
pub fn command_break(args: &[&str], dbg: &mut Debugger, obs: &Observed) -> (r: Result<Plan, DebugError>)
    requires
        old(dbg).wf(),
    ensures
        final(dbg).wf(),
        break_done(*old(dbg), *final(dbg), args@, *obs, r),
{
    let address = match parse_break(args) {
        Ok(Request::Break { address }) => address,
        Ok(_) => {
            return Err(DebugError::MalformedArgument);
        },
        Err(e) => {
            return Err(e);
        },
    };
    if let Err(e) = dbg.ensure_stopped() {
        return Err(e);
    }
    if obs.bytes.len() < 1 {
        return Err(DebugError::InvalidAddress);
    }
    match dbg.set_breakpoint_at(address, obs.bytes[0]) {
        Ok(Some(b)) => {
            let mut bytes: Vec<u8> = Vec::new();
            bytes.push(b);
            assert(bytes@ =~= bytes_of(Some(b)));
            Ok(Plan::Store { address, bytes })
        },
        Ok(None) => {
            let bytes: Vec<u8> = Vec::new();
            assert(bytes@ =~= bytes_of(None));
            Ok(Plan::Store { address, bytes })
        },
        Err(e) => Err(e),
    }
}

/// `memory read <address>` shows the word there as the program sees it;
/// `memory write <address> <value>` stores `value` there.
pub fn command_memory(args: &[&str], dbg: &mut Debugger, obs: &Observed) -> (r: Result<Plan, DebugError>)
    requires
        old(dbg).wf(),
    ensures
        final(dbg).wf(),
        memory_done(*old(dbg), *final(dbg), args@, *obs, r),
{
    let req = match parse_memory(args) {
        Ok(req) => req,
        Err(e) => {
            return Err(e);
        },
    };
    if let Err(e) = dbg.ensure_stopped() {
        return Err(e);
    }
    match req {
        Request::MemoryRead { address } => match dbg.read_memory(address, &obs.bytes) {
            Ok(bytes) => Ok(Plan::ShowBytes { bytes }),
            Err(e) => Err(e),
        },
        Request::MemoryWrite { address, value } => {
            let word = le_bytes(value);
            match dbg.write_memory(address, &word) {
                Ok(bytes) => Ok(Plan::Store { address, bytes }),
                Err(e) => Err(e),
            }
        },
        _ => Err(DebugError::MalformedArgument),
    }
}

/// Running the command `kind` with `args` on session `d0` gave `r` and left `d1`.
pub open spec fn executed(kind: CommandKind, d0: Debugger, d1: Debugger, args: Seq<&str>, obs: Observed, r: Result<Plan, DebugError>) -> bool {
    match kind {
        CommandKind::Continue => continue_done(d0, d1, obs, r),
        CommandKind::Break => break_done(d0, d1, args, obs, r),
        CommandKind::Print => print_done(d0, d1, obs, r),
        CommandKind::Memory => memory_done(d0, d1, args, obs, r),
        CommandKind::Stepi => stepi_done(d0, d1, obs, r),
    }
}

/// The request of the command `kind` with arguments `args`.
pub open spec fn request_of(kind: CommandKind, args: Seq<&str>) -> Result<Request, DebugError> {
    match kind {
        CommandKind::Continue => Ok(Request::Continue),
        CommandKind::Break => break_request(args),
        CommandKind::Print => Ok(Request::Print),
        CommandKind::Memory => memory_request(args),
        CommandKind::Stepi => Ok(Request::Stepi),
    }
}

impl Command {
    /// The built-in commands, each with its name and help message.
    pub fn builtins() -> (r: Vec<Command>)
        ensures
            r@.len() == builtin_kinds().len(),
            forall|i: int|
                0 <= i < r@.len() ==> (#[trigger] r@[i]).kind == builtin_kinds()[i] && r@[i].name
                    == name_of(r@[i].kind) && r@[i].help == help_of(r@[i].kind),
    {
        let kinds = [
            CommandKind::Continue,
            CommandKind::Break,
            CommandKind::Print,
            CommandKind::Memory,
            CommandKind::Stepi,
        ];
        let mut r: Vec<Command> = Vec::new();
        let mut i: usize = 0;
        while i < 5
            invariant
                i <= 5,
                kinds@ == builtin_kinds(),
                r@.len() == i,
                forall|j: int|
                    0 <= j < i ==> (#[trigger] r@[j]).kind == builtin_kinds()[j] && r@[j].name
                        == name_of(r@[j].kind) && r@[j].help == help_of(r@[j].kind),
            decreases 5 - i,
        {
            let k = kinds[i];
            r.push(Command { name: k.name(), help: k.help(), kind: k });
            i = i + 1;
        }
        r
    }

    /// The built-in commands keyed by name.
    pub fn map() -> (r: CommandTable)
        ensures
            forall|b: Seq<u8>|
                #[trigger] table_contents(r).contains_key(b) <==> exists|k: CommandKind|
                    name_of(k).spec_bytes() == b,
            forall|k: CommandKind|
                #[trigger] table_contents(r)[name_of(k).spec_bytes()] == (Command {
                    name: name_of(k),
                    help: help_of(k),
                    kind: k,
                }),
    {
        let mut commands = CommandTable::new();
        let all = Command::builtins();
        proof {
            lemma_names_distinct();
        }
        let mut i: usize = 0;
        while i < all.len()
            invariant
                all@.len() == builtin_kinds().len(),
                forall|j: int|
                    0 <= j < all@.len() ==> (#[trigger] all@[j]).kind == builtin_kinds()[j]
                        && all@[j].name == name_of(all@[j].kind) && all@[j].help == help_of(
                        all@[j].kind,
                    ),
                i <= all@.len(),
                forall|k1: CommandKind, k2: CommandKind|
                    #[trigger] name_of(k1).spec_bytes() == #[trigger] name_of(k2).spec_bytes()
                        ==> k1 == k2,
                forall|b: Seq<u8>|
                    #[trigger] table_contents(commands).contains_key(b) <==> exists|j: int|
                        0 <= j < i && name_of(builtin_kinds()[j]).spec_bytes() == b,
                forall|j: int|
                    0 <= j < i ==> #[trigger] table_contents(commands)[name_of(
                        builtin_kinds()[j],
                    ).spec_bytes()] == (Command {
                        name: name_of(builtin_kinds()[j]),
                        help: help_of(builtin_kinds()[j]),
                        kind: builtin_kinds()[j],
                    }),
            decreases all@.len() - i,
        {
            let c = all[i];
            commands.insert(c.name, c);
            proof {
                assert forall|b: Seq<u8>|
                    #[trigger] table_contents(commands).contains_key(b) <==> exists|j: int|
                        0 <= j < i + 1 && name_of(builtin_kinds()[j]).spec_bytes() == b by {
                    if b == c.name.spec_bytes() {
                        assert(name_of(builtin_kinds()[i as int]).spec_bytes() == b);
                    }
                }
                assert forall|j: int| 0 <= j < i + 1 implies #[trigger] table_contents(
                    commands,
                )[name_of(builtin_kinds()[j]).spec_bytes()] == (Command {
                    name: name_of(builtin_kinds()[j]),
                    help: help_of(builtin_kinds()[j]),
                    kind: builtin_kinds()[j],
                }) by {
                    if j < i {
                        assert(builtin_kinds()[j] != builtin_kinds()[i as int]);
                    }
                }
            }
            i = i + 1;
        }
        proof {
            assert forall|k: CommandKind| #[trigger] table_contents(commands)[name_of(
                k,
            ).spec_bytes()] == (Command { name: name_of(k), help: help_of(k), kind: k }) by {
                assert(builtin_kinds()[kind_index(k)] == k);
            }
            assert forall|b: Seq<u8>|
                #[trigger] table_contents(commands).contains_key(b) <==> exists|k: CommandKind|
                    name_of(k).spec_bytes() == b by {
                if exists|k: CommandKind| name_of(k).spec_bytes() == b {
                    let k = choose|k: CommandKind| name_of(k).spec_bytes() == b;
                    assert(builtin_kinds()[kind_index(k)] == k);
                }
            }
        }
        commands
    }

    /// The built-in command named `name`, if there is one.
    pub fn find(name: &str) -> (r: Option<Command>)
        ensures
            match r {
                Some(c) => builtin_kinds().contains(c.kind) && name.spec_bytes() == name_of(
                    c.kind,
                ).spec_bytes() && c.name == name_of(c.kind) && c.help == help_of(c.kind),
                None => forall|k: CommandKind|
                    name.spec_bytes() != (#[trigger] name_of(k)).spec_bytes(),
            },
    {
        let all = Command::builtins();
        let mut i: usize = 0;
        while i < all.len()
            invariant
                all@.len() == builtin_kinds().len(),
                forall|j: int|
                    0 <= j < all@.len() ==> (#[trigger] all@[j]).kind == builtin_kinds()[j]
                        && all@[j].name == name_of(all@[j].kind) && all@[j].help == help_of(
                        all@[j].kind,
                    ),
                i <= all@.len(),
                forall|j: int|
                    0 <= j < i ==> name.spec_bytes() != name_of(builtin_kinds()[j]).spec_bytes(),
            decreases all@.len() - i,
        {
            let c = all[i];
            if same_bytes(name.as_bytes(), c.name.as_bytes()) {
                assert(builtin_kinds()[i as int] == c.kind);
                return Some(c);
            }
            i = i + 1;
        }
        assert forall|k: CommandKind| name.spec_bytes() != (#[trigger] name_of(k)).spec_bytes() by {
            match k {
                CommandKind::Continue => assert(builtin_kinds()[0] == k),
                CommandKind::Break => assert(builtin_kinds()[1] == k),
                CommandKind::Print => assert(builtin_kinds()[2] == k),
                CommandKind::Memory => assert(builtin_kinds()[3] == k),
                CommandKind::Stepi => assert(builtin_kinds()[4] == k),
            }
        }
        None
    }
    /// Reads the arguments of this command into the request it makes.
    pub fn request(&self, args: &[&str]) -> (r: Result<Request, DebugError>)
        ensures
            r == request_of(self.kind, args@),
    {
        match self.kind {
            CommandKind::Continue => Ok(Request::Continue),
            CommandKind::Break => parse_break(args),
            CommandKind::Print => Ok(Request::Print),
            CommandKind::Memory => parse_memory(args),
            CommandKind::Stepi => Ok(Request::Stepi),
        }
    }

    /// What must be read from the tracee before this command runs. Unreadable
    /// arguments are refused first, then a session with no stopped tracee.
    pub fn prepare(&self, args: &[&str], dbg: &Debugger) -> (r: Result<Need, DebugError>)
        ensures
            r == match request_of(self.kind, args@) {
                Err(e) => Err::<Need, DebugError>(e),
                Ok(req) => match not_stopped_error(dbg.spec_state()) {
                    Some(e) => Err::<Need, DebugError>(e),
                    None => Ok(need_of(req)),
                },
            },
    {
        let req = match self.request(args) {
            Ok(req) => req,
            Err(e) => {
                return Err(e);
            },
        };
        if let Err(e) = dbg.ensure_stopped() {
            return Err(e);
        }
        match req {
            Request::Break { address } => Ok(Need::Bytes { address, len: 1 }),
            Request::MemoryRead { address } => Ok(Need::Bytes { address, len: WORD_LEN }),
            Request::MemoryWrite { address, .. } => Ok(Need::Bytes { address, len: WORD_LEN }),
            _ => Ok(Need::Registers),
        }
    }

    /// Runs this command with `args` on the session, given what was read from
    /// the tracee, and returns what is left to do in the tracee.
    pub fn execute(&self, args: &[&str], dbg: &mut Debugger, obs: &Observed) -> (r: Result<Plan, DebugError>)
        requires
            old(dbg).wf(),
        ensures
            final(dbg).wf(),
            executed(self.kind, *old(dbg), *final(dbg), args@, *obs, r),
    {
        match self.kind {
            CommandKind::Continue => command_continue(args, dbg, obs),
            CommandKind::Break => command_break(args, dbg, obs),
            CommandKind::Print => command_print(args, dbg, obs),
            CommandKind::Memory => command_memory(args, dbg, obs),
            CommandKind::Stepi => command_stepi(args, dbg, obs),
        }
    }
}

} // verus!
