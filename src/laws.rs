use vstd::prelude::*;
use crate::arch::TRAP_OPCODE;
use crate::debugger::{
    set_write, set_originals, remove_write, step_plan, stop_outcome, stop_state, ResumeMode,
    SessionState, StepPlan, StopOutcome, StopReason, TraceEvent,
};
use crate::memory::{
    fits, logical_window, logical_memory, physical_window, written_originals, traps_in_place,
    window_of, store, store_byte,
};

verus! {

/// Every address of the `n` bytes from `start` is mapped in `mem`.
pub open spec fn mapped(mem: Map<u64, u8>, start: u64, n: nat) -> bool {
    forall|i: int| 0 <= i < n ==> #[trigger] mem.contains_key((start + i) as u64)
}

/// Reading a window of live memory and reconciling it with the breakpoints gives
/// that window of the logical memory.
pub proof fn lemma_read_is_logical(originals: Map<u64, u8>, mem: Map<u64, u8>, start: u64, n: nat)
    requires
        fits(start, n),
        mapped(mem, start, n),
    ensures
        logical_window(originals, start, window_of(mem, start, n)) == window_of(
            logical_memory(originals, mem),
            start,
            n,
        ),
{
    let l = logical_memory(originals, mem);
    assert forall|i: int| 0 <= i < n implies l.contains_key(#[trigger] (start + i) as u64) by {}
    assert(logical_window(originals, start, window_of(mem, start, n)) =~= window_of(l, start, n));
}

/// Setting a breakpoint where none is leaves every read unchanged: the logical
/// memory is the same, and each trap stays in place.
pub proof fn lemma_breakpoint_invisible(
    originals: Map<u64, u8>,
    mem: Map<u64, u8>,
    address: u64,
    start: u64,
    n: nat,
)
    requires
        traps_in_place(originals, mem),
        !originals.contains_key(address),
        mem.contains_key(address),
        fits(start, n),
        mapped(mem, start, n),
    ensures
        ({
            let orig2 = set_originals(originals, address, mem[address]);
            let mem2 = store_byte(mem, address, set_write(originals, address));
            &&& logical_memory(orig2, mem2) == logical_memory(originals, mem)
            &&& traps_in_place(orig2, mem2)
            &&& logical_window(orig2, start, window_of(mem2, start, n)) == logical_window(
                originals,
                start,
                window_of(mem, start, n),
            )
        }),
{
    let orig2 = set_originals(originals, address, mem[address]);
    let mem2 = store_byte(mem, address, set_write(originals, address));
    assert(logical_memory(orig2, mem2) =~= logical_memory(originals, mem));
    assert forall|i: int| 0 <= i < n implies #[trigger] mem2.contains_key((start + i) as u64) by {
        assert(mem.contains_key((start + i) as u64));
    }
    lemma_read_is_logical(originals, mem, start, n);
    lemma_read_is_logical(orig2, mem2, start, n);
}

/// Setting a breakpoint where none is and then removing it gives back the
/// memory and the table as they were.
pub proof fn lemma_set_remove_round_trip(originals: Map<u64, u8>, mem: Map<u64, u8>, address: u64)
    requires
        !originals.contains_key(address),
        mem.contains_key(address),
    ensures
        ({
            let orig2 = set_originals(originals, address, mem[address]);
            let mem2 = store_byte(mem, address, set_write(originals, address));
            let mem3 = store_byte(mem2, address, remove_write(orig2, address));
            &&& mem3 == mem
            &&& orig2.remove(address) == originals
        }),
{
    let orig2 = set_originals(originals, address, mem[address]);
    let mem2 = store_byte(mem, address, set_write(originals, address));
    assert(store_byte(mem2, address, remove_write(orig2, address)) =~= mem);
    assert(orig2.remove(address) =~= originals);
}

/// Setting a breakpoint at an address twice does what setting it once does:
/// the second time writes nothing and keeps the first saved byte, whatever
/// live byte it is given.
pub proof fn lemma_set_idempotent(
    originals: Map<u64, u8>,
    mem: Map<u64, u8>,
    address: u64,
    first: u8,
    second: u8,
)
    ensures
        ({
            let orig2 = set_originals(originals, address, first);
            let mem2 = store_byte(mem, address, set_write(originals, address));
            &&& set_write(orig2, address) == None::<u8>
            &&& set_originals(orig2, address, second) == orig2
            &&& store_byte(mem2, address, set_write(orig2, address)) == mem2
        }),
{
}

/// Stepping from an address that holds a breakpoint puts the saved byte back
/// for the step and the trap again after it, so memory ends as it began; the
/// trap that ends the step is reported as the step, never as a breakpoint hit,
/// and does not move the instruction pointer.
pub proof fn lemma_step_over_breakpoint(
    originals: Map<u64, u8>,
    mem: Map<u64, u8>,
    pc: u64,
    next_pc: u64,
)
    requires
        traps_in_place(originals, mem),
        originals.contains_key(pc),
    ensures
        step_plan(originals, pc) == (StepPlan { restore: Some(originals[pc]), rearm: Some(TRAP_OPCODE) }),
        store_byte(mem, pc, step_plan(originals, pc).restore)[pc] == originals[pc],
        store_byte(
            store_byte(mem, pc, step_plan(originals, pc).restore),
            pc,
            step_plan(originals, pc).rearm,
        ) == mem,
        stop_outcome(ResumeMode::Step, originals, TraceEvent::Trapped { pc: next_pc }) == (StopOutcome {
            reason: StopReason::Stepped { pc: next_pc },
            new_pc: None,
        }),
{
    let m1 = store_byte(mem, pc, step_plan(originals, pc).restore);
    assert(store_byte(m1, pc, step_plan(originals, pc).rearm) =~= mem);
}

/// Writing `value` at `address` and reading the same range back gives `value`,
/// breakpoints in the range or not; the traps stay in place.
pub proof fn lemma_write_then_read(
    originals: Map<u64, u8>,
    mem: Map<u64, u8>,
    address: u64,
    value: Seq<u8>,
)
    requires
        traps_in_place(originals, mem),
        fits(address, value.len()),
        mapped(mem, address, value.len()),
    ensures
        ({
            let orig2 = written_originals(originals, address, value);
            let mem2 = store(mem, address, physical_window(originals, address, value));
            &&& logical_window(orig2, address, window_of(mem2, address, value.len())) == value
            &&& traps_in_place(orig2, mem2)
        }),
{
    let orig2 = written_originals(originals, address, value);
    let mem2 = store(mem, address, physical_window(originals, address, value));
    assert(logical_window(orig2, address, window_of(mem2, address, value.len())) =~= value);
}

/// Setting a breakpoint where none is, writing `value` over it, then removing it
/// leaves the written value in memory, not the byte from before the breakpoint.
pub proof fn lemma_write_precedence(
    originals: Map<u64, u8>,
    mem: Map<u64, u8>,
    address: u64,
    value: Seq<u8>,
)
    requires
        traps_in_place(originals, mem),
        !originals.contains_key(address),
        value.len() >= 1,
        fits(address, value.len()),
        mapped(mem, address, value.len()),
    ensures
        ({
            let orig2 = set_originals(originals, address, mem[address]);
            let mem2 = store_byte(mem, address, set_write(originals, address));
            let orig3 = written_originals(orig2, address, value);
            let mem3 = store(mem2, address, physical_window(orig2, address, value));
            let orig4 = orig3.remove(address);
            let mem4 = store_byte(mem3, address, remove_write(orig3, address));
            &&& mem4[address] == value[0]
            &&& logical_window(orig4, address, window_of(mem4, address, value.len())) == value
            &&& traps_in_place(orig4, mem4)
        }),
{
    assert(mem.contains_key((address + 0) as u64));
    let orig2 = set_originals(originals, address, mem[address]);
    let mem2 = store_byte(mem, address, set_write(originals, address));
    let orig3 = written_originals(orig2, address, value);
    let mem3 = store(mem2, address, physical_window(orig2, address, value));
    let orig4 = orig3.remove(address);
    let mem4 = store_byte(mem3, address, remove_write(orig3, address));
    assert(orig3.contains_key(address));
    assert(orig3[address] == value[0]);
    assert(mem4[address] == value[0]);
    assert(logical_window(orig4, address, window_of(mem4, address, value.len())) =~= value);
}

/// A resumed tracee comes back to rest: after any stop the session is stopped
/// or over, never still running; and after a continue, a trap just past a
/// breakpoint is reported at the breakpoint, with the instruction pointer moved
/// back onto it.
pub proof fn lemma_resume_comes_to_rest(
    mode: ResumeMode,
    originals: Map<u64, u8>,
    event: TraceEvent,
    address: u64,
)
    ensures
        stop_state(event) == SessionState::Stopped || stop_state(event) is Exited,
        originals.contains_key(address) && address < u64::MAX ==> stop_outcome(
            ResumeMode::Continue,
            originals,
            TraceEvent::Trapped { pc: (address + 1) as u64 },
        ) == (StopOutcome {
            reason: StopReason::Breakpoint { address },
            new_pc: Some(address),
        }),
{
}

} // verus!
