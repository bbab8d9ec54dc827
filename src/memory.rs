use vstd::prelude::*;
use crate::arch::TRAP_OPCODE;

verus! {

/// Whether `len` bytes starting at `address` stay inside the address space.
pub open spec fn fits(address: u64, len: nat) -> bool {
    address + len <= u64::MAX + 1
}

/// What the byte at `a` logically holds, given the live byte there and the
/// saved bytes of the breakpoints.
pub open spec fn logical_byte(originals: Map<u64, u8>, a: u64, live: u8) -> u8 {
    if originals.contains_key(a) {
        originals[a]
    } else {
        live
    }
}

/// The logical content of the bytes starting at `address` whose live content is `live`.
pub open spec fn logical_window(originals: Map<u64, u8>, address: u64, live: Seq<u8>) -> Seq<u8> {
    Seq::new(live.len(), |i: int| logical_byte(originals, (address + i) as u64, live[i]))
}

/// The bytes to store in the tracee when `value` is written at `address`: patched
/// addresses keep their trap.
pub open spec fn physical_window(originals: Map<u64, u8>, address: u64, value: Seq<u8>) -> Seq<u8> {
    Seq::new(
        value.len(),
        |i: int|
            if originals.contains_key((address + i) as u64) {
                TRAP_OPCODE
            } else {
                value[i]
            },
    )
}

/// The saved bytes after `value` is written at `address`: each patched address
/// in the range now saves the byte written to it.
pub open spec fn written_originals(originals: Map<u64, u8>, address: u64, value: Seq<u8>) -> Map<
    u64,
    u8,
> {
    Map::new(
        |a: u64| originals.contains_key(a),
        |a: u64|
            if address <= a < address + value.len() {
                value[a - address]
            } else {
                originals[a]
            },
    )
}

/// The tracee's memory as callers see it: live bytes, with each patched
/// address showing its saved byte.
pub open spec fn logical_memory(originals: Map<u64, u8>, mem: Map<u64, u8>) -> Map<u64, u8> {
    Map::new(|a: u64| mem.contains_key(a), |a: u64| logical_byte(originals, a, mem[a]))
}

/// Every patched address is mapped and holds the trap instruction.
pub open spec fn traps_in_place(originals: Map<u64, u8>, mem: Map<u64, u8>) -> bool {
    forall|a: u64|
        #[trigger] originals.contains_key(a) ==> mem.contains_key(a) && mem[a] == TRAP_OPCODE
}

/// The `n` bytes of `mem` starting at `address`.
pub open spec fn window_of(mem: Map<u64, u8>, address: u64, n: nat) -> Seq<u8> {
    Seq::new(n, |i: int| mem[(address + i) as u64])
}

/// `mem` after `bytes` are stored at `address`.
pub open spec fn store(mem: Map<u64, u8>, address: u64, bytes: Seq<u8>) -> Map<u64, u8> {
    Map::new(
        |a: u64| mem.contains_key(a),
        |a: u64|
            if address <= a < address + bytes.len() {
                bytes[a - address]
            } else {
                mem[a]
            },
    )
}

/// `mem` after the byte `b` is stored at `address`, if there is one to store.
pub open spec fn store_byte(mem: Map<u64, u8>, address: u64, b: Option<u8>) -> Map<u64, u8> {
    match b {
        Some(v) => if mem.contains_key(address) {
            mem.insert(address, v)
        } else {
            mem
        },
        None => mem,
    }
}

} // verus!
