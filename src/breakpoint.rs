use vstd::prelude::*;

verus! {

/// A patched address: the byte that the trap instruction replaced, which is what
/// the address logically holds while the breakpoint is in place.
#[derive(Clone, Copy, Debug, PartialEq, Eq, Structural)]
pub struct Breakpoint {
    pub address: u64,
    pub original_byte: u8,
    pub enabled: bool,
}

/// The breakpoints of one session, at most one per address, in the order in
/// which they were set.
pub struct BreakpointTable {
    entries: Vec<Breakpoint>,
    originals: Ghost<Map<u64, u8>>,
}

impl View for BreakpointTable {
    type V = Seq<Breakpoint>;

    closed spec fn view(&self) -> Seq<Breakpoint> {
        self.entries@
    }
}

/// The addresses of a sequence of breakpoints, in order.
pub open spec fn addresses_of(s: Seq<Breakpoint>) -> Seq<u64> {
    s.map_values(|b: Breakpoint| b.address)
}

impl BreakpointTable {
    /// The saved byte of every patched address.
    pub closed spec fn originals(&self) -> Map<u64, u8> {
        self.originals@
    }

    pub closed spec fn wf(&self) -> bool {
        &&& forall|i: int, j: int|
            0 <= i < j < self.entries@.len() ==> self.entries@[i].address
                != self.entries@[j].address
        &&& forall|i: int| 0 <= i < self.entries@.len() ==> #[trigger] self.entries@[i].enabled
        &&& forall|i: int|
            0 <= i < self.entries@.len() ==> self.originals@.contains_key(
                #[trigger] self.entries@[i].address,
            ) && self.originals@[self.entries@[i].address] == self.entries@[i].original_byte
        &&& forall|a: u64|
            #[trigger] self.originals@.contains_key(a) ==> exists|i: int|
                0 <= i < self.entries@.len() && self.entries@[i].address == a
    }

    pub fn new() -> (r: Self)
        ensures
            r.wf(),
            r@ == Seq::<Breakpoint>::empty(),
            r.originals() == Map::<u64, u8>::empty(),
    {
        BreakpointTable { entries: Vec::new(), originals: Ghost(Map::empty()) }
    }

    /// Where the breakpoint at `address` stands in the table, if there is one.
    fn position(&self, address: u64) -> (r: Option<usize>)
        requires
            self.wf(),
        ensures
            match r {
                Some(i) => i < self@.len() && self@[i as int].address == address,
                None => !self.originals().contains_key(address),
            },
    {
        let mut i: usize = 0;
        while i < self.entries.len()
            invariant
                self.wf(),
                i <= self.entries@.len(),
                forall|j: int| 0 <= j < i ==> self.entries@[j].address != address,
            decreases self.entries@.len() - i,
        {
            if self.entries[i].address == address {
                return Some(i);
            }
            i = i + 1;
        }
        None
    }

    /// The byte saved for `address`, if a breakpoint is set there.
    pub fn original_at(&self, address: u64) -> (r: Option<u8>)
        requires
            self.wf(),
        ensures
            r == (if self.originals().contains_key(address) {
                Some(self.originals()[address])
            } else {
                None::<u8>
            }),
    {
        match self.position(address) {
            Some(i) => Some(self.entries[i].original_byte),
            None => None,
        }
    }

    /// Records a breakpoint at `address` over `live_byte`, unless one is there already.
    /// Returns whether it was added.
    pub fn insert(&mut self, address: u64, live_byte: u8) -> (added: bool)
        requires
            old(self).wf(),
        ensures
            final(self).wf(),
            added == !old(self).originals().contains_key(address),
            final(self).originals() == (if added {
                old(self).originals().insert(address, live_byte)
            } else {
                old(self).originals()
            }),
            final(self)@ == (if added {
                old(self)@.push(Breakpoint { address, original_byte: live_byte, enabled: true })
            } else {
                old(self)@
            }),
    {
        if self.position(address).is_some() {
            return false;
        }
        let ghost before = self.entries@;
        self.entries.push(Breakpoint { address, original_byte: live_byte, enabled: true });
        self.originals = Ghost(self.originals@.insert(address, live_byte));
        assert forall|a: u64| #[trigger] self.originals@.contains_key(a) implies exists|i: int|
            0 <= i < self.entries@.len() && self.entries@[i].address == a by {
            if a == address {
                assert(self.entries@[before.len() as int].address == a);
            } else {
                assert(old(self).originals@.contains_key(a));
                let i = choose|i: int| 0 <= i < before.len() && before[i].address == a;
                assert(self.entries@[i].address == a);
            }
        }
        true
    }

    /// Drops the breakpoint at `address`, if any, and returns the byte it saved.
    pub fn remove(&mut self, address: u64) -> (r: Option<u8>)
        requires
            old(self).wf(),
        ensures
            final(self).wf(),
            r == (if old(self).originals().contains_key(address) {
                Some(old(self).originals()[address])
            } else {
                None::<u8>
            }),
            final(self).originals() == old(self).originals().remove(address),
            addresses_of(final(self)@) == addresses_of(old(self)@).filter(|a: u64| a != address),
    {
        match self.position(address) {
            None => {
                assert(self.originals@.remove(address) =~= self.originals@);
                assert(addresses_of(self@).filter(|a: u64| a != address) =~= addresses_of(self@))
                    by {
                    let s = addresses_of(self@);
                    assert forall|j: int| 0 <= j < s.len() implies s[j] != address by {
                        assert(self.originals@.contains_key(self.entries@[j].address));
                    }
                    lemma_filter_keeps_all(s, address);
                }
                None
            },
            Some(k) => {
                let ghost before = self.entries@;
                let b = self.entries.remove(k);
                self.originals = Ghost(self.originals@.remove(address));
                assert forall|a: u64| #[trigger] self.originals@.contains_key(a) implies exists|
                    i: int,
                | 0 <= i < self.entries@.len() && self.entries@[i].address == a by {
                    assert(old(self).originals@.contains_key(a));
                    let i = choose|i: int| 0 <= i < before.len() && before[i].address == a;
                    if i < k {
                        assert(self.entries@[i].address == a);
                    } else {
                        assert(i != k);
                        assert(self.entries@[i - 1].address == a);
                    }
                }
                proof {
                    lemma_filter_remove_unique(addresses_of(before), k as int, address);
                    assert(addresses_of(self@) =~= addresses_of(before).remove(k as int));
                }
                Some(b.original_byte)
            },
        }
    }

    /// Sets the saved byte of the breakpoint at `address`, if there is one.
    /// Returns whether there was.
    pub fn update_original(&mut self, address: u64, byte: u8) -> (found: bool)
        requires
            old(self).wf(),
        ensures
            final(self).wf(),
            found == old(self).originals().contains_key(address),
            final(self).originals() == (if found {
                old(self).originals().insert(address, byte)
            } else {
                old(self).originals()
            }),
            addresses_of(final(self)@) == addresses_of(old(self)@),
    {
        match self.position(address) {
            None => false,
            Some(k) => {
                let ghost before = self.entries@;
                self.entries.set(k, Breakpoint { address, original_byte: byte, enabled: true });
                self.originals = Ghost(self.originals@.insert(address, byte));
                assert forall|a: u64| #[trigger] self.originals@.contains_key(a) implies exists|
                    i: int,
                | 0 <= i < self.entries@.len() && self.entries@[i].address == a by {
                    let i = choose|i: int| 0 <= i < before.len() && before[i].address == a;
                    assert(self.entries@[i].address == a);
                }
                assert(addresses_of(self@) =~= addresses_of(before));
                true
            },
        }
    }

    /// The addresses of the breakpoints, in the order in which they were set.
    pub fn list(&self) -> (r: Vec<u64>)
        requires
            self.wf(),
        ensures
            r@ == addresses_of(self@),
    {
        let mut r: Vec<u64> = Vec::new();
        let mut i: usize = 0;
        while i < self.entries.len()
            invariant
                i <= self.entries@.len(),
                r@ == addresses_of(self@.take(i as int)),
            decreases self.entries@.len() - i,
        {
            r.push(self.entries[i].address);
            i = i + 1;
            assert(r@ =~= addresses_of(self@.take(i as int)));
        }
        assert(self@.take(i as int) =~= self@);
        r
    }
}

/// Removing the one occurrence of `x` in a sequence without duplicates is filtering it out.
proof fn lemma_filter_remove_unique(s: Seq<u64>, k: int, x: u64)
    requires
        0 <= k < s.len(),
        s[k] == x,
        s.no_duplicates(),
    ensures
        s.remove(k) == s.filter(|a: u64| a != x),
    decreases s.len(),
{
    let f = |a: u64| a != x;
    reveal(Seq::filter);
    if k == s.len() - 1 {
        assert(s.drop_last() =~= s.remove(k));
        assert forall|j: int| 0 <= j < s.drop_last().len() implies s.drop_last()[j] != x by {
            assert(s[j] != s[k]);
        }
        lemma_filter_keeps_all(s.drop_last(), x);
    } else {
        assert(s.drop_last().no_duplicates());
        lemma_filter_remove_unique(s.drop_last(), k, x);
        assert(s.remove(k) =~= s.drop_last().remove(k).push(s.last()));
    }
}

/// Filtering `x` out of a sequence that does not hold it changes nothing.
proof fn lemma_filter_keeps_all(s: Seq<u64>, x: u64)
    requires
        forall|j: int| 0 <= j < s.len() ==> s[j] != x,
    ensures
        s.filter(|a: u64| a != x) == s,
    decreases s.len(),
{
    reveal(Seq::filter);
    if s.len() > 0 {
        lemma_filter_keeps_all(s.drop_last(), x);
        assert(s.drop_last().push(s.last()) =~= s);
    }
}

} // verus!
