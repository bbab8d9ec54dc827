use vstd::prelude::*;
use vstd::string::StringSliceAdditionalSpecFns;

verus! {

/// The value of the ASCII digit `c` in base `radix` (10 or 16), if it is one.
pub open spec fn digit_of(c: u8, radix: nat) -> Option<nat> {
    if 48 <= c <= 57 && (c - 48) < radix {
        Some((c - 48) as nat)
    } else if radix == 16 && 97 <= c <= 102 {
        Some((c - 87) as nat)
    } else if radix == 16 && 65 <= c <= 70 {
        Some((c - 55) as nat)
    } else {
        None
    }
}

/// Every byte of `s` is a digit in base `radix`.
pub open spec fn all_digits(s: Seq<u8>, radix: nat) -> bool {
    forall|i: int| 0 <= i < s.len() ==> (#[trigger] digit_of(s[i], radix)).is_some()
}

/// The number that the digits `s` spell in base `radix`.
pub open spec fn digits_value(s: Seq<u8>, radix: nat) -> nat
    decreases s.len(),
{
    if s.len() == 0 {
        0
    } else {
        digits_value(s.drop_last(), radix) * radix + match digit_of(s.last(), radix) {
            Some(d) => d,
            None => 0,
        }
    }
}

/// The number spelled by a non-empty run of digits, if it is at most `limit`.
pub open spec fn number_of(s: Seq<u8>, radix: nat, limit: nat) -> Option<nat> {
    if s.len() > 0 && all_digits(s, radix) && digits_value(s, radix) <= limit {
        Some(digits_value(s, radix))
    } else {
        None
    }
}

/// `s` without a leading `0x` or `0X`.
pub open spec fn hex_body(s: Seq<u8>) -> Seq<u8> {
    if s.len() >= 2 && s[0] == 48 && (s[1] == 120 || s[1] == 88) {
        s.skip(2)
    } else {
        s
    }
}

/// The address that `s` spells in base 16, the `0x` prefix optional.
pub open spec fn address_of(s: Seq<u8>) -> Option<u64> {
    match number_of(hex_body(s), 16, u64::MAX as nat) {
        Some(n) => Some(n as u64),
        None => None,
    }
}

/// The signed value that `s` spells in base 10, with an optional sign.
pub open spec fn value_of(s: Seq<u8>) -> Option<i64> {
    if s.len() > 0 && s[0] == 45 {
        match number_of(s.skip(1), 10, 0x8000_0000_0000_0000) {
            Some(n) => Some((0 - n) as i64),
            None => None,
        }
    } else if s.len() > 0 && s[0] == 43 {
        match number_of(s.skip(1), 10, i64::MAX as nat) {
            Some(n) => Some(n as i64),
            None => None,
        }
    } else {
        match number_of(s, 10, i64::MAX as nat) {
            Some(n) => Some(n as i64),
            None => None,
        }
    }
}

proof fn lemma_value_grows(s: Seq<u8>, radix: nat, i: int)
    requires
        0 <= i <= s.len(),
        radix >= 1,
    ensures
        digits_value(s.take(i), radix) <= digits_value(s, radix),
    decreases s.len() - i,
{
    if i < s.len() {
        lemma_value_grows(s, radix, i + 1);
        let t = s.take(i + 1);
        assert(t.drop_last() =~= s.take(i));
        let v = digits_value(s.take(i), radix);
        assert(v <= v * radix) by (nonlinear_arith)
            requires
                radix >= 1,
        ;
    } else {
        assert(s.take(i) =~= s);
    }
}

fn digit(c: u8, radix: u64) -> (r: Option<u64>)
    requires
        radix == 10 || radix == 16,
    ensures
        match digit_of(c, radix as nat) {
            Some(d) => r == Some(d as u64),
            None => r.is_none(),
        },
{
    if 48 <= c && c <= 57 && ((c - 48) as u64) < radix {
        Some((c - 48) as u64)
    } else if radix == 16 && 97 <= c && c <= 102 {
        Some((c - 87) as u64)
    } else if radix == 16 && 65 <= c && c <= 70 {
        Some((c - 55) as u64)
    } else {
        None
    }
}

/// The number spelled by the bytes of `s` from `start` on, in base `radix`, if
/// they are a non-empty run of digits whose value is at most `limit`.
pub fn parse_number(s: &[u8], start: usize, radix: u64, limit: u64) -> (r: Option<u64>)
    requires
        radix == 10 || radix == 16,
        start <= s@.len(),
    ensures
        match number_of(s@.skip(start as int), radix as nat, limit as nat) {
            Some(n) => r == Some(n as u64),
            None => r.is_none(),
        },
{
    let ghost t = s@.skip(start as int);
    if start == s.len() {
        return None;
    }
    let mut acc: u64 = 0;
    let mut i: usize = start;
    while i < s.len()
        invariant
            start <= i <= s@.len(),
            t == s@.skip(start as int),
            radix == 10 || radix == 16,
            all_digits(t.take(i - start), radix as nat),
            acc == digits_value(t.take(i - start), radix as nat),
            acc <= limit,
        decreases s@.len() - i,
    {
        let d = match digit(s[i], radix) {
            Some(d) => d,
            None => {
                assert(digit_of(t[i - start], radix as nat).is_none());
                return None;
            },
        };
        let ghost k = (i - start) as int;
        assert(t.take(k + 1).drop_last() =~= t.take(k));
        assert(t.take(k + 1).last() == s@[i as int]);
        if d > limit {
            proof {
                lemma_value_grows(t, radix as nat, k + 1);
            }
            return None;
        }
        if acc > (limit - d) / radix {
            proof {
                assert(acc * radix + d > limit) by (nonlinear_arith)
                    requires
                        acc > (limit - d) / (radix as int),
                        radix > 0,
                        d <= limit,
                ;
                lemma_value_grows(t, radix as nat, k + 1);
            }
            return None;
        }
        assert(acc * radix + d <= limit) by (nonlinear_arith)
            requires
                acc <= (limit - d) / (radix as int),
                radix > 0,
                d <= limit,
        ;
        acc = acc * radix + d;
        i = i + 1;
        assert(all_digits(t.take(i - start), radix as nat)) by {
            assert forall|j: int| 0 <= j < i - start implies (#[trigger] digit_of(
                t.take(i - start)[j],
                radix as nat,
            )).is_some() by {
                if j < k {
                    assert(t.take(i - start)[j] == t.take(k)[j]);
                }
            }
        }
    }
    assert(t.take(i - start) =~= t);
    Some(acc)
}

/// Reads an address written in base 16, with or without a `0x` prefix.
pub fn parse_address(s: &str) -> (r: Option<u64>)
    ensures
        r == address_of(s.spec_bytes()),
{
    let b = s.as_bytes();
    let start: usize = if b.len() >= 2 && b[0] == 48 && (b[1] == 120 || b[1] == 88) {
        2
    } else {
        0
    };
    assert(b@.skip(start as int) == hex_body(b@)) by {
        if start == 0 {
            assert(b@.skip(0) =~= b@);
        }
    }
    parse_number(b, start, 16, u64::MAX)
}

/// Reads a signed value written in base 10, with an optional sign.
pub fn parse_value(s: &str) -> (r: Option<i64>)
    ensures
        r == value_of(s.spec_bytes()),
{
    let b = s.as_bytes();
    if b.len() > 0 && b[0] == 45 {
        match parse_number(b, 1, 10, 0x8000_0000_0000_0000) {
            Some(n) => Some((0 - (n as i128)) as i64),
            None => None,
        }
    } else if b.len() > 0 && b[0] == 43 {
        match parse_number(b, 1, 10, i64::MAX as u64) {
            Some(n) => Some(n as i64),
            None => None,
        }
    } else {
        assert(b@.skip(0) =~= b@);
        match parse_number(b, 0, 10, i64::MAX as u64) {
            Some(n) => Some(n as i64),
            None => None,
        }
    }
}

} // verus!
