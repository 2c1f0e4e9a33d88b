//! Unsigned integers written in decimal or hexadecimal text.

use vstd::prelude::*;

verus! {

/// The value of the digit `c` in base `radix` (10 or 16; letters in either case).
pub open spec fn digit_value(c: char, radix: nat) -> Option<nat> {
    if '0' <= c && c <= '9' {
        Some((c as nat - '0' as nat) as nat)
    } else if radix == 16 && 'a' <= c && c <= 'f' {
        Some((c as nat - 'a' as nat + 10) as nat)
    } else if radix == 16 && 'A' <= c && c <= 'F' {
        Some((c as nat - 'A' as nat + 10) as nat)
    } else {
        None
    }
}

/// Every character of `ds` is a digit in base `radix`.
pub open spec fn all_digits(ds: Seq<char>, radix: nat) -> bool {
    forall|i: int| 0 <= i < ds.len() ==> (#[trigger] digit_value(ds[i], radix)) is Some
}

/// The number that the digits `ds` write in base `radix`, most significant first.
pub open spec fn digits_value(ds: Seq<char>, radix: nat) -> nat
    decreases ds.len(),
{
    if ds.len() == 0 {
        0
    } else {
        digits_value(ds.drop_last(), radix) * radix + digit_value(ds.last(), radix).unwrap_or(0)
    }
}

/// An unsigned 64-bit number written in base `radix`: an optional leading `+`,
/// then at least one digit, with a value below 2^64.
pub open spec fn parse_unsigned(s: Seq<char>, radix: nat) -> Option<u64> {
    let ds = unsigned_digits(s);
    if ds.len() > 0 && all_digits(ds, radix) && digits_value(ds, radix) <= u64::MAX {
        Some(digits_value(ds, radix) as u64)
    } else {
        None
    }
}

/// The digits of an unsigned number's text: all of it but a leading `+`.
pub open spec fn unsigned_digits(s: Seq<char>) -> Seq<char> {
    if s.len() > 0 && s[0] == '+' {
        s.drop_first()
    } else {
        s
    }
}

/// `s` with every leading `0x` taken off, one pair after another.
pub open spec fn strip_hex_prefix(s: Seq<char>) -> Seq<char>
    decreases s.len(),
{
    if s.len() >= 2 && s[0] == '0' && s[1] == 'x' {
        strip_hex_prefix(s.subrange(2, s.len() as int))
    } else {
        s
    }
}

/// A height written as hexadecimal text, with or without `0x` in front.
pub open spec fn hex_height(s: Seq<char>) -> Option<u64> {
    parse_unsigned(strip_hex_prefix(s), 16)
}

/// A height written as decimal text.
pub open spec fn decimal_height(s: Seq<char>) -> Option<u64> {
    parse_unsigned(s, 10)
}

proof fn lemma_value_grows(ds: Seq<char>, k: int, radix: nat)
    requires
        0 <= k <= ds.len(),
        radix >= 1,
    ensures
        digits_value(ds.take(k), radix) <= digits_value(ds, radix),
    decreases ds.len(),
{
    if k < ds.len() {
        assert(ds.drop_last().take(k) =~= ds.take(k));
        lemma_value_grows(ds.drop_last(), k, radix);
        let v = digits_value(ds.drop_last(), radix);
        assert(v <= v * radix) by (nonlinear_arith)
            requires radix >= 1;
    } else {
        assert(ds.take(k) =~= ds);
    }
}

/// The value of the character `c` as a digit in base `radix`.
fn digit_of(c: char, radix: u64) -> (r: Option<u64>)
    requires
        radix == 10 || radix == 16,
    ensures
        r is Some <==> digit_value(c, radix as nat) is Some,
        r is Some ==> r->0 == digit_value(c, radix as nat)->0,
        r is Some ==> r->0 < radix,
{
    if '0' <= c && c <= '9' {
        Some(c as u64 - '0' as u64)
    } else if radix == 16 && 'a' <= c && c <= 'f' {
        Some(c as u64 - 'a' as u64 + 10)
    } else if radix == 16 && 'A' <= c && c <= 'F' {
        Some(c as u64 - 'A' as u64 + 10)
    } else {
        None
    }
}

/// Reads `s` as an unsigned number in base `radix`, as `u64::from_str_radix` does.
pub fn parse_radix(s: &Vec<char>, radix: u64) -> (r: Option<u64>)
    requires
        radix == 10 || radix == 16,
    ensures
        r == parse_unsigned(s@, radix as nat),
{
    let start: usize = if s.len() > 0 && s[0] == '+' { 1 } else { 0 };
    let ghost ds = unsigned_digits(s@);
    assert(ds =~= s@.subrange(start as int, s@.len() as int));
    if start >= s.len() {
        return None;
    }
    let mut acc: u64 = 0;
    let mut k: usize = start;
    while k < s.len()
        invariant
            start <= k <= s.len(),
            ds == unsigned_digits(s@),
            ds =~= s@.subrange(start as int, s@.len() as int),
            radix == 10 || radix == 16,
            all_digits(ds.take(k - start), radix as nat),
            acc == digits_value(ds.take(k - start), radix as nat),
        decreases s.len() - k,
    {
        let ghost j: int = k - start;
        assert(ds[j] == s@[k as int]);
        match digit_of(s[k], radix) {
            None => {
                assert(!all_digits(ds, radix as nat)) by {
                    assert(digit_value(ds[j], radix as nat) is None);
                }
                assert(parse_unsigned(s@, radix as nat) is None);
                return None;
            },
            Some(d) => {
                let ghost next = ds.take(j + 1);
                assert(next.drop_last() =~= ds.take(j));
                assert(next.last() == ds[j]);
                assert(all_digits(next, radix as nat)) by {
                    assert forall|i: int| 0 <= i < next.len() implies
                        (#[trigger] digit_value(next[i], radix as nat)) is Some by {
                        if i < j {
                            assert(next[i] == ds.take(j)[i]);
                        }
                    }
                }
                assert(acc as u128 * radix as u128 + d as u128 <= 0x10_0000_0000_0000_0000u128 * 17)
                    by (nonlinear_arith)
                    requires
                        acc <= u64::MAX,
                        radix <= 16,
                        d < 16,
                ;
                let wide: u128 = acc as u128 * radix as u128 + d as u128;
                assert(wide == digits_value(next, radix as nat));
                if wide > u64::MAX as u128 {
                    proof {
                        lemma_value_grows(ds, j + 1, radix as nat);
                        assert(digits_value(ds, radix as nat) > u64::MAX);
                        assert(parse_unsigned(s@, radix as nat) is None);
                    }
                    return None;
                }
                acc = wide as u64;
            },
        }
        k = k + 1;
    }
    assert(ds.take(k - start) =~= ds);
    Some(acc)
}

/// Takes every leading `0x` off `s`.
fn strip_prefix_chars(s: &Vec<char>) -> (r: Vec<char>)
    ensures
        r@ == strip_hex_prefix(s@),
{
    let mut at: usize = 0;
    assert(s@.subrange(0, s@.len() as int) =~= s@);
    while s.len() - at >= 2 && s[at] == '0' && s[at + 1] == 'x'
        invariant
            at <= s.len(),
            strip_hex_prefix(s@) == strip_hex_prefix(s@.subrange(at as int, s@.len() as int)),
        decreases s.len() - at,
    {
        let ghost rest = s@.subrange(at as int, s@.len() as int);
        assert(rest.subrange(2, rest.len() as int) =~= s@.subrange(at + 2, s@.len() as int));
        at = at + 2;
    }
    let mut r: Vec<char> = Vec::new();
    let mut k: usize = at;
    while k < s.len()
        invariant
            at <= k <= s.len(),
            r@ =~= s@.subrange(at as int, k as int),
        decreases s.len() - k,
    {
        r.push(s[k]);
        k = k + 1;
    }
    r
}

/// Reads hexadecimal text, after taking off every leading `0x`.
pub fn parse_hex_height(s: &Vec<char>) -> (r: Option<u64>)
    ensures
        r == hex_height(s@),
{
    let digits = strip_prefix_chars(s);
    parse_radix(&digits, 16)
}

/// Reads decimal text.
pub fn parse_decimal_height(s: &Vec<char>) -> (r: Option<u64>)
    ensures
        r == decimal_height(s@),
{
    parse_radix(s, 10)
}

} // verus!
