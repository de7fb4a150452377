use vstd::prelude::*;
use vstd::arithmetic::div_mod::lemma_mod_breakdown;
use vstd::arithmetic::power::{pow, lemma_pow_positive};

use crate::text::chars_of;

verus! {

/// The value of `c` as a digit in any base up to sixteen (either letter
/// case); a character that is no such digit gets sixteen.
pub open spec fn digit_value(c: char) -> nat {
    let u = c as u32;
    if 48 <= u && u <= 57 {
        (u - 48) as nat
    } else if 97 <= u && u <= 102 {
        (u - 87) as nat
    } else if 65 <= u && u <= 70 {
        (u - 55) as nat
    } else {
        16
    }
}

/// Every character of `s` is a digit in base `radix`.
pub open spec fn all_digits(s: Seq<char>, radix: nat) -> bool {
    forall|i: int| 0 <= i < s.len() ==> #[trigger] digit_value(s[i]) < radix
}

/// The number that the digits of `s` spell in base `radix`, most
/// significant first.
pub open spec fn digits_value(s: Seq<char>, radix: nat) -> nat
    decreases s.len(),
{
    if s.len() == 0 {
        0
    } else {
        digits_value(s.drop_last(), radix) * radix + digit_value(s.last())
    }
}

/// `s` read as an unsigned number in base `radix`: it must be a non-empty
/// run of digits whose value is at most `max`.
pub open spec fn parsed_unsigned(s: Seq<char>, radix: nat, max: nat) -> Option<nat> {
    if s.len() > 0 && all_digits(s, radix) && digits_value(s, radix) <= max {
        Some(digits_value(s, radix))
    } else {
        None
    }
}

/// `s` read as a 32-bit number in hexadecimal digits of either case.
pub open spec fn parsed_hex_u32(s: Seq<char>) -> Option<u32> {
    match parsed_unsigned(s, 16, u32::MAX as nat) {
        Some(v) => Some(v as u32),
        None => None,
    }
}

/// `s` read as a decimal number at most `max`: one optional `+`, then a
/// non-empty run of decimal digits.
pub open spec fn parsed_decimal(s: Seq<char>, max: nat) -> Option<nat> {
    if s.len() > 0 && s[0] == '+' {
        parsed_unsigned(s.drop_first(), 10, max)
    } else {
        parsed_unsigned(s, 10, max)
    }
}

/// `s` read as a 64-bit number in decimal digits, with an optional `+`.
pub open spec fn parsed_decimal_u64(s: Seq<char>) -> Option<u64> {
    match parsed_decimal(s, u64::MAX as nat) {
        Some(v) => Some(v as u64),
        None => None,
    }
}

/// `s` read as a 32-bit number in decimal digits, with an optional `+`.
pub open spec fn parsed_decimal_u32(s: Seq<char>) -> Option<u32> {
    match parsed_decimal(s, u32::MAX as nat) {
        Some(v) => Some(v as u32),
        None => None,
    }
}

/// The lower-case hexadecimal digit for `d < 16`.
pub open spec fn hex_char(d: nat) -> char {
    if d < 10 {
        ((48 + d) as u8) as char
    } else {
        ((87 + d) as u8) as char
    }
}

/// The last `width` hexadecimal digits of `v`, lower case, with leading
/// zeros.
pub open spec fn hex_of(v: nat, width: nat) -> Seq<char>
    decreases width,
{
    if width == 0 {
        Seq::empty()
    } else {
        hex_of(v / 16, (width - 1) as nat).push(hex_char(v % 16))
    }
}

/// The eight hexadecimal digits that encode a 32-bit tag.
pub open spec fn hex_of_u32(v: u32) -> Seq<char> {
    hex_of(v as nat, 8)
}

proof fn lemma_hex_char_value(d: nat)
    requires
        d < 16,
    ensures
        digit_value(hex_char(d)) == d,
{
}

proof fn lemma_hex_of(v: nat, width: nat)
    ensures
        hex_of(v, width).len() == width,
        all_digits(hex_of(v, width), 16),
        digits_value(hex_of(v, width), 16) == v % (pow(16, width) as nat),
    decreases width,
{
    reveal(pow);
    lemma_pow_positive(16, width);
    if width > 0 {
        let s = hex_of(v, width);
        lemma_hex_of(v / 16, (width - 1) as nat);
        lemma_hex_char_value(v % 16);
        assert(s.drop_last() =~= hex_of(v / 16, (width - 1) as nat));
        lemma_pow_positive(16, (width - 1) as nat);
        lemma_mod_breakdown(v as int, 16, pow(16, (width - 1) as nat));
        let p = pow(16, (width - 1) as nat);
        assert(pow(16, width) == 16 * p);
        assert(digits_value(s, 16) == digits_value(s.drop_last(), 16) * 16 + digit_value(s.last()));
        assert(digits_value(s, 16) == ((v / 16) % (p as nat)) * 16 + v % 16);
        assert((v as int) % (16 * p) == 16 * ((v as int / 16) % p) + (v as int) % 16);
        assert forall|i: int| 0 <= i < s.len() implies #[trigger] digit_value(s[i]) < 16 by {
            if i < s.len() - 1 {
                assert(s[i] == s.drop_last()[i]);
            }
        }
    }
}

/// A run of `n` digits in base `radix` spells a value below `radix` to
/// the `n`.
proof fn lemma_digits_value_bound(s: Seq<char>, radix: nat)
    requires
        all_digits(s, radix),
        radix > 0,
    ensures
        digits_value(s, radix) < pow(radix as int, s.len()),
    decreases s.len(),
{
    reveal(pow);
    if s.len() > 0 {
        let t = s.drop_last();
        assert(all_digits(t, radix)) by {
            assert forall|i: int| 0 <= i < t.len() implies #[trigger] digit_value(t[i]) < radix by {
                assert(t[i] == s[i]);
            }
        }
        lemma_digits_value_bound(t, radix);
        assert(digit_value(s[s.len() - 1]) < radix);
        let a = digits_value(t, radix) as int;
        let p = pow(radix as int, t.len());
        let d = digit_value(s.last()) as int;
        assert(pow(radix as int, s.len()) == radix * p);
        assert(a * radix + d < p * radix) by (nonlinear_arith)
            requires
                a < p,
                d < radix,
                radix > 0,
        ;
    }
}

/// Every string of eight hexadecimal digits, of either case, decodes to
/// a 32-bit tag, and decoding the lower-case digits of a tag gives back
/// that same tag.
pub proof fn lemma_hex_round_trip(v: u32, s: Seq<char>)
    requires
        s.len() == 8,
        all_digits(s, 16),
    ensures
        parsed_hex_u32(hex_of_u32(v)) == Some(v),
        parsed_hex_u32(s) is Some,
{
    lemma_hex_of(v as nat, 8);
    reveal_with_fuel(pow, 9);
    assert(pow(16, 8) == 4294967296);
    let h = hex_of_u32(v);
    assert(digits_value(h, 16) == (v as nat) % 4294967296nat);
    assert((v as nat) % 4294967296nat == v as nat);
    assert(parsed_unsigned(h, 16, u32::MAX as nat) == Some(v as nat));
    lemma_digits_value_bound(s, 16);
}

/// A prefix of a run of digits never spells more than the whole run.
proof fn lemma_prefix_value_le(s: Seq<char>, k: int, radix: nat)
    requires
        0 <= k <= s.len(),
        radix > 0,
    ensures
        digits_value(s.take(k), radix) <= digits_value(s, radix),
    decreases s.len(),
{
    if k < s.len() {
        let t = s.drop_last();
        assert(t.take(k) =~= s.take(k));
        lemma_prefix_value_le(t, k, radix);
        let a = digits_value(t, radix);
        assert(a * radix >= a) by (nonlinear_arith)
            requires
                radix > 0,
        ;
    } else {
        assert(s.take(k) =~= s);
    }
}

/// The digit value of `c` in any base up to sixteen, or sixteen.
fn digit_of(c: char) -> (d: u64)
    ensures
        d == digit_value(c),
{
    let u = c as u32;
    if 48 <= u && u <= 57 {
        (u - 48) as u64
    } else if 97 <= u && u <= 102 {
        (u - 87) as u64
    } else if 65 <= u && u <= 70 {
        (u - 55) as u64
    } else {
        16
    }
}

/// Reads `s[lo..hi]` as an unsigned number in base `radix`, refusing
/// anything above `max`.
pub(crate) fn parse_unsigned(s: &Vec<char>, lo: usize, hi: usize, radix: u64, max: u64) -> (r:
    Option<u64>)
    requires
        lo <= hi <= s.len(),
        2 <= radix <= 16,
    ensures
        r is Some == parsed_unsigned(s@.subrange(lo as int, hi as int), radix as nat, max as nat) is Some,
        r is Some ==> r->0 == parsed_unsigned(
            s@.subrange(lo as int, hi as int),
            radix as nat,
            max as nat,
        )->0,
{
    let ghost whole = s@.subrange(lo as int, hi as int);
    if lo == hi {
        return None;
    }
    let mut acc: u64 = 0;
    let mut i: usize = lo;
    while i < hi
        invariant
            lo <= i <= hi <= s.len(),
            2 <= radix <= 16,
            whole == s@.subrange(lo as int, hi as int),
            all_digits(s@.subrange(lo as int, i as int), radix as nat),
            acc == digits_value(s@.subrange(lo as int, i as int), radix as nat),
            acc <= max,
        decreases hi - i,
    {
        let ghost before = s@.subrange(lo as int, i as int);
        let ghost after = s@.subrange(lo as int, i + 1);
        assert(after.drop_last() =~= before);
        assert(after.last() == s@[i as int]);
        assert(whole[i - lo] == s@[i as int]);
        let d = digit_of(s[i]);
        if d >= radix {
            return None;
        }
        if d > max || acc > (max - d) / radix {
            proof {
                if d <= max {
                    let (a, m, e, b) = (acc as int, max as int, d as int, radix as int);
                    assert(a * b > m - e) by (nonlinear_arith)
                        requires
                            a > (m - e) / b,
                            b > 0,
                            m >= e,
                    ;
                }
                assert(whole.take(i + 1 - lo) =~= after);
                lemma_prefix_value_le(whole, i + 1 - lo, radix as nat);
            }
            return None;
        }
        proof {
            let (a, m, e, b) = (acc as int, max as int, d as int, radix as int);
            assert(a * b <= m - e) by (nonlinear_arith)
                requires
                    a <= (m - e) / b,
                    b > 0,
                    m >= e,
            ;
        }
        acc = acc * radix + d;
        assert forall|j: int| 0 <= j < after.len() implies #[trigger] digit_value(after[j])
            < radix by {
            if j < before.len() {
                assert(after[j] == before[j]);
            }
        }
        i = i + 1;
    }
    assert(s@.subrange(lo as int, i as int) =~= whole);
    Some(acc)
}

/// Reads `s[lo..hi]` as a 32-bit number in hexadecimal digits.
pub(crate) fn parse_hex_u32(s: &Vec<char>, lo: usize, hi: usize) -> (r: Option<u32>)
    requires
        lo <= hi <= s.len(),
    ensures
        r == parsed_hex_u32(s@.subrange(lo as int, hi as int)),
{
    match parse_unsigned(s, lo, hi, 16, 0xFFFF_FFFF) {
        Some(v) => Some(v as u32),
        None => None,
    }
}

/// Reads `s[lo..hi]` as a decimal number at most `max`, after one
/// optional `+`.
fn parse_decimal(s: &Vec<char>, lo: usize, hi: usize, max: u64) -> (r: Option<u64>)
    requires
        lo <= hi <= s.len(),
    ensures
        r is Some == parsed_decimal(s@.subrange(lo as int, hi as int), max as nat) is Some,
        r is Some ==> r->0 == parsed_decimal(s@.subrange(lo as int, hi as int), max as nat)->0,
{
    if lo < hi && s[lo] == '+' {
        assert(s@.subrange(lo as int, hi as int).drop_first() =~= s@.subrange(lo + 1, hi as int));
        parse_unsigned(s, lo + 1, hi, 10, max)
    } else {
        parse_unsigned(s, lo, hi, 10, max)
    }
}

/// Reads `s[lo..hi]` as a 64-bit number in decimal digits, with an
/// optional `+`.
pub(crate) fn parse_decimal_u64(s: &Vec<char>, lo: usize, hi: usize) -> (r: Option<u64>)
    requires
        lo <= hi <= s.len(),
    ensures
        r == parsed_decimal_u64(s@.subrange(lo as int, hi as int)),
{
    parse_decimal(s, lo, hi, 0xFFFF_FFFF_FFFF_FFFF)
}

/// Reads `s[lo..hi]` as a 32-bit number in decimal digits, with an
/// optional `+`.
pub(crate) fn parse_decimal_u32(s: &Vec<char>, lo: usize, hi: usize) -> (r: Option<u32>)
    requires
        lo <= hi <= s.len(),
    ensures
        r == parsed_decimal_u32(s@.subrange(lo as int, hi as int)),
{
    match parse_decimal(s, lo, hi, 0xFFFF_FFFF) {
        Some(v) => Some(v as u32),
        None => None,
    }
}

/// Reads a 32-bit tag written as hexadecimal digits of either case, such
/// as `636f7265` for the tag spelled `core`.
pub fn hex_to_u32(s: &str) -> (r: Option<u32>)
    ensures
        r == parsed_hex_u32(s@),
{
    let chars = chars_of(s);
    proof {
        assert(chars@.subrange(0, chars@.len() as int) =~= s@);
    }
    parse_hex_u32(&chars, 0, chars.len())
}

} // verus!
