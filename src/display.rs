use vstd::prelude::*;
use vstd::string::{StrSliceExecFns, StringExecFns};

use crate::digits::hex_char;

verus! {

/// The longest text, in characters, shown whole.
pub const DISPLAY_TEXT_LIMIT: usize = 50;

/// The side of the square that album art must fit in, in pixels.
pub const ART_FRAME_SIZE: u32 = 512;

/// The decimal digits of `n`, most significant first, without leading
/// zeros.
pub open spec fn decimal_of(n: nat) -> Seq<char>
    decreases n,
{
    if n < 10 {
        seq![hex_char(n)]
    } else {
        decimal_of(n / 10).push(hex_char(n % 10))
    }
}

/// `n` in decimal, padded with a zero to at least two digits.
pub open spec fn two_digits(n: nat) -> Seq<char> {
    if n < 10 {
        seq!['0', hex_char(n)]
    } else {
        decimal_of(n)
    }
}

/// `seconds` as minutes and seconds, `MM:SS`.
pub open spec fn clock_text(seconds: u32) -> Seq<char> {
    two_digits((seconds / 60) as nat) + seq![':'] + two_digits((seconds % 60) as nat)
}

/// The text as shown: cut to its first fifty characters, followed by
/// `...`, where it is longer.
pub open spec fn shown_text(s: Seq<char>) -> Seq<char> {
    if s.len() > DISPLAY_TEXT_LIMIT {
        s.take(DISPLAY_TEXT_LIMIT as int) + seq!['.', '.', '.']
    } else {
        s
    }
}

fn digit_str(d: u32) -> (r: &'static str)
    requires
        d < 10,
    ensures
        r@ == seq![hex_char(d as nat)],
{
    proof {
        reveal_strlit("0");
        reveal_strlit("1");
        reveal_strlit("2");
        reveal_strlit("3");
        reveal_strlit("4");
        reveal_strlit("5");
        reveal_strlit("6");
        reveal_strlit("7");
        reveal_strlit("8");
        reveal_strlit("9");
    }
    match d {
        0 => "0",
        1 => "1",
        2 => "2",
        3 => "3",
        4 => "4",
        5 => "5",
        6 => "6",
        7 => "7",
        8 => "8",
        _ => "9",
    }
}

fn push_decimal(out: &mut String, n: u32)
    ensures
        final(out)@ == old(out)@ + decimal_of(n as nat),
    decreases n,
{
    if n >= 10 {
        push_decimal(out, n / 10);
    }
    out.append(digit_str(n % 10));
    assert(final(out)@ =~= old(out)@ + decimal_of(n as nat));
}

fn push_two_digits(out: &mut String, n: u32)
    ensures
        final(out)@ == old(out)@ + two_digits(n as nat),
{
    if n < 10 {
        proof {
            reveal_strlit("0");
        }
        out.append("0");
        out.append(digit_str(n));
        assert(final(out)@ =~= old(out)@ + two_digits(n as nat));
    } else {
        push_decimal(out, n);
    }
}

/// Formats a number of seconds as `MM:SS`: `125` gives `02:05`. Minutes
/// past 99 take as many digits as they need.
pub fn format_time(seconds: u32) -> (r: String)
    ensures
        r@ == clock_text(seconds),
{
    let mut out = String::new();
    push_two_digits(&mut out, seconds / 60);
    proof {
        reveal_strlit(":");
    }
    out.append(":");
    push_two_digits(&mut out, seconds % 60);
    assert(out@ =~= clock_text(seconds));
    out
}

/// The text as a display shows it: at most fifty characters, then `...`
/// where some were cut.
pub fn truncate_for_display(text: &str) -> (r: String)
    ensures
        r@ == shown_text(text@),
{
    if text.unicode_len() > DISPLAY_TEXT_LIMIT {
        let mut out = text.substring_char(0, DISPLAY_TEXT_LIMIT).to_owned();
        proof {
            reveal_strlit("...");
        }
        out.append("...");
        assert(out@ =~= shown_text(text@));
        out
    } else {
        text.to_owned()
    }
}

/// Album art of this size must be scaled down to fit its frame.
pub fn art_exceeds_frame(width: u32, height: u32) -> (r: bool)
    ensures
        r == (width > ART_FRAME_SIZE || height > ART_FRAME_SIZE),
{
    width > ART_FRAME_SIZE || height > ART_FRAME_SIZE
}

} // verus!
