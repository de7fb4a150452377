use vstd::prelude::*;

use crate::digits::{parse_decimal_u64, parsed_decimal_u64};
use crate::text::chars_of;

verus! {

/// Ticks of the audio clock per second.
pub const CLOCK_RATE: u64 = 44100;

/// Units of the wall clock (nanoseconds) per second.
pub const NANOS_PER_SECOND: u64 = 1_000_000_000;

/// The positions of the `/` separators in `s`, in order.
pub open spec fn slash_positions(s: Seq<char>) -> Seq<int>
    decreases s.len(),
{
    if s.len() == 0 {
        Seq::empty()
    } else if s.last() == '/' {
        slash_positions(s.drop_last()).push(s.len() - 1)
    } else {
        slash_positions(s.drop_last())
    }
}

/// The triple `start/current/end` that a progress text spells: exactly
/// three `/`-separated parts, each a decimal 64-bit number that may
/// carry one leading `+`.
pub open spec fn progress_of(s: Seq<char>) -> Option<(u64, u64, u64)> {
    let p = slash_positions(s);
    if p.len() == 2 {
        match (
            parsed_decimal_u64(s.subrange(0, p[0])),
            parsed_decimal_u64(s.subrange(p[0] + 1, p[1])),
            parsed_decimal_u64(s.subrange(p[1] + 1, s.len() as int)),
        ) {
            (Some(a), Some(b), Some(c)) => Some((a, b, c)),
            _ => None,
        }
    } else {
        None
    }
}

proof fn lemma_slash_positions(s: Seq<char>)
    ensures
        forall|k: int| 0 <= k < slash_positions(s).len() ==> 0 <= #[trigger] slash_positions(s)[k] < s.len(),
        forall|k: int, l: int| 0 <= k < l < slash_positions(s).len() ==> slash_positions(s)[k] < slash_positions(s)[l],
    decreases s.len(),
{
    if s.len() > 0 {
        let q = slash_positions(s.drop_last());
        let p = slash_positions(s);
        lemma_slash_positions(s.drop_last());
        assert forall|k: int| 0 <= k < q.len() implies p[k] == q[k] && q[k] < s.len() - 1 by {}
        if s.last() == '/' {
            assert(p[q.len() as int] == s.len() - 1);
        }
        assert forall|k: int, l: int| 0 <= k < l < p.len() implies p[k] < p[l] by {
            if l < q.len() {
                assert(q[k] < q[l]);
            }
        }
    }
}

/// Reads a progress text `start/current/end`; anything but three
/// decimal parts gives `None`.
pub fn parse_progress(progress: &str) -> (r: Option<(u64, u64, u64)>)
    ensures
        r == progress_of(progress@),
{
    let s = chars_of(progress);
    let mut slashes: Vec<usize> = Vec::new();
    let mut i: usize = 0;
    while i < s.len()
        invariant
            i <= s.len(),
            slashes@.len() == slash_positions(s@.take(i as int)).len(),
            forall|k: int| 0 <= k < slashes@.len() ==> slashes@[k] as int == #[trigger] slash_positions(s@.take(i as int))[k],
        decreases s.len() - i,
    {
        let ghost before = s@.take(i as int);
        let ghost after = s@.take(i + 1);
        assert(after.drop_last() =~= before);
        if s[i] == '/' {
            slashes.push(i);
        }
        i = i + 1;
    }
    assert(s@.take(i as int) =~= s@);
    proof {
        lemma_slash_positions(s@);
    }
    if slashes.len() != 2 {
        return None;
    }
    let a = slashes[0];
    let b = slashes[1];
    let start = match parse_decimal_u64(&s, 0, a) {
        Some(v) => v,
        None => return None,
    };
    let current = match parse_decimal_u64(&s, a + 1, b) {
        Some(v) => v,
        None => return None,
    };
    let end = match parse_decimal_u64(&s, b + 1, s.len()) {
        Some(v) => v,
        None => return None,
    };
    Some((start, current, end))
}

/// `a - b`, or zero where `b` is the larger.
pub open spec fn sat_sub(a: u64, b: u64) -> u64 {
    if a >= b {
        (a - b) as u64
    } else {
        0
    }
}

/// Whole audio-clock ticks in `elapsed` nanoseconds, rounded down.
pub open spec fn ticks_in(elapsed: u64) -> nat {
    (elapsed as nat * CLOCK_RATE as nat / NANOS_PER_SECOND as nat) as nat
}

/// Whole seconds in `ticks`, capped at the largest 32-bit number.
pub open spec fn seconds_in(ticks: u64) -> u32 {
    if ticks / CLOCK_RATE > u32::MAX {
        u32::MAX
    } else {
        (ticks / CLOCK_RATE) as u32
    }
}

/// The estimate of where playback stands, in audio-clock ticks.
#[derive(Clone, Copy, Debug, PartialEq, Eq, Structural)]
pub struct PlaybackPosition {
    pub start: u64,
    pub current: u64,
    pub end: u64,
    /// The wall-clock time, in nanoseconds, at which the estimate was last
    /// brought up to date.
    pub last_sample_time: u64,
    pub is_playing: bool,
}

/// The position after a fresh triple arrived at time `now`: the baseline
/// is reset and playback counts as running.
pub open spec fn restarted(start: u64, current: u64, end: u64, now: u64) -> PlaybackPosition {
    PlaybackPosition { start, current, end, last_sample_time: now, is_playing: true }
}

/// `p` after a display tick at time `now`: while playing, `current`
/// moves on by the elapsed time but never past `end`; the time is taken
/// as the new baseline either way.
pub open spec fn ticked(p: PlaybackPosition, now: u64) -> PlaybackPosition {
    if p.is_playing {
        let advanced = p.current + ticks_in(sat_sub(now, p.last_sample_time));
        PlaybackPosition {
            current: if advanced > p.end {
                p.end
            } else {
                advanced as u64
            },
            last_sample_time: now,
            ..p
        }
    } else {
        PlaybackPosition { last_sample_time: now, ..p }
    }
}

/// `p` after a tick at each of `times`, in order.
pub open spec fn ticked_all(p: PlaybackPosition, times: Seq<u64>) -> PlaybackPosition
    decreases times.len(),
{
    if times.len() == 0 {
        p
    } else {
        ticked(ticked_all(p, times.drop_last()), times.last())
    }
}

/// A position ordered as `start <= current <= end` stays so over any
/// number of ticks, and its `current` never moves back.
pub proof fn lemma_ticks_keep_order(p: PlaybackPosition, times: Seq<u64>)
    requires
        p.start <= p.current <= p.end,
    ensures
        ticked_all(p, times).start == p.start,
        ticked_all(p, times).end == p.end,
        p.current <= ticked_all(p, times).current <= p.end,
    decreases times.len(),
{
    if times.len() > 0 {
        lemma_ticks_keep_order(p, times.drop_last());
    }
}

impl PlaybackPosition {
    /// A position at zero that is not playing, with `now` as baseline.
    pub fn new(now: u64) -> (r: PlaybackPosition)
        ensures
            r == (PlaybackPosition { start: 0, current: 0, end: 0, last_sample_time: now, is_playing: false }),
    {
        PlaybackPosition { start: 0, current: 0, end: 0, last_sample_time: now, is_playing: false }
    }

    /// Takes a decoded triple as the new baseline at time `now`.
    pub fn restart(&mut self, start: u64, current: u64, end: u64, now: u64)
        ensures
            *final(self) == restarted(start, current, end, now),
    {
        *self = PlaybackPosition { start, current, end, last_sample_time: now, is_playing: true };
    }

    /// Freezes the estimate where it stands.
    pub fn pause(&mut self)
        ensures
            *final(self) == (PlaybackPosition { is_playing: false, ..*old(self) }),
    {
        self.is_playing = false;
    }

    /// Brings the estimate up to the wall-clock time `now`.
    pub fn tick(&mut self, now: u64)
        ensures
            *final(self) == ticked(*old(self), now),
            old(self).is_playing ==> final(self).current <= old(self).end,
            old(self).is_playing && old(self).current <= old(self).end ==> old(self).current
                <= final(self).current,
            !old(self).is_playing ==> final(self).current == old(self).current,
    {
        if self.is_playing {
            let elapsed = now.saturating_sub(self.last_sample_time);
            let wide = (elapsed as u128) * (CLOCK_RATE as u128) / (NANOS_PER_SECOND as u128);
            assert(wide <= elapsed) by (nonlinear_arith)
                requires
                    wide == (elapsed as int) * 44100 / 1_000_000_000,
                    elapsed >= 0,
            ;
            let ticks = wide as u64;
            let advanced = self.current.saturating_add(ticks);
            self.current = if advanced > self.end {
                self.end
            } else {
                advanced
            };
        }
        self.last_sample_time = now;
    }

    /// Whole seconds played since the start of the track.
    pub fn elapsed_seconds(&self) -> (r: u32)
        ensures
            r == seconds_in(sat_sub(self.current, self.start)),
    {
        seconds_of(self.current.saturating_sub(self.start))
    }

    /// Whole seconds in the track.
    pub fn duration_seconds(&self) -> (r: u32)
        ensures
            r == seconds_in(sat_sub(self.end, self.start)),
    {
        seconds_of(self.end.saturating_sub(self.start))
    }

    /// Whole seconds left: the duration less the time played.
    pub fn remaining_seconds(&self) -> (r: u32)
        ensures
            r == seconds_in(sat_sub(sat_sub(self.end, self.start), sat_sub(self.current, self.start))),
    {
        let duration = self.end.saturating_sub(self.start);
        let played = self.current.saturating_sub(self.start);
        seconds_of(duration.saturating_sub(played))
    }

    /// How far the track has played, as the fraction `(num, den)` of
    /// ticks played over ticks in the track; `(0, 1)` for a track of no
    /// length, so that the denominator is never zero.
    pub fn progress_fraction(&self) -> (r: (u64, u64))
        ensures
            r.1 > 0,
            self.start == self.end ==> r.0 == 0,
            sat_sub(self.end, self.start) == 0 ==> r == (0u64, 1u64),
            sat_sub(self.end, self.start) > 0 ==> r == (sat_sub(self.current, self.start), sat_sub(
                self.end,
                self.start,
            )),
    {
        let duration = self.end.saturating_sub(self.start);
        if duration == 0 {
            (0, 1)
        } else {
            (self.current.saturating_sub(self.start), duration)
        }
    }
}

fn seconds_of(ticks: u64) -> (r: u32)
    ensures
        r == seconds_in(ticks),
{
    let secs = ticks / CLOCK_RATE;
    if secs > 0xFFFF_FFFF {
        0xFFFF_FFFF
    } else {
        secs as u32
    }
}

} // verus!
