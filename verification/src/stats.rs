//! Running statistics for a training run.
//!
//! A `Stats` record carries the number of characters typed, the elapsed
//! seconds and the number of mistakes.  Per-line records are merged into a
//! running aggregate by field-wise addition, and speed and accuracy metrics
//! are derived on demand.  Each metric rounds its exact rational value to the
//! nearest integer, halves away from zero; a metric whose divisor is zero is
//! reported as absent rather than as an error.

use vstd::prelude::*;

verus! {

/// Character, time and mistake totals; per-line records and the running
/// aggregate use the same shape.
#[derive(Clone, Copy, Debug, PartialEq, Eq, Structural)]
pub struct Stats {
    pub char_count: u64,
    pub seconds: u64,
    pub mistakes: u64,
}

/// The all-zero record: what a skipped line contributes.
pub open spec fn zero_stats() -> Stats {
    Stats { char_count: 0, seconds: 0, mistakes: 0 }
}

/// Field-wise sum of two records, meaningful when no field overflows.
pub open spec fn merged(a: Stats, b: Stats) -> Stats {
    Stats {
        char_count: (a.char_count + b.char_count) as u64,
        seconds: (a.seconds + b.seconds) as u64,
        mistakes: (a.mistakes + b.mistakes) as u64,
    }
}

/// `num / den` rounded to the nearest integer, halves away from zero.
pub open spec fn round_div(num: int, den: int) -> int
    recommends
        den > 0,
{
    if num >= 0 {
        (2 * num + den) / (2 * den)
    } else {
        -((2 * (-num) + den) / (2 * den))
    }
}

/// Characters per minute: `round((char_count - mistakes) / seconds * 60)`.
pub open spec fn cpm_of(s: Stats) -> int {
    round_div((s.char_count - s.mistakes) * 60, s.seconds as int)
}

/// Words per minute: a word counts as five characters.
pub open spec fn wpm_of(s: Stats) -> int {
    round_div(cpm_of(s), 5)
}

/// Accuracy: `round(1 - mistakes / char_count)`, which the rounding collapses
/// to 1 when at most half the characters were mistakes and to 0 otherwise
/// (for records with `mistakes <= char_count`).
pub open spec fn accuracy_of(s: Stats) -> int {
    round_div(s.char_count - s.mistakes, s.char_count as int)
}

/// Rounded division never grows the magnitude of the numerator.
pub proof fn lemma_round_div_bound(num: int, den: int)
    requires
        den >= 1,
    ensures
        num >= 0 ==> 0 <= round_div(num, den) <= num,
        num < 0 ==> num <= round_div(num, den) <= 0,
{
    if num >= 0 {
        assert(0 <= (2 * num + den) / (2 * den) <= num) by (nonlinear_arith)
            requires
                num >= 0,
                den >= 1,
        ;
    } else {
        assert(0 <= (2 * (-num) + den) / (2 * den) <= -num) by (nonlinear_arith)
            requires
                num < 0,
                den >= 1,
        ;
    }
}

/// Exact rounded division on machine integers, for numerators and divisors
/// well inside the `i128` range.
fn round_div_exec(num: i128, den: i128) -> (r: i128)
    requires
        0 < den <= 0x1000_0000_0000_0000_0000_0000,
        -0x1000_0000_0000_0000_0000_0000 <= num <= 0x1000_0000_0000_0000_0000_0000,
    ensures
        r == round_div(num as int, den as int),
{
    let d: u128 = den as u128;
    if num >= 0 {
        let n: u128 = num as u128;
        ((2 * n + d) / (2 * d)) as i128
    } else {
        let n: u128 = (-num) as u128;
        let q: u128 = (2 * n + d) / (2 * d);
        proof {
            lemma_round_div_bound(-(num as int), den as int);
        }
        -(q as i128)
    }
}

impl Stats {
    /// Merge another record into this one by field-wise addition.
    pub fn add(&mut self, stats: Stats)
        requires
            old(self).char_count + stats.char_count <= u64::MAX,
            old(self).seconds + stats.seconds <= u64::MAX,
            old(self).mistakes + stats.mistakes <= u64::MAX,
        ensures
            *final(self) == merged(*old(self), stats),
    {
        self.char_count = self.char_count + stats.char_count;
        self.seconds = self.seconds + stats.seconds;
        self.mistakes = self.mistakes + stats.mistakes;
    }

    /// Typing speed in characters per minute; absent when no time has been
    /// recorded (every line skipped), the divide-by-zero case.
    pub fn chars_per_minute(&self) -> (r: Option<i128>)
        ensures
            r is Some <==> self.seconds != 0,
            r matches Some(v) ==> v == cpm_of(*self),
    {
        if self.seconds == 0 {
            return None;
        }
        let num: i128 = (self.char_count as i128 - self.mistakes as i128) * 60;
        Some(round_div_exec(num, self.seconds as i128))
    }

    /// Typing speed in words per minute; absent when no time has been
    /// recorded.
    pub fn words_per_minute(&self) -> (r: Option<i128>)
        ensures
            r is Some <==> self.seconds != 0,
            r matches Some(v) ==> v == wpm_of(*self),
    {
        let cpm = match self.chars_per_minute() {
            Some(v) => v,
            None => {
                return None;
            },
        };
        proof {
            lemma_round_div_bound((self.char_count - self.mistakes) * 60, self.seconds as int);
        }
        Some(round_div_exec(cpm, 5))
    }

    /// Accuracy rounded to the nearest integer; absent when no characters
    /// have been recorded.
    pub fn accuracy(&self) -> (r: Option<i128>)
        ensures
            r is Some <==> self.char_count != 0,
            r matches Some(v) ==> v == accuracy_of(*self),
    {
        if self.char_count == 0 {
            return None;
        }
        let num: i128 = self.char_count as i128 - self.mistakes as i128;
        Some(round_div_exec(num, self.char_count as i128))
    }
}

impl Default for Stats {
    /// The all-zero record.
    fn default() -> (r: Self)
        ensures
            r == zero_stats(),
    {
        Stats { char_count: 0, seconds: 0, mistakes: 0 }
    }
}

/// Merging a zero-valued record is the identity on the aggregate, so every
/// metric derived from it is unchanged as well.
pub proof fn lemma_merge_zero_is_identity(a: Stats)
    ensures
        merged(a, zero_stats()) == a,
{
}

} // verus!
