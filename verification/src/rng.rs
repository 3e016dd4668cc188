//! The source of random draws. The engine draws integers from half-open
//! ranges; the source is either the process-wide generator or a fixed script
//! of values, so that a whole game can be replayed deterministically.

use vstd::prelude::*;

verus! {

/// Supplies integers drawn from half-open ranges.
///
/// `System` draws from the process-wide generator; nothing is known of a
/// draw beyond its range. `Scripted` replays a fixed list of values, and
/// every draw is exactly determined by the script and the cursor.
pub enum RandomSource {
    System,
    Scripted { draws: Vec<usize>, next: usize },
}

/// Relies on rand::random_range: a uniform draw from the half-open range
/// `lo..hi`, which panics only when the range is empty.
#[verifier::external_body]
fn system_range(lo: usize, hi: usize) -> (r: usize)
    requires
        lo < hi,
    ensures
        lo <= r < hi,
{
    rand::random_range(lo..hi)
}

impl RandomSource {
    /// The value the next draw yields from a scripted source, for the range
    /// `[lo, hi)`: the current script entry reduced into the range, or `lo`
    /// once the script is exhausted.
    pub open spec fn script_value(self, lo: usize, hi: usize) -> usize
        recommends
            self is Scripted,
            lo < hi,
    {
        match self {
            RandomSource::Scripted { draws, next } => {
                if next < draws@.len() {
                    (lo as int + (draws@[next as int] as int) % (hi as int - lo as int)) as usize
                } else {
                    lo
                }
            },
            RandomSource::System => lo,
        }
    }

    /// The source after one draw: the cursor moves past the entry it read.
    pub open spec fn script_step(self) -> RandomSource {
        match self {
            RandomSource::Scripted { draws, next } => (RandomSource::Scripted {
                draws,
                next: if next < draws@.len() {
                    (next + 1) as usize
                } else {
                    next
                },
            }),
            RandomSource::System => RandomSource::System,
        }
    }

    pub fn system() -> (r: RandomSource)
        ensures
            r is System,
    {
        RandomSource::System
    }

    pub fn scripted(draws: Vec<usize>) -> (r: RandomSource)
        ensures
            r == (RandomSource::Scripted { draws: draws, next: 0usize }),
    {
        RandomSource::Scripted { draws, next: 0 }
    }

    /// One draw from `[lo, hi)`. A system draw is only known to lie in the
    /// range; a scripted draw is exactly the scripted value.
    pub fn next_in_range(&mut self, lo: usize, hi: usize) -> (r: usize)
        requires
            lo < hi,
        ensures
            lo <= r < hi,
            *old(self) is System ==> *final(self) == *old(self),
            *old(self) is Scripted ==> r == old(self).script_value(lo, hi)
                && *final(self) == old(self).script_step(),
    {
        match self {
            RandomSource::System => system_range(lo, hi),
            RandomSource::Scripted { draws, next } => {
                let d: usize = if *next < draws.len() {
                    let v: usize = draws[*next];
                    *next = *next + 1;
                    v
                } else {
                    0
                };
                lo + d % (hi - lo)
            },
        }
    }
}

} // verus!
