//! The mathematical model of the flush schedule.
//!
//! All functions here are specifications over unbounded integers. `r` is the
//! expansion factor between adjacent levels, `c` the number of bins of one
//! level, `j` a level, `i` a bin of that level and `t` a time step.

use vstd::prelude::*;
use vstd::arithmetic::power::pow;

verus! {

/// State of one bin at one time step.
#[derive(Clone, Copy, Debug, PartialEq, Eq, Structural)]
pub enum BinState {
    /// The bin holds nothing yet.
    Empty,
    /// The bin is accumulating data from the level before it and is
    /// `numerator / denominator` full.
    Filling { numerator: u32, denominator: u32 },
    /// The bin holds data and is not the one that flushes at this step.
    Full,
    /// The bin empties into the next level at this very step.
    Flushing,
}

/// Number of time steps that one bin of level `j` stands for: `r^j`.
pub open spec fn bin_size(r: nat, j: nat) -> int {
    pow(r as int, j)
}

/// Number of time steps between two flushes of the same bin of level `j`:
/// `r^j * c`.
pub open spec fn period(r: nat, c: nat, j: nat) -> int {
    bin_size(r, j) * c
}

/// Time that the levels before `j` need to warm up: the sum of
/// `r^k * (c - 1)` over `0 <= k < j`.
pub open spec fn warmup(r: nat, c: nat, j: nat) -> int
    decreases j,
{
    if j == 0 {
        0
    } else {
        warmup(r, c, (j - 1) as nat) + bin_size(r, (j - 1) as nat) * (c - 1)
    }
}

/// First time step at which any bin of level `j` flushes. On level 0 this
/// is `c - 1`.
pub open spec fn first_flush(r: nat, c: nat, j: nat) -> int {
    period(r, c, j) - 1 + warmup(r, c, j)
}

/// Warm-up offset that level `j` inherits from the level before it.
pub open spec fn zeroth_flush(r: nat, c: nat, j: nat) -> int {
    if j == 0 {
        0
    } else {
        first_flush(r, c, (j - 1) as nat)
    }
}

/// Time step at which bin `i` of level `j` first receives data.
pub open spec fn touch_step(r: nat, c: nat, j: nat, i: nat) -> int {
    (bin_size(r, j) * (c + i)) % period(r, c, j) + zeroth_flush(r, c, j)
}

/// Phase of bin `i` within the rotation of level `j`: the bin flushes at the
/// steps that leave this remainder modulo the period.
pub open spec fn flush_step(r: nat, c: nat, j: nat, i: nat) -> int {
    (bin_size(r, j) * (c + i) + first_flush(r, c, j)) % period(r, c, j)
}

/// Shift that aligns the rotation of level `j` with the moment at which its
/// first bin is touched.
pub open spec fn touch_mod(r: nat, c: nat, j: nat) -> int {
    period(r, c, j) - zeroth_flush(r, c, j) % period(r, c, j)
}

/// A step or phase `x` of level `j`, moved into the aligned rotation.
pub open spec fn shifted(r: nat, c: nat, j: nat, x: int) -> int {
    (x + touch_mod(r, c, j)) % period(r, c, j)
}

/// Whether step `t` lies in the window in which bin `i` of level `j` fills:
/// after its own flush and before the flush of the next bin. The window of
/// the last bin has no successor to close it and runs to the end of the
/// aligned rotation.
pub open spec fn in_fill_window(r: nat, c: nat, j: nat, i: nat, t: nat) -> bool {
    let p = period(r, c, j);
    let own = shifted(r, c, j, flush_step(r, c, j, i));
    let next = shifted(r, c, j, flush_step(r, c, j, i + 1));
    let now = shifted(r, c, j, t as int);
    if i + 1 == c {
        now >= (own + 1) % p
    } else {
        now >= (own + 1) % p && now < next % p
    }
}

/// Steps that have passed, within one bin, since bin `i` of level `j`
/// last flushed.
pub open spec fn steps_since_flush(r: nat, c: nat, j: nat, i: nat, t: nat) -> int {
    let b = bin_size(r, j);
    let own = shifted(r, c, j, flush_step(r, c, j, i));
    (shifted(r, c, j, t as int) + (b - own % b)) % b
}

/// How many of the `r` flushes that fill bin `i` of level `j > 0` have
/// arrived by step `t`.
pub open spec fn fill_numerator(r: nat, c: nat, j: nat, i: nat, t: nat) -> int {
    steps_since_flush(r, c, j, i, t) / bin_size(r, (j - 1) as nat)
}

/// Whether bin `i` of level `j` flushes at step `t`.
pub open spec fn flushes_at(r: nat, c: nat, j: nat, i: nat, t: nat) -> bool {
    (t as int) % period(r, c, j) == flush_step(r, c, j, i) && t >= first_flush(r, c, j)
}

/// First step at which bin `i` of level `j` flushes.
pub open spec fn first_flush_of_bin(r: nat, c: nat, j: nat, i: nat) -> int {
    first_flush(r, c, j) + bin_size(r, j) * i
}

/// The bin of level `j` whose turn it is at step `t`, where `t` lies a whole
/// number of bins after the first flush of the level.
pub open spec fn flusher(r: nat, c: nat, j: nat, t: nat) -> int {
    ((t - first_flush(r, c, j)) / bin_size(r, j)) % (c as int)
}

/// Whether step `t` is one at which level `j` flushes a bin: a whole number
/// of bins after its first flush. On level 0 every step from the first
/// flush on is one.
pub open spec fn on_beat(r: nat, c: nat, j: nat, t: nat) -> bool {
    t >= first_flush(r, c, j) && (t - first_flush(r, c, j)) % bin_size(r, j) == 0
}

/// State of bin `i` of level `j` at step `t`. With `partial` unset, and on
/// level 0, a bin that has been touched and does not flush is `Full`.
pub open spec fn status(r: nat, c: nat, j: nat, i: nat, t: nat, partial: bool) -> BinState {
    if flushes_at(r, c, j, i, t) {
        BinState::Flushing
    } else if t < touch_step(r, c, j, i) {
        BinState::Empty
    } else if partial && j > 0 && in_fill_window(r, c, j, i, t) {
        BinState::Filling {
            numerator: fill_numerator(r, c, j, i, t) as u32,
            denominator: r as u32,
        }
    } else {
        BinState::Full
    }
}

/// Bins per level for the time stretch `num / den`: one more than the
/// reciprocal of the stretch, rounded up.
pub open spec fn bins_for_stretch(num: nat, den: nat) -> int {
    (den + num - 1) / (num as int) + 1
}

} // verus!
