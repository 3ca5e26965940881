//! The executable schedule: per-level constants and the state of a bin.
//!
//! Periods are kept in 32 bits. Everything derived from a period that fits
//! is computed in 64 bits, where it cannot overflow.

use vstd::prelude::*;
use crate::config::{LertVisualizer, ScheduleError};
use crate::schedule::{
    BinState,
    bin_size,
    period,
    warmup,
    first_flush,
    zeroth_flush,
    touch_step,
    flush_step,
    touch_mod,
    shifted,
    in_fill_window,
    fill_numerator,
    status,
};
use crate::laws::{
    lemma_bin_size,
    lemma_period_increases,
    lemma_warmup_bound,
    lemma_first_flush_bounds,
    lemma_fill_numerator_bound,
};

verus! {

/// The constants of one level, from which the state of each of its bins at
/// each step follows.
#[derive(Clone, Copy, Debug, PartialEq, Eq, Structural)]
pub struct LevelTiming {
    /// Steps that one bin stands for.
    pub bin_size: u64,
    /// Steps that one bin of the level before this one stands for; on
    /// level 0, one.
    pub feeder_size: u64,
    /// Steps between two flushes of the same bin.
    pub period: u64,
    /// First step at which a bin of this level flushes.
    pub first_flush: u64,
    /// First step at which a bin of the level before this one flushes; on
    /// level 0, zero.
    pub zeroth_flush: u64,
}

impl LevelTiming {
    /// The constants are those of level `j` in a structure with expansion
    /// factor `r` and `c` bins per level.
    pub open spec fn describes(&self, r: nat, c: nat, j: nat) -> bool {
        &&& self.bin_size == bin_size(r, j)
        &&& self.feeder_size == if j == 0 {
            1
        } else {
            bin_size(r, (j - 1) as nat)
        }
        &&& self.period == period(r, c, j)
        &&& self.first_flush == first_flush(r, c, j)
        &&& self.zeroth_flush == zeroth_flush(r, c, j)
    }
}

impl LertVisualizer {
    /// State of bin `i` of level `j` at step `t`, in this configuration.
    pub open spec fn status_at(&self, j: nat, i: nat, t: nat, partial: bool) -> BinState {
        status(self.r(), self.c(), j, i, t, partial)
    }

    /// What a query for `level` returns when it cannot be answered.
    pub open spec fn level_error(&self, level: u32) -> Option<ScheduleError> {
        if level > self.depth {
            Some(ScheduleError::OutOfRange)
        } else if period(self.r(), self.c(), level as nat) > u32::MAX {
            Some(ScheduleError::ArithmeticOverflow)
        } else {
            None
        }
    }

    /// What a query for bin `bin_id` of `level` returns when it cannot be
    /// answered.
    pub open spec fn query_error(&self, level: u32, bin_id: u32) -> Option<ScheduleError> {
        if bin_id >= self.num_bins {
            Some(ScheduleError::OutOfRange)
        } else {
            self.level_error(level)
        }
    }

    /// Computes the constants of `level` by accumulating over the levels
    /// before it. Fails with `OutOfRange` below the deepest level, and with
    /// `ArithmeticOverflow` where the period of the level exceeds 32 bits.
    pub fn level_timing(&self, level: u32) -> (res: Result<LevelTiming, ScheduleError>)
        requires
            self.wf(),
        ensures
            match self.level_error(level) {
                Some(e) => res == Err::<LevelTiming, ScheduleError>(e),
                None => res is Ok && res->Ok_0.describes(self.r(), self.c(), level as nat),
            },
    {
        if level > self.depth {
            return Err(ScheduleError::OutOfRange);
        }
        let r: u64 = self.expansion_factor as u64;
        let c: u64 = self.num_bins as u64;
        let limit: u64 = u32::MAX as u64;
        let ghost rn = self.r();
        let ghost cn = self.c();
        let mut size: u64 = 1;
        let mut feeder: u64 = 1;
        let mut sum: u64 = 0;
        let mut zeroth: u64 = 0;
        let mut k: u32 = 0;
        proof {
            lemma_bin_size(rn, 0);
            vstd::arithmetic::power::lemma_pow0(rn as int);
        }
        while k < level
            invariant
                k <= level <= self.depth,
                rn == self.r(),
                cn == self.c(),
                rn == r >= 2,
                cn == c >= 2,
                limit == u32::MAX,
                r <= limit,
                c <= limit,
                size == bin_size(rn, k as nat),
                feeder == if k == 0 {
                    1
                } else {
                    bin_size(rn, (k - 1) as nat)
                },
                sum == warmup(rn, cn, k as nat),
                zeroth == zeroth_flush(rn, cn, k as nat),
                size * c == period(rn, cn, k as nat),
                size * c <= limit,
            decreases level - k,
        {
            proof {
                lemma_bin_size(rn, k as nat);
                lemma_warmup_bound(rn, cn, k as nat);
                lemma_first_flush_bounds(rn, cn, k as nat);
                assert(size <= size * c && size * (c - 1) <= size * c && size * r <= limit * limit)
                    by (nonlinear_arith)
                    requires
                        size >= 1,
                        c >= 2,
                        size * c <= limit,
                        r <= limit,
                ;
            }
            zeroth = size * c - 1 + sum;
            sum = sum + size * (c - 1);
            feeder = size;
            size = size * r;
            proof {
                assert(size * c >= size && size == r * feeder) by (nonlinear_arith)
                    requires
                        c >= 2,
                        size == feeder * r,
                ;
                if size > limit || size * c > limit {
                    lemma_period_increases(rn, cn, (k + 1) as nat, level as nat);
                }
            }
            if size > limit {
                return Err(ScheduleError::ArithmeticOverflow);
            }
            assert(size * c <= limit * limit) by (nonlinear_arith)
                requires
                    size <= limit,
                    c <= limit,
            ;
            if size * c > limit {
                return Err(ScheduleError::ArithmeticOverflow);
            }
            k = k + 1;
        }
        proof {
            lemma_warmup_bound(rn, cn, level as nat);
            lemma_first_flush_bounds(rn, cn, level as nat);
        }
        Ok(
            LevelTiming {
                bin_size: size,
                feeder_size: feeder,
                period: size * c,
                first_flush: size * c - 1 + sum,
                zeroth_flush: zeroth,
            },
        )
    }

    /// First step at which any bin of `level` flushes.
    pub fn compute_first_flush(&self, level: u32) -> (res: Result<u64, ScheduleError>)
        requires
            self.wf(),
        ensures
            match self.level_error(level) {
                Some(e) => res == Err::<u64, ScheduleError>(e),
                None => res is Ok && res->Ok_0 == first_flush(self.r(), self.c(), level as nat),
            },
    {
        match self.level_timing(level) {
            Ok(timing) => Ok(timing.first_flush),
            Err(e) => Err(e),
        }
    }

    /// Step at which bin `bin_id` of `level` first receives data.
    pub fn touch_step(&self, level: u32, bin_id: u32) -> (res: Result<u64, ScheduleError>)
        requires
            self.wf(),
        ensures
            match self.query_error(level, bin_id) {
                Some(e) => res == Err::<u64, ScheduleError>(e),
                None => res is Ok && res->Ok_0 == touch_step(
                    self.r(),
                    self.c(),
                    level as nat,
                    bin_id as nat,
                ),
            },
    {
        if bin_id >= self.num_bins {
            return Err(ScheduleError::OutOfRange);
        }
        match self.level_timing(level) {
            Ok(timing) => {
                let c: u64 = self.num_bins as u64;
                let i: u64 = bin_id as u64;
                let b: u64 = timing.bin_size;
                let p: u64 = timing.period;
                proof {
                    lemma_bin_size(self.r(), level as nat);
                    lemma_first_flush_bounds(self.r(), self.c(), level as nat);
                    assert(b * (c + i) < 2 * p) by (nonlinear_arith)
                        requires
                            p == b * c,
                            b >= 1,
                            0 <= i < c,
                    ;
                }
                Ok((b * (c + i)) % p + timing.zeroth_flush)
            },
            Err(e) => Err(e),
        }
    }

    /// Phase of bin `bin_id` within the rotation of `level`: the remainder
    /// that the steps at which it flushes leave modulo the period.
    pub fn flush_step(&self, level: u32, bin_id: u32) -> (res: Result<u64, ScheduleError>)
        requires
            self.wf(),
        ensures
            match self.query_error(level, bin_id) {
                Some(e) => res == Err::<u64, ScheduleError>(e),
                None => res is Ok && res->Ok_0 == flush_step(
                    self.r(),
                    self.c(),
                    level as nat,
                    bin_id as nat,
                ),
            },
    {
        if bin_id >= self.num_bins {
            return Err(ScheduleError::OutOfRange);
        }
        match self.level_timing(level) {
            Ok(timing) => {
                let c: u64 = self.num_bins as u64;
                let i: u64 = bin_id as u64;
                let b: u64 = timing.bin_size;
                let p: u64 = timing.period;
                proof {
                    lemma_bin_size(self.r(), level as nat);
                    lemma_first_flush_bounds(self.r(), self.c(), level as nat);
                    assert(b * (c + i) < 2 * p) by (nonlinear_arith)
                        requires
                            p == b * c,
                            b >= 1,
                            0 <= i < c,
                    ;
                }
                Ok((b * (c + i) + timing.first_flush) % p)
            },
            Err(e) => Err(e),
        }
    }

    /// State of bin `bin_id` at step `timestep`, from the constants of its
    /// level.
    fn state_from_timing(
        &self,
        timing: &LevelTiming,
        level: u32,
        bin_id: u32,
        timestep: u32,
        partial: bool,
    ) -> (state: BinState)
        requires
            self.wf(),
            bin_id < self.num_bins,
            timing.describes(self.r(), self.c(), level as nat),
            timing.period <= u32::MAX,
        ensures
            state == self.status_at(level as nat, bin_id as nat, timestep as nat, partial),
    {
        let c: u64 = self.num_bins as u64;
        let i: u64 = bin_id as u64;
        let t: u64 = timestep as u64;
        let b: u64 = timing.bin_size;
        let p: u64 = timing.period;
        let first: u64 = timing.first_flush;
        let zeroth: u64 = timing.zeroth_flush;
        let ghost rn = self.r();
        let ghost cn = self.c();
        let ghost j = level as nat;
        proof {
            lemma_bin_size(rn, j);
            lemma_first_flush_bounds(rn, cn, j);
            assert(b * (c + i) < 2 * p && b * (c + i + 1) <= 2 * p && b <= p) by (nonlinear_arith)
                requires
                    p == b * c,
                    b >= 1,
                    c >= 1,
                    0 <= i < c,
            ;
        }
        let touch: u64 = (b * (c + i)) % p + zeroth;
        let align: u64 = p - zeroth % p;
        let own_flush: u64 = (b * (c + i) + first) % p;
        let next_flush: u64 = (b * (c + i + 1) + first) % p;
        let own: u64 = (own_flush + align) % p;
        let next: u64 = (next_flush + align) % p;
        let now: u64 = (t + align) % p;
        let after_own: bool = now >= (own + 1) % p;
        let filling: bool = if i + 1 == c {
            after_own
        } else {
            after_own && now < next % p
        };
        proof {
            assert(touch == touch_step(rn, cn, j, i as nat));
            assert(align == touch_mod(rn, cn, j));
            assert(own_flush == flush_step(rn, cn, j, i as nat));
            assert(next_flush == flush_step(rn, cn, j, (i + 1) as nat));
            assert(own == shifted(rn, cn, j, own_flush as int));
            assert(next == shifted(rn, cn, j, next_flush as int));
            assert(now == shifted(rn, cn, j, t as int));
            assert(filling == in_fill_window(rn, cn, j, i as nat, t as nat));
        }
        if t % p == own_flush && t >= first {
            BinState::Flushing
        } else if t < touch {
            BinState::Empty
        } else if partial && level > 0 && filling {
            proof {
                lemma_fill_numerator_bound(rn, cn, j, i as nat, t as nat);
                lemma_bin_size(rn, (j - 1) as nat);
            }
            let since: u64 = (now + (b - own % b)) % b;
            let arrived: u64 = since / timing.feeder_size;
            BinState::Filling { numerator: arrived as u32, denominator: self.expansion_factor }
        } else {
            BinState::Full
        }
    }

    /// State of bin `bin_id` of `level` at step `timestep`. With `partial`
    /// set, a bin below the first level that is being filled reports how
    /// far; otherwise such a bin counts as full.
    ///
    /// Fails with `OutOfRange` where the level or the bin does not exist,
    /// and with `ArithmeticOverflow` where the period of the level exceeds
    /// 32 bits. The result depends on nothing but the expansion factor, the
    /// number of bins and the four arguments.
    pub fn bin_status(&self, level: u32, bin_id: u32, timestep: u32, partial: bool) -> (res: Result<
        BinState,
        ScheduleError,
    >)
        requires
            self.wf(),
        ensures
            match self.query_error(level, bin_id) {
                Some(e) => res == Err::<BinState, ScheduleError>(e),
                None => res == Ok::<BinState, ScheduleError>(
                    self.status_at(level as nat, bin_id as nat, timestep as nat, partial),
                ),
            },
            match res {
                Ok(BinState::Filling { numerator, denominator }) => partial && level > 0
                    && numerator < denominator && denominator == self.expansion_factor
                    && numerator == fill_numerator(
                    self.r(),
                    self.c(),
                    level as nat,
                    bin_id as nat,
                    timestep as nat,
                ),
                _ => true,
            },
    {
        if bin_id >= self.num_bins {
            return Err(ScheduleError::OutOfRange);
        }
        match self.level_timing(level) {
            Ok(timing) => {
                proof {
                    if level > 0 {
                        lemma_fill_numerator_bound(
                            self.r(),
                            self.c(),
                            level as nat,
                            bin_id as nat,
                            timestep as nat,
                        );
                    }
                }
                Ok(self.state_from_timing(&timing, level, bin_id, timestep, partial))
            },
            Err(e) => Err(e),
        }
    }

    /// States of all bins of `level` at step `timestep`, by bin index.
    pub fn level_status(&self, level: u32, timestep: u32, partial: bool) -> (res: Result<
        Vec<BinState>,
        ScheduleError,
    >)
        requires
            self.wf(),
        ensures
            match self.level_error(level) {
                Some(e) => res == Err::<Vec<BinState>, ScheduleError>(e),
                None => res is Ok && res->Ok_0@.len() == self.num_bins && forall|i: int|
                    0 <= i < self.num_bins ==> #[trigger] res->Ok_0@[i] == self.status_at(
                        level as nat,
                        i as nat,
                        timestep as nat,
                        partial,
                    ),
            },
    {
        match self.level_timing(level) {
            Ok(timing) => {
                let mut row: Vec<BinState> = Vec::new();
                let mut i: u32 = 0;
                while i < self.num_bins
                    invariant
                        self.wf(),
                        i <= self.num_bins,
                        timing.describes(self.r(), self.c(), level as nat),
                        timing.period <= u32::MAX,
                        row@.len() == i,
                        forall|k: int|
                            0 <= k < i ==> #[trigger] row@[k] == self.status_at(
                                level as nat,
                                k as nat,
                                timestep as nat,
                                partial,
                            ),
                    decreases self.num_bins - i,
                {
                    let state = self.state_from_timing(&timing, level, i, timestep, partial);
                    row.push(state);
                    i = i + 1;
                }
                Ok(row)
            },
            Err(e) => Err(e),
        }
    }
}

} // verus!
