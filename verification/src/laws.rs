//! What the rotation guarantees, proved over the model.

use vstd::prelude::*;
use vstd::arithmetic::power::{pow, lemma_pow_positive, lemma_pow_increases};
use vstd::arithmetic::div_mod::{
    lemma_fundamental_div_mod,
    lemma_mod_bound,
    lemma_mod_breakdown,
    lemma_mod_equivalence,
    lemma_small_mod,
    lemma_mod_add_multiples_vanish,
    lemma_div_pos_is_pos,
};
use crate::schedule::{
    BinState,
    bin_size,
    period,
    warmup,
    first_flush,
    zeroth_flush,
    touch_step,
    flush_step,
    flushes_at,
    shifted,
    in_fill_window,
    steps_since_flush,
    fill_numerator,
    first_flush_of_bin,
    flusher,
    on_beat,
    touch_mod,
};
use crate::config::LertVisualizer;

verus! {

/// A bin stands for at least one step, and a deeper level multiplies the
/// size by `r`.
pub proof fn lemma_bin_size(r: nat, j: nat)
    requires
        r >= 1,
    ensures
        bin_size(r, j) >= 1,
        bin_size(r, j + 1) == r * bin_size(r, j),
{
    lemma_pow_positive(r as int, j);
    reveal(pow);
}

/// Periods do not shrink with the level.
pub proof fn lemma_period_increases(r: nat, c: nat, j: nat, k: nat)
    requires
        r >= 1,
        j <= k,
    ensures
        period(r, c, j) <= period(r, c, k),
{
    lemma_pow_increases(r, j, k);
    let a = bin_size(r, j);
    let b = bin_size(r, k);
    assert(a * c <= b * c) by (nonlinear_arith)
        requires
            a <= b,
            c >= 0,
    ;
}

/// The levels before `j` warm up in less than one rotation of level `j`.
pub proof fn lemma_warmup_bound(r: nat, c: nat, j: nat)
    requires
        r >= 2,
        c >= 1,
    ensures
        0 <= warmup(r, c, j) <= (bin_size(r, j) - 1) * (c - 1),
        warmup(r, c, j) < period(r, c, j),
    decreases j,
{
    lemma_bin_size(r, j);
    let b = bin_size(r, j);
    if j > 0 {
        let k = (j - 1) as nat;
        lemma_warmup_bound(r, c, k);
        lemma_bin_size(r, k);
        let a = bin_size(r, k);
        assert((a - 1) * (c - 1) + a * (c - 1) <= (r * a - 1) * (c - 1)) by (nonlinear_arith)
            requires
                r >= 2,
                a >= 1,
                c >= 1,
        ;
        assert(a * (c - 1) >= 0) by (nonlinear_arith)
            requires
                a >= 1,
                c >= 1,
        ;
    } else {
        assert((b - 1) * (c - 1) >= 0) by (nonlinear_arith)
            requires
                b >= 1,
                c >= 1,
        ;
    }
    assert((b - 1) * (c - 1) < b * c) by (nonlinear_arith)
        requires
            b >= 1,
            c >= 1,
    ;
}

/// The first flush of a level falls into its second rotation at the latest,
/// and lies less than one rotation after that of the level before it.
pub proof fn lemma_first_flush_bounds(r: nat, c: nat, j: nat)
    requires
        r >= 2,
        c >= 1,
    ensures
        period(r, c, j) >= 1,
        period(r, c, j) - 1 <= first_flush(r, c, j) < 2 * period(r, c, j) - 1,
        0 <= zeroth_flush(r, c, j) <= first_flush(r, c, j),
        j > 0 ==> first_flush(r, c, j) - zeroth_flush(r, c, j) == period(r, c, j) - bin_size(
            r,
            (j - 1) as nat,
        ),
{
    lemma_bin_size(r, j);
    lemma_warmup_bound(r, c, j);
    let b = bin_size(r, j);
    assert(b * c >= 1) by (nonlinear_arith)
        requires
            b >= 1,
            c >= 1,
    ;
    if j > 0 {
        let k = (j - 1) as nat;
        lemma_bin_size(r, k);
        lemma_warmup_bound(r, c, k);
        let a = bin_size(r, k);
        assert(a * c >= 1 && a * c - a == a * (c - 1) && (r * a) * c >= a) by (nonlinear_arith)
            requires
                a >= 1,
                c >= 1,
                r >= 2,
        ;
    }
}

/// Within a rotation of `c` bins of `b` steps each, the offset `d` has the
/// phase of bin `i` exactly when it is a whole number of bins and that
/// number is `i` modulo `c`.
pub proof fn lemma_rotation_phase(b: int, c: int, i: int, d: int)
    requires
        b > 0,
        c > 0,
        0 <= i < c,
        d >= 0,
    ensures
        d % (b * c) == b * i <==> (d % b == 0 && (d / b) % c == i),
{
    lemma_mod_breakdown(d, b, c);
    lemma_mod_bound(d, b);
    lemma_div_pos_is_pos(d, b);
    lemma_mod_bound(d / b, c);
    let q = (d / b) % c;
    let m = d % b;
    assert(b * q + m == b * i <==> (m == 0 && q == i)) by (nonlinear_arith)
        requires
            b > 0,
            0 <= m < b,
    ;
}

/// Bin `i` flushes at step `t` exactly when `t` lies a whole number of bins
/// after the first flush of the level, and that number is `i` modulo `c`.
pub proof fn lemma_flush_turns(r: nat, c: nat, j: nat, i: nat, t: nat)
    requires
        r >= 2,
        c >= 1,
        i < c,
    ensures
        flushes_at(r, c, j, i, t) <==> {
            let d = t - first_flush(r, c, j);
            d >= 0 && d % bin_size(r, j) == 0 && (d / bin_size(r, j)) % (c as int) == i
        },
{
    lemma_first_flush_bounds(r, c, j);
    lemma_bin_size(r, j);
    let b = bin_size(r, j);
    let p = period(r, c, j);
    let ff = first_flush(r, c, j);
    let d = t - ff;
    if d >= 0 {
        assert(b * (c + i) == p + b * i && 0 <= b * i < p) by (nonlinear_arith)
            requires
                p == b * c,
                b >= 1,
                0 <= i < c,
        ;
        lemma_mod_add_multiples_vanish(b * i + ff, p);
        assert(flush_step(r, c, j, i) == (b * i + ff) % p);
        lemma_mod_equivalence(t as int, b * i + ff, p);
        lemma_mod_equivalence(d, b * i, p);
        lemma_small_mod((b * i) as nat, p as nat);
        lemma_rotation_phase(b, c as int, i as int, d);
    }
}

/// On a level below the first, the fill numerator counts whole bins of the
/// level before it within one bin of this level, so it is less than `r`.
pub proof fn lemma_fill_numerator_bound(r: nat, c: nat, j: nat, i: nat, t: nat)
    requires
        r >= 2,
        c >= 1,
        j > 0,
    ensures
        0 <= steps_since_flush(r, c, j, i, t) < bin_size(r, j),
        0 <= fill_numerator(r, c, j, i, t) < r,
{
    let k = (j - 1) as nat;
    lemma_bin_size(r, k);
    lemma_bin_size(r, j);
    let a = bin_size(r, k);
    let b = bin_size(r, j);
    let s = steps_since_flush(r, c, j, i, t);
    let own = shifted(r, c, j, flush_step(r, c, j, i));
    lemma_mod_bound(shifted(r, c, j, t as int) + (b - own % b), b);
    lemma_fundamental_div_mod(s, a);
    lemma_mod_bound(s, a);
    let q = s / a;
    assert(0 <= q < r) by (nonlinear_arith)
        requires
            s == a * q + s % a,
            0 <= s % a < a,
            0 <= s < r * a,
            a >= 1,
    ;
}

/// A bin is touched no later than the level first flushes.
pub proof fn lemma_touch_step(r: nat, c: nat, j: nat, i: nat)
    requires
        r >= 2,
        c >= 1,
        i < c,
    ensures
        touch_step(r, c, j, i) == bin_size(r, j) * i + zeroth_flush(r, c, j),
        0 <= touch_step(r, c, j, i) <= first_flush(r, c, j),
        touch_step(r, c, j, i) <= first_flush_of_bin(r, c, j, i),
{
    lemma_first_flush_bounds(r, c, j);
    lemma_bin_size(r, j);
    let b = bin_size(r, j);
    let p = period(r, c, j);
    assert(b * (c + i) == p + b * i && 0 <= b * i <= p - b) by (nonlinear_arith)
        requires
            p == b * c,
            b >= 1,
            0 <= i < c,
    ;
    lemma_mod_add_multiples_vanish(b * i, p);
    lemma_small_mod((b * i) as nat, p as nat);
    if j > 0 {
        lemma_bin_size(r, (j - 1) as nat);
        let a = bin_size(r, (j - 1) as nat);
        assert(a <= r * a) by (nonlinear_arith)
            requires
                a >= 1,
                r >= 2,
        ;
    }
}

/// On level 0 every step from the first flush on is a flush step.
pub proof fn lemma_top_level_on_beat(r: nat, c: nat, t: nat)
    requires
        t >= first_flush(r, c, 0),
    ensures
        on_beat(r, c, 0, t),
{
    vstd::arithmetic::power::lemma_pow0(r as int);
}

/// Periodicity: from the first flush of its level on, the state of a bin
/// repeats with the period of the level.
pub proof fn lemma_status_periodic(cfg: LertVisualizer, j: nat, i: nat, t: nat, partial: bool)
    requires
        cfg.wf(),
        i < cfg.c(),
        t >= first_flush(cfg.r(), cfg.c(), j),
    ensures
        period(cfg.r(), cfg.c(), j) >= 1,
        cfg.status_at(j, i, t, partial) == cfg.status_at(
            j,
            i,
            (t + period(cfg.r(), cfg.c(), j)) as nat,
            partial,
        ),
{
    let r = cfg.r();
    let c = cfg.c();
    let p = period(r, c, j);
    lemma_first_flush_bounds(r, c, j);
    lemma_touch_step(r, c, j, i);
    lemma_mod_add_multiples_vanish(t as int, p);
    lemma_mod_add_multiples_vanish(t + touch_mod(r, c, j), p);
    let u = (t + p) as nat;
    assert(shifted(r, c, j, u as int) == shifted(r, c, j, t as int));
    assert(flushes_at(r, c, j, i, u) == flushes_at(r, c, j, i, t));
    assert(in_fill_window(r, c, j, i, u) == in_fill_window(r, c, j, i, t));
    assert(steps_since_flush(r, c, j, i, u) == steps_since_flush(r, c, j, i, t));
}

/// Single flusher: at every flush step of a level exactly one of its bins
/// flushes, the one that `flusher` names.
pub proof fn lemma_single_flusher(cfg: LertVisualizer, j: nat, t: nat, partial: bool)
    requires
        cfg.wf(),
        on_beat(cfg.r(), cfg.c(), j, t),
    ensures
        0 <= flusher(cfg.r(), cfg.c(), j, t) < cfg.c(),
        cfg.status_at(j, flusher(cfg.r(), cfg.c(), j, t) as nat, t, partial) == BinState::Flushing,
        forall|i: nat|
            i < cfg.c() && i != flusher(cfg.r(), cfg.c(), j, t) ==> #[trigger] cfg.status_at(
                j,
                i,
                t,
                partial,
            ) != BinState::Flushing,
{
    let r = cfg.r();
    let c = cfg.c();
    lemma_bin_size(r, j);
    let d = t - first_flush(r, c, j);
    lemma_div_pos_is_pos(d, bin_size(r, j));
    lemma_mod_bound(d / bin_size(r, j), c as int);
    lemma_flush_turns(r, c, j, flusher(r, c, j, t) as nat, t);
    assert forall|i: nat| i < c && i != flusher(r, c, j, t) implies #[trigger] cfg.status_at(
        j,
        i,
        t,
        partial,
    ) != BinState::Flushing by {
        lemma_flush_turns(r, c, j, i, t);
    }
}

/// Between two flush steps of a level, and before its first, none of its
/// bins flushes.
pub proof fn lemma_no_flusher_off_beat(cfg: LertVisualizer, j: nat, i: nat, t: nat, partial: bool)
    requires
        cfg.wf(),
        i < cfg.c(),
        !on_beat(cfg.r(), cfg.c(), j, t),
    ensures
        cfg.status_at(j, i, t, partial) != BinState::Flushing,
{
    lemma_flush_turns(cfg.r(), cfg.c(), j, i, t);
}

/// Full rotation coverage: within the first rotation after the first flush
/// of a level, each bin flushes at exactly one step, its own first flush.
pub proof fn lemma_rotation_coverage(cfg: LertVisualizer, j: nat, i: nat, t: nat, partial: bool)
    requires
        cfg.wf(),
        i < cfg.c(),
        first_flush(cfg.r(), cfg.c(), j) <= t < first_flush(cfg.r(), cfg.c(), j) + period(
            cfg.r(),
            cfg.c(),
            j,
        ),
    ensures
        first_flush(cfg.r(), cfg.c(), j) <= first_flush_of_bin(cfg.r(), cfg.c(), j, i)
            < first_flush(cfg.r(), cfg.c(), j) + period(cfg.r(), cfg.c(), j),
        cfg.status_at(j, i, t, partial) == BinState::Flushing <==> t == first_flush_of_bin(
            cfg.r(),
            cfg.c(),
            j,
            i,
        ),
{
    let r = cfg.r();
    let c = cfg.c();
    lemma_bin_size(r, j);
    lemma_flush_turns(r, c, j, i, t);
    let b = bin_size(r, j);
    let p = period(r, c, j);
    let d = t - first_flush(r, c, j);
    let q = d / b;
    lemma_fundamental_div_mod(d, b);
    lemma_mod_bound(d, b);
    assert(0 <= q < c) by (nonlinear_arith)
        requires
            d == b * q + d % b,
            0 <= d % b < b,
            0 <= d < b * c,
            b >= 1,
    ;
    lemma_small_mod(q as nat, c);
    assert(0 <= b * i < b * c) by (nonlinear_arith)
        requires
            b >= 1,
            0 <= i < c,
    ;
    assert(d == b * i <==> (d % b == 0 && q == i)) by (nonlinear_arith)
        requires
            d == b * q + d % b,
            0 <= d % b < b,
            b >= 1,
    ;
}

/// Touch before flush: a bin is touched no later than it first flushes, it
/// does flush at that step, and it never flushes earlier.
pub proof fn lemma_touch_before_flush(cfg: LertVisualizer, j: nat, i: nat, t: nat, partial: bool)
    requires
        cfg.wf(),
        i < cfg.c(),
    ensures
        0 <= touch_step(cfg.r(), cfg.c(), j, i) <= first_flush_of_bin(cfg.r(), cfg.c(), j, i),
        cfg.status_at(j, i, first_flush_of_bin(cfg.r(), cfg.c(), j, i) as nat, partial)
            == BinState::Flushing,
        cfg.status_at(j, i, t, partial) == BinState::Flushing ==> t >= first_flush_of_bin(
            cfg.r(),
            cfg.c(),
            j,
            i,
        ),
{
    let r = cfg.r();
    let c = cfg.c();
    lemma_touch_step(r, c, j, i);
    lemma_bin_size(r, j);
    lemma_first_flush_bounds(r, c, j);
    let b = bin_size(r, j);
    let ff = first_flush(r, c, j);
    assert(0 <= b * i < b * c) by (nonlinear_arith)
        requires
            b >= 1,
            0 <= i < c,
    ;
    let u = first_flush_of_bin(r, c, j, i) as nat;
    lemma_flush_turns(r, c, j, i, u);
    lemma_small_mod((b * i) as nat, (b * c) as nat);
    lemma_rotation_phase(b, c as int, i as int, b * i);
    lemma_flush_turns(r, c, j, i, t);
    let d = t - ff;
    if d >= 0 && d % b == 0 && (d / b) % (c as int) == i {
        let q = d / b;
        lemma_fundamental_div_mod(d, b);
        lemma_div_pos_is_pos(d, b);
        lemma_fundamental_div_mod(q, c as int);
        lemma_div_pos_is_pos(q, c as int);
        assert(q >= i) by (nonlinear_arith)
            requires
                q == c * (q / (c as int)) + i,
                q / (c as int) >= 0,
                c >= 1,
        ;
        assert(b * q >= b * i) by (nonlinear_arith)
            requires
                q >= i,
                b >= 1,
        ;
    }
}

/// Round robin: two bins of a level never share a phase of its rotation.
pub proof fn lemma_flush_steps_distinct(cfg: LertVisualizer, j: nat, i: nat, k: nat)
    requires
        cfg.wf(),
        i < cfg.c(),
        k < cfg.c(),
        i != k,
    ensures
        flush_step(cfg.r(), cfg.c(), j, i) != flush_step(cfg.r(), cfg.c(), j, k),
{
    let r = cfg.r();
    let c = cfg.c();
    let t = first_flush_of_bin(r, c, j, i) as nat;
    lemma_touch_before_flush(cfg, j, i, t, false);
    lemma_flush_turns(r, c, j, i, t);
    lemma_flush_turns(r, c, j, k, t);
}

/// On level 0 a bin stands for one step, the period is the number of bins
/// and the first flush comes at step `c - 1`.
pub proof fn lemma_top_level(r: nat, c: nat)
    ensures
        bin_size(r, 0) == 1,
        period(r, c, 0) == c,
        first_flush(r, c, 0) == c - 1,
        zeroth_flush(r, c, 0) == 0,
{
    vstd::arithmetic::power::lemma_pow0(r as int);
}

/// Fraction bounds: a filling bin is strictly less than full. Its fraction
/// has the expansion factor as denominator, and arises only with `partial`
/// set and below the first level.
pub proof fn lemma_fraction_bounds(cfg: LertVisualizer, j: nat, i: nat, t: nat, partial: bool)
    requires
        cfg.wf(),
    ensures
        match cfg.status_at(j, i, t, partial) {
            BinState::Filling { numerator, denominator } => {
                &&& 0 <= numerator < denominator
                &&& denominator == cfg.expansion_factor
                &&& numerator == fill_numerator(cfg.r(), cfg.c(), j, i, t)
                &&& partial
                &&& j > 0
            },
            _ => true,
        },
{
    if j > 0 {
        lemma_fill_numerator_bound(cfg.r(), cfg.c(), j, i, t);
    }
}

/// The state of a bin is a function of the expansion factor, the number of
/// bins and the query: configurations that agree on the two answer every
/// query alike.
pub proof fn lemma_status_determined(
    a: LertVisualizer,
    b: LertVisualizer,
    j: nat,
    i: nat,
    t: nat,
    partial: bool,
)
    requires
        a.expansion_factor == b.expansion_factor,
        a.num_bins == b.num_bins,
    ensures
        a.status_at(j, i, t, partial) == b.status_at(j, i, t, partial),
{
}

} // verus!
