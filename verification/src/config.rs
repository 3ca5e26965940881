//! The configuration of the buffering structure and its validation.

use vstd::prelude::*;
use crate::schedule::bins_for_stretch;

verus! {

/// Why a configuration or a query was refused.
#[derive(Clone, Copy, Debug, PartialEq, Eq, Structural)]
pub enum ScheduleError {
    /// A size or the depth is zero, the expansion factor is below 2, or the
    /// time stretch lies outside `(0, 1]`.
    InvalidConfiguration,
    /// The level lies below the deepest one, or the bin outside its level.
    OutOfRange,
    /// A quantity of the schedule does not fit into 32 bits.
    ArithmeticOverflow,
}

/// Immutable parameters of the structure, with the constants derived from
/// them. The time stretch is the fraction `stretch_num / stretch_den`.
#[derive(Clone, Copy, Debug, PartialEq, Eq, Structural)]
pub struct LertVisualizer {
    pub ram_size: u32,
    pub disk_size: u32,
    pub depth: u32,
    pub expansion_factor: u32,
    pub stretch_num: u32,
    pub stretch_den: u32,
    pub num_bins: u32,
}

/// The inputs from which a configuration can be built.
pub open spec fn valid_parameters(
    ram_size: u32,
    disk_size: u32,
    expansion_factor: u32,
    depth: u32,
    stretch_num: u32,
    stretch_den: u32,
) -> bool {
    &&& ram_size > 0
    &&& disk_size > 0
    &&& expansion_factor >= 2
    &&& depth >= 1
    &&& 0 < stretch_num <= stretch_den
}

/// `q` is `den / num` rounded up: the least integer whose product with
/// `num` reaches `den`.
pub open spec fn is_ceil_quotient(q: int, num: int, den: int) -> bool {
    (q - 1) * num < den <= q * num
}

/// The rounding in `bins_for_stretch` is a ceiling.
pub proof fn lemma_bins_for_stretch(num: nat, den: nat)
    requires
        0 < num <= den,
    ensures
        is_ceil_quotient(bins_for_stretch(num, den) - 1, num as int, den as int),
        2 <= bins_for_stretch(num, den) <= den + 1,
{
    let n = num as int;
    let x = den + num - 1;
    let q = x / n;
    assert(x == n * q + x % n && 0 <= x % n < n) by {
        vstd::arithmetic::div_mod::lemma_fundamental_div_mod(x, n);
        vstd::arithmetic::div_mod::lemma_mod_bound(x, n);
    }
    assert((q - 1) * n == q * n - n && q * n == n * q) by (nonlinear_arith);
    assert(1 <= q <= den) by (nonlinear_arith)
        requires
            (q - 1) * n < den <= q * n,
            0 < n <= den,
    ;
}

impl LertVisualizer {
    /// What every configuration built by [`LertVisualizer::new`] satisfies.
    pub open spec fn wf(&self) -> bool {
        &&& valid_parameters(
            self.ram_size,
            self.disk_size,
            self.expansion_factor,
            self.depth,
            self.stretch_num,
            self.stretch_den,
        )
        &&& self.num_bins == bins_for_stretch(self.stretch_num as nat, self.stretch_den as nat)
        &&& self.num_bins >= 2
    }

    /// Expansion factor, as the model takes it.
    pub open spec fn r(&self) -> nat {
        self.expansion_factor as nat
    }

    /// Bins per level, as the model takes them.
    pub open spec fn c(&self) -> nat {
        self.num_bins as nat
    }

    /// Bins per level for the time stretch `stretch_num / stretch_den`.
    /// The count overflows only for the stretch `1 / u32::MAX`.
    pub fn bins_per_level(stretch_num: u32, stretch_den: u32) -> (res: Result<u32, ScheduleError>)
        ensures
            !(0 < stretch_num <= stretch_den) <==> res == Err::<u32, ScheduleError>(
                ScheduleError::InvalidConfiguration,
            ),
            0 < stretch_num <= stretch_den && bins_for_stretch(
                stretch_num as nat,
                stretch_den as nat,
            ) > u32::MAX <==> res == Err::<u32, ScheduleError>(ScheduleError::ArithmeticOverflow),
            res is Err ==> res->Err_0 != ScheduleError::OutOfRange,
            res is Ok ==> res->Ok_0 == bins_for_stretch(stretch_num as nat, stretch_den as nat)
                && res->Ok_0 >= 2,
    {
        if stretch_num == 0 || stretch_num > stretch_den {
            return Err(ScheduleError::InvalidConfiguration);
        }
        proof {
            lemma_bins_for_stretch(stretch_num as nat, stretch_den as nat);
        }
        let rounded: u64 = (stretch_den as u64 + stretch_num as u64 - 1) / (stretch_num as u64);
        let bins: u64 = rounded + 1;
        if bins > u32::MAX as u64 {
            Err(ScheduleError::ArithmeticOverflow)
        } else {
            Ok(bins as u32)
        }
    }

    /// Builds a configuration from the two sizes, the expansion factor, the
    /// depth and the time stretch `stretch_num / stretch_den`, and derives
    /// the number of bins per level.
    ///
    /// The depth is taken as given. It follows from the sizes through a
    /// logarithm to the base of the expansion factor, which is no integer
    /// operation: the caller evaluates it. Here it only has to be positive.
    pub fn new(
        ram_size: u32,
        disk_size: u32,
        expansion_factor: u32,
        depth: u32,
        stretch_num: u32,
        stretch_den: u32,
    ) -> (res: Result<LertVisualizer, ScheduleError>)
        ensures
            !valid_parameters(
                ram_size,
                disk_size,
                expansion_factor,
                depth,
                stretch_num,
                stretch_den,
            ) <==> res == Err::<LertVisualizer, ScheduleError>(
                ScheduleError::InvalidConfiguration,
            ),
            valid_parameters(
                ram_size,
                disk_size,
                expansion_factor,
                depth,
                stretch_num,
                stretch_den,
            ) && bins_for_stretch(stretch_num as nat, stretch_den as nat) > u32::MAX
                <==> res == Err::<LertVisualizer, ScheduleError>(
                ScheduleError::ArithmeticOverflow,
            ),
            res is Err ==> res->Err_0 != ScheduleError::OutOfRange,
            res is Ok ==> res->Ok_0 == (LertVisualizer {
                ram_size,
                disk_size,
                depth,
                expansion_factor,
                stretch_num,
                stretch_den,
                num_bins: bins_for_stretch(stretch_num as nat, stretch_den as nat) as u32,
            }) && res->Ok_0.wf(),
    {
        if ram_size == 0 || disk_size == 0 || expansion_factor < 2 || depth == 0 {
            return Err(ScheduleError::InvalidConfiguration);
        }
        match LertVisualizer::bins_per_level(stretch_num, stretch_den) {
            Ok(num_bins) => Ok(
                LertVisualizer {
                    ram_size,
                    disk_size,
                    depth,
                    expansion_factor,
                    stretch_num,
                    stretch_den,
                    num_bins,
                },
            ),
            Err(e) => Err(e),
        }
    }
}

} // verus!
