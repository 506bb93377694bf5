//! The scalar constants of the Gray-Scott model, all fixed-point values
//! scaled by [`crate::fixed::SCALE`]. They are immutable for the lifetime
//! of a run; changing them between runs is an explicit operation.

use vstd::prelude::*;
use crate::fixed::{fmul, SCALE};

verus! {

/// Feed rate `F`, kill rate `K`, the two diffusion coefficients, the grid
/// cell spacing `dx` and the integration time step `dt`.
#[derive(Clone, Copy, PartialEq, Eq, Structural, Debug)]
pub struct ModelParameters {
    pub feed_rate: i64,
    pub kill_rate: i64,
    pub diffusion_u: i64,
    pub diffusion_v: i64,
    pub cell_spacing: i64,
    pub time_delta: i64,
}

impl ModelParameters {
    /// The squared cell spacing, as a fixed-point value. The Laplacian
    /// divides by it, so well-formed parameters keep it at least one.
    pub open spec fn dx_sq(self) -> int {
        fmul(self.cell_spacing as int, self.cell_spacing as int)
    }

    /// Parameter ranges under which a reaction-diffusion step is exact and
    /// free of overflow: rates and coefficients in `[0, 1]`, a positive
    /// time step of at most one unit, and a cell spacing whose square is
    /// at least one fixed-point quantum.
    pub open spec fn wf(self) -> bool {
        &&& 0 <= self.feed_rate <= SCALE
        &&& 0 <= self.kill_rate <= SCALE
        &&& 0 <= self.diffusion_u <= SCALE
        &&& 0 <= self.diffusion_v <= SCALE
        &&& 0 < self.cell_spacing <= SCALE
        &&& 1 <= self.time_delta <= SCALE
        &&& self.dx_sq() >= 1
    }

    /// The squared cell spacing as a runtime value.
    pub fn dx_sq_val(&self) -> (d: i64)
        requires
            self.wf(),
        ensures
            d == self.dx_sq(),
            1 <= d <= SCALE,
    {
        proof {
            assert(0 < self.cell_spacing * self.cell_spacing <= SCALE * SCALE) by (nonlinear_arith)
                requires
                    0 < self.cell_spacing <= SCALE;
            crate::fixed::lemma_div_quotient_in_range(
                (self.cell_spacing * self.cell_spacing) as int,
                SCALE as int,
            );
            vstd::arithmetic::div_mod::lemma_div_is_ordered(
                self.cell_spacing * self.cell_spacing,
                SCALE * SCALE,
                SCALE as int,
            );
            vstd::arithmetic::div_mod::lemma_div_by_multiple(SCALE as int, SCALE as int);
        }
        let sq = self.cell_spacing * self.cell_spacing;
        sq / SCALE
    }

    /// Runtime form of [`ModelParameters::wf`], for callers outside
    /// verified code.
    pub fn is_valid(&self) -> (valid: bool)
        ensures
            valid == self.wf(),
    {
        if 0 <= self.feed_rate && self.feed_rate <= SCALE && 0 <= self.kill_rate && self.kill_rate
            <= SCALE && 0 <= self.diffusion_u && self.diffusion_u <= SCALE && 0
            <= self.diffusion_v && self.diffusion_v <= SCALE && 0 < self.cell_spacing
            && self.cell_spacing <= SCALE && 1 <= self.time_delta && self.time_delta <= SCALE {
            assert(self.cell_spacing * self.cell_spacing <= SCALE * SCALE) by (nonlinear_arith)
                requires
                    0 < self.cell_spacing <= SCALE;
            let sq = self.cell_spacing * self.cell_spacing;
            proof {
                crate::fixed::lemma_div_quotient_in_range(sq as int, SCALE as int);
            }
            sq / SCALE >= 1
        } else {
            false
        }
    }
}

} // verus!
