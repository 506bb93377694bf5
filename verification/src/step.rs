//! One reaction-diffusion step of the Gray-Scott model: a pure function of
//! the pre-step field pair and the parameters. Both new fields are
//! computed entirely from the old `u` and `v`; no cell ever observes an
//! already-updated value from the same step.

use vstd::prelude::*;
use crate::fixed::{fmul, lemma_fmul_bound, mul_scaled, SCALE};
use crate::grid::{lemma_index_fits, Grid};
use crate::laplacian::{lap_cell, LAP_LIMIT};
use crate::model::{
    euler_u,
    euler_v,
    in_range,
    reaction,
    step_field_u,
    step_field_v,
    step_u_at,
    step_v_at,
    CELL_LIMIT,
};
use crate::params::ModelParameters;

verus! {

/// Largest magnitude one Euler update can produce from in-range inputs.
pub const STEP_LIMIT: i64 = 0x2000_0000_0000_0000;

/// The reaction term of in-range cells is bounded well inside the step
/// budget.
proof fn lemma_reaction_bound(uc: int, vc: int)
    requires
        -CELL_LIMIT <= uc <= CELL_LIMIT,
        -CELL_LIMIT <= vc <= CELL_LIMIT,
    ensures
        -0x1000_0000_0000_0000 <= reaction(uc, vc) <= 0x1000_0000_0000_0000,
        -0x4001_0000_0000 <= fmul(uc, vc) <= 0x4001_0000_0000,
{
    lemma_fmul_bound(uc, vc, CELL_LIMIT as int, CELL_LIMIT as int);
    lemma_fmul_bound(fmul(uc, vc), vc, 0x4001_0000_0000, CELL_LIMIT as int);
}

/// Forward Euler update of one `u` cell, exact over fixed-point values.
fn euler_cell_u(uc: i64, vc: i64, lap_u: i64, p: &ModelParameters) -> (nu: i64)
    requires
        p.wf(),
        -CELL_LIMIT <= uc <= CELL_LIMIT,
        -CELL_LIMIT <= vc <= CELL_LIMIT,
        -LAP_LIMIT <= lap_u <= LAP_LIMIT,
    ensures
        nu as int == euler_u(uc as int, vc as int, lap_u as int, *p),
        -STEP_LIMIT <= nu <= STEP_LIMIT,
{
    proof {
        lemma_fmul_bound(p.diffusion_u as int, lap_u as int, SCALE as int, LAP_LIMIT as int);
        lemma_reaction_bound(uc as int, vc as int);
        lemma_fmul_bound(p.feed_rate as int, SCALE - uc, SCALE as int, SCALE + CELL_LIMIT);
    }
    let diffusion = mul_scaled(p.diffusion_u as i128, lap_u as i128);
    let uv = mul_scaled(uc as i128, vc as i128);
    let uvv = mul_scaled(uv, vc as i128);
    let feed = mul_scaled(p.feed_rate as i128, SCALE as i128 - uc as i128);
    let du = diffusion - uvv + feed;
    proof {
        lemma_fmul_bound(p.time_delta as int, du as int, SCALE as int, 0x1200_0000_0000_0000);
    }
    let dtdu = mul_scaled(p.time_delta as i128, du);
    let nu = uc as i128 + dtdu;
    nu as i64
}

/// Forward Euler update of one `v` cell, exact over fixed-point values.
fn euler_cell_v(uc: i64, vc: i64, lap_v: i64, p: &ModelParameters) -> (nv: i64)
    requires
        p.wf(),
        -CELL_LIMIT <= uc <= CELL_LIMIT,
        -CELL_LIMIT <= vc <= CELL_LIMIT,
        -LAP_LIMIT <= lap_v <= LAP_LIMIT,
    ensures
        nv as int == euler_v(uc as int, vc as int, lap_v as int, *p),
        -STEP_LIMIT <= nv <= STEP_LIMIT,
{
    proof {
        lemma_fmul_bound(p.diffusion_v as int, lap_v as int, SCALE as int, LAP_LIMIT as int);
        lemma_reaction_bound(uc as int, vc as int);
        lemma_fmul_bound(
            p.feed_rate + p.kill_rate,
            vc as int,
            2 * SCALE as int,
            CELL_LIMIT as int,
        );
    }
    let diffusion = mul_scaled(p.diffusion_v as i128, lap_v as i128);
    let uv = mul_scaled(uc as i128, vc as i128);
    let uvv = mul_scaled(uv, vc as i128);
    let decay = mul_scaled(p.feed_rate as i128 + p.kill_rate as i128, vc as i128);
    let dv = diffusion + uvv - decay;
    proof {
        lemma_fmul_bound(p.time_delta as int, dv as int, SCALE as int, 0x1200_0000_0000_0000);
    }
    let dtdv = mul_scaled(p.time_delta as i128, dv);
    let nv = vc as i128 + dtdv;
    nv as i64
}

/// One reaction-diffusion step: from the field pair `(u, v)` and the
/// parameters to the new pair `(u', v')`, every cell an exact fixed-point
/// evaluation of the Gray-Scott update equations against the pre-step
/// fields.
pub fn step(u: &Grid, v: &Grid, p: &ModelParameters) -> (out: (Grid, Grid))
    requires
        u.wf(),
        v.wf(),
        u.same_dims(v),
        in_range(u.sview()),
        in_range(v.sview()),
        p.wf(),
    ensures
        out.0.wf(),
        out.1.wf(),
        out.0.same_dims(u),
        out.1.same_dims(u),
        out.0.sview() == step_field_u(
            u.sview(),
            v.sview(),
            u.width_spec(),
            u.height_spec(),
            *p,
        ),
        out.1.sview() == step_field_v(
            u.sview(),
            v.sview(),
            u.width_spec(),
            u.height_spec(),
            *p,
        ),
{
    let w = u.width();
    let h = u.height();
    let dxsq = p.dx_sq_val();
    let mut new_u: Vec<i64> = Vec::new();
    let mut new_v: Vec<i64> = Vec::new();
    let mut r: usize = 0;
    while r < h
        invariant
            r <= h,
            u.wf(),
            v.wf(),
            u.same_dims(v),
            in_range(u.sview()),
            in_range(v.sview()),
            p.wf(),
            w == u.width_spec(),
            h == u.height_spec(),
            1 <= dxsq <= SCALE,
            dxsq == p.dx_sq(),
            new_u@.len() == r * w,
            new_v@.len() == r * w,
            forall|i: int|
                0 <= i < r * w ==> #[trigger] new_u@[i] == step_u_at(
                    u.sview(),
                    v.sview(),
                    w as int,
                    h as int,
                    *p,
                    i / (w as int),
                    i % (w as int),
                ),
            forall|i: int|
                0 <= i < r * w ==> #[trigger] new_v@[i] == step_v_at(
                    u.sview(),
                    v.sview(),
                    w as int,
                    h as int,
                    *p,
                    i / (w as int),
                    i % (w as int),
                ),
        decreases h - r,
    {
        let mut c: usize = 0;
        while c < w
            invariant
                r < h,
                c <= w,
                u.wf(),
                v.wf(),
                u.same_dims(v),
                in_range(u.sview()),
                in_range(v.sview()),
                p.wf(),
                w == u.width_spec(),
                h == u.height_spec(),
                1 <= dxsq <= SCALE,
                dxsq == p.dx_sq(),
                new_u@.len() == r * w + c,
                new_v@.len() == r * w + c,
                forall|i: int|
                    0 <= i < r * w + c ==> #[trigger] new_u@[i] == step_u_at(
                        u.sview(),
                        v.sview(),
                        w as int,
                        h as int,
                        *p,
                        i / (w as int),
                        i % (w as int),
                    ),
                forall|i: int|
                    0 <= i < r * w + c ==> #[trigger] new_v@[i] == step_v_at(
                        u.sview(),
                        v.sview(),
                        w as int,
                        h as int,
                        *p,
                        i / (w as int),
                        i % (w as int),
                    ),
            decreases w - c,
        {
            proof {
                lemma_index_fits(w as int, h as int, r as int, c as int);
            }
            let uc = u.get(r, c);
            let vc = v.get(r, c);
            let lap_u = lap_cell(u, dxsq, r, c);
            let lap_v = lap_cell(v, dxsq, r, c);
            let nu = euler_cell_u(uc, vc, lap_u, p);
            let nv = euler_cell_v(uc, vc, lap_v, p);
            new_u.push(nu);
            new_v.push(nv);
            c = c + 1;
        }
        proof {
            assert(r * w + w == (r + 1) * w) by (nonlinear_arith);
        }
        r = r + 1;
    }
    proof {
        assert(h * w == w * h) by (nonlinear_arith);
    }
    let gu = Grid::from_cells(w, h, new_u);
    let gv = Grid::from_cells(w, h, new_v);
    proof {
        assert(gu.sview() =~= step_field_u(
            u.sview(),
            v.sview(),
            u.width_spec(),
            u.height_spec(),
            *p,
        ));
        assert(gv.sview() =~= step_field_v(
            u.sview(),
            v.sview(),
            u.width_spec(),
            u.height_spec(),
            *p,
        ));
    }
    (gu, gv)
}

} // verus!
