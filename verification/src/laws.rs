//! The general laws of the engine, each proved once and for all inputs:
//! the toroidal shift's full-cycle identity, the vanishing Laplacian of
//! uniform fields, the inertness of an absent reactant, and the step's
//! determinism.

use vstd::prelude::*;
use crate::fixed::{fmul, SCALE};
use crate::model::{
    euler_v,
    iter_shift,
    lap_at,
    lemma_lin_bounds,
    lemma_wrap_by_turn,
    lin,
    neighbor_sum,
    reaction,
    shift_seq,
    shift_source,
    step_field_u,
    step_field_v,
    step_u_at,
    step_v_at,
    uniform,
    wrap,
    Axis,
};
use crate::params::ModelParameters;

verus! {

/// Shifting one cell at a time `n` times is one shift by `n`: repeated
/// single rotations accumulate into one wrapped offset.
pub proof fn lemma_shift_accumulates(s: Seq<int>, w: int, h: int, axis: Axis, n: nat)
    requires
        1 <= w,
        1 <= h,
        s.len() == w * h,
    ensures
        iter_shift(s, w, h, axis, n) == shift_seq(s, w, h, n as int, axis),
    decreases n,
{
    if n == 0 {
        assert forall|i: int| 0 <= i < s.len() implies shift_seq(s, w, h, 0, axis)[i] == s[i] by {
            let r = i / w;
            let c = i % w;
            lemma_index_decomposition(i, w, h);
            vstd::arithmetic::div_mod::lemma_small_mod(r as nat, h as nat);
            vstd::arithmetic::div_mod::lemma_small_mod(c as nat, w as nat);
            lemma_lin_bounds(w, h, r, c);
        }
        assert(iter_shift(s, w, h, axis, 0) =~= shift_seq(s, w, h, 0, axis));
    } else {
        lemma_shift_accumulates(s, w, h, axis, (n - 1) as nat);
        let prev = shift_seq(s, w, h, n - 1, axis);
        assert forall|i: int|
            0 <= i < s.len() implies shift_seq(prev, w, h, 1, axis)[i] == shift_seq(
            s,
            w,
            h,
            n as int,
            axis,
        )[i] by {
            let r = i / w;
            let c = i % w;
            lemma_index_decomposition(i, w, h);
            match axis {
                Axis::Row => {
                    let r1 = wrap(r + 1, h);
                    vstd::arithmetic::div_mod::lemma_mod_bound(r + 1, h);
                    lemma_lin_bounds(w, h, r1, c);
                    lemma_index_decomposition(lin(w, r1, c), w, h);
                    vstd::arithmetic::div_mod::lemma_add_mod_noop_right(n - 1, r + 1, h);
                    assert(wrap(r1 + (n - 1), h) == wrap(r + n, h));
                    vstd::arithmetic::div_mod::lemma_mod_bound(r + n, h);
                    lemma_lin_bounds(w, h, wrap(r + n, h), c);
                },
                Axis::Col => {
                    let c1 = wrap(c + 1, w);
                    vstd::arithmetic::div_mod::lemma_mod_bound(c + 1, w);
                    lemma_lin_bounds(w, h, r, c1);
                    lemma_index_decomposition(lin(w, r, c1), w, h);
                    vstd::arithmetic::div_mod::lemma_add_mod_noop_right(n - 1, c + 1, w);
                    assert(wrap(c1 + (n - 1), w) == wrap(c + n, w));
                    vstd::arithmetic::div_mod::lemma_mod_bound(c + n, w);
                    lemma_lin_bounds(w, h, r, wrap(c + n, w));
                },
            }
        }
        assert(iter_shift(s, w, h, axis, n) =~= shift_seq(s, w, h, n as int, axis));
    }
}

/// Full-cycle identity of the toroidal wrap: shifting by one cell, as many
/// times as the axis is long, returns the original grid unchanged.
pub proof fn lemma_shift_full_cycle(s: Seq<int>, w: int, h: int, axis: Axis)
    requires
        1 <= w,
        1 <= h,
        s.len() == w * h,
    ensures
        iter_shift(
            s,
            w,
            h,
            axis,
            (match axis {
                Axis::Row => h,
                Axis::Col => w,
            }) as nat,
        ) == s,
{
    let d: int = match axis {
        Axis::Row => h,
        Axis::Col => w,
    };
    lemma_shift_accumulates(s, w, h, axis, d as nat);
    assert forall|i: int| 0 <= i < s.len() implies shift_seq(s, w, h, d, axis)[i] == s[i] by {
        let r = i / w;
        let c = i % w;
        lemma_index_decomposition(i, w, h);
        match axis {
            Axis::Row => {
                vstd::arithmetic::div_mod::lemma_mod_multiples_vanish(1, r, h);
                assert(h * 1 + r == r + h);
                vstd::arithmetic::div_mod::lemma_small_mod(r as nat, h as nat);
                lemma_lin_bounds(w, h, r, c);
            },
            Axis::Col => {
                vstd::arithmetic::div_mod::lemma_mod_multiples_vanish(1, c, w);
                assert(w * 1 + c == c + w);
                vstd::arithmetic::div_mod::lemma_small_mod(c as nat, w as nat);
                lemma_lin_bounds(w, h, r, c);
            },
        }
    }
    assert(shift_seq(s, w, h, d, axis) =~= s);
}

/// The Laplacian of a uniform field is zero in every cell, exactly: with
/// all four neighbours equal to the cell itself, the stencil cancels.
pub proof fn lemma_laplacian_uniform_zero(
    s: Seq<int>,
    w: int,
    h: int,
    dxsq: int,
    k: int,
    r: int,
    c: int,
)
    requires
        2 <= w,
        2 <= h,
        s.len() == w * h,
        uniform(s, k),
        1 <= dxsq,
        0 <= r < h,
        0 <= c < w,
    ensures
        lap_at(s, w, h, dxsq, r, c) == 0,
{
    lemma_wrap_by_turn(r, -1, h);
    lemma_wrap_by_turn(r, 1, h);
    lemma_wrap_by_turn(c, -1, w);
    lemma_wrap_by_turn(c, 1, w);
    lemma_lin_bounds(w, h, wrap(r - 1, h), c);
    lemma_lin_bounds(w, h, wrap(r + 1, h), c);
    lemma_lin_bounds(w, h, r, wrap(c - 1, w));
    lemma_lin_bounds(w, h, r, wrap(c + 1, w));
    lemma_lin_bounds(w, h, r, c);
    assert(neighbor_sum(s, w, h, r, c) - 4 * s[lin(w, r, c)] == 0);
    vstd::arithmetic::div_mod::lemma_div_basics(dxsq);
}

/// Multiplying by a zero factor yields zero in fixed point.
proof fn lemma_fmul_zero(a: int)
    ensures
        fmul(a, 0) == 0,
        fmul(0, a) == 0,
{
    vstd::arithmetic::div_mod::lemma_div_basics(SCALE as int);
}

/// Without both reactants present no reaction fires: a step on an all-zero
/// `v` field leaves `v` exactly unchanged, and changes `u` only through
/// diffusion and the feed replenishment term.
pub proof fn lemma_zero_v_is_inert(
    u: Seq<int>,
    v: Seq<int>,
    w: int,
    h: int,
    p: ModelParameters,
)
    requires
        2 <= w,
        2 <= h,
        u.len() == w * h,
        v.len() == w * h,
        uniform(v, 0),
        p.wf(),
    ensures
        step_field_v(u, v, w, h, p) == v,
        forall|r: int, c: int|
            0 <= r < h && 0 <= c < w ==> #[trigger] step_u_at(u, v, w, h, p, r, c) == u[lin(
                w,
                r,
                c,
            )] + fmul(
                p.time_delta as int,
                fmul(p.diffusion_u as int, lap_at(u, w, h, p.dx_sq(), r, c)) + fmul(
                    p.feed_rate as int,
                    SCALE - u[lin(w, r, c)],
                ),
            ),
{
    assert forall|r: int, c: int| 0 <= r < h && 0 <= c < w implies #[trigger] step_v_at(
        u,
        v,
        w,
        h,
        p,
        r,
        c,
    ) == 0 by {
        lemma_step_on_zero_v_cell(u, v, w, h, p, r, c);
    }
    assert forall|r: int, c: int| 0 <= r < h && 0 <= c < w implies #[trigger] step_u_at(
        u,
        v,
        w,
        h,
        p,
        r,
        c,
    ) == u[lin(w, r, c)] + fmul(
        p.time_delta as int,
        fmul(p.diffusion_u as int, lap_at(u, w, h, p.dx_sq(), r, c)) + fmul(
            p.feed_rate as int,
            SCALE - u[lin(w, r, c)],
        ),
    ) by {
        lemma_step_on_zero_v_cell(u, v, w, h, p, r, c);
    }
    assert forall|i: int| 0 <= i < v.len() implies step_field_v(u, v, w, h, p)[i] == v[i] by {
        lemma_index_decomposition(i, w, h);
        assert(step_v_at(u, v, w, h, p, i / w, i % w) == 0);
    }
    assert(step_field_v(u, v, w, h, p) =~= v);
}

/// One cell of a step on an all-zero `v` field: the reaction term
/// vanishes, `v` stays zero, and `u` moves by diffusion and feed alone.
proof fn lemma_step_on_zero_v_cell(
    u: Seq<int>,
    v: Seq<int>,
    w: int,
    h: int,
    p: ModelParameters,
    r: int,
    c: int,
)
    requires
        2 <= w,
        2 <= h,
        u.len() == w * h,
        v.len() == w * h,
        uniform(v, 0),
        p.wf(),
        0 <= r < h,
        0 <= c < w,
    ensures
        step_v_at(u, v, w, h, p, r, c) == 0,
        step_u_at(u, v, w, h, p, r, c) == u[lin(w, r, c)] + fmul(
            p.time_delta as int,
            fmul(p.diffusion_u as int, lap_at(u, w, h, p.dx_sq(), r, c)) + fmul(
                p.feed_rate as int,
                SCALE - u[lin(w, r, c)],
            ),
        ),
{
    lemma_lin_bounds(w, h, r, c);
    let uc = u[lin(w, r, c)];
    lemma_fmul_zero(uc);
    lemma_fmul_zero(fmul(uc, 0));
    assert(reaction(uc, 0) == 0);
    lemma_laplacian_uniform_zero(v, w, h, p.dx_sq(), 0, r, c);
    lemma_fmul_zero(p.diffusion_v as int);
    lemma_fmul_zero(p.feed_rate + p.kill_rate);
    lemma_fmul_zero(p.time_delta as int);
    assert(euler_v(uc, 0, 0, p) == 0);
}

/// The step is deterministic: it is a mathematical function of the field
/// pair and the parameters alone, with no hidden state, so equal inputs
/// give bit-identical outputs.
pub proof fn lemma_step_deterministic(
    u1: Seq<int>,
    v1: Seq<int>,
    u2: Seq<int>,
    v2: Seq<int>,
    w: int,
    h: int,
    p1: ModelParameters,
    p2: ModelParameters,
)
    requires
        u1 == u2,
        v1 == v2,
        p1 == p2,
    ensures
        step_field_u(u1, v1, w, h, p1) == step_field_u(u2, v2, w, h, p2),
        step_field_v(u1, v1, w, h, p1) == step_field_v(u2, v2, w, h, p2),
{
}

/// The whole-grid form of the Laplacian: the stencil at any cell equals
/// the sum of the four single-cell shifts of the field, minus four times
/// the field, scaled by the squared spacing — with all four shifted grids
/// derived from the same field.
pub proof fn lemma_laplacian_from_shifts(
    s: Seq<int>,
    w: int,
    h: int,
    dxsq: int,
    r: int,
    c: int,
)
    requires
        1 <= w,
        1 <= h,
        s.len() == w * h,
        0 <= r < h,
        0 <= c < w,
    ensures
        lap_at(s, w, h, dxsq, r, c) == crate::fixed::fdiv(
            shift_seq(s, w, h, -1, Axis::Row)[lin(w, r, c)] + shift_seq(s, w, h, 1, Axis::Row)[lin(
                w,
                r,
                c,
            )] + shift_seq(s, w, h, -1, Axis::Col)[lin(w, r, c)] + shift_seq(s, w, h, 1, Axis::Col)[
                lin(w, r, c)
            ] - 4 * s[lin(w, r, c)],
            dxsq,
        ),
{
    lemma_lin_bounds(w, h, r, c);
    let i = lin(w, r, c);
    assert(i / w == r && i % w == c);
    assert(shift_seq(s, w, h, -1, Axis::Row)[i] == s[shift_source(w, h, -1, Axis::Row, r, c)]);
    assert(shift_seq(s, w, h, 1, Axis::Row)[i] == s[shift_source(w, h, 1, Axis::Row, r, c)]);
    assert(shift_seq(s, w, h, -1, Axis::Col)[i] == s[shift_source(w, h, -1, Axis::Col, r, c)]);
    assert(shift_seq(s, w, h, 1, Axis::Col)[i] == s[shift_source(w, h, 1, Axis::Col, r, c)]);
}

/// A linear index below the grid area splits into an in-bounds row and
/// column that recombine to the same index.
proof fn lemma_index_decomposition(i: int, w: int, h: int)
    requires
        1 <= w,
        1 <= h,
        0 <= i < w * h,
    ensures
        0 <= i / w < h,
        0 <= i % w < w,
        lin(w, i / w, i % w) == i,
{
    vstd::arithmetic::div_mod::lemma_fundamental_div_mod(i, w);
    vstd::arithmetic::div_mod::lemma_mod_bound(i, w);
    let q = i / w;
    let rem = i % w;
    assert(0 <= q < h && q * w + rem == i) by (nonlinear_arith)
        requires
            i == w * q + rem,
            0 <= rem < w,
            0 <= i < w * h,
            1 <= w,
            1 <= h;
}

} // verus!
