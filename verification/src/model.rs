//! The mathematical model of the simulation: grids are sequences of
//! row-major cell values (`Seq<int>`), and every operation of the engine
//! has a specification-level definition here. The executable code in the
//! other modules is proved to compute exactly these functions.

use vstd::prelude::*;
use crate::fixed::{fdiv, fmul, SCALE};
use crate::params::ModelParameters;

verus! {

/// Largest cell magnitude a reaction-diffusion step accepts. Inputs within
/// this range make the step's exact fixed-point result fit in an `i64`.
pub const CELL_LIMIT: i64 = 0x2_0000_0000;

/// The two directions a toroidal shift can move values along.
#[derive(Clone, Copy, PartialEq, Eq, Structural, Debug)]
pub enum Axis {
    /// The row index wraps: a cell takes the value of a cell in another row.
    Row,
    /// The column index wraps: a cell takes the value of a cell in another
    /// column.
    Col,
}

/// Toroidal wrap of index `i` into `[0, d)`. The mathematical `%` is
/// Euclidean, so this is total for positive `d` whatever the sign of `i`.
pub open spec fn wrap(i: int, d: int) -> int {
    i % d
}

/// Linear row-major position of cell `(r, c)` on a grid `w` cells wide.
pub open spec fn lin(w: int, r: int, c: int) -> int {
    r * w + c
}

/// The linear position a cell `(r, c)` reads from under a toroidal shift
/// by `off` along `axis`.
pub open spec fn shift_source(w: int, h: int, off: int, axis: Axis, r: int, c: int) -> int {
    match axis {
        Axis::Row => lin(w, wrap(r + off, h), c),
        Axis::Col => lin(w, r, wrap(c + off, w)),
    }
}

/// Whole-grid toroidal shift: every cell takes the value `off` cells away
/// along `axis`, wrapping around the grid bounds.
pub open spec fn shift_seq(s: Seq<int>, w: int, h: int, off: int, axis: Axis) -> Seq<int> {
    Seq::new(s.len(), |i: int| s[shift_source(w, h, off, axis, i / w, i % w)])
}

/// `n` successive whole-grid shifts by one cell along `axis`.
pub open spec fn iter_shift(s: Seq<int>, w: int, h: int, axis: Axis, n: nat) -> Seq<int>
    decreases n,
{
    if n == 0 {
        s
    } else {
        shift_seq(iter_shift(s, w, h, axis, (n - 1) as nat), w, h, 1, axis)
    }
}

/// Sum of the four orthogonal neighbours of `(r, c)`, with toroidal wrap.
pub open spec fn neighbor_sum(s: Seq<int>, w: int, h: int, r: int, c: int) -> int {
    s[lin(w, wrap(r - 1, h), c)] + s[lin(w, wrap(r + 1, h), c)] + s[lin(w, r, wrap(c - 1, w))]
        + s[lin(w, r, wrap(c + 1, w))]
}

/// Discrete five-point Laplacian at `(r, c)`: the neighbour sum minus four
/// times the cell, divided by the squared cell spacing.
pub open spec fn lap_at(s: Seq<int>, w: int, h: int, dxsq: int, r: int, c: int) -> int {
    fdiv(neighbor_sum(s, w, h, r, c) - 4 * s[lin(w, r, c)], dxsq)
}

/// The reaction term `u * v * v` of one cell, in fixed point.
pub open spec fn reaction(uc: int, vc: int) -> int {
    fmul(fmul(uc, vc), vc)
}

/// Forward Euler update of one `u` cell from its pre-step values:
/// `u + dt * (Du * lap(u) - u*v*v + F * (1 - u))`.
pub open spec fn euler_u(uc: int, vc: int, lap_u: int, p: ModelParameters) -> int {
    let du = fmul(p.diffusion_u as int, lap_u) - reaction(uc, vc) + fmul(
        p.feed_rate as int,
        SCALE - uc,
    );
    uc + fmul(p.time_delta as int, du)
}

/// Forward Euler update of one `v` cell from its pre-step values:
/// `v + dt * (Dv * lap(v) + u*v*v - (F + K) * v)`.
pub open spec fn euler_v(uc: int, vc: int, lap_v: int, p: ModelParameters) -> int {
    let dv = fmul(p.diffusion_v as int, lap_v) + reaction(uc, vc) - fmul(
        p.feed_rate + p.kill_rate,
        vc,
    );
    vc + fmul(p.time_delta as int, dv)
}

/// New `u` value of cell `(r, c)` after one forward Euler step, every term
/// evaluated against the pre-step fields.
pub open spec fn step_u_at(
    u: Seq<int>,
    v: Seq<int>,
    w: int,
    h: int,
    p: ModelParameters,
    r: int,
    c: int,
) -> int {
    euler_u(u[lin(w, r, c)], v[lin(w, r, c)], lap_at(u, w, h, p.dx_sq(), r, c), p)
}

/// New `v` value of cell `(r, c)` after one forward Euler step, every term
/// evaluated against the pre-step fields.
pub open spec fn step_v_at(
    u: Seq<int>,
    v: Seq<int>,
    w: int,
    h: int,
    p: ModelParameters,
    r: int,
    c: int,
) -> int {
    euler_v(u[lin(w, r, c)], v[lin(w, r, c)], lap_at(v, w, h, p.dx_sq(), r, c), p)
}

/// The whole new `u` field of one step, every cell computed from the
/// pre-step `u` and `v`.
pub open spec fn step_field_u(
    u: Seq<int>,
    v: Seq<int>,
    w: int,
    h: int,
    p: ModelParameters,
) -> Seq<int> {
    Seq::new(u.len(), |i: int| step_u_at(u, v, w, h, p, i / w, i % w))
}

/// The whole new `v` field of one step, every cell computed from the
/// pre-step `u` and `v`.
pub open spec fn step_field_v(
    u: Seq<int>,
    v: Seq<int>,
    w: int,
    h: int,
    p: ModelParameters,
) -> Seq<int> {
    Seq::new(v.len(), |i: int| step_v_at(u, v, w, h, p, i / w, i % w))
}

/// `n` reaction-diffusion steps applied to the field pair.
pub open spec fn iter_steps(
    u: Seq<int>,
    v: Seq<int>,
    w: int,
    h: int,
    p: ModelParameters,
    n: nat,
) -> (Seq<int>, Seq<int>)
    decreases n,
{
    if n == 0 {
        (u, v)
    } else {
        let prev = iter_steps(u, v, w, h, p, (n - 1) as nat);
        (step_field_u(prev.0, prev.1, w, h, p), step_field_v(prev.0, prev.1, w, h, p))
    }
}

/// Whether a batch of `n` steps stays exact: every intermediate state the
/// batch steps from is within the range the step accepts.
pub open spec fn batch_ok(
    u: Seq<int>,
    v: Seq<int>,
    w: int,
    h: int,
    p: ModelParameters,
    n: nat,
) -> bool {
    forall|k: nat|
        k < n ==> in_range(#[trigger] iter_steps(u, v, w, h, p, k).0) && in_range(
            iter_steps(u, v, w, h, p, k).1,
        )
}

/// Every cell within the magnitude bound a step accepts.
pub open spec fn in_range(s: Seq<int>) -> bool {
    forall|i: int| 0 <= i < s.len() ==> -CELL_LIMIT <= #[trigger] s[i] <= CELL_LIMIT
}

/// Every cell holds the same value `k`.
pub open spec fn uniform(s: Seq<int>, k: int) -> bool {
    forall|i: int| 0 <= i < s.len() ==> #[trigger] s[i] == k
}

/// A row-major position below `w * h` names a cell: its row and column are
/// in bounds, and conversely.
pub proof fn lemma_lin_bounds(w: int, h: int, r: int, c: int)
    requires
        1 <= w,
        1 <= h,
        0 <= r < h,
        0 <= c < w,
    ensures
        0 <= lin(w, r, c) < w * h,
        lin(w, r, c) / w == r,
        lin(w, r, c) % w == c,
{
    assert(0 <= r * w + c < w * h) by (nonlinear_arith)
        requires
            1 <= w,
            1 <= h,
            0 <= r < h,
            0 <= c < w;
    vstd::arithmetic::div_mod::lemma_fundamental_div_mod_converse(r * w + c, w, r, c);
}

/// Adding a dimension's worth to a negative offset, or keeping a
/// nonnegative one, lands in `[0, d)` on the same wrapped index.
pub proof fn lemma_wrap_by_turn(i: int, off: int, d: int)
    requires
        0 <= i < d,
        -d < off < d,
    ensures
        0 <= wrap(i + off, d) < d,
        off >= 0 ==> wrap(i + off, d) == (i + off) % d,
        off < 0 ==> wrap(i + off, d) == (i + (d + off)) % d,
{
    vstd::arithmetic::div_mod::lemma_mod_multiples_vanish(1, i + off, d);
    assert(d * 1 + (i + off) == i + (d + off));
    vstd::arithmetic::div_mod::lemma_mod_bound(i + off, d);
}

} // verus!
