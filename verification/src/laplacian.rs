//! The discrete five-point Laplacian with toroidal wraparound, the
//! diffusion operator of the model. Every cell of the result is derived
//! from the same pre-step field.

use vstd::prelude::*;
use crate::fixed::{floor_div, lemma_div_quotient_in_range, SCALE};
use crate::grid::{lemma_index_fits, Grid};
use crate::model::{in_range, lap_at, lemma_lin_bounds, lemma_wrap_by_turn, wrap};

verus! {

/// Largest magnitude a Laplacian value can reach on an in-range field:
/// eight cell limits scaled up by one unit, against the smallest accepted
/// squared spacing.
pub const LAP_LIMIT: i64 = 0x100_0000_0000_0000;

/// The Laplacian of one cell: the wrapped neighbour sum minus four times
/// the cell, scaled up and divided by the squared spacing.
pub(crate) fn lap_cell(field: &Grid, dxsq: i64, r: usize, c: usize) -> (value: i64)
    requires
        field.wf(),
        in_range(field.sview()),
        1 <= dxsq <= SCALE,
        r < field.height_spec(),
        c < field.width_spec(),
    ensures
        value as int == lap_at(
            field.sview(),
            field.width_spec(),
            field.height_spec(),
            dxsq as int,
            r as int,
            c as int,
        ),
        -LAP_LIMIT <= value <= LAP_LIMIT,
{
    let w = field.width();
    let h = field.height();
    proof {
        lemma_wrap_by_turn(r as int, -1, h as int);
        lemma_wrap_by_turn(r as int, 1, h as int);
        lemma_wrap_by_turn(c as int, -1, w as int);
        lemma_wrap_by_turn(c as int, 1, w as int);
        lemma_lin_bounds(w as int, h as int, wrap(r as int - 1, h as int), c as int);
        lemma_lin_bounds(w as int, h as int, wrap(r as int + 1, h as int), c as int);
        lemma_lin_bounds(w as int, h as int, r as int, wrap(c as int - 1, w as int));
        lemma_lin_bounds(w as int, h as int, r as int, wrap(c as int + 1, w as int));
        lemma_index_fits(w as int, h as int, r as int, c as int);
    }
    let up = field.get((r + h - 1) % h, c);
    let down = field.get((r + 1) % h, c);
    let left = field.get(r, (c + w - 1) % w);
    let right = field.get(r, (c + 1) % w);
    let center = field.get(r, c);
    let diff = up + down + left + right - 4 * center;
    let q = floor_div((diff as i128) * (SCALE as i128), dxsq as i128);
    proof {
        lemma_div_quotient_in_range(diff as int * SCALE, dxsq as int);
    }
    q as i64
}

/// The Laplacian of the whole field: a new grid of identical dimensions
/// whose every cell is the five-point stencil value of the input, all
/// derived from the same pre-step field.
pub fn laplacian(field: &Grid, cell_spacing: i64) -> (out: Grid)
    requires
        field.wf(),
        in_range(field.sview()),
        0 < cell_spacing <= SCALE,
        crate::fixed::fmul(cell_spacing as int, cell_spacing as int) >= 1,
    ensures
        out.wf(),
        out.same_dims(field),
        forall|r: int, c: int|
            0 <= r < field.height_spec() && 0 <= c < field.width_spec() ==> out.at(r, c)
                == lap_at(
                field.sview(),
                field.width_spec(),
                field.height_spec(),
                crate::fixed::fmul(cell_spacing as int, cell_spacing as int),
                r,
                c,
            ),
{
    let w = field.width();
    let h = field.height();
    proof {
        assert(0 < cell_spacing * cell_spacing <= SCALE * SCALE) by (nonlinear_arith)
            requires
                0 < cell_spacing <= SCALE;
        lemma_div_quotient_in_range((cell_spacing * cell_spacing) as int, SCALE as int);
        vstd::arithmetic::div_mod::lemma_div_is_ordered(
            cell_spacing * cell_spacing,
            SCALE * SCALE,
            SCALE as int,
        );
        vstd::arithmetic::div_mod::lemma_div_by_multiple(SCALE as int, SCALE as int);
    }
    let sq = cell_spacing * cell_spacing;
    let dxsq = sq / SCALE;
    let ghost dxsq_i = crate::fixed::fmul(cell_spacing as int, cell_spacing as int);
    let mut cells: Vec<i64> = Vec::new();
    let mut r: usize = 0;
    while r < h
        invariant
            r <= h,
            field.wf(),
            in_range(field.sview()),
            w == field.width_spec(),
            h == field.height_spec(),
            1 <= dxsq <= SCALE,
            dxsq == dxsq_i,
            cells@.len() == r * w,
            forall|i: int|
                0 <= i < r * w ==> #[trigger] cells@[i] == lap_at(
                    field.sview(),
                    w as int,
                    h as int,
                    dxsq_i,
                    i / (w as int),
                    i % (w as int),
                ),
        decreases h - r,
    {
        let mut c: usize = 0;
        while c < w
            invariant
                r < h,
                c <= w,
                field.wf(),
                in_range(field.sview()),
                w == field.width_spec(),
                h == field.height_spec(),
                1 <= dxsq <= SCALE,
                dxsq == dxsq_i,
                cells@.len() == r * w + c,
                forall|i: int|
                    0 <= i < r * w + c ==> #[trigger] cells@[i] == lap_at(
                        field.sview(),
                        w as int,
                        h as int,
                        dxsq_i,
                        i / (w as int),
                        i % (w as int),
                    ),
            decreases w - c,
        {
            let value = lap_cell(field, dxsq, r, c);
            proof {
                lemma_index_fits(w as int, h as int, r as int, c as int);
            }
            cells.push(value);
            c = c + 1;
        }
        proof {
            assert(r * w + w == (r + 1) * w) by (nonlinear_arith);
        }
        r = r + 1;
    }
    proof {
        assert(h * w == w * h) by (nonlinear_arith);
    }
    let out = Grid::from_cells(w, h, cells);
    proof {
        assert forall|r2: int, c2: int|
            0 <= r2 < field.height_spec() && 0 <= c2 < field.width_spec() implies out.at(r2, c2)
            == lap_at(
            field.sview(),
            field.width_spec(),
            field.height_spec(),
            dxsq_i,
            r2,
            c2,
        ) by {
            lemma_lin_bounds(w as int, h as int, r2, c2);
        }
    }
    out
}

} // verus!
