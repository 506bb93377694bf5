//! A dense, row-major two-dimensional field of fixed-point values with
//! toroidal (periodically wrapped) boundary semantics: every cell has
//! exactly four orthogonal neighbours, with no edge special-casing.

use vstd::prelude::*;
use crate::model::{in_range, lemma_wrap_by_turn, lin, shift_seq, uniform, Axis, CELL_LIMIT};

verus! {

/// Largest accepted width or height of a grid.
pub const MAX_DIM: usize = 4096;

/// A configuration rejected when a grid or a simulation state is built.
#[derive(Clone, Copy, PartialEq, Eq, Structural, Debug)]
pub enum ConfigError {
    /// A grid dimension below two cells, for which toroidal wraparound is
    /// ill-defined.
    DimensionTooSmall,
    /// A grid dimension above [`MAX_DIM`].
    DimensionTooLarge,
    /// The two fields of a simulation state differ in dimensions.
    DimensionMismatch,
    /// The seed region reaches outside the grid.
    SeedRegionOutOfBounds,
    /// An initial value or noise amplitude outside the accepted range.
    ValueOutOfBounds,
}

/// Dimensions on which toroidal wraparound is well defined and index
/// arithmetic cannot overflow.
pub open spec fn valid_dims(w: int, h: int) -> bool {
    2 <= w <= MAX_DIM && 2 <= h <= MAX_DIM
}

/// A fixed-size two-dimensional field. Dimensions are immutable after
/// construction.
pub struct Grid {
    width: usize,
    height: usize,
    cells: Vec<i64>,
}

impl Grid {
    /// Number of columns.
    pub closed spec fn width_spec(&self) -> int {
        self.width as int
    }

    /// Number of rows.
    pub closed spec fn height_spec(&self) -> int {
        self.height as int
    }

    /// The cell values, row-major, as mathematical integers.
    pub closed spec fn sview(&self) -> Seq<int> {
        self.cells@.map_values(|x: i64| x as int)
    }

    /// The value of cell `(r, c)`.
    pub open spec fn at(&self, r: int, c: int) -> int {
        self.sview()[lin(self.width_spec(), r, c)]
    }

    /// Well-formedness: valid dimensions and a backing vector of exactly
    /// `width * height` cells.
    pub open spec fn wf(&self) -> bool {
        valid_dims(self.width_spec(), self.height_spec()) && self.sview().len()
            == self.width_spec() * self.height_spec()
    }

    /// Both grids have the same dimensions.
    pub open spec fn same_dims(&self, other: &Grid) -> bool {
        self.width_spec() == other.width_spec() && self.height_spec() == other.height_spec()
    }

    /// Builds a grid with every cell holding `fill`. Dimensions below two
    /// are rejected: wraparound would be ill-defined.
    pub fn new(width: usize, height: usize, fill: i64) -> (result: Result<Grid, ConfigError>)
        ensures
            result is Ok <==> valid_dims(width as int, height as int),
            result matches Ok(g) ==> g.wf() && g.width_spec() == width && g.height_spec() == height
                && uniform(g.sview(), fill as int),
            result matches Err(e) ==> e == (if width < 2 || height < 2 {
                ConfigError::DimensionTooSmall
            } else {
                ConfigError::DimensionTooLarge
            }),
    {
        if width < 2 || height < 2 {
            return Err(ConfigError::DimensionTooSmall);
        }
        if width > MAX_DIM || height > MAX_DIM {
            return Err(ConfigError::DimensionTooLarge);
        }
        proof {
            lemma_area_fits(width as int, height as int);
        }
        let total = width * height;
        let mut cells: Vec<i64> = Vec::new();
        let mut k: usize = 0;
        while k < total
            invariant
                k <= total,
                cells@.len() == k,
                forall|i: int| 0 <= i < k ==> #[trigger] cells@[i] == fill,
            decreases total - k,
        {
            cells.push(fill);
            k = k + 1;
        }
        let g = Grid { width, height, cells };
        proof {
            assert(g.sview().len() == width * height);
            assert(uniform(g.sview(), fill as int));
        }
        Ok(g)
    }

    /// Builds a grid around an already-filled row-major cell vector.
    pub(crate) fn from_cells(width: usize, height: usize, cells: Vec<i64>) -> (out: Grid)
        requires
            valid_dims(width as int, height as int),
            cells@.len() == width * height,
        ensures
            out.wf(),
            out.width_spec() == width,
            out.height_spec() == height,
            out.sview() == cells@.map_values(|x: i64| x as int),
    {
        Grid { width, height, cells }
    }

    /// Number of columns.
    pub fn width(&self) -> (w: usize)
        ensures
            w == self.width_spec(),
    {
        self.width
    }

    /// Number of rows.
    pub fn height(&self) -> (h: usize)
        ensures
            h == self.height_spec(),
    {
        self.height
    }

    /// Reads cell `(r, c)`.
    pub fn get(&self, r: usize, c: usize) -> (value: i64)
        requires
            self.wf(),
            r < self.height_spec(),
            c < self.width_spec(),
        ensures
            value as int == self.at(r as int, c as int),
    {
        proof {
            lemma_index_fits(self.width_spec(), self.height_spec(), r as int, c as int);
        }
        self.cells[r * self.width + c]
    }

    /// Writes `value` into cell `(r, c)`, leaving every other cell as it
    /// was.
    pub fn set(&mut self, r: usize, c: usize, value: i64)
        requires
            old(self).wf(),
            r < old(self).height_spec(),
            c < old(self).width_spec(),
        ensures
            final(self).wf(),
            final(self).same_dims(old(self)),
            final(self).sview() == old(self).sview().update(
                lin(old(self).width_spec(), r as int, c as int),
                value as int,
            ),
    {
        proof {
            lemma_index_fits(self.width_spec(), self.height_spec(), r as int, c as int);
        }
        let idx = r * self.width + c;
        self.cells.set(idx, value);
        proof {
            assert(self.sview() =~= old(self).sview().update(
                lin(old(self).width_spec(), r as int, c as int),
                value as int,
            ));
        }
    }

    /// Whether every cell is within [`CELL_LIMIT`], the range on which a
    /// reaction-diffusion step is exact.
    pub fn cells_in_range(&self) -> (ok: bool)
        ensures
            ok == in_range(self.sview()),
    {
        let n = self.cells.len();
        let mut k: usize = 0;
        while k < n
            invariant
                k <= n,
                n == self.sview().len(),
                forall|i: int|
                    0 <= i < k ==> -CELL_LIMIT <= #[trigger] self.sview()[i] <= CELL_LIMIT,
            decreases n - k,
        {
            let value = self.cells[k];
            if value < -CELL_LIMIT || value > CELL_LIMIT {
                proof {
                    assert(self.sview()[k as int] == value as int);
                    assert(!in_range(self.sview()));
                }
                return false;
            }
            k = k + 1;
        }
        true
    }

    /// A new grid of identical dimensions where every cell holds the value
    /// `offset` cells away along `axis`, wrapping around the grid bounds.
    /// The offset magnitude must stay below the dimension along that axis:
    /// the wrap is a single rotation, never a multiple one.
    pub fn shift(&self, offset: i64, axis: Axis) -> (out: Grid)
        requires
            self.wf(),
            (match axis {
                Axis::Row => -self.height_spec() < offset < self.height_spec(),
                Axis::Col => -self.width_spec() < offset < self.width_spec(),
            }),
        ensures
            out.wf(),
            out.same_dims(self),
            out.sview() == shift_seq(
                self.sview(),
                self.width_spec(),
                self.height_spec(),
                offset as int,
                axis,
            ),
    {
        let w = self.width;
        let h = self.height;
        let ghost target = shift_seq(
            self.sview(),
            self.width_spec(),
            self.height_spec(),
            offset as int,
            axis,
        );
        let dim: usize = match axis {
            Axis::Row => h,
            Axis::Col => w,
        };
        let turn: usize = if offset >= 0 {
            offset as usize
        } else {
            dim - ((-offset) as usize)
        };
        let mut cells: Vec<i64> = Vec::new();
        let mut r: usize = 0;
        while r < h
            invariant
                r <= h,
                self.wf(),
                w == self.width_spec(),
                h == self.height_spec(),
                dim == (match axis {
                    Axis::Row => h,
                    Axis::Col => w,
                }),
                -dim < offset < dim,
                turn == (if offset >= 0 {
                    offset as int
                } else {
                    dim + offset
                }),
                target == shift_seq(self.sview(), w as int, h as int, offset as int, axis),
                target.len() == w * h,
                cells@.len() == r * w,
                forall|i: int| 0 <= i < r * w ==> #[trigger] cells@[i] == target[i],
            decreases h - r,
        {
            let mut c: usize = 0;
            while c < w
                invariant
                    r < h,
                    c <= w,
                    self.wf(),
                    w == self.width_spec(),
                    h == self.height_spec(),
                    dim == (match axis {
                        Axis::Row => h,
                        Axis::Col => w,
                    }),
                    -dim < offset < dim,
                    turn == (if offset >= 0 {
                        offset as int
                    } else {
                        dim + offset
                    }),
                    target == shift_seq(self.sview(), w as int, h as int, offset as int, axis),
                    target.len() == w * h,
                    cells@.len() == r * w + c,
                    forall|i: int| 0 <= i < r * w + c ==> #[trigger] cells@[i] == target[i],
                decreases w - c,
            {
                let value = match axis {
                    Axis::Row => self.get((r + turn) % h, c),
                    Axis::Col => self.get(r, (c + turn) % w),
                };
                proof {
                    lemma_index_fits(w as int, h as int, r as int, c as int);
                    match axis {
                        Axis::Row => lemma_wrap_by_turn(r as int, offset as int, h as int),
                        Axis::Col => lemma_wrap_by_turn(c as int, offset as int, w as int),
                    }
                    assert(value as int == target[lin(w as int, r as int, c as int)]);
                }
                cells.push(value);
                c = c + 1;
            }
            proof {
                assert(r * w + w == (r + 1) * w) by (nonlinear_arith);
            }
            r = r + 1;
        }
        let out = Grid { width: w, height: h, cells };
        proof {
            assert(h * w == w * h) by (nonlinear_arith);
            assert(out.sview() =~= target);
        }
        out
    }
}

impl Clone for Grid {
    /// An independently owned copy with the same dimensions and cells.
    fn clone(&self) -> (out: Grid)
        ensures
            out.width_spec() == self.width_spec(),
            out.height_spec() == self.height_spec(),
            out.sview() == self.sview(),
    {
        let out = Grid { width: self.width, height: self.height, cells: self.cells.clone() };
        proof {
            assert(out.sview() =~= self.sview());
        }
        out
    }
}

/// The area of a valid grid fits comfortably in a `usize`.
proof fn lemma_area_fits(w: int, h: int)
    requires
        0 <= w <= MAX_DIM,
        0 <= h <= MAX_DIM,
    ensures
        0 <= w * h <= 0x100_0000,
{
    assert(0 <= w * h <= 0x100_0000) by (nonlinear_arith)
        requires
            0 <= w <= 4096,
            0 <= h <= 4096;
}

/// The linear index of an in-bounds cell stays below the grid area, which
/// itself fits in a `usize`.
pub(crate) proof fn lemma_index_fits(w: int, h: int, r: int, c: int)
    requires
        valid_dims(w, h),
        0 <= r < h,
        0 <= c < w,
    ensures
        0 <= lin(w, r, c) < w * h <= 0x100_0000,
        lin(w, r, c) / w == r,
        lin(w, r, c) % w == c,
{
    crate::model::lemma_lin_bounds(w, h, r, c);
    lemma_area_fits(w, h);
}

} // verus!
