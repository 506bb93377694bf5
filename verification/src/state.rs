//! The simulation state: the coupled field pair `(u, v)` with a generation
//! counter, stepped in batches and published to a consumer as
//! self-consistent snapshots. The pair is the unit of mutation: both
//! fields always advance together, so no reader can ever pair a `u` of one
//! generation with a `v` of another.

use vstd::prelude::*;
use crate::grid::{valid_dims, ConfigError, Grid, MAX_DIM};
use crate::model::{batch_ok, in_range, iter_steps, lin};
use crate::noise::{noise_at, noise_value, rng_state, rng_step};
use crate::params::ModelParameters;
use crate::fixed::SCALE;

verus! {

/// Largest accepted magnitude of an initial base or seed value.
pub const MAX_INIT_VALUE: i64 = 0x100_0000;

/// A failure of a step batch.
#[derive(Clone, Copy, PartialEq, Eq, Structural, Debug)]
pub enum StepError {
    /// A field value left the range on which the fixed-point step is
    /// exact; the state was left as it was.
    ValueOutOfRange,
}

/// Everything the initial state is built from: grid dimensions, a square
/// seed region with its own fill values, base fill values, a noise
/// amplitude and the noise seed.
#[derive(Clone, Copy, PartialEq, Eq, Structural, Debug)]
pub struct InitConfig {
    pub width: usize,
    pub height: usize,
    pub seed_row: usize,
    pub seed_col: usize,
    pub seed_height: usize,
    pub seed_width: usize,
    pub base_u: i64,
    pub base_v: i64,
    pub seed_u: i64,
    pub seed_v: i64,
    pub noise_amplitude: i64,
    pub rng_seed: u64,
}

impl InitConfig {
    /// The seed region lies inside the grid.
    pub open spec fn region_ok(self) -> bool {
        self.seed_height <= self.height && self.seed_row <= self.height - self.seed_height
            && self.seed_width <= self.width && self.seed_col <= self.width - self.seed_width
    }

    /// Base and seed values small enough that every initial cell is far
    /// inside the range a step accepts.
    pub open spec fn values_ok(self) -> bool {
        &&& -MAX_INIT_VALUE <= self.base_u <= MAX_INIT_VALUE
        &&& -MAX_INIT_VALUE <= self.base_v <= MAX_INIT_VALUE
        &&& -MAX_INIT_VALUE <= self.seed_u <= MAX_INIT_VALUE
        &&& -MAX_INIT_VALUE <= self.seed_v <= MAX_INIT_VALUE
        &&& 0 <= self.noise_amplitude <= SCALE
    }

    /// An accepted configuration.
    pub open spec fn wf(self) -> bool {
        valid_dims(self.width as int, self.height as int) && self.region_ok() && self.values_ok()
    }

    /// The error a rejected configuration is reported with: the first
    /// failing check, in the order the checks run.
    pub open spec fn first_error(self) -> ConfigError {
        if self.width < 2 || self.height < 2 {
            ConfigError::DimensionTooSmall
        } else if self.width > MAX_DIM || self.height > MAX_DIM {
            ConfigError::DimensionTooLarge
        } else if !self.region_ok() {
            ConfigError::SeedRegionOutOfBounds
        } else {
            ConfigError::ValueOutOfBounds
        }
    }

    /// Whether cell `(r, c)` lies in the seed region.
    pub open spec fn in_seed_region(self, r: int, c: int) -> bool {
        self.seed_row <= r < self.seed_row + self.seed_height && self.seed_col <= c < self.seed_col
            + self.seed_width
    }

    /// The initial `u` value of cell `(r, c)`: the base or seed fill plus
    /// that cell's own noise draw.
    pub open spec fn init_u_at(self, r: int, c: int) -> int {
        (if self.in_seed_region(r, c) {
            self.seed_u as int
        } else {
            self.base_u as int
        }) + noise_at(self.rng_seed, (2 * lin(self.width as int, r, c)) as nat, self.noise_amplitude as int)
    }

    /// The initial `v` value of cell `(r, c)`: the base or seed fill plus
    /// that cell's own noise draw.
    pub open spec fn init_v_at(self, r: int, c: int) -> int {
        (if self.in_seed_region(r, c) {
            self.seed_v as int
        } else {
            self.base_v as int
        }) + noise_at(
            self.rng_seed,
            (2 * lin(self.width as int, r, c) + 1) as nat,
            self.noise_amplitude as int,
        )
    }
}

/// A point-in-time, self-consistent copy of the displayed field, tagged
/// with the generation it was published at. The ghost component records
/// which `v` field the copy was paired with.
pub struct Snapshot {
    /// An independently owned copy of the `u` field.
    pub u: Grid,
    /// How many step batches had been applied when the snapshot was taken.
    pub generation: u64,
    /// The `v` field of the same generation, for reasoning only.
    pub paired_v: Ghost<Seq<int>>,
}

/// Whether `next` is reachable from `prev` by one batch of steps under
/// some well-formed parameters.
pub open spec fn batch_between(
    prev: (Seq<int>, Seq<int>),
    next: (Seq<int>, Seq<int>),
    w: int,
    h: int,
) -> bool {
    exists|p: ModelParameters, n: nat|
        p.wf() && next == #[trigger] iter_steps(prev.0, prev.1, w, h, p, n)
}

/// The simulation state: the field pair, its generation counter, and the
/// ghost history of every published generation.
pub struct SimulationState {
    u: Grid,
    v: Grid,
    generation: u64,
    hist: Ghost<Seq<(Seq<int>, Seq<int>)>>,
}

impl SimulationState {
    /// The `u` field's cells.
    pub closed spec fn u_view(&self) -> Seq<int> {
        self.u.sview()
    }

    /// The `v` field's cells.
    pub closed spec fn v_view(&self) -> Seq<int> {
        self.v.sview()
    }

    /// Number of columns of both fields.
    pub closed spec fn width_spec(&self) -> int {
        self.u.width_spec()
    }

    /// Number of rows of both fields.
    pub closed spec fn height_spec(&self) -> int {
        self.u.height_spec()
    }

    /// How many step batches have been applied.
    pub closed spec fn generation_spec(&self) -> int {
        self.generation as int
    }

    /// The field pair of every generation published so far, the current
    /// one last.
    pub closed spec fn history(&self) -> Seq<(Seq<int>, Seq<int>)> {
        self.hist@
    }

    /// Well-formedness: two same-sized well-formed fields, and a history
    /// with one pair per generation, the current pair last, each entry one
    /// batch after the one before it.
    pub closed spec fn wf(&self) -> bool {
        &&& self.u.wf()
        &&& self.v.wf()
        &&& self.u.same_dims(&self.v)
        &&& self.hist@.len() == self.generation + 1
        &&& self.hist@.last() == (self.u.sview(), self.v.sview())
        &&& forall|i: int|
            0 <= i < self.generation ==> batch_between(
                #[trigger] self.hist@[i],
                self.hist@[i + 1],
                self.u.width_spec(),
                self.u.height_spec(),
            )
    }

    /// Pairs two fields into a fresh state at generation zero. The fields
    /// must agree in dimensions: the pair is the unit of consistency.
    pub fn new(u: Grid, v: Grid) -> (result: Result<SimulationState, ConfigError>)
        requires
            u.wf(),
            v.wf(),
        ensures
            result is Ok <==> u.same_dims(&v),
            result matches Ok(s) ==> s.wf() && s.u_view() == u.sview() && s.v_view() == v.sview()
                && s.width_spec() == u.width_spec() && s.height_spec() == u.height_spec()
                && s.generation_spec() == 0,
            result matches Err(e) ==> e == ConfigError::DimensionMismatch,
    {
        if u.width() != v.width() || u.height() != v.height() {
            return Err(ConfigError::DimensionMismatch);
        }
        let ghost hist0 = seq![(u.sview(), v.sview())];
        Ok(SimulationState { u, v, generation: 0, hist: Ghost(hist0) })
    }

    /// Builds the initial state: both fields filled with their base value,
    /// the seed region with its own values, and independent per-cell noise
    /// added to both fields to break symmetry. The result is an exact
    /// function of the configuration, the noise seed included.
    pub fn initial_state(cfg: &InitConfig) -> (result: Result<SimulationState, ConfigError>)
        ensures
            result is Ok <==> cfg.wf(),
            result matches Ok(s) ==> {
                &&& s.wf()
                &&& s.generation_spec() == 0
                &&& s.width_spec() == cfg.width
                &&& s.height_spec() == cfg.height
                &&& in_range(s.u_view())
                &&& in_range(s.v_view())
                &&& forall|r: int, c: int|
                    0 <= r < cfg.height && 0 <= c < cfg.width ==> #[trigger] s.u_view()[lin(
                        cfg.width as int,
                        r,
                        c,
                    )] == cfg.init_u_at(r, c) && s.v_view()[lin(cfg.width as int, r, c)]
                        == cfg.init_v_at(r, c)
            },
            result matches Err(e) ==> !cfg.wf() && e == cfg.first_error(),
    {
        if cfg.width < 2 || cfg.height < 2 {
            return Err(ConfigError::DimensionTooSmall);
        }
        if cfg.width > MAX_DIM || cfg.height > MAX_DIM {
            return Err(ConfigError::DimensionTooLarge);
        }
        if !(cfg.seed_height <= cfg.height && cfg.seed_row <= cfg.height - cfg.seed_height
            && cfg.seed_width <= cfg.width && cfg.seed_col <= cfg.width - cfg.seed_width) {
            return Err(ConfigError::SeedRegionOutOfBounds);
        }
        if !(-MAX_INIT_VALUE <= cfg.base_u && cfg.base_u <= MAX_INIT_VALUE && -MAX_INIT_VALUE
            <= cfg.base_v && cfg.base_v <= MAX_INIT_VALUE && -MAX_INIT_VALUE <= cfg.seed_u
            && cfg.seed_u <= MAX_INIT_VALUE && -MAX_INIT_VALUE <= cfg.seed_v && cfg.seed_v
            <= MAX_INIT_VALUE && 0 <= cfg.noise_amplitude && cfg.noise_amplitude <= SCALE) {
            return Err(ConfigError::ValueOutOfBounds);
        }
        let w = cfg.width;
        let h = cfg.height;
        let mut cu: Vec<i64> = Vec::new();
        let mut cv: Vec<i64> = Vec::new();
        let mut rng: u64 = cfg.rng_seed;
        let mut r: usize = 0;
        while r < h
            invariant
                r <= h,
                cfg.wf(),
                w == cfg.width,
                h == cfg.height,
                cu@.len() == r * w,
                cv@.len() == r * w,
                rng == rng_state(cfg.rng_seed, (2 * (r * w)) as nat),
                forall|i: int|
                    0 <= i < r * w ==> #[trigger] cu@[i] == cfg.init_u_at(
                        i / (w as int),
                        i % (w as int),
                    ) && -0x200_0000 <= cu@[i] <= 0x200_0000,
                forall|i: int|
                    0 <= i < r * w ==> #[trigger] cv@[i] == cfg.init_v_at(
                        i / (w as int),
                        i % (w as int),
                    ) && -0x200_0000 <= cv@[i] <= 0x200_0000,
            decreases h - r,
        {
            let mut c: usize = 0;
            while c < w
                invariant
                    r < h,
                    c <= w,
                    cfg.wf(),
                    w == cfg.width,
                    h == cfg.height,
                    cu@.len() == r * w + c,
                    cv@.len() == r * w + c,
                    rng == rng_state(cfg.rng_seed, (2 * (r * w + c)) as nat),
                    forall|i: int|
                        0 <= i < r * w + c ==> #[trigger] cu@[i] == cfg.init_u_at(
                            i / (w as int),
                            i % (w as int),
                        ) && -0x200_0000 <= cu@[i] <= 0x200_0000,
                    forall|i: int|
                        0 <= i < r * w + c ==> #[trigger] cv@[i] == cfg.init_v_at(
                            i / (w as int),
                            i % (w as int),
                        ) && -0x200_0000 <= cv@[i] <= 0x200_0000,
                decreases w - c,
            {
                proof {
                    crate::grid::lemma_index_fits(w as int, h as int, r as int, c as int);
                }
                let in_region = cfg.seed_row <= r && r < cfg.seed_row + cfg.seed_height
                    && cfg.seed_col <= c && c < cfg.seed_col + cfg.seed_width;
                let bu = if in_region {
                    cfg.seed_u
                } else {
                    cfg.base_u
                };
                let bv = if in_region {
                    cfg.seed_v
                } else {
                    cfg.base_v
                };
                let ghost draws = (2 * (r * w + c)) as nat;
                rng = rng_step(rng);
                proof {
                    assert(rng == rng_state(cfg.rng_seed, draws + 1));
                }
                let nu = noise_value(rng, cfg.noise_amplitude);
                rng = rng_step(rng);
                proof {
                    assert(rng == rng_state(cfg.rng_seed, draws + 2));
                    assert(draws + 2 == 2 * (r * w + c + 1));
                }
                let nv = noise_value(rng, cfg.noise_amplitude);
                cu.push(bu + nu);
                cv.push(bv + nv);
                c = c + 1;
            }
            proof {
                assert(r * w + w == (r + 1) * w) by (nonlinear_arith);
            }
            r = r + 1;
        }
        proof {
            assert(h * w == w * h) by (nonlinear_arith);
        }
        let gu = Grid::from_cells(w, h, cu);
        let gv = Grid::from_cells(w, h, cv);
        let ghost hist0 = seq![(gu.sview(), gv.sview())];
        let st = SimulationState { u: gu, v: gv, generation: 0, hist: Ghost(hist0) };
        proof {
            assert forall|r2: int, c2: int|
                0 <= r2 < cfg.height && 0 <= c2 < cfg.width implies #[trigger] st.u_view()[lin(
                cfg.width as int,
                r2,
                c2,
            )] == cfg.init_u_at(r2, c2) && st.v_view()[lin(cfg.width as int, r2, c2)]
                == cfg.init_v_at(r2, c2) by {
                crate::model::lemma_lin_bounds(w as int, h as int, r2, c2);
            }
        }
        Ok(st)
    }

    /// Read access to the `u` field, for a cooperative single-context
    /// consumer that samples the state between batches.
    pub fn field_u(&self) -> (out: &Grid)
        requires
            self.wf(),
        ensures
            out.wf(),
            out.sview() == self.u_view(),
            out.width_spec() == self.width_spec(),
            out.height_spec() == self.height_spec(),
    {
        &self.u
    }

    /// Read access to the `v` field.
    pub fn field_v(&self) -> (out: &Grid)
        requires
            self.wf(),
        ensures
            out.wf(),
            out.sview() == self.v_view(),
            out.width_spec() == self.width_spec(),
            out.height_spec() == self.height_spec(),
    {
        &self.v
    }

    /// How many step batches have been applied.
    pub fn generation(&self) -> (g: u64)
        ensures
            g == self.generation_spec(),
    {
        self.generation
    }

    /// Number of columns of both fields.
    pub fn width(&self) -> (w: usize)
        ensures
            w == self.width_spec(),
    {
        self.u.width()
    }

    /// Number of rows of both fields.
    pub fn height(&self) -> (h: usize)
        ensures
            h == self.height_spec(),
    {
        self.u.height()
    }

    /// An independently owned, self-consistent copy of the displayed
    /// field, tagged with the generation both fields stand at.
    pub fn snapshot(&self) -> (snap: Snapshot)
        requires
            self.wf(),
        ensures
            snap.u.wf(),
            snap.u.sview() == self.u_view(),
            snap.u.width_spec() == self.width_spec(),
            snap.u.height_spec() == self.height_spec(),
            snap.generation == self.generation_spec(),
            snap.paired_v@ == self.v_view(),
            self.history()[snap.generation as int] == (snap.u.sview(), snap.paired_v@),
    {
        Snapshot {
            u: self.u.clone(),
            generation: self.generation,
            paired_v: Ghost(self.v.sview()),
        }
    }

    /// Applies `count` reaction-diffusion steps to the pair as one atomic
    /// batch and advances the generation. If any intermediate state has a
    /// cell outside the exact range, nothing is changed and the batch
    /// reports failure; success is owed exactly when every intermediate
    /// state stays in range.
    pub fn step_batch(&mut self, p: &ModelParameters, count: usize) -> (result: Result<
        (),
        StepError,
    >)
        requires
            old(self).wf(),
            p.wf(),
            old(self).generation_spec() < u64::MAX,
        ensures
            final(self).wf(),
            result is Ok <==> batch_ok(
                old(self).u_view(),
                old(self).v_view(),
                old(self).width_spec(),
                old(self).height_spec(),
                *p,
                count as nat,
            ),
            result is Ok ==> {
                let stepped = iter_steps(
                    old(self).u_view(),
                    old(self).v_view(),
                    old(self).width_spec(),
                    old(self).height_spec(),
                    *p,
                    count as nat,
                );
                &&& final(self).u_view() == stepped.0
                &&& final(self).v_view() == stepped.1
                &&& final(self).width_spec() == old(self).width_spec()
                &&& final(self).height_spec() == old(self).height_spec()
                &&& final(self).generation_spec() == old(self).generation_spec() + 1
                &&& final(self).history() == old(self).history().push(stepped)
            },
            result is Err ==> *final(self) == *old(self) && result == Err::<(), StepError>(
                StepError::ValueOutOfRange,
            ),
    {
        let w = self.u.width();
        let h = self.u.height();
        let mut cu = self.u.clone();
        let mut cv = self.v.clone();
        let mut k: usize = 0;
        while k < count
            invariant
                k <= count,
                *self == *old(self),
                self.wf(),
                p.wf(),
                w == self.width_spec(),
                h == self.height_spec(),
                cu.wf(),
                cv.wf(),
                cu.width_spec() == w,
                cu.height_spec() == h,
                cv.width_spec() == w,
                cv.height_spec() == h,
                (cu.sview(), cv.sview()) == iter_steps(
                    self.u_view(),
                    self.v_view(),
                    w as int,
                    h as int,
                    *p,
                    k as nat,
                ),
                forall|j: nat|
                    j < k ==> in_range(
                        #[trigger] iter_steps(
                            self.u_view(),
                            self.v_view(),
                            w as int,
                            h as int,
                            *p,
                            j,
                        ).0,
                    ) && in_range(
                        iter_steps(self.u_view(), self.v_view(), w as int, h as int, *p, j).1,
                    ),
            decreases count - k,
        {
            let u_ok = cu.cells_in_range();
            let v_ok = cv.cells_in_range();
            if !u_ok || !v_ok {
                proof {
                    let bad = iter_steps(
                        self.u_view(),
                        self.v_view(),
                        w as int,
                        h as int,
                        *p,
                        k as nat,
                    );
                    assert(bad.0 == cu.sview() && bad.1 == cv.sview());
                    assert(!(in_range(bad.0) && in_range(bad.1)));
                    assert(!batch_ok(
                        self.u_view(),
                        self.v_view(),
                        w as int,
                        h as int,
                        *p,
                        count as nat,
                    ));
                }
                return Err(StepError::ValueOutOfRange);
            }
            let stepped = crate::step::step(&cu, &cv, p);
            cu = stepped.0;
            cv = stepped.1;
            k = k + 1;
        }
        let ghost stepped_pair = (cu.sview(), cv.sview());
        let ghost new_hist = self.hist@.push(stepped_pair);
        self.u = cu;
        self.v = cv;
        self.generation = self.generation + 1;
        self.hist = Ghost(new_hist);
        proof {
            let ghost w_i = old(self).width_spec();
            let ghost h_i = old(self).height_spec();
            assert(iter_steps(
                old(self).u_view(),
                old(self).v_view(),
                w_i,
                h_i,
                *p,
                count as nat,
            ) == stepped_pair);
            assert(batch_between(
                old(self).history().last(),
                stepped_pair,
                w_i,
                h_i,
            )) by {
                assert(p.wf() && stepped_pair == iter_steps(
                    old(self).history().last().0,
                    old(self).history().last().1,
                    w_i,
                    h_i,
                    *p,
                    count as nat,
                ));
            }
            assert forall|i: int| 0 <= i < self.generation implies batch_between(
                #[trigger] self.hist@[i],
                self.hist@[i + 1],
                w_i,
                h_i,
            ) by {
                if i < old(self).generation {
                    assert(batch_between(old(self).history()[i], old(self).history()[i + 1], w_i, h_i));
                }
            }
            assert(self.wf());
        }
        Ok(())
    }
}

/// Every snapshot pairs a `u` and a `v` of one and the same generation:
/// the pair published at generation `g` is exactly the history entry `g`,
/// and each history entry follows from the one before it by a whole batch
/// of steps — a reader can never observe fields of mixed generations.
pub proof fn lemma_generations_consistent(s: &SimulationState)
    requires
        s.wf(),
    ensures
        s.history().len() == s.generation_spec() + 1,
        s.history()[s.generation_spec()] == (s.u_view(), s.v_view()),
        forall|i: int|
            0 <= i < s.generation_spec() ==> batch_between(
                #[trigger] s.history()[i],
                s.history()[i + 1],
                s.width_spec(),
                s.height_spec(),
            ),
{
}

} // verus!
