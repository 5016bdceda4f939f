//! The data source: one grid, the field that a generator produced for it
//! last, and a horizontal slice of it that is refreshed on demand.

use crate::error::GridError;
use crate::grid::{zeros, CartesianDataGrid};
use crate::layout::{plane, sample_count};
use crate::layout::{lemma_flatten_uniform, lemma_plane_within_grid};
use crate::slice::HorizontalSlice;
use vstd::prelude::*;

verus! {

/// What a field generator is to be called with for one time step: the
/// dimensions of the grid, the time step, and the number of samples that it
/// must write.
#[derive(Clone, Copy, Debug, PartialEq, Eq)]
pub struct GeneratorArgs {
    /// Number of points along x.
    pub xs: i32,
    /// Number of points along y.
    pub ys: i32,
    /// Number of points along z.
    pub zs: i32,
    /// The time step.
    pub time: i32,
    /// Number of samples in the field, `xs * ys * zs * 3`.
    pub len: usize,
}

/// What a data source holds, as plain mathematical values.
pub struct SourceState {
    /// Number of points along x.
    pub xs: nat,
    /// Number of points along y.
    pub ys: nat,
    /// Number of points along z.
    pub zs: nat,
    /// The grid's buffer.
    pub samples: Seq<u32>,
    /// The slice's buffer.
    pub slice: Seq<u32>,
    /// The time step of the field in the grid, `None` before the first one.
    pub time: Option<i32>,
    /// The depth and the component that the slice shows of the grid as it
    /// is now, `None` where the slice was not refreshed since the grid last
    /// changed.
    pub level: Option<(nat, nat)>,
}

impl SourceState {
    /// A source that was just built: every sample and every value of the
    /// slice zero, no field generated, the slice not refreshed.
    pub open spec fn initial(xs: nat, ys: nat, zs: nat) -> Self {
        SourceState {
            xs,
            ys,
            zs,
            samples: zeros(sample_count(xs, ys, zs)),
            slice: zeros(xs * ys),
            time: None,
            level: None,
        }
    }

    /// The source after the field `field` of time step `time` was installed:
    /// the grid holds the field and nothing else, and the slice, untouched,
    /// counts as stale.
    pub open spec fn generate(self, time: i32, field: Seq<u32>) -> Self {
        SourceState { samples: field, time: Some(time), level: None, ..self }
    }

    /// The source after its slice was refreshed for component `ci` at depth
    /// `zi`.
    pub open spec fn refresh(self, zi: nat, ci: nat) -> Self {
        SourceState {
            slice: plane(self.samples, self.xs, self.ys, zi as int, ci as int).flatten(),
            level: Some((zi, ci)),
            ..self
        }
    }

    /// Whether every dimension fits the 32-bit signed integers in which a
    /// field generator takes them.
    pub open spec fn in_generator_range(self) -> bool {
        self.xs <= i32::MAX && self.ys <= i32::MAX && self.zs <= i32::MAX
    }

    /// What the field generator is called with for time step `time`: a
    /// function of the dimensions and the time step alone.
    pub open spec fn generator_args(self, time: i32) -> GeneratorArgs {
        GeneratorArgs {
            xs: self.xs as i32,
            ys: self.ys as i32,
            zs: self.zs as i32,
            time,
            len: sample_count(self.xs, self.ys, self.zs) as usize,
        }
    }

    /// What holds of a source at all times: both buffers have the lengths
    /// that the dimensions ask for, the grid is zero until a field is
    /// generated, and a slice that counts as fresh shows the grid as it is.
    pub open spec fn inv(self) -> bool {
        &&& self.samples.len() == sample_count(self.xs, self.ys, self.zs)
        &&& self.slice.len() == self.xs * self.ys
        &&& self.time is None ==> self.samples == zeros(sample_count(self.xs, self.ys, self.zs))
        &&& self.level matches Some((zi, ci)) ==> {
            &&& zi < self.zs
            &&& ci < 3
            &&& self.slice == plane(self.samples, self.xs, self.ys, zi as int, ci as int).flatten()
        }
    }
}

/// The owner of one grid and of a horizontal slice of it, and the only
/// writer of either.
#[derive(Debug)]
pub struct FlowDataSource {
    array_size: usize,
    grid: CartesianDataGrid,
    slice: HorizontalSlice,
    time: Option<i32>,
    level: Option<(usize, usize)>,
}

impl View for FlowDataSource {
    type V = SourceState;

    closed spec fn view(&self) -> SourceState {
        SourceState {
            xs: self.grid.xs(),
            ys: self.grid.ys(),
            zs: self.grid.zs(),
            samples: self.grid@,
            slice: self.slice@,
            time: self.time,
            level: match self.level {
                Some((zi, ci)) => Some((zi as nat, ci as nat)),
                None => None,
            },
        }
    }
}

impl FlowDataSource {
    #[verifier::type_invariant]
    closed spec fn wf(&self) -> bool {
        &&& self.array_size == self.grid@.len()
        &&& self.slice.xs() == self.grid.xs()
        &&& self.slice.ys() == self.grid.ys()
        &&& self@.inv()
    }

    /// A source for a grid of the given dimensions, in its initial state.
    ///
    /// Fails with `TooLarge` exactly when the grid's samples or the slice's
    /// values are more than `usize::MAX`, and with `AllocationFailed` when
    /// the allocator refuses one of the two buffers. A source without
    /// samples and without slice values is always built.
    pub fn new(xs: usize, ys: usize, zs: usize) -> (source: Result<Self, GridError>)
        ensures
            (sample_count(xs as nat, ys as nat, zs as nat) > usize::MAX || xs * ys > usize::MAX)
                <==> source == Err::<Self, _>(GridError::TooLarge),
            sample_count(xs as nat, ys as nat, zs as nat) == 0 && xs * ys == 0 ==> source is Ok,
            match source {
                Ok(s) => s@ == SourceState::initial(xs as nat, ys as nat, zs as nat),
                Err(e) => e == GridError::TooLarge || e == GridError::AllocationFailed,
            },
    {
        proof {
            lemma_plane_within_grid(xs as nat, ys as nat, zs as nat);
        }
        let grid = match CartesianDataGrid::new(xs, ys, zs) {
            Ok(grid) => grid,
            Err(e) => {
                return Err(e);
            },
        };
        let slice = match HorizontalSlice::new(xs, ys) {
            Ok(slice) => slice,
            Err(e) => {
                return Err(e);
            },
        };
        let array_size = grid.len();
        Ok(FlowDataSource { array_size, grid, slice, time: None, level: None })
    }

    /// Number of samples in the grid.
    pub fn array_size(&self) -> (len: usize)
        ensures
            len == self@.samples.len(),
            len == sample_count(self@.xs, self@.ys, self@.zs),
            self@.inv(),
    {
        proof {
            use_type_invariant(self);
        }
        self.array_size
    }

    /// What to call the field generator with for time step `time`. Where a
    /// dimension of the grid exceeds `i32::MAX` the generator cannot be told
    /// the grid's shape, and `GeneratorRange` is returned.
    pub fn generator_args(&self, time: i32) -> (args: Result<GeneratorArgs, GridError>)
        ensures
            self@.in_generator_range() ==> args == Ok::<GeneratorArgs, GridError>(
                self@.generator_args(time),
            ),
            !self@.in_generator_range() ==> args == Err::<GeneratorArgs, _>(
                GridError::GeneratorRange,
            ),
            args matches Ok(a) ==> {
                &&& a.xs == self@.xs
                &&& a.ys == self@.ys
                &&& a.zs == self@.zs
                &&& a.time == time
                &&& a.len == sample_count(self@.xs, self@.ys, self@.zs)
            },
    {
        proof {
            use_type_invariant(self);
        }
        let (xs, ys, zs) = self.grid.dimensions();
        let limit: usize = i32::MAX as usize;
        if xs > limit || ys > limit || zs > limit {
            return Err(GridError::GeneratorRange);
        }
        Ok(GeneratorArgs { xs: xs as i32, ys: ys as i32, zs: zs as i32, time, len: self.array_size })
    }

    /// Installs `field`, the generator's output for time step `time`, as the
    /// contents of the grid. Every sample is replaced; the slice keeps its
    /// values and counts as stale from here on.
    ///
    /// A field that does not hold exactly as many samples as the grid is
    /// refused with `LengthMismatch`, and the source stays as it was.
    pub fn gen_tornado(&mut self, time: i32, field: Vec<u32>) -> (done: Result<(), GridError>)
        ensures
            field@.len() == old(self)@.samples.len() ==> done is Ok && final(self)@ == old(
                self,
            )@.generate(time, field@),
            field@.len() != old(self)@.samples.len() ==> done == Err::<(), GridError>(
                GridError::LengthMismatch,
            ) && final(self)@ == old(self)@,
    {
        proof {
            use_type_invariant(&*self);
        }
        if field.len() != self.array_size {
            return Err(GridError::LengthMismatch);
        }
        self.level = None;
        self.time = Some(time);
        self.grid.set_vec(field)
    }

    /// Refreshes the slice from the grid as it is now, for component `ci` at
    /// depth `zi`. A depth or component outside the grid is refused with
    /// `OutOfRange`, and the source stays as it was.
    pub fn recompute_slice(&mut self, zi: usize, ci: usize) -> (done: Result<(), GridError>)
        ensures
            zi < old(self)@.zs && ci < 3 ==> done is Ok && final(self)@ == old(self)@.refresh(
                zi as nat,
                ci as nat,
            ),
            !(zi < old(self)@.zs && ci < 3) ==> done == Err::<(), GridError>(
                GridError::OutOfRange,
            ) && final(self)@ == old(self)@,
    {
        proof {
            use_type_invariant(&*self);
        }
        let slice = match HorizontalSlice::of_plane(&self.grid, zi, ci) {
            Ok(slice) => slice,
            Err(e) => {
                return Err(e);
            },
        };
        proof {
            lemma_flatten_uniform(
                plane(self.grid@, self.grid.xs(), self.grid.ys(), zi as int, ci as int),
                self.grid.xs(),
            );
            assert(self.grid.ys() * self.grid.xs() == self.grid.xs() * self.grid.ys())
                by (nonlinear_arith);
        }
        self.level = None;
        self.slice = slice;
        self.level = Some((zi, ci));
        Ok(())
    }

    /// The grid, for reading.
    pub fn get_all_values(&self) -> (grid: &CartesianDataGrid)
        ensures
            grid@ == self@.samples,
            grid.xs() == self@.xs,
            grid.ys() == self@.ys,
            grid.zs() == self@.zs,
            self@.inv(),
    {
        proof {
            use_type_invariant(self);
        }
        &self.grid
    }

    /// The slice as it was last refreshed, for reading. Whether it still
    /// shows the grid is told by `slice_level`.
    pub fn get_horizontal_values(&self) -> (slice: &HorizontalSlice)
        ensures
            slice@ == self@.slice,
            slice.xs() == self@.xs,
            slice.ys() == self@.ys,
            self@.inv(),
    {
        proof {
            use_type_invariant(self);
        }
        &self.slice
    }

    /// The time step of the field in the grid, `None` before the first one.
    pub fn generated_time(&self) -> (time: Option<i32>)
        ensures
            time == self@.time,
    {
        self.time
    }

    /// The depth and the component that the slice shows of the grid as it
    /// is now, `None` where the slice is stale.
    pub fn slice_level(&self) -> (level: Option<(usize, usize)>)
        ensures
            match level {
                Some((zi, ci)) => self@.level == Some((zi as nat, ci as nat)),
                None => self@.level is None,
            },
    {
        self.level
    }
}

/// A source that was just built is in order.
pub proof fn lemma_initial_inv(xs: nat, ys: nat, zs: nat)
    ensures
        SourceState::initial(xs, ys, zs).inv(),
        SourceState::initial(xs, ys, zs).time is None,
        SourceState::initial(xs, ys, zs).level is None,
{
}

/// Installing a field of the grid's length keeps a source in order.
pub proof fn lemma_generate_inv(s: SourceState, time: i32, field: Seq<u32>)
    requires
        s.inv(),
        field.len() == s.samples.len(),
    ensures
        s.generate(time, field).inv(),
{
}

/// Refreshing the slice for a depth and a component of the grid keeps a
/// source in order.
pub proof fn lemma_refresh_inv(s: SourceState, zi: nat, ci: nat)
    requires
        s.inv(),
        zi < s.zs,
        ci < 3,
    ensures
        s.refresh(zi, ci).inv(),
{
    lemma_flatten_uniform(plane(s.samples, s.xs, s.ys, zi as int, ci as int), s.xs);
    assert(s.ys * s.xs == s.xs * s.ys) by (nonlinear_arith);
}

/// Generation depends on nothing but the dimensions, the time step and what
/// the generator wrote: two sources of the same dimensions ask the
/// generator for the same thing and, given the same field, hold identical
/// buffers afterwards, whatever either held before.
pub proof fn lemma_generate_deterministic(a: SourceState, b: SourceState, time: i32, field: Seq<u32>)
    requires
        a.xs == b.xs,
        a.ys == b.ys,
        a.zs == b.zs,
    ensures
        a.generator_args(time) == b.generator_args(time),
        a.generate(time, field).samples == b.generate(time, field).samples,
        a.generate(time, field).samples == field,
{
}

/// A generation overwrites the whole grid: after a second one nothing of
/// the first is left, and the source is as if the first had not happened.
pub proof fn lemma_generate_overwrites(
    s: SourceState,
    t1: i32,
    f1: Seq<u32>,
    t2: i32,
    f2: Seq<u32>,
)
    ensures
        s.generate(t1, f1).generate(t2, f2) == s.generate(t2, f2),
        s.generate(t1, f1).generate(t2, f2).samples == f2,
{
}

/// Installing the same field for the same time step twice is the same as
/// installing it once.
pub proof fn lemma_generate_idempotent(s: SourceState, time: i32, field: Seq<u32>)
    ensures
        s.generate(time, field).generate(time, field) == s.generate(time, field),
{
}

/// A slice refreshed after a generation holds the plane of the generated
/// field, row after row, and counts as fresh.
pub proof fn lemma_refresh_after_generate(
    s: SourceState,
    time: i32,
    field: Seq<u32>,
    zi: nat,
    ci: nat,
)
    ensures
        s.generate(time, field).refresh(zi, ci).slice == plane(
            field,
            s.xs,
            s.ys,
            zi as int,
            ci as int,
        ).flatten(),
        s.generate(time, field).refresh(zi, ci).level == Some((zi, ci)),
        s.generate(time, field).refresh(zi, ci).samples == field,
{
}

/// The slice is never refreshed by a generation: it keeps its values and
/// counts as stale until it is refreshed again.
pub proof fn lemma_generate_leaves_slice_stale(s: SourceState, time: i32, field: Seq<u32>)
    ensures
        s.generate(time, field).slice == s.slice,
        s.generate(time, field).level is None,
{
}

} // verus!
