//! The grid itself: a flat buffer of samples together with its dimensions.

use crate::error::GridError;
use crate::layout::{checked_sample_count, in_grid, plane, sample_count, sample_index, COMPONENTS};
use crate::layout::{lemma_index_in_bounds, lemma_index_steps};
use vstd::prelude::*;

verus! {

/// A buffer of `len` samples that are all zero.
pub open spec fn zeros(len: nat) -> Seq<u32> {
    Seq::new(len, |i: int| 0u32)
}

/// A fresh buffer of `len` zero samples, or `None` where the allocator
/// cannot provide it. An empty buffer is always provided.
pub fn zeroed_buffer(len: usize) -> (buffer: Option<Vec<u32>>)
    ensures
        len == 0 ==> buffer is Some,
        buffer matches Some(samples) ==> samples@ == zeros(len as nat),
{
    let mut samples: Vec<u32> = Vec::new();
    if len > 0 && samples.try_reserve(len).is_err() {
        return None;
    }
    let mut filled: usize = 0;
    while filled < len
        invariant
            filled <= len,
            samples@ == zeros(filled as nat),
        decreases len - filled,
    {
        samples.push(0);
        filled += 1;
    }
    Some(samples)
}

/// A vector field sampled on a regular grid of `xs` by `ys` by `zs` points,
/// three components per point. Its view is the flat buffer of samples.
#[derive(Debug)]
pub struct CartesianDataGrid {
    data: Vec<u32>,
    xs: usize,
    ys: usize,
    zs: usize,
}

impl View for CartesianDataGrid {
    type V = Seq<u32>;

    closed spec fn view(&self) -> Seq<u32> {
        self.data@
    }
}

impl CartesianDataGrid {
    /// Number of points along x.
    pub closed spec fn xs(&self) -> nat {
        self.xs as nat
    }

    /// Number of points along y.
    pub closed spec fn ys(&self) -> nat {
        self.ys as nat
    }

    /// Number of points along z.
    pub closed spec fn zs(&self) -> nat {
        self.zs as nat
    }

    /// The buffer holds exactly one sample for each component of each point.
    #[verifier::type_invariant]
    pub open spec fn wf(&self) -> bool {
        self@.len() == sample_count(self.xs(), self.ys(), self.zs())
    }

    /// The sample that the layout assigns to component `ci` of `(xi, yi, zi)`.
    pub open spec fn sample(&self, xi: int, yi: int, zi: int, ci: int) -> u32 {
        self@[sample_index(self.xs(), self.ys(), xi, yi, zi, ci)]
    }

    /// A grid of the given dimensions with every sample zero.
    ///
    /// Fails with `TooLarge` exactly when the number of samples exceeds
    /// `usize::MAX`, and with `AllocationFailed` when the allocator refuses
    /// the buffer. A grid without samples is always built.
    pub fn new(xs: usize, ys: usize, zs: usize) -> (grid: Result<Self, GridError>)
        ensures
            sample_count(xs as nat, ys as nat, zs as nat) > usize::MAX <==> grid == Err::<Self, _>(
                GridError::TooLarge,
            ),
            sample_count(xs as nat, ys as nat, zs as nat) == 0 ==> grid is Ok,
            match grid {
                Ok(g) => {
                    &&& g.xs() == xs
                    &&& g.ys() == ys
                    &&& g.zs() == zs
                    &&& g@ == zeros(sample_count(xs as nat, ys as nat, zs as nat))
                },
                Err(e) => e == GridError::TooLarge || e == GridError::AllocationFailed,
            },
    {
        let len = match checked_sample_count(xs, ys, zs) {
            Some(len) => len,
            None => {
                return Err(GridError::TooLarge);
            },
        };
        match zeroed_buffer(len) {
            Some(data) => Self::from_samples(xs, ys, zs, data),
            None => Err(GridError::AllocationFailed),
        }
    }

    /// A grid of the given dimensions around the buffer `samples`, which is
    /// taken as it is, in layout order.
    ///
    /// Fails with `TooLarge` where the number of samples of such a grid
    /// exceeds `usize::MAX`, and otherwise with `LengthMismatch` where
    /// `samples` does not hold exactly that number.
    pub fn from_samples(xs: usize, ys: usize, zs: usize, samples: Vec<u32>) -> (grid: Result<
        Self,
        GridError,
    >)
        ensures
            sample_count(xs as nat, ys as nat, zs as nat) > usize::MAX ==> grid == Err::<Self, _>(
                GridError::TooLarge,
            ),
            sample_count(xs as nat, ys as nat, zs as nat) <= usize::MAX && samples@.len()
                != sample_count(xs as nat, ys as nat, zs as nat) ==> grid == Err::<Self, _>(
                GridError::LengthMismatch,
            ),
            samples@.len() == sample_count(xs as nat, ys as nat, zs as nat) ==> grid is Ok,
            grid matches Ok(g) ==> {
                &&& g.xs() == xs
                &&& g.ys() == ys
                &&& g.zs() == zs
                &&& g@ == samples@
            },
    {
        let given = samples.len();
        match checked_sample_count(xs, ys, zs) {
            None => Err(GridError::TooLarge),
            Some(len) => {
                if given != len {
                    Err(GridError::LengthMismatch)
                } else {
                    Ok(CartesianDataGrid { data: samples, xs, ys, zs })
                }
            },
        }
    }

    /// Number of points along x.
    pub fn get_xs(&self) -> (xs: usize)
        ensures
            xs == self.xs(),
    {
        self.xs
    }

    /// Number of points along y.
    pub fn get_ys(&self) -> (ys: usize)
        ensures
            ys == self.ys(),
    {
        self.ys
    }

    /// Number of points along z.
    pub fn get_zs(&self) -> (zs: usize)
        ensures
            zs == self.zs(),
    {
        self.zs
    }

    /// The three dimensions, x first.
    pub fn dimensions(&self) -> (dims: (usize, usize, usize))
        ensures
            dims.0 == self.xs(),
            dims.1 == self.ys(),
            dims.2 == self.zs(),
    {
        (self.xs, self.ys, self.zs)
    }

    /// Number of samples in the buffer.
    pub fn len(&self) -> (len: usize)
        ensures
            len == self@.len(),
            len == sample_count(self.xs(), self.ys(), self.zs()),
    {
        proof {
            use_type_invariant(self);
        }
        self.data.len()
    }

    /// The whole buffer, in layout order.
    pub fn values(&self) -> (samples: &[u32])
        ensures
            samples@ == self@,
    {
        self.data.as_slice()
    }

    /// Where the layout puts component `ci` of the point `(xi, yi, zi)`.
    fn position(&self, xi: usize, yi: usize, zi: usize, ci: usize) -> (index: usize)
        requires
            in_grid(self.xs(), self.ys(), self.zs(), xi as int, yi as int, zi as int, ci as int),
        ensures
            index == sample_index(self.xs(), self.ys(), xi as int, yi as int, zi as int, ci as int),
            index < self@.len(),
    {
        proof {
            use_type_invariant(self);
            lemma_index_in_bounds(
                self.xs(),
                self.ys(),
                self.zs(),
                xi as int,
                yi as int,
                zi as int,
                ci as int,
            );
            lemma_index_steps(self.xs(), self.ys(), xi as int, yi as int, zi as int, ci as int);
            assert(self@.len() == self.data.len());
        }
        ((zi * self.ys + yi) * self.xs + xi) * COMPONENTS + ci
    }

    /// The value of component `ci` at the point `(xi, yi, zi)`. This is the
    /// checked form: coordinates outside the grid are refused with
    /// `OutOfRange`, never clamped or wrapped.
    pub fn value_at(&self, xi: usize, yi: usize, zi: usize, ci: usize) -> (value: Result<
        u32,
        GridError,
    >)
        ensures
            in_grid(self.xs(), self.ys(), self.zs(), xi as int, yi as int, zi as int, ci as int)
                ==> value == Ok::<u32, GridError>(
                self.sample(xi as int, yi as int, zi as int, ci as int),
            ),
            !in_grid(self.xs(), self.ys(), self.zs(), xi as int, yi as int, zi as int, ci as int)
                ==> value == Err::<u32, GridError>(GridError::OutOfRange),
    {
        if xi >= self.xs || yi >= self.ys || zi >= self.zs || ci >= COMPONENTS {
            return Err(GridError::OutOfRange);
        }
        let index = self.position(xi, yi, zi, ci);
        Ok(self.data[index])
    }

    /// One row of a plane: component `ci` of the points `(0..xs, yi, zi)`.
    fn extract_row(&self, yi: usize, zi: usize, ci: usize) -> (row: Vec<u32>)
        requires
            yi < self.ys(),
            zi < self.zs(),
            ci < 3,
        ensures
            row@.len() == self.xs(),
            forall|xi: int|
                0 <= xi < self.xs() ==> #[trigger] row@[xi] == self.sample(
                    xi,
                    yi as int,
                    zi as int,
                    ci as int,
                ),
    {
        let mut row: Vec<u32> = Vec::new();
        let mut xi: usize = 0;
        while xi < self.xs
            invariant
                yi < self.ys(),
                zi < self.zs(),
                ci < 3,
                xi <= self.xs(),
                row@.len() == xi,
                forall|k: int|
                    0 <= k < xi ==> #[trigger] row@[k] == self.sample(
                        k,
                        yi as int,
                        zi as int,
                        ci as int,
                    ),
            decreases self.xs() - xi,
        {
            let index = self.position(xi, yi, zi, ci);
            row.push(self.data[index]);
            xi += 1;
        }
        row
    }

    /// The table of component `ci` at depth `zi`: `ys` rows of `xs` values
    /// each, the first row holding `y = ys - 1` and the last `y = 0`.
    ///
    /// A depth of `zs` or more, or a component of 3 or more, is refused with
    /// `OutOfRange`.
    pub fn extract_plane(&self, zi: usize, ci: usize) -> (table: Result<Vec<Vec<u32>>, GridError>)
        ensures
            zi < self.zs() && ci < 3 ==> table is Ok,
            !(zi < self.zs() && ci < 3) ==> table == Err::<Vec<Vec<u32>>, GridError>(
                GridError::OutOfRange,
            ),
            table matches Ok(rows) ==> {
                &&& rows.deep_view() == plane(self@, self.xs(), self.ys(), zi as int, ci as int)
                &&& rows@.len() == self.ys()
                &&& forall|r: int| 0 <= r < self.ys() ==> (#[trigger] rows@[r])@.len() == self.xs()
                &&& forall|r: int, xi: int|
                    0 <= r < self.ys() && 0 <= xi < self.xs() ==> #[trigger] rows@[r]@[xi]
                        == self.sample(xi, self.ys() - 1 - r, zi as int, ci as int)
            },
    {
        if zi >= self.zs || ci >= COMPONENTS {
            return Err(GridError::OutOfRange);
        }
        let mut rows: Vec<Vec<u32>> = Vec::new();
        let mut yi: usize = self.ys;
        while yi > 0
            invariant
                zi < self.zs(),
                ci < 3,
                yi <= self.ys(),
                rows@.len() == self.ys() - yi,
                forall|r: int|
                    0 <= r < rows@.len() ==> (#[trigger] rows@[r])@ == plane(
                        self@,
                        self.xs(),
                        self.ys(),
                        zi as int,
                        ci as int,
                    )[r],
            decreases yi,
        {
            yi -= 1;
            let row = self.extract_row(yi, zi, ci);
            assert(row@ == plane(self@, self.xs(), self.ys(), zi as int, ci as int)[rows@.len() as int]);
            rows.push(row);
        }
        assert(rows.deep_view() =~~= plane(self@, self.xs(), self.ys(), zi as int, ci as int));
        Ok(rows)
    }

    /// Replaces the whole buffer by `samples`, which must hold exactly as
    /// many samples as the grid does; any other length is refused with
    /// `LengthMismatch` and the grid keeps its contents.
    pub fn set_vec(&mut self, samples: Vec<u32>) -> (done: Result<(), GridError>)
        ensures
            final(self).xs() == old(self).xs(),
            final(self).ys() == old(self).ys(),
            final(self).zs() == old(self).zs(),
            samples@.len() == old(self)@.len() ==> done is Ok && final(self)@ == samples@,
            samples@.len() != old(self)@.len() ==> done == Err::<(), GridError>(
                GridError::LengthMismatch,
            ) && final(self)@ == old(self)@,
        no_unwind
    {
        if samples.len() != self.data.len() {
            return Err(GridError::LengthMismatch);
        }
        proof {
            use_type_invariant(&*self);
        }
        self.data = samples;
        Ok(())
    }
}

} // verus!
