//! A horizontal cross-section of a grid: one component at one depth, kept in
//! a buffer of its own.

use crate::error::GridError;
use crate::grid::{zeroed_buffer, zeros, CartesianDataGrid};
use crate::layout::{checked_area, lemma_flatten_uniform, plane};
use vstd::prelude::*;

verus! {

/// The rows of `rows` one after another, the first row first.
pub fn flatten_rows(rows: &Vec<Vec<u32>>) -> (flat: Vec<u32>)
    ensures
        flat@ == rows.deep_view().flatten(),
{
    let mut flat: Vec<u32> = Vec::new();
    let mut r: usize = 0;
    while r < rows.len()
        invariant
            r <= rows@.len(),
            flat@ == rows.deep_view().subrange(0, r as int).flatten_alt(),
        decreases rows@.len() - r,
    {
        let row = &rows[r];
        let ghost before = flat@;
        let mut c: usize = 0;
        while c < row.len()
            invariant
                c <= row@.len(),
                flat@ == before + row@.subrange(0, c as int),
            decreases row@.len() - c,
        {
            flat.push(row[c]);
            c += 1;
        }
        proof {
            let table = rows.deep_view();
            let done = table.subrange(0, r as int + 1);
            assert(row@.subrange(0, c as int) == row@);
            assert(done.last() =~= row@);
            assert(done.drop_last() == table.subrange(0, r as int));
        }
        r += 1;
    }
    proof {
        let table = rows.deep_view();
        assert(table.subrange(0, r as int) == table);
        table.lemma_flatten_and_flatten_alt_are_equivalent();
    }
    flat
}

/// The plane of component `ci` at depth `zi` of `grid` as one buffer, rows
/// from the largest `y` down and each row by ascending `x`.
pub fn flat_plane(grid: &CartesianDataGrid, zi: usize, ci: usize) -> (flat: Result<
    Vec<u32>,
    GridError,
>)
    ensures
        zi < grid.zs() && ci < 3 ==> flat is Ok,
        !(zi < grid.zs() && ci < 3) ==> flat == Err::<Vec<u32>, GridError>(GridError::OutOfRange),
        flat matches Ok(samples) ==> {
            &&& samples@ == plane(grid@, grid.xs(), grid.ys(), zi as int, ci as int).flatten()
            &&& samples@.len() == grid.xs() * grid.ys()
        },
{
    match grid.extract_plane(zi, ci) {
        Ok(rows) => {
            proof {
                lemma_flatten_uniform(
                    plane(grid@, grid.xs(), grid.ys(), zi as int, ci as int),
                    grid.xs(),
                );
                assert(grid.ys() * grid.xs() == grid.xs() * grid.ys()) by (nonlinear_arith);
            }
            Ok(flatten_rows(&rows))
        },
        Err(e) => Err(e),
    }
}

/// One component of a grid at one depth, `ys` rows of `xs` values in one
/// buffer. Its view is that buffer.
#[derive(Debug)]
pub struct HorizontalSlice {
    data: Vec<u32>,
    xs: usize,
    ys: usize,
}

impl View for HorizontalSlice {
    type V = Seq<u32>;

    closed spec fn view(&self) -> Seq<u32> {
        self.data@
    }
}

impl HorizontalSlice {
    /// Number of values in a row.
    pub closed spec fn xs(&self) -> nat {
        self.xs as nat
    }

    /// Number of rows.
    pub closed spec fn ys(&self) -> nat {
        self.ys as nat
    }

    /// The buffer holds exactly one value for each point of the plane.
    #[verifier::type_invariant]
    pub open spec fn wf(&self) -> bool {
        self@.len() == self.xs() * self.ys()
    }

    /// A slice of the given dimensions with every value zero.
    ///
    /// Fails with `TooLarge` exactly when `xs * ys` exceeds `usize::MAX`, and
    /// with `AllocationFailed` when the allocator refuses the buffer. A slice
    /// without values is always built.
    pub fn new(xs: usize, ys: usize) -> (slice: Result<Self, GridError>)
        ensures
            xs * ys > usize::MAX <==> slice == Err::<Self, _>(GridError::TooLarge),
            xs * ys == 0 ==> slice is Ok,
            match slice {
                Ok(s) => s.xs() == xs && s.ys() == ys && s@ == zeros((xs * ys) as nat),
                Err(e) => e == GridError::TooLarge || e == GridError::AllocationFailed,
            },
    {
        let len = match checked_area(xs, ys) {
            Some(len) => len,
            None => {
                return Err(GridError::TooLarge);
            },
        };
        match zeroed_buffer(len) {
            Some(data) => Self::from_values(xs, ys, data),
            None => Err(GridError::AllocationFailed),
        }
    }

    /// A slice of the given dimensions around the buffer `values`, which is
    /// taken as it is, row after row.
    ///
    /// Fails with `TooLarge` where `xs * ys` exceeds `usize::MAX`, and
    /// otherwise with `LengthMismatch` where `values` does not hold exactly
    /// `xs * ys` values.
    pub fn from_values(xs: usize, ys: usize, values: Vec<u32>) -> (slice: Result<Self, GridError>)
        ensures
            xs * ys > usize::MAX ==> slice == Err::<Self, _>(GridError::TooLarge),
            xs * ys <= usize::MAX && values@.len() != xs * ys ==> slice == Err::<Self, _>(
                GridError::LengthMismatch,
            ),
            values@.len() == xs * ys ==> slice is Ok,
            slice matches Ok(s) ==> s.xs() == xs && s.ys() == ys && s@ == values@,
    {
        let given = values.len();
        match checked_area(xs, ys) {
            None => Err(GridError::TooLarge),
            Some(len) => {
                if given != len {
                    Err(GridError::LengthMismatch)
                } else {
                    Ok(HorizontalSlice { data: values, xs, ys })
                }
            },
        }
    }

    /// A slice of the horizontal dimensions of `grid` that holds its
    /// component `ci` at depth `zi`. A depth or component outside the grid
    /// is refused with `OutOfRange`.
    pub fn of_plane(grid: &CartesianDataGrid, zi: usize, ci: usize) -> (slice: Result<
        Self,
        GridError,
    >)
        ensures
            zi < grid.zs() && ci < 3 ==> slice is Ok,
            !(zi < grid.zs() && ci < 3) ==> slice == Err::<Self, _>(GridError::OutOfRange),
            slice matches Ok(s) ==> {
                &&& s.xs() == grid.xs()
                &&& s.ys() == grid.ys()
                &&& s@ == plane(grid@, grid.xs(), grid.ys(), zi as int, ci as int).flatten()
            },
    {
        match flat_plane(grid, zi, ci) {
            Ok(data) => Ok(HorizontalSlice { data, xs: grid.get_xs(), ys: grid.get_ys() }),
            Err(e) => Err(e),
        }
    }

    /// Number of values in a row.
    pub fn get_xs(&self) -> (xs: usize)
        ensures
            xs == self.xs(),
    {
        self.xs
    }

    /// Number of rows.
    pub fn get_ys(&self) -> (ys: usize)
        ensures
            ys == self.ys(),
    {
        self.ys
    }

    /// The values, row after row.
    pub fn values(&self) -> (samples: &[u32])
        ensures
            samples@ == self@,
            samples@.len() == self.xs() * self.ys(),
    {
        proof {
            use_type_invariant(self);
        }
        self.data.as_slice()
    }

    /// Fills the slice with component `ci` of `grid` at depth `zi`: the
    /// table that `extract_plane` gives for them, row after row.
    ///
    /// A depth or component outside the grid is refused with `OutOfRange`;
    /// otherwise a grid whose horizontal dimensions differ from the slice's
    /// is refused with `ShapeMismatch`.
    pub fn recompute_from(&mut self, grid: &CartesianDataGrid, zi: usize, ci: usize) -> (done:
        Result<(), GridError>)
        ensures
            final(self).xs() == old(self).xs(),
            final(self).ys() == old(self).ys(),
            !(zi < grid.zs() && ci < 3) ==> done == Err::<(), GridError>(GridError::OutOfRange),
            zi < grid.zs() && ci < 3 && !(grid.xs() == old(self).xs() && grid.ys() == old(
                self,
            ).ys()) ==> done == Err::<(), GridError>(GridError::ShapeMismatch),
            zi < grid.zs() && ci < 3 && grid.xs() == old(self).xs() && grid.ys() == old(self).ys()
                ==> done is Ok,
            done is Ok ==> final(self)@ == plane(
                grid@,
                grid.xs(),
                grid.ys(),
                zi as int,
                ci as int,
            ).flatten(),
            done is Err ==> final(self)@ == old(self)@,
    {
        if zi >= grid.get_zs() || ci >= 3 {
            return Err(GridError::OutOfRange);
        }
        if grid.get_xs() != self.xs || grid.get_ys() != self.ys {
            return Err(GridError::ShapeMismatch);
        }
        match flat_plane(grid, zi, ci) {
            Ok(samples) => {
                self.data = samples;
                Ok(())
            },
            Err(e) => Err(e),
        }
    }
}

} // verus!
