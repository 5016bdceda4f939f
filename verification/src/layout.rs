//! The memory layout of the field: where each component of each grid point
//! lives in the flat buffer, and what a horizontal plane of it looks like.

use vstd::prelude::*;

verus! {

/// Number of scalar components stored for each grid point.
pub const COMPONENTS: usize = 3;

/// Number of samples in a grid of `xs` by `ys` by `zs` points.
pub open spec fn sample_count(xs: nat, ys: nat, zs: nat) -> nat {
    xs * ys * zs * 3
}

/// Whether `(xi, yi, zi)` names a point of the grid and `ci` one of its
/// components.
pub open spec fn in_grid(xs: nat, ys: nat, zs: nat, xi: int, yi: int, zi: int, ci: int) -> bool {
    &&& 0 <= xi < xs
    &&& 0 <= yi < ys
    &&& 0 <= zi < zs
    &&& 0 <= ci < 3
}

/// Position in the flat buffer of component `ci` of the point `(xi, yi, zi)`:
/// depth varies slowest, then rows, then columns, and the component fastest.
pub open spec fn sample_index(xs: nat, ys: nat, xi: int, yi: int, zi: int, ci: int) -> int {
    ((zi * ys + yi) * xs + xi) * 3 + ci
}

/// The table of component `ci` at depth `zi`: `ys` rows of `xs` values, the
/// row of the largest `y` first.
pub open spec fn plane(samples: Seq<u32>, xs: nat, ys: nat, zi: int, ci: int) -> Seq<Seq<u32>> {
    Seq::new(
        ys,
        |r: int| Seq::new(xs, |xi: int| samples[sample_index(xs, ys, xi, ys - 1 - r, zi, ci)]),
    )
}

/// The number of samples of a grid, or `None` where it exceeds `usize::MAX`.
pub fn checked_sample_count(xs: usize, ys: usize, zs: usize) -> (count: Option<usize>)
    ensures
        match count {
            Some(n) => n == sample_count(xs as nat, ys as nat, zs as nat),
            None => sample_count(xs as nat, ys as nat, zs as nat) > usize::MAX,
        },
{
    if xs == 0 || ys == 0 || zs == 0 {
        assert(xs * ys * zs * 3 == 0) by (nonlinear_arith)
            requires
                xs == 0 || ys == 0 || zs == 0,
        ;
        return Some(0);
    }
    let area = match xs.checked_mul(ys) {
        Some(area) => area,
        None => {
            assert(xs * ys * zs * 3 >= xs * ys) by (nonlinear_arith)
                requires
                    xs * ys >= 0,
                    zs >= 1,
            ;
            return None;
        },
    };
    let volume = match area.checked_mul(zs) {
        Some(volume) => volume,
        None => {
            assert(area * zs * 3 >= area * zs) by (nonlinear_arith)
                requires
                    area * zs >= 0,
            ;
            return None;
        },
    };
    volume.checked_mul(COMPONENTS)
}

/// The number of points in one horizontal plane, or `None` where it exceeds
/// `usize::MAX`.
pub fn checked_area(xs: usize, ys: usize) -> (area: Option<usize>)
    ensures
        match area {
            Some(n) => n == xs * ys,
            None => xs * ys > usize::MAX,
        },
{
    xs.checked_mul(ys)
}

/// A grid without samples has no depth or has an empty plane; any other
/// grid holds at least as many samples as one plane has points.
pub proof fn lemma_plane_within_grid(xs: nat, ys: nat, zs: nat)
    ensures
        sample_count(xs, ys, zs) == 0 <==> (xs * ys == 0 || zs == 0),
        zs > 0 ==> xs * ys <= sample_count(xs, ys, zs),
{
    assert(xs * ys * zs * 3 == 0 <==> (xs * ys == 0 || zs == 0)) by (nonlinear_arith);
    assert(zs > 0 ==> xs * ys <= xs * ys * zs * 3) by (nonlinear_arith);
}

/// Every position that the layout assigns lies inside the buffer.
pub proof fn lemma_index_in_bounds(xs: nat, ys: nat, zs: nat, xi: int, yi: int, zi: int, ci: int)
    requires
        in_grid(xs, ys, zs, xi, yi, zi, ci),
    ensures
        0 <= sample_index(xs, ys, xi, yi, zi, ci) < sample_count(xs, ys, zs),
{
    let row = zi * ys + yi;
    assert(0 <= row && row + 1 <= zs * ys) by (nonlinear_arith)
        requires
            0 <= yi < ys,
            0 <= zi < zs,
            row == zi * ys + yi,
    ;
    let cell = row * xs + xi;
    assert(0 <= cell && cell + 1 <= zs * ys * xs) by (nonlinear_arith)
        requires
            0 <= xi < xs,
            0 <= row,
            row + 1 <= zs * ys,
            cell == row * xs + xi,
    ;
    assert(zs * ys * xs * 3 == xs * ys * zs * 3) by (nonlinear_arith);
}

/// Along the way to a position no intermediate value exceeds the position
/// itself, so computing it cannot overflow where the result fits.
pub proof fn lemma_index_steps(xs: nat, ys: nat, xi: int, yi: int, zi: int, ci: int)
    requires
        0 <= xi < xs,
        0 <= yi < ys,
        0 <= zi,
        0 <= ci < 3,
    ensures
        0 <= zi * ys <= zi * ys + yi,
        zi * ys + yi <= (zi * ys + yi) * xs,
        (zi * ys + yi) * xs + xi <= sample_index(xs, ys, xi, yi, zi, ci),
{
    assert(0 <= zi * ys) by (nonlinear_arith)
        requires
            0 <= zi,
            0 <= ys,
    ;
    let row = zi * ys + yi;
    assert(row <= row * xs) by (nonlinear_arith)
        requires
            0 <= row,
            1 <= xs,
    ;
}

/// Distinct coordinates never share a position.
pub proof fn lemma_index_injective(
    xs: nat,
    ys: nat,
    zs: nat,
    a: (int, int, int, int),
    b: (int, int, int, int),
)
    requires
        in_grid(xs, ys, zs, a.0, a.1, a.2, a.3),
        in_grid(xs, ys, zs, b.0, b.1, b.2, b.3),
        sample_index(xs, ys, a.0, a.1, a.2, a.3) == sample_index(xs, ys, b.0, b.1, b.2, b.3),
    ensures
        a == b,
{
    let row_a = a.2 * ys + a.1;
    let row_b = b.2 * ys + b.1;
    let cell_a = row_a * xs + a.0;
    let cell_b = row_b * xs + b.0;
    assert(cell_a == cell_b && a.3 == b.3);
    assert(row_a == row_b && a.0 == b.0) by (nonlinear_arith)
        requires
            row_a * xs + a.0 == row_b * xs + b.0,
            0 <= a.0 < xs,
            0 <= b.0 < xs,
    ;
    assert(a.2 == b.2 && a.1 == b.1) by (nonlinear_arith)
        requires
            a.2 * ys + a.1 == b.2 * ys + b.1,
            0 <= a.1 < ys,
            0 <= b.1 < ys,
    ;
}

/// The coordinates `(xi, yi, zi, ci)` whose sample lies at position `k`.
pub open spec fn coordinates_of(xs: nat, ys: nat, k: int) -> (int, int, int, int) {
    let cell = k / 3;
    let row = cell / (xs as int);
    (cell % (xs as int), row % (ys as int), row / (ys as int), k % 3)
}

/// Every position of the buffer belongs to a point of the grid: the layout
/// leaves no gap, and `coordinates_of` undoes `sample_index`.
pub proof fn lemma_index_covers(xs: nat, ys: nat, zs: nat, k: int)
    requires
        0 <= k < sample_count(xs, ys, zs),
    ensures
        ({
            let (xi, yi, zi, ci) = coordinates_of(xs, ys, k);
            in_grid(xs, ys, zs, xi, yi, zi, ci) && sample_index(xs, ys, xi, yi, zi, ci) == k
        }),
{
    let cell = k / 3;
    let row = cell / (xs as int);
    assert(xs > 0 && ys > 0 && zs > 0 && cell < xs * (ys * zs)) by (nonlinear_arith)
        requires
            0 <= cell,
            cell * 3 <= k,
            k < xs * ys * zs * 3,
    ;
    assert(cell == row * xs + cell % (xs as int) && 0 <= cell % (xs as int) < xs && 0 <= row < ys
        * zs) by (nonlinear_arith)
        requires
            0 <= cell < xs * (ys * zs),
            xs > 0,
            row == cell / (xs as int),
    ;
    assert(row == (row / (ys as int)) * ys + row % (ys as int) && 0 <= row % (ys as int) < ys && 0
        <= row / (ys as int) < zs) by (nonlinear_arith)
        requires
            0 <= row < ys * zs,
            ys > 0,
    ;
}

/// Concatenating rows of one width puts the value of row `r`, column `c` at
/// position `r * width + c`.
pub proof fn lemma_flatten_uniform<A>(rows: Seq<Seq<A>>, width: nat)
    requires
        forall|r: int| 0 <= r < rows.len() ==> (#[trigger] rows[r]).len() == width,
    ensures
        rows.flatten().len() == rows.len() * width,
        forall|r: int, c: int|
            0 <= r < rows.len() && 0 <= c < width ==> rows.flatten()[r * width + c]
                == #[trigger] rows[r][c],
    decreases rows.len(),
{
    if rows.len() == 0 {
        assert(rows.len() * width == 0) by (nonlinear_arith)
            requires
                rows.len() == 0,
        ;
    } else {
        let rest = rows.drop_first();
        assert(rest.len() == rows.len() - 1);
        assert forall|r: int| 0 <= r < rest.len() implies (#[trigger] rest[r]).len() == width by {
            assert(rest[r] == rows[r + 1]);
        }
        lemma_flatten_uniform(rest, width);
        assert(rows.flatten() == rows.first() + rest.flatten());
        assert(rows.first().len() == width);
        assert(rows.len() * width == width + rest.len() * width) by (nonlinear_arith)
            requires
                rest.len() == rows.len() - 1,
        ;
        assert forall|r: int, c: int| 0 <= r < rows.len() && 0 <= c < width implies rows.flatten()[r
            * width + c] == #[trigger] rows[r][c] by {
            if r == 0 {
                assert(r * width + c == c) by (nonlinear_arith)
                    requires
                        r == 0,
                ;
            } else {
                let k = (r - 1) * width + c;
                assert(r * width + c == width + k && 0 <= k < rest.len() * width)
                    by (nonlinear_arith)
                    requires
                        1 <= r <= rest.len(),
                        0 <= c < width,
                        k == (r - 1) * width + c,
                ;
                assert(rest[r - 1] == rows[r]);
                assert(rest.flatten()[k] == rest[r - 1][c]);
            }
        }
    }
}

} // verus!
