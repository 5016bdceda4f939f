use flowgrid::error::GridError;
use flowgrid::grid::CartesianDataGrid;
use flowgrid::slice::{flat_plane, flatten_rows, HorizontalSlice};

fn ramp_grid(xs: usize, ys: usize, zs: usize) -> CartesianDataGrid {
    let mut grid = CartesianDataGrid::new(xs, ys, zs).unwrap();
    let samples: Vec<u32> = (0..xs * ys * zs * 3).map(|i| (i as f32 * 0.5).to_bits()).collect();
    grid.set_vec(samples).unwrap();
    grid
}

fn half_bits(values: &[usize]) -> Vec<u32> {
    values.iter().map(|v| (*v as f32 * 0.5).to_bits()).collect()
}

#[test]
fn fresh_slice_is_zero() {
    let slice = HorizontalSlice::new(16, 16).unwrap();
    assert_eq!(slice.values().len(), 256);
    assert!(slice.values().iter().all(|b| *b == 0));
    assert_eq!((slice.get_xs(), slice.get_ys()), (16, 16));
    let empty = HorizontalSlice::new(0, 9).unwrap();
    assert!(empty.values().is_empty());
    assert_eq!((empty.get_xs(), empty.get_ys()), (0, 9));
}

#[test]
fn slice_beyond_the_address_space_is_too_large() {
    assert_eq!(HorizontalSlice::new(usize::MAX, 2).err(), Some(GridError::TooLarge));
    assert_eq!(HorizontalSlice::new(1 << 32, 1 << 32).err(), Some(GridError::TooLarge));
}

#[test]
fn slice_that_cannot_be_allocated_is_reported() {
    assert_eq!(HorizontalSlice::new(1 << 40, 1 << 12).err(), Some(GridError::AllocationFailed));
}

#[test]
fn flatten_rows_concatenates_in_order() {
    assert_eq!(flatten_rows(&vec![]), vec![]);
    assert_eq!(flatten_rows(&vec![vec![], vec![]]), vec![]);
    assert_eq!(flatten_rows(&vec![vec![1, 2], vec![3, 4], vec![5, 6]]), vec![1, 2, 3, 4, 5, 6]);
    assert_eq!(flatten_rows(&vec![vec![7], vec![], vec![8, 9, 10]]), vec![7, 8, 9, 10]);
}

#[test]
fn flat_plane_is_the_table_row_after_row() {
    let grid = ramp_grid(2, 2, 2);
    assert_eq!(flat_plane(&grid, 1, 0), Ok(half_bits(&[18, 21, 12, 15])));
    assert_eq!(flat_plane(&grid, 0, 2), Ok(half_bits(&[8, 11, 2, 5])));
    assert_eq!(flat_plane(&grid, 2, 0), Err(GridError::OutOfRange));
    assert_eq!(flat_plane(&grid, 0, 3), Err(GridError::OutOfRange));
}

#[test]
fn recompute_from_equals_the_flattened_plane() {
    let (xs, ys, zs) = (4, 3, 5);
    let grid = ramp_grid(xs, ys, zs);
    let mut slice = HorizontalSlice::new(xs, ys).unwrap();
    for zi in 0..zs {
        for ci in 0..3 {
            assert_eq!(slice.recompute_from(&grid, zi, ci), Ok(()));
            let table = grid.extract_plane(zi, ci).unwrap();
            let flat: Vec<u32> = table.into_iter().flatten().collect();
            assert_eq!(slice.values(), &flat[..]);
            assert_eq!(slice.values().len(), xs * ys);
            assert_eq!((slice.get_xs(), slice.get_ys()), (xs, ys));
        }
    }
}

#[test]
fn recompute_from_exact_values() {
    let grid = ramp_grid(2, 2, 2);
    let mut slice = HorizontalSlice::new(2, 2).unwrap();
    slice.recompute_from(&grid, 1, 0).unwrap();
    assert_eq!(slice.values(), &half_bits(&[18, 21, 12, 15])[..]);
    let shown: Vec<f32> = slice.values().iter().map(|b| f32::from_bits(*b)).collect();
    assert_eq!(shown, vec![9.0, 10.5, 6.0, 7.5]);
}

#[test]
fn recompute_from_refuses_levels_outside_the_grid() {
    let grid = ramp_grid(2, 2, 2);
    let mut slice = HorizontalSlice::new(2, 2).unwrap();
    slice.recompute_from(&grid, 0, 1).unwrap();
    let before = slice.values().to_vec();
    assert_eq!(slice.recompute_from(&grid, 2, 0), Err(GridError::OutOfRange));
    assert_eq!(slice.recompute_from(&grid, 0, 3), Err(GridError::OutOfRange));
    assert_eq!(slice.values(), &before[..]);
}

#[test]
fn recompute_from_refuses_a_grid_of_another_shape() {
    let grid = ramp_grid(3, 2, 2);
    let mut slice = HorizontalSlice::new(2, 3).unwrap();
    assert_eq!(slice.recompute_from(&grid, 0, 0), Err(GridError::ShapeMismatch));
    assert!(slice.values().iter().all(|b| *b == 0));
    assert_eq!((slice.get_xs(), slice.get_ys()), (2, 3));
    assert_eq!(slice.recompute_from(&grid, 2, 0), Err(GridError::OutOfRange));
}

#[test]
fn of_plane_takes_the_shape_of_the_grid() {
    let grid = ramp_grid(3, 2, 4);
    let slice = HorizontalSlice::of_plane(&grid, 3, 1).unwrap();
    assert_eq!((slice.get_xs(), slice.get_ys()), (3, 2));
    let flat: Vec<u32> = grid.extract_plane(3, 1).unwrap().into_iter().flatten().collect();
    assert_eq!(slice.values(), &flat[..]);
    assert_eq!(HorizontalSlice::of_plane(&grid, 4, 1).err(), Some(GridError::OutOfRange));
    assert_eq!(HorizontalSlice::of_plane(&grid, 0, 3).err(), Some(GridError::OutOfRange));
}

#[test]
fn from_values_takes_the_buffer_as_it_is() {
    let slice = HorizontalSlice::from_values(3, 2, vec![1, 2, 3, 4, 5, 6]).unwrap();
    assert_eq!((slice.get_xs(), slice.get_ys()), (3, 2));
    assert_eq!(slice.values(), &[1, 2, 3, 4, 5, 6][..]);
    assert_eq!(
        HorizontalSlice::from_values(3, 2, vec![0; 5]).err(),
        Some(GridError::LengthMismatch)
    );
    assert_eq!(
        HorizontalSlice::from_values(usize::MAX, 2, vec![]).err(),
        Some(GridError::TooLarge)
    );
}
