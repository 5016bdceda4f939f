use flowgrid::error::GridError;
use flowgrid::source::{FlowDataSource, GeneratorArgs};

/// A stand-in for the field generator: a swirl around the vertical axis
/// through the middle of the grid that drifts with the time step.
fn swirl(args: &GeneratorArgs) -> Vec<u32> {
    let (xs, ys, zs) = (args.xs as usize, args.ys as usize, args.zs as usize);
    let mut field = Vec::with_capacity(args.len);
    for zi in 0..zs {
        for yi in 0..ys {
            for xi in 0..xs {
                let dx = xi as f32 - xs as f32 / 2.0 + args.time as f32 * 0.25;
                let dy = yi as f32 - ys as f32 / 2.0;
                let lift = (zi as f32 + 1.0) / (zs as f32 + 1.0);
                field.push((-dy * lift).to_bits());
                field.push((dx * lift).to_bits());
                field.push((lift + args.time as f32).to_bits());
            }
        }
    }
    field
}

fn generate(source: &mut FlowDataSource, time: i32) {
    let args = source.generator_args(time).unwrap();
    let field = swirl(&args);
    assert_eq!(field.len(), args.len);
    source.gen_tornado(time, field).unwrap();
}

#[test]
fn test_gen_tornado() {
    let mut flowsrc = FlowDataSource::new(16, 16, 16).unwrap();
    generate(&mut flowsrc, 1);
    let table = flowsrc.get_all_values().extract_plane(10, 0).unwrap();
    assert_eq!(table.len(), 16);
    for row in &table {
        assert_eq!(row.len(), 16);
        let line: String = row.iter().map(|b| format!("{}\t", f32::from_bits(*b))).collect();
        println!("{}", line);
    }
    assert_eq!(flowsrc.generated_time(), Some(1));
}

#[test]
fn fresh_source_is_zeroed_and_ungenerated() {
    let source = FlowDataSource::new(4, 3, 2).unwrap();
    assert_eq!(source.array_size(), 72);
    assert_eq!(source.get_all_values().len(), 72);
    assert_eq!(source.get_all_values().dimensions(), (4, 3, 2));
    assert!(source.get_all_values().values().iter().all(|b| *b == 0));
    assert_eq!(source.get_horizontal_values().values().len(), 12);
    assert!(source.get_horizontal_values().values().iter().all(|b| *b == 0));
    assert_eq!(source.get_horizontal_values().get_xs(), 4);
    assert_eq!(source.get_horizontal_values().get_ys(), 3);
    assert_eq!(source.generated_time(), None);
    assert_eq!(source.slice_level(), None);
}

#[test]
fn source_beyond_the_address_space_is_too_large() {
    assert_eq!(FlowDataSource::new(usize::MAX, 2, 1).err(), Some(GridError::TooLarge));
    assert_eq!(FlowDataSource::new(usize::MAX, 2, 0).err(), Some(GridError::TooLarge));
    assert_eq!(FlowDataSource::new(1, 1, usize::MAX).err(), Some(GridError::TooLarge));
}

#[test]
fn source_that_cannot_be_allocated_is_reported() {
    assert_eq!(FlowDataSource::new(1 << 40, 1 << 10, 1).err(), Some(GridError::AllocationFailed));
    assert_eq!(FlowDataSource::new(1 << 40, 1 << 10, 0).err(), Some(GridError::AllocationFailed));
}

#[test]
fn source_without_samples_is_built() {
    let source = FlowDataSource::new(0, 7, 7).unwrap();
    assert_eq!(source.array_size(), 0);
    let source = FlowDataSource::new(7, 7, 0).unwrap();
    assert_eq!(source.array_size(), 0);
    assert_eq!(source.get_horizontal_values().values().len(), 49);
}

#[test]
fn generator_args_give_the_exact_dimensions() {
    let source = FlowDataSource::new(16, 8, 4).unwrap();
    assert_eq!(
        source.generator_args(7),
        Ok(GeneratorArgs { xs: 16, ys: 8, zs: 4, time: 7, len: 1536 })
    );
    assert_eq!(
        source.generator_args(-3),
        Ok(GeneratorArgs { xs: 16, ys: 8, zs: 4, time: -3, len: 1536 })
    );
    let source = FlowDataSource::new(i32::MAX as usize, 0, 0).unwrap();
    assert_eq!(
        source.generator_args(0),
        Ok(GeneratorArgs { xs: i32::MAX, ys: 0, zs: 0, time: 0, len: 0 })
    );
}

#[test]
fn generator_args_refuse_dimensions_beyond_the_generator() {
    let source = FlowDataSource::new(i32::MAX as usize + 1, 0, 0).unwrap();
    assert_eq!(source.generator_args(1), Err(GridError::GeneratorRange));
    let source = FlowDataSource::new(0, 1 << 40, 0).unwrap();
    assert_eq!(source.generator_args(1), Err(GridError::GeneratorRange));
    let source = FlowDataSource::new(0, 0, usize::MAX).unwrap();
    assert_eq!(source.generator_args(1), Err(GridError::GeneratorRange));
}

#[test]
fn generation_is_deterministic() {
    let mut a = FlowDataSource::new(6, 5, 4).unwrap();
    let mut b = FlowDataSource::new(6, 5, 4).unwrap();
    generate(&mut b, 9);
    assert_eq!(a.generator_args(3), b.generator_args(3));
    generate(&mut a, 3);
    generate(&mut b, 3);
    assert_eq!(a.get_all_values().values(), b.get_all_values().values());
    assert_eq!(a.generated_time(), b.generated_time());
    assert!(a.get_all_values().values().iter().any(|b| *b != 0));
}

#[test]
fn generation_overwrites_the_whole_buffer() {
    let mut source = FlowDataSource::new(3, 3, 3).unwrap();
    let first: Vec<u32> = (0..81).map(|i| (i as f32 + 100.0).to_bits()).collect();
    let second: Vec<u32> = (0..81).map(|i| (-(i as f32)).to_bits()).collect();
    assert_eq!(source.gen_tornado(1, first.clone()), Ok(()));
    assert_eq!(source.get_all_values().values(), &first[..]);
    assert_eq!(source.generated_time(), Some(1));
    assert_eq!(source.gen_tornado(2, second.clone()), Ok(()));
    assert_eq!(source.get_all_values().values(), &second[..]);
    assert_eq!(source.generated_time(), Some(2));
    assert!(source.get_all_values().values().iter().all(|b| !first.contains(b)));
    let mut direct = FlowDataSource::new(3, 3, 3).unwrap();
    direct.gen_tornado(2, second).unwrap();
    assert_eq!(source.get_all_values().values(), direct.get_all_values().values());
}

#[test]
fn generation_of_one_step_twice_changes_nothing() {
    let mut source = FlowDataSource::new(4, 4, 2).unwrap();
    generate(&mut source, 5);
    let once = source.get_all_values().values().to_vec();
    generate(&mut source, 5);
    assert_eq!(source.get_all_values().values(), &once[..]);
    assert_eq!(source.generated_time(), Some(5));
}

#[test]
fn gen_tornado_refuses_a_field_of_another_length() {
    let mut source = FlowDataSource::new(2, 2, 2).unwrap();
    generate(&mut source, 1);
    source.recompute_slice(1, 2).unwrap();
    let before = source.get_all_values().values().to_vec();
    assert_eq!(source.gen_tornado(2, vec![0; 23]), Err(GridError::LengthMismatch));
    assert_eq!(source.gen_tornado(2, vec![0; 25]), Err(GridError::LengthMismatch));
    assert_eq!(source.gen_tornado(2, vec![]), Err(GridError::LengthMismatch));
    assert_eq!(source.get_all_values().values(), &before[..]);
    assert_eq!(source.generated_time(), Some(1));
    assert_eq!(source.slice_level(), Some((1, 2)));
}

#[test]
fn slice_is_refreshed_only_on_demand() {
    let mut source = FlowDataSource::new(3, 2, 2).unwrap();
    generate(&mut source, 1);
    assert_eq!(source.slice_level(), None);
    assert!(source.get_horizontal_values().values().iter().all(|b| *b == 0));
    assert_eq!(source.recompute_slice(1, 1), Ok(()));
    assert_eq!(source.slice_level(), Some((1, 1)));
    let shown = source.get_horizontal_values().values().to_vec();
    let flat: Vec<u32> =
        source.get_all_values().extract_plane(1, 1).unwrap().into_iter().flatten().collect();
    assert_eq!(shown, flat);
    generate(&mut source, 2);
    assert_eq!(source.slice_level(), None);
    assert_eq!(source.get_horizontal_values().values(), &shown[..]);
    assert_eq!(source.recompute_slice(1, 1), Ok(()));
    let flat: Vec<u32> =
        source.get_all_values().extract_plane(1, 1).unwrap().into_iter().flatten().collect();
    assert_eq!(source.get_horizontal_values().values(), &flat[..]);
    assert_ne!(flat, shown);
}

#[test]
fn slice_after_generation_exact_values() {
    let mut source = FlowDataSource::new(2, 2, 2).unwrap();
    let field: Vec<u32> = (0..24).map(|i| (i as f32).to_bits()).collect();
    source.gen_tornado(4, field).unwrap();
    source.recompute_slice(1, 0).unwrap();
    let shown: Vec<f32> =
        source.get_horizontal_values().values().iter().map(|b| f32::from_bits(*b)).collect();
    assert_eq!(shown, vec![18.0, 21.0, 12.0, 15.0]);
    source.recompute_slice(0, 2).unwrap();
    let shown: Vec<f32> =
        source.get_horizontal_values().values().iter().map(|b| f32::from_bits(*b)).collect();
    assert_eq!(shown, vec![8.0, 11.0, 2.0, 5.0]);
    assert_eq!(source.slice_level(), Some((0, 2)));
}

#[test]
fn recompute_slice_refuses_levels_outside_the_grid() {
    let mut source = FlowDataSource::new(2, 2, 2).unwrap();
    generate(&mut source, 1);
    source.recompute_slice(0, 1).unwrap();
    let shown = source.get_horizontal_values().values().to_vec();
    assert_eq!(source.recompute_slice(2, 0), Err(GridError::OutOfRange));
    assert_eq!(source.recompute_slice(0, 3), Err(GridError::OutOfRange));
    assert_eq!(source.get_horizontal_values().values(), &shown[..]);
    assert_eq!(source.slice_level(), Some((0, 1)));
}
