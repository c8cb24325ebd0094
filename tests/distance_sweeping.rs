use rs_sdf::cell::{Cell, CellPosition};
use rs_sdf::input::{InputField, SourceField};
use rs_sdf::sweep::{generate_df, EightSideSweepProcessor};

fn get_source_1_1_empty() -> InputField {
    InputField::from_booleans(&[false], 1, 1).unwrap()
}

fn get_source_1_1_filled() -> InputField {
    InputField::from_booleans(&[true], 1, 1).unwrap()
}

fn get_source_2_2_checker() -> InputField {
    InputField::from_booleans(&[true, false, false, true], 2, 2).unwrap()
}

fn get_source_3_3_empty() -> InputField {
    InputField::from_bytes(&[0, 0, 0, 0, 0, 0, 0, 0, 0], 127, 3, 3).unwrap()
}

fn get_source_3_3_filled() -> InputField {
    InputField::from_bytes(&[255, 255, 255, 255, 255, 255, 255, 255, 255], 127, 3, 3).unwrap()
}

fn coords(c: &Cell) -> Option<(u16, u16)> {
    c.nearest_cell_position.map(|p: CellPosition| p.get_coordinates())
}

#[test]
fn correct_nearest_cells_for_1x1_source() {
    let s = get_source_1_1_empty();
    let p = EightSideSweepProcessor {};
    let df = p.process(&s);
    assert!(df.data[0].nearest_cell_position.is_none());

    let s = get_source_1_1_filled();
    let p = EightSideSweepProcessor {};
    let df = p.process(&s);
    assert!(df.data[0].nearest_cell_position.is_none());
}

#[test]
fn correct_nearest_cells_for_2x2_checker() {
    let s = get_source_2_2_checker();
    let p = EightSideSweepProcessor {};
    let df = p.process(&s);

    assert!(df.data[0].nearest_cell_position.is_some());
    assert!(df.data[1].nearest_cell_position.is_some());
    assert!(df.data[2].nearest_cell_position.is_some());
    assert!(df.data[3].nearest_cell_position.is_some());

    assert_ne!(coords(&df.data[0]).unwrap(), (1, 1));
    assert_ne!(coords(&df.data[0]).unwrap(), (0, 0));

    assert_ne!(coords(&df.data[1]).unwrap(), (1, 0));
    assert_ne!(coords(&df.data[1]).unwrap(), (0, 1));

    assert_ne!(coords(&df.data[2]).unwrap(), (1, 0));
    assert_ne!(coords(&df.data[2]).unwrap(), (0, 1));

    assert_ne!(coords(&df.data[3]).unwrap(), (1, 1));
    assert_ne!(coords(&df.data[3]).unwrap(), (0, 0));
}

#[test]
fn correct_nearest_cells_for_3x3_empty() {
    let s = get_source_3_3_empty();
    let p = EightSideSweepProcessor {};
    let df = p.process(&s);
    for n in 0..9 {
        assert_eq!(df.data[n].nearest_cell_position, None);
    }
}

#[test]
fn correct_nearest_cells_for_3x3_filled() {
    let s = get_source_3_3_filled();
    let p = EightSideSweepProcessor {};
    let df = p.process(&s);
    for n in 0..9 {
        assert_eq!(df.data[n].nearest_cell_position, None);
    }
}

#[test]
fn correct_nearest_cells_for_single_centered_dot() {
    let b = vec![false, false, false, false, true, false, false, false, false];
    let s = InputField::from_booleans(&b, 3, 3).unwrap();
    let processor = EightSideSweepProcessor {};
    let df = processor.process(&s);

    assert_eq!(coords(&df.data[0]), Some((1, 1)));
    assert_eq!(coords(&df.data[1]), Some((1, 1)));
    assert_eq!(coords(&df.data[2]), Some((1, 1)));

    assert_eq!(coords(&df.data[3]), Some((1, 1)));
    assert!(coords(&df.data[4]).is_some());
    assert_eq!(coords(&df.data[5]), Some((1, 1)));

    assert_eq!(coords(&df.data[6]), Some((1, 1)));
    assert_eq!(coords(&df.data[7]), Some((1, 1)));
    assert_eq!(coords(&df.data[8]), Some((1, 1)));
}

#[test]
fn checkerboard_references_an_orthogonal_neighbour() {
    let df = EightSideSweepProcessor.process(&get_source_2_2_checker());
    let n = coords(&df.data[0]).unwrap();
    assert!(n == (1, 0) || n == (0, 1));
    assert_eq!(df.data[0].distance_to_nearest_squared(), Some(1));
}

#[test]
fn single_column_and_single_row_fields_are_swept() {
    let column = InputField::from_booleans(&[false, false, true, false], 1, 4).unwrap();
    let df = EightSideSweepProcessor.process(&column);
    assert_eq!(coords(&df.data[0]), Some((0, 2)));
    assert_eq!(coords(&df.data[1]), Some((0, 2)));
    assert_eq!(coords(&df.data[3]), Some((0, 2)));
    assert!(coords(&df.data[2]).is_some());

    let row = InputField::from_booleans(&[true, false, false, false, false], 5, 1).unwrap();
    let df = EightSideSweepProcessor.process(&row);
    for n in 1..5 {
        assert_eq!(coords(&df.data[n]), Some((0, 0)));
    }
    assert_eq!(coords(&df.data[0]), Some((1, 0)));
}

#[test]
fn references_point_to_the_other_layer() {
    let bits = [
        false, false, false, false, false,
        false, true, true, false, false,
        false, true, false, false, false,
        false, false, false, false, true,
    ];
    let s = InputField::from_booleans(&bits, 5, 4).unwrap();
    let df = EightSideSweepProcessor.process(&s);
    for c in df.data.iter() {
        let p = c.nearest_cell_position.unwrap();
        assert_ne!(df.data[p.index as usize].layer, c.layer);
        assert_eq!((df.data[p.index as usize].x, df.data[p.index as usize].y), (p.x, p.y));
    }
    assert_eq!(coords(&df.data[0]), Some((1, 1)));
}

#[test]
fn generate_df_matches_processor() {
    let bits = vec![false, false, false, false, true, false, false, false, false];
    let source = SourceField::from_booleans(&bits, 3, 3).unwrap();
    let a = generate_df(&source);
    let b = EightSideSweepProcessor.process(&InputField::from_booleans(&bits, 3, 3).unwrap());
    assert_eq!(a.data, b.data);
    assert_eq!((a.width, a.height), (3, 3));
}

#[test]
fn diagonal_boundary_references_the_diagonal_neighbour() {
    let s = InputField::from_booleans(&[true, false, false, false], 2, 2).unwrap();
    let df = EightSideSweepProcessor.process(&s);
    assert_eq!(coords(&df.data[3]), Some((0, 0)));
    assert_eq!(df.data[3].distance_to_nearest_squared(), Some(2));
    assert_eq!(coords(&df.data[1]), Some((0, 0)));
    assert_eq!(coords(&df.data[2]), Some((0, 0)));
}
