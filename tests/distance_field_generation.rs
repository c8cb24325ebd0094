use rs_sdf::cell::{CellLayer, DistanceField};
use rs_sdf::input::{BoolInputData, InputError, InputField};

#[test]
fn source_is_empty() {
    assert!(matches!(BoolInputData::new(vec![], 0, 0), Err(InputError::InvalidDimensions)));
}

#[test]
fn distance_field_has_correct_dimension() {
    let source = InputField::from_bool_input(BoolInputData::new(vec![true, true, true], 3, 1).unwrap());
    let df = DistanceField::new(&source);

    assert_eq!(df.width, 3);
    assert_eq!(df.height, 1);

    let source = InputField::from_bool_input(BoolInputData::new(vec![true, true, true], 1, 3).unwrap());
    let df = DistanceField::new(&source);

    assert_eq!(df.width, 1);
    assert_eq!(df.height, 3);
}

#[test]
fn distance_field_cells_are_row_major() {
    let source = InputField::from_booleans(&[true, false, false, true, true, false], 3, 2).unwrap();
    let df = DistanceField::new(&source);
    assert_eq!(df.data.len(), 6);
    let c = df.data[4];
    assert_eq!((c.x, c.y, c.index), (1, 1, 4));
    assert_eq!(c.layer, CellLayer::Foreground);
    assert_eq!(df.data[5].layer, CellLayer::Background);
    assert!(df.data.iter().all(|c| c.nearest_cell_position.is_none()));
}
