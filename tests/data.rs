use rs_sdf::input::{BoolInputData, ByteInputData, InputError, InputField};

#[test]
fn data_source_must_have_width_greater_than_zero() {
    let b = vec![true];
    assert!(matches!(BoolInputData::new(b, 0, 1), Err(InputError::InvalidDimensions)));
}

#[test]
fn data_source_must_have_height_greater_than_zero() {
    let b = vec![true];
    assert!(matches!(BoolInputData::new(b, 1, 0), Err(InputError::InvalidDimensions)));
}

#[test]
fn data_buffer_size_does_not_match_given_dimensions() {
    let b = vec![true];
    assert!(matches!(BoolInputData::new(b, 10, 10), Err(InputError::InvalidDimensions)));
}

#[test]
fn data_source_field_is_correct() {
    let b = vec![0, 128, 255, 0];
    let f = InputField::from_byte_input(ByteInputData::new(b, 127, 4, 1).unwrap());
    assert_eq!(f.to_booleans(), vec![false, true, true, false]);
}

#[test]
fn data_invert() {
    let b = vec![0, 255, 0];
    let mut f = InputField::from_byte_input(ByteInputData::new(b, 127, 3, 1).unwrap());
    f.invert();
    assert_eq!(f.to_booleans(), vec![true, false, true]);
}

#[test]
fn byte_input_threshold_is_inclusive() {
    let f = InputField::from_byte_input(ByteInputData::new(vec![126, 127], 127, 2, 1).unwrap());
    assert_eq!(f.to_booleans(), vec![false, true]);
}

#[test]
fn input_field_from_bytes_threshold_is_exclusive() {
    let f = InputField::from_bytes(&[127, 128], 127, 2, 1).unwrap();
    assert_eq!(f.to_booleans(), vec![false, true]);
    assert_eq!(f.len(), 2);
    assert!(f.get(1));
}

#[test]
fn input_field_rejects_wrong_length() {
    assert!(matches!(InputField::from_booleans(&[true, false, true], 2, 2), Err(InputError::InvalidDimensions)));
    assert!(matches!(InputField::from_bytes(&[], 127, 0, 0), Err(InputError::InvalidDimensions)));
}
