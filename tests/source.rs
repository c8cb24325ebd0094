use rs_sdf::input::{InputError, SourceField};

#[test]
fn source_source_must_have_width_greater_than_zero() {
    let b = [true];
    let r = SourceField::from_booleans(&b, 0, 1);
    assert!(matches!(r, Err(InputError::InvalidDimensions)));
}

#[test]
fn source_source_must_have_height_greater_than_zero() {
    let b = [true];
    let r = SourceField::from_booleans(&b, 1, 0);
    assert!(matches!(r, Err(InputError::InvalidDimensions)));
}

#[test]
fn source_buffer_size_does_not_match_given_dimensions() {
    let b = [true];
    let r = SourceField::from_booleans(&b, 10, 10);
    assert!(matches!(r, Err(InputError::InvalidDimensions)));
}

#[test]
fn source_source_field_is_correct() {
    let b = [0, 128, 255, 0];
    let f = SourceField::from_bytes(&b, 127, 4, 1).unwrap();
    assert_eq!(f.data, [false, true, true, false]);
}

#[test]
fn source_invert() {
    let b = [0, 255, 0];
    let mut f = SourceField::from_bytes(&b, 127, 3, 1).unwrap();
    f.invert();
    assert_eq!(f.data, [true, false, true]);
}

#[test]
fn source_threshold_is_exclusive() {
    let b = [127, 128];
    let f = SourceField::from_bytes(&b, 127, 2, 1).unwrap();
    assert_eq!(f.data, [false, true]);
}
