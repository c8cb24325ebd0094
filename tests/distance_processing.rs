use rs_sdf::input::InputField;

#[test]
fn distance_processing_distance_field_initializes_correctly() {
    let sf = InputField::from_booleans(&[true, false, false, true], 2, 2).unwrap();
    assert_eq!(sf.width, 2);
    assert_eq!(sf.height, 2);
    assert_eq!(sf.get(0), true);
    assert_eq!(sf.get(1), false);
    assert_eq!(sf.get(2), false);
    assert_eq!(sf.get(3), true);
}
