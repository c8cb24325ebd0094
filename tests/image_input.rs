use rs_sdf::image::{alpha_channel, input_field_from_rgba, FileInputError, PngInput};
use rs_sdf::input::InputError;

#[test]
fn alpha_channel_takes_every_fourth_byte() {
    let rgba = vec![1, 2, 3, 4, 5, 6, 7, 8];
    assert_eq!(alpha_channel(&rgba), vec![4, 8]);
}

#[test]
fn rgba_field_uses_alpha_threshold() {
    let rgba = vec![0, 0, 0, 0, 0, 0, 0, 255, 9, 9, 9, 127, 9, 9, 9, 126];
    let f = input_field_from_rgba(&rgba, 2, 2).unwrap();
    assert_eq!(f.to_booleans(), vec![false, true, true, false]);
    assert!(matches!(input_field_from_rgba(&rgba, 3, 2), Err(InputError::InvalidDimensions)));
    assert!(matches!(input_field_from_rgba(&rgba, 70000, 1), Err(InputError::InvalidDimensions)));
}

#[test]
fn file_errors_carry_messages() {
    match FileInputError::InvalidFileType.to_input_error() {
        InputError::InvalidInput { message } => assert_eq!(message, "error: InvalidFileType"),
        _ => panic!("expected an input error"),
    }
    assert_eq!(PngInput::new("a.png").file_path, "a.png");
}
