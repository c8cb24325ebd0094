use vstd::prelude::*;
use crate::bits::max_bits;
use crate::input::{ByteInputData, InputError, InputField, valid_dimensions};
use crate::result::ChannelBitDepth;

verus! {

/// Alpha values at or above this threshold mark foreground cells.
pub const ALPHA_THRESHOLD: u8 = 127;

/// A PNG image file used as input.
pub struct PngInput {
    pub file_path: String,
}

impl PngInput {
    pub fn new(file_path: &str) -> (r: Self)
        ensures
            r.file_path@ == file_path@,
    {
        PngInput { file_path: file_path.to_string() }
    }
}

/// Why a PNG file could not be used as input.
#[derive(Clone, Copy, Debug, PartialEq, Eq, Structural)]
pub enum FileInputError {
    /// The path names no readable file.
    InvalidFile,
    /// The file is not a PNG image.
    InvalidFileType,
    /// The image is not 8-bit RGBA.
    InvalidImageFormat,
}

impl FileInputError {
    pub open spec fn spec_message(self) -> Seq<char> {
        match self {
            FileInputError::InvalidFile => "error: InvalidFile"@,
            FileInputError::InvalidFileType => "error: InvalidFileType"@,
            FileInputError::InvalidImageFormat => "error: InvalidImageFormat"@,
        }
    }

    /// The input error carrying this error's message.
    pub fn to_input_error(&self) -> (r: InputError)
        ensures
            match r {
                InputError::InvalidInput { message } => message@ == self.spec_message(),
                _ => false,
            },
    {
        let message = match self {
            FileInputError::InvalidFile => String::from_str("error: InvalidFile"),
            FileInputError::InvalidFileType => String::from_str("error: InvalidFileType"),
            FileInputError::InvalidImageFormat => String::from_str("error: InvalidImageFormat"),
        };
        InputError::InvalidInput { message }
    }
}

/// The alpha value of each pixel of 8-bit RGBA data.
pub open spec fn alpha_values(rgba: Seq<u8>) -> Seq<u8> {
    Seq::new(rgba.len() / 4, |i: int| rgba[4 * i + 3])
}

/// The fourth byte of each four-byte pixel.
pub fn alpha_channel(rgba: &Vec<u8>) -> (r: Vec<u8>)
    ensures
        r@ == alpha_values(rgba@),
{
    let n = rgba.len() / 4;
    let mut out: Vec<u8> = Vec::new();
    let mut i: usize = 0;
    while i < n
        invariant
            n == rgba.len() / 4,
            i <= n,
            out@ == alpha_values(rgba@).take(i as int),
        decreases n - i,
    {
        out.push(rgba[4 * i + 3]);
        i += 1;
        proof {
            assert(out@ =~= alpha_values(rgba@).take(i as int));
        }
    }
    proof {
        assert(alpha_values(rgba@).take(n as int) =~= alpha_values(rgba@));
    }
    out
}

/// The input field of a decoded 8-bit RGBA image: a pixel whose alpha is at
/// least the threshold is foreground. Fails with `InvalidDimensions` when a
/// dimension is zero or above 65535, or the data does not hold width times
/// height pixels.
pub fn input_field_from_rgba(rgba: &Vec<u8>, width: u32, height: u32) -> (r: Result<InputField, InputError>)
    requires
        rgba@.len() / 4 < max_bits(),
    ensures
        match r {
            Ok(f) => width <= 65535 && height <= 65535 && valid_dimensions(
                width as int,
                height as int,
                (rgba@.len() / 4) as int,
            ) && f.width == width && f.height == height && f.bits() == Seq::new(
                alpha_values(rgba@).len(),
                |i: int| alpha_values(rgba@)[i] >= ALPHA_THRESHOLD,
            ),
            Err(e) => !(width <= 65535 && height <= 65535 && valid_dimensions(
                width as int,
                height as int,
                (rgba@.len() / 4) as int,
            )) && e is InvalidDimensions,
        },
{
    if width > 65535 || height > 65535 {
        return Err(InputError::InvalidDimensions);
    }
    let alpha = alpha_channel(rgba);
    match ByteInputData::new(alpha, ALPHA_THRESHOLD, width as u16, height as u16) {
        Err(e) => Err(e),
        Ok(data) => Ok(InputField::from_byte_input(data)),
    }
}

/// A PNG image file used as output.
pub struct PngOutput {
    pub file_path: String,
}

impl PngOutput {
    pub fn new(file_path: &str) -> (r: Self)
        ensures
            r.file_path@ == file_path@,
    {
        PngOutput { file_path: file_path.to_string() }
    }

    /// An empty buffer with room for `num_values` values of `num_channels`
    /// channels at the given depth.
    pub fn init_buffer<T>(&self, num_values: usize, bit_depth: ChannelBitDepth, num_channels: usize) -> (r: Vec<T>)
        requires
            num_values * 8 * num_channels <= usize::MAX,
        ensures
            r@.len() == 0,
    {
        let bytes = bit_depth.number_of_bytes() as usize;
        assert(num_values * num_channels * bytes <= num_values * 8 * num_channels && num_values * num_channels
            <= num_values * 8 * num_channels) by (nonlinear_arith)
            requires
                1 <= bytes <= 8,
        ;
        let size = num_values * num_channels * bytes;
        Vec::with_capacity(size)
    }
}

} // verus!
