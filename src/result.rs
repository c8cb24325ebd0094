use vstd::prelude::*;
use crate::serialize::{LeBytes, ByteSerializer, values_bytes, flatten_pairs, flatten_triples};

verus! {

/// How the values of a channel are to be read.
#[derive(Clone, Copy, Debug, PartialEq, Eq, Structural)]
pub enum ChannelDataType {
    UnsignedInt,
    SignedInt,
    Float,
}

/// The width of one channel value.
#[derive(Clone, Copy, Debug, PartialEq, Eq, Structural)]
pub enum ChannelBitDepth {
    Eight,
    Sixteen,
    ThirtyTwo,
    SixtyFour,
}

/// The bytes of a channel value of each width.
pub open spec fn bytes_of_depth(d: ChannelBitDepth) -> nat {
    match d {
        ChannelBitDepth::Eight => 1,
        ChannelBitDepth::Sixteen => 2,
        ChannelBitDepth::ThirtyTwo => 4,
        ChannelBitDepth::SixtyFour => 8,
    }
}

/// The channel width whose values take `n` bytes.
pub open spec fn depth_of_bytes(n: nat) -> ChannelBitDepth {
    if n == 1 {
        ChannelBitDepth::Eight
    } else if n == 2 {
        ChannelBitDepth::Sixteen
    } else if n == 4 {
        ChannelBitDepth::ThirtyTwo
    } else {
        ChannelBitDepth::SixtyFour
    }
}

impl ChannelBitDepth {
    pub fn number_of_bytes(&self) -> (r: u8)
        ensures
            r == bytes_of_depth(*self),
    {
        match self {
            ChannelBitDepth::Eight => 1,
            ChannelBitDepth::Sixteen => 2,
            ChannelBitDepth::ThirtyTwo => 4,
            ChannelBitDepth::SixtyFour => 8,
        }
    }
}

/// Bit depth of exported values.
#[derive(Clone, Copy, Debug, PartialEq, Eq, Structural)]
pub enum BitDepth {
    Eight,
    Sixteen,
    ThirtyTwo,
    SixtyFour,
}

/// Errors of the transformation and export stage.
#[derive(Clone, Copy, Debug, PartialEq, Eq, Structural)]
pub enum TransformError {
    /// The requested metric, width or channel count cannot be produced.
    UnsupportedConfiguration,
}

/// A field of values per cell, in the order of the distance field's cells.
pub struct TransformationData<T> {
    pub width: u16,
    pub height: u16,
    /// One value (or tuple) per cell: `width * height` of them.
    pub data: Vec<T>,
}

impl<T> TransformationData<T> {
    pub fn new(width: u16, height: u16, data: Vec<T>) -> (r: Self)
        ensures
            r.width == width,
            r.height == height,
            r.data@ == data@,
    {
        TransformationData { width, height, data }
    }
}

/// A transformation result of one, two or three values per cell.
pub enum TransformationResult<T> {
    OneDimensional(TransformationData<T>),
    TwoDimensional(TransformationData<(T, T)>),
    ThreeDimensional(TransformationData<(T, T, T)>),
}

impl<T> TransformationResult<T> {
    /// The number of values per cell.
    pub open spec fn channels(&self) -> nat {
        match self {
            TransformationResult::OneDimensional(_) => 1,
            TransformationResult::TwoDimensional(_) => 2,
            TransformationResult::ThreeDimensional(_) => 3,
        }
    }

    pub open spec fn spec_width(&self) -> u16 {
        match self {
            TransformationResult::OneDimensional(d) => d.width,
            TransformationResult::TwoDimensional(d) => d.width,
            TransformationResult::ThreeDimensional(d) => d.width,
        }
    }

    pub open spec fn spec_height(&self) -> u16 {
        match self {
            TransformationResult::OneDimensional(d) => d.height,
            TransformationResult::TwoDimensional(d) => d.height,
            TransformationResult::ThreeDimensional(d) => d.height,
        }
    }

    /// All values, cell after cell, the components of a tuple in order.
    pub open spec fn flat_values(&self) -> Seq<T> {
        match self {
            TransformationResult::OneDimensional(d) => d.data@,
            TransformationResult::TwoDimensional(d) => flatten_pairs(d.data@),
            TransformationResult::ThreeDimensional(d) => flatten_triples(d.data@),
        }
    }
}

/// Dimensions, channel count and bit depth of a transformation result.
pub struct DataDescriptor {
    pub width: u16,
    pub height: u16,
    pub bit_depth: BitDepth,
    pub num_channels: u8,
}

/// The bit depth of values that take `n` bytes.
pub open spec fn bit_depth_of_bytes(n: nat) -> BitDepth {
    if n == 1 {
        BitDepth::Eight
    } else if n == 2 {
        BitDepth::Sixteen
    } else if n == 4 {
        BitDepth::ThirtyTwo
    } else {
        BitDepth::SixtyFour
    }
}

/// The descriptor of a transformation result: its dimensions, its number of
/// values per cell and the bit depth of its value type.
pub fn get_descriptor<T: LeBytes>(res: &TransformationResult<T>) -> (r: DataDescriptor)
    ensures
        r.width == res.spec_width(),
        r.height == res.spec_height(),
        r.num_channels == res.channels(),
        r.bit_depth == bit_depth_of_bytes(T::byte_width()),
{
    let (num_channels, width, height) = match res {
        TransformationResult::OneDimensional(one) => (1u8, one.width, one.height),
        TransformationResult::TwoDimensional(two) => (2u8, two.width, two.height),
        TransformationResult::ThreeDimensional(three) => (3u8, three.width, three.height),
    };
    let w = T::width();
    let bit_depth = if w == 1 {
        BitDepth::Eight
    } else if w == 2 {
        BitDepth::Sixteen
    } else if w == 4 {
        BitDepth::ThirtyTwo
    } else {
        BitDepth::SixtyFour
    };
    DataDescriptor { width, height, num_channels, bit_depth }
}

/// The type-erased result handed to an exporter: dimensions, channel layout
/// and the values as little-endian bytes.
pub struct DistanceTransformationResult {
    pub width: u16,
    pub height: u16,
    pub num_channels: u8,
    pub data_type: ChannelDataType,
    pub bit_depth: ChannelBitDepth,
    pub data: Vec<u8>,
}

impl DistanceTransformationResult {
    /// Serializes a transformation result; the bit depth follows from the value type.
    pub fn from_transformation_result<T: LeBytes>(result: &TransformationResult<T>, data_type: ChannelDataType) -> (r: Self)
        ensures
            r.width == result.spec_width(),
            r.height == result.spec_height(),
            r.num_channels == result.channels(),
            r.data_type == data_type,
            r.bit_depth == depth_of_bytes(T::byte_width()),
            r.data@ == values_bytes(result.flat_values()),
    {
        let (width, height, num_channels, data) = match result {
            TransformationResult::OneDimensional(d) => (d.width, d.height, 1u8, d.data.serialize_to_bytes()),
            TransformationResult::TwoDimensional(d) => (d.width, d.height, 2u8, d.data.serialize_to_bytes()),
            TransformationResult::ThreeDimensional(d) => (d.width, d.height, 3u8, d.data.serialize_to_bytes()),
        };
        let w = T::width();
        let bit_depth = if w == 1 {
            ChannelBitDepth::Eight
        } else if w == 2 {
            ChannelBitDepth::Sixteen
        } else if w == 4 {
            ChannelBitDepth::ThirtyTwo
        } else {
            ChannelBitDepth::SixtyFour
        };
        DistanceTransformationResult { width, height, num_channels, data_type, bit_depth, data }
    }
}

/// How a raster image holds `num_channels` channels of the given width: image
/// channels and their bit depth (8 or 16). A 32-bit value spans two 16-bit
/// image channels and a 64-bit value four; an image has one to four channels.
pub open spec fn image_layout(num_channels: nat, depth: ChannelBitDepth) -> Option<(nat, nat)> {
    let (channels, bits) = match depth {
        ChannelBitDepth::Eight => (num_channels, 8nat),
        ChannelBitDepth::Sixteen => (num_channels, 16nat),
        ChannelBitDepth::ThirtyTwo => (2 * num_channels, 16nat),
        ChannelBitDepth::SixtyFour => (4 * num_channels, 16nat),
    };
    if 1 <= num_channels && channels <= 4 {
        Some((channels, bits))
    } else {
        None
    }
}

/// The image channels and bit depth that hold a result of `num_channels`
/// channels of the given width, or `UnsupportedConfiguration` when no image
/// of at most four channels holds it.
pub fn image_channel_layout(num_channels: u8, bit_depth: ChannelBitDepth) -> (r: Result<(u8, u8), TransformError>)
    ensures
        match image_layout(num_channels as nat, bit_depth) {
            Some((c, b)) => r == Ok::<(u8, u8), TransformError>((c as u8, b as u8)),
            None => r == Err::<(u8, u8), TransformError>(TransformError::UnsupportedConfiguration),
        },
{
    if num_channels == 0 {
        return Err(TransformError::UnsupportedConfiguration);
    }
    match bit_depth {
        ChannelBitDepth::Eight => if num_channels <= 4 {
            Ok((num_channels, 8))
        } else {
            Err(TransformError::UnsupportedConfiguration)
        },
        ChannelBitDepth::Sixteen => if num_channels <= 4 {
            Ok((num_channels, 16))
        } else {
            Err(TransformError::UnsupportedConfiguration)
        },
        ChannelBitDepth::ThirtyTwo => if num_channels <= 2 {
            Ok((2 * num_channels, 16))
        } else {
            Err(TransformError::UnsupportedConfiguration)
        },
        ChannelBitDepth::SixtyFour => if num_channels <= 1 {
            Ok((4 * num_channels, 16))
        } else {
            Err(TransformError::UnsupportedConfiguration)
        },
    }
}

} // verus!
