use vstd::prelude::*;
use crate::result::{
    BitDepth, DataDescriptor, TransformationData, TransformationResult, bit_depth_of_bytes, get_descriptor,
};
use crate::serialize::{
    LeBytes, flatten_pairs, flatten_triples, values_be_bytes, write_values_be, flatten_pair_vec, flatten_triple_vec,
};

verus! {

/// Writes values as raster samples: big-endian, one value after the other.
pub trait ImageBufferWriter {
    /// The bytes written.
    spec fn spec_image_bytes(&self) -> Seq<u8>;

    fn write(&self) -> (r: Vec<u8>)
        ensures
            r@ == self.spec_image_bytes(),
    ;
}

impl<T: LeBytes> ImageBufferWriter for TransformationData<T> {
    open spec fn spec_image_bytes(&self) -> Seq<u8> {
        values_be_bytes(self.data@)
    }

    fn write(&self) -> (r: Vec<u8>) {
        write_values_be(&self.data)
    }
}

impl<T: LeBytes> ImageBufferWriter for TransformationData<(T, T)> {
    open spec fn spec_image_bytes(&self) -> Seq<u8> {
        values_be_bytes(flatten_pairs(self.data@))
    }

    fn write(&self) -> (r: Vec<u8>) {
        write_values_be(&flatten_pair_vec(&self.data))
    }
}

impl<T: LeBytes> ImageBufferWriter for TransformationData<(T, T, T)> {
    open spec fn spec_image_bytes(&self) -> Seq<u8> {
        values_be_bytes(flatten_triples(self.data@))
    }

    fn write(&self) -> (r: Vec<u8>) {
        write_values_be(&flatten_triple_vec(&self.data))
    }
}

/// A transformation result ready for a raster encoder: its samples and its descriptor.
pub trait TransformationResultWriter {
    /// The sample bytes.
    spec fn spec_buffer(&self) -> Seq<u8>;

    /// Width, height, channel count and bit depth.
    spec fn spec_layout(&self) -> (u16, u16, nat, BitDepth);

    fn write_to_buffer(&self) -> (r: Vec<u8>)
        ensures
            r@ == self.spec_buffer(),
    ;

    fn descriptor(&self) -> (r: DataDescriptor)
        ensures
            (r.width, r.height, r.num_channels as nat, r.bit_depth) == self.spec_layout(),
    ;
}

impl<T: LeBytes> TransformationResultWriter for TransformationResult<T> {
    open spec fn spec_buffer(&self) -> Seq<u8> {
        values_be_bytes(self.flat_values())
    }

    open spec fn spec_layout(&self) -> (u16, u16, nat, BitDepth) {
        (self.spec_width(), self.spec_height(), self.channels(), bit_depth_of_bytes(T::byte_width()))
    }

    fn write_to_buffer(&self) -> (r: Vec<u8>) {
        match self {
            TransformationResult::OneDimensional(d) => d.write(),
            TransformationResult::TwoDimensional(d) => d.write(),
            TransformationResult::ThreeDimensional(d) => d.write(),
        }
    }

    fn descriptor(&self) -> (r: DataDescriptor) {
        get_descriptor(self)
    }
}

} // verus!
