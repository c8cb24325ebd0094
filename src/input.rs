use vstd::prelude::*;
use crate::bits::{BitBuffer, bits_of, max_bits, new_bits, push_bit, bits_len, bit_at, set_bit};

verus! {

/// Errors raised while building an input grid.
#[derive(Debug, PartialEq, Eq)]
pub enum InputError {
    /// A dimension is zero, or the buffer length is not width times height.
    InvalidDimensions,
    /// The input could not be read; the message says why.
    InvalidInput { message: String },
}

/// Whether a buffer of `len` values can describe a `width` x `height` grid.
pub open spec fn valid_dimensions(width: int, height: int, len: int) -> bool {
    width > 0 && height > 0 && len == width * height
}

/// Checks that both dimensions are positive and the buffer holds exactly
/// width times height values.
pub fn check_dimensions_and_buffer_size(width: u16, height: u16, buffer_len: usize) -> (r: Result<(), InputError>)
    ensures
        r.is_ok() <==> valid_dimensions(width as int, height as int, buffer_len as int),
        r.is_err() ==> r->Err_0 is InvalidDimensions,
{
    if width == 0 || height == 0 {
        return Err(InputError::InvalidDimensions);
    }
    proof {
        assert(0 < width as int * height as int <= 65535 * 65535) by (nonlinear_arith)
            requires
                0 < width <= 65535,
                0 < height <= 65535,
        ;
    }
    let size: u64 = width as u64 * height as u64;
    if buffer_len as u64 != size {
        return Err(InputError::InvalidDimensions);
    }
    Ok(())
}

/// A binary grid held as one `bool` per cell, in row-major order.
/// `true` marks a foreground cell, `false` a background cell.
#[derive(Debug)]
pub struct SourceField {
    pub data: Vec<bool>,
    pub width: u16,
    pub height: u16,
}

impl SourceField {
    pub open spec fn wf(&self) -> bool {
        valid_dimensions(self.width as int, self.height as int, self.data.len() as int)
    }

    /// A grid whose foreground holds the bytes strictly greater than `threshold`.
    pub fn from_bytes(buffer: &[u8], threshold: u8, width: u16, height: u16) -> (r: Result<Self, InputError>)
        ensures
            match r {
                Ok(f) => valid_dimensions(width as int, height as int, buffer.len() as int) && f.width == width
                    && f.height == height && f.data@ == Seq::new(
                    buffer@.len(),
                    |i: int| buffer@[i] > threshold,
                ),
                Err(e) => !valid_dimensions(width as int, height as int, buffer.len() as int)
                    && e is InvalidDimensions,
            },
    {
        match check_dimensions_and_buffer_size(width, height, buffer.len()) {
            Err(e) => return Err(e),
            Ok(()) => {},
        }
        let mut data: Vec<bool> = Vec::new();
        let mut i: usize = 0;
        while i < buffer.len()
            invariant
                i <= buffer.len(),
                data@ == Seq::new(i as nat, |k: int| buffer@[k] > threshold),
            decreases buffer.len() - i,
        {
            data.push(buffer[i] > threshold);
            i += 1;
            proof {
                assert(data@ =~= Seq::new(i as nat, |k: int| buffer@[k] > threshold));
            }
        }
        Ok(SourceField { data, width, height })
    }

    /// A grid holding the given booleans.
    pub fn from_booleans(buffer: &[bool], width: u16, height: u16) -> (r: Result<Self, InputError>)
        ensures
            match r {
                Ok(f) => valid_dimensions(width as int, height as int, buffer.len() as int) && f.width == width
                    && f.height == height && f.data@ == buffer@,
                Err(e) => !valid_dimensions(width as int, height as int, buffer.len() as int)
                    && e is InvalidDimensions,
            },
    {
        match check_dimensions_and_buffer_size(width, height, buffer.len()) {
            Err(e) => return Err(e),
            Ok(()) => {},
        }
        let mut data: Vec<bool> = Vec::new();
        let mut i: usize = 0;
        while i < buffer.len()
            invariant
                i <= buffer.len(),
                data@ == buffer@.take(i as int),
            decreases buffer.len() - i,
        {
            data.push(buffer[i]);
            i += 1;
            proof {
                assert(data@ =~= buffer@.take(i as int));
            }
        }
        proof {
            assert(buffer@.take(buffer.len() as int) =~= buffer@);
        }
        Ok(SourceField { data, width, height })
    }

    /// Swaps foreground and background.
    pub fn invert(&mut self)
        ensures
            final(self).width == old(self).width,
            final(self).height == old(self).height,
            final(self).data@ == old(self).data@.map_values(|b: bool| !b),
    {
        let ghost orig = self.data@;
        let mut i: usize = 0;
        while i < self.data.len()
            invariant
                i <= self.data.len(),
                self.data.len() == orig.len(),
                self.width == old(self).width,
                self.height == old(self).height,
                forall|k: int| 0 <= k < i ==> self.data@[k] == !orig[k],
                forall|k: int| i <= k < orig.len() ==> self.data@[k] == orig[k],
            decreases self.data.len() - i,
        {
            let b = self.data[i];
            self.data.set(i, !b);
            i += 1;
        }
        proof {
            assert(self.data@ =~= orig.map_values(|b: bool| !b));
        }
    }
}

/// Spatial input for distance field generation: the dimensions and one bit
/// per cell in row-major order. A set bit marks a foreground cell, an unset
/// bit a background cell.
pub struct InputField {
    pub data: BitBuffer,
    pub width: u16,
    pub height: u16,
}

impl InputField {
    /// The occupancy bits.
    pub open spec fn bits(&self) -> Seq<bool> {
        bits_of(self.data)
    }

    pub open spec fn wf(&self) -> bool {
        valid_dimensions(self.width as int, self.height as int, self.bits().len() as int)
    }

    /// A field of the given bits, or `InvalidDimensions` when their number is
    /// not width times height or a dimension is zero.
    pub fn new(data: BitBuffer, width: u16, height: u16) -> (r: Result<Self, InputError>)
        ensures
            match r {
                Ok(f) => valid_dimensions(width as int, height as int, bits_of(data).len() as int) && f.width
                    == width && f.height == height && f.bits() == bits_of(data),
                Err(e) => !valid_dimensions(width as int, height as int, bits_of(data).len() as int)
                    && e is InvalidDimensions,
            },
    {
        match check_dimensions_and_buffer_size(width, height, bits_len(&data)) {
            Err(e) => Err(e),
            Ok(()) => Ok(InputField { data, width, height }),
        }
    }

    /// A field whose foreground holds the bytes strictly greater than `threshold`.
    pub fn from_bytes(buffer: &[u8], threshold: u8, width: u16, height: u16) -> (r: Result<Self, InputError>)
        requires
            buffer@.len() < max_bits(),
        ensures
            match r {
                Ok(f) => valid_dimensions(width as int, height as int, buffer.len() as int) && f.width == width
                    && f.height == height && f.bits() == Seq::new(buffer@.len(), |i: int| buffer@[i] > threshold),
                Err(e) => !valid_dimensions(width as int, height as int, buffer.len() as int)
                    && e is InvalidDimensions,
            },
    {
        match check_dimensions_and_buffer_size(width, height, buffer.len()) {
            Err(e) => return Err(e),
            Ok(()) => {},
        }
        let mut data = new_bits();
        let mut i: usize = 0;
        while i < buffer.len()
            invariant
                i <= buffer.len() < max_bits(),
                bits_of(data) == Seq::new(i as nat, |k: int| buffer@[k] > threshold),
            decreases buffer.len() - i,
        {
            push_bit(&mut data, buffer[i] > threshold);
            i += 1;
            proof {
                assert(bits_of(data) =~= Seq::new(i as nat, |k: int| buffer@[k] > threshold));
            }
        }
        Ok(InputField { data, width, height })
    }

    /// A field holding the given booleans.
    pub fn from_booleans(buffer: &[bool], width: u16, height: u16) -> (r: Result<Self, InputError>)
        requires
            buffer@.len() < max_bits(),
        ensures
            match r {
                Ok(f) => valid_dimensions(width as int, height as int, buffer.len() as int) && f.width == width
                    && f.height == height && f.bits() == buffer@,
                Err(e) => !valid_dimensions(width as int, height as int, buffer.len() as int)
                    && e is InvalidDimensions,
            },
    {
        match check_dimensions_and_buffer_size(width, height, buffer.len()) {
            Err(e) => return Err(e),
            Ok(()) => {},
        }
        let mut data = new_bits();
        let mut i: usize = 0;
        while i < buffer.len()
            invariant
                i <= buffer.len() < max_bits(),
                bits_of(data) == buffer@.take(i as int),
            decreases buffer.len() - i,
        {
            push_bit(&mut data, buffer[i]);
            i += 1;
            proof {
                assert(bits_of(data) =~= buffer@.take(i as int));
            }
        }
        proof {
            assert(buffer@.take(buffer.len() as int) =~= buffer@);
        }
        Ok(InputField { data, width, height })
    }

    /// A field from byte data: the foreground holds the bytes at or above the threshold.
    pub fn from_byte_input(input: ByteInputData) -> (r: Self)
        requires
            input.buffer.wf(),
            input.buffer.data@.len() < max_bits(),
        ensures
            r.width == input.buffer.width,
            r.height == input.buffer.height,
            r.bits() == Seq::new(input.buffer.data@.len(), |i: int| input.buffer.data@[i] >= input.threshold),
            r.wf(),
    {
        let values = &input.buffer.data;
        let threshold = input.threshold;
        let mut data = new_bits();
        let mut i: usize = 0;
        while i < values.len()
            invariant
                i <= values.len() < max_bits(),
                bits_of(data) == Seq::new(i as nat, |k: int| values@[k] >= threshold),
            decreases values.len() - i,
        {
            push_bit(&mut data, values[i] >= threshold);
            i += 1;
            proof {
                assert(bits_of(data) =~= Seq::new(i as nat, |k: int| values@[k] >= threshold));
            }
        }
        InputField { data, width: input.buffer.width, height: input.buffer.height }
    }

    /// A field from boolean data.
    pub fn from_bool_input(input: BoolInputData) -> (r: Self)
        requires
            input.buffer.wf(),
            input.buffer.data@.len() < max_bits(),
        ensures
            r.width == input.buffer.width,
            r.height == input.buffer.height,
            r.bits() == input.buffer.data@,
            r.wf(),
    {
        let values = &input.buffer.data;
        let mut data = new_bits();
        let mut i: usize = 0;
        while i < values.len()
            invariant
                i <= values.len() < max_bits(),
                bits_of(data) == values@.take(i as int),
            decreases values.len() - i,
        {
            push_bit(&mut data, values[i]);
            i += 1;
            proof {
                assert(bits_of(data) =~= values@.take(i as int));
            }
        }
        proof {
            assert(values@.take(values.len() as int) =~= values@);
        }
        InputField { data, width: input.buffer.width, height: input.buffer.height }
    }

    /// Swaps foreground and background.
    pub fn invert(&mut self)
        ensures
            final(self).width == old(self).width,
            final(self).height == old(self).height,
            final(self).bits() == old(self).bits().map_values(|b: bool| !b),
    {
        let ghost orig = self.bits();
        let n = bits_len(&self.data);
        let mut i: usize = 0;
        while i < n
            invariant
                i <= n == orig.len(),
                bits_of(self.data).len() == n,
                self.width == old(self).width,
                self.height == old(self).height,
                forall|k: int| 0 <= k < i ==> bits_of(self.data)[k] == !orig[k],
                forall|k: int| i <= k < n ==> bits_of(self.data)[k] == orig[k],
            decreases n - i,
        {
            let b = bit_at(&self.data, i);
            set_bit(&mut self.data, i, !b);
            i += 1;
        }
        proof {
            assert(self.bits() =~= orig.map_values(|b: bool| !b));
        }
    }

    /// The bit at `index`: `true` for a foreground cell.
    pub fn get(&self, index: usize) -> (r: bool)
        requires
            index < self.bits().len(),
        ensures
            r == self.bits()[index as int],
    {
        bit_at(&self.data, index)
    }

    /// The number of cells.
    pub fn len(&self) -> (r: usize)
        ensures
            r == self.bits().len(),
    {
        bits_len(&self.data)
    }

    /// The bits as booleans.
    pub fn to_booleans(&self) -> (r: Vec<bool>)
        ensures
            r@ == self.bits(),
    {
        let n = bits_len(&self.data);
        let mut out: Vec<bool> = Vec::new();
        let mut i: usize = 0;
        while i < n
            invariant
                i <= n == self.bits().len(),
                out@ == self.bits().take(i as int),
            decreases n - i,
        {
            out.push(bit_at(&self.data, i));
            i += 1;
            proof {
                assert(out@ =~= self.bits().take(i as int));
            }
        }
        proof {
            assert(self.bits().take(n as int) =~= self.bits());
        }
        out
    }
}

/// Values with the dimensions of a grid.
pub struct DimensionalVector<T> {
    pub data: Vec<T>,
    pub width: u16,
    pub height: u16,
}

impl<T> DimensionalVector<T> {
    pub open spec fn wf(&self) -> bool {
        valid_dimensions(self.width as int, self.height as int, self.data.len() as int)
    }

    /// The values with their dimensions, or `InvalidDimensions` when a
    /// dimension is zero or the number of values is not width times height.
    pub fn new(data: Vec<T>, width: u16, height: u16) -> (r: Result<Self, InputError>)
        ensures
            match r {
                Ok(v) => v.wf() && v.data@ == data@ && v.width == width && v.height == height,
                Err(e) => !valid_dimensions(width as int, height as int, data.len() as int)
                    && e is InvalidDimensions,
            },
    {
        match check_dimensions_and_buffer_size(width, height, data.len()) {
            Err(e) => Err(e),
            Ok(()) => Ok(DimensionalVector { data, width, height }),
        }
    }
}

/// Input from unsigned bytes and a threshold: the values at or above the
/// threshold form the foreground, the others the background.
pub struct ByteInputData {
    pub buffer: DimensionalVector<u8>,
    pub threshold: u8,
}

impl ByteInputData {
    pub fn new(buffer: Vec<u8>, threshold: u8, width: u16, height: u16) -> (r: Result<Self, InputError>)
        ensures
            match r {
                Ok(d) => d.buffer.wf() && d.buffer.data@ == buffer@ && d.buffer.width == width && d.buffer.height
                    == height && d.threshold == threshold,
                Err(e) => !valid_dimensions(width as int, height as int, buffer.len() as int)
                    && e is InvalidDimensions,
            },
    {
        match DimensionalVector::new(buffer, width, height) {
            Err(e) => Err(e),
            Ok(buffer) => Ok(ByteInputData { buffer, threshold }),
        }
    }
}

/// Input from booleans: `true` marks the foreground.
pub struct BoolInputData {
    pub buffer: DimensionalVector<bool>,
}

impl BoolInputData {
    pub fn new(buffer: Vec<bool>, width: u16, height: u16) -> (r: Result<Self, InputError>)
        ensures
            match r {
                Ok(d) => d.buffer.wf() && d.buffer.data@ == buffer@ && d.buffer.width == width && d.buffer.height
                    == height,
                Err(e) => !valid_dimensions(width as int, height as int, buffer.len() as int)
                    && e is InvalidDimensions,
            },
    {
        match DimensionalVector::new(buffer, width, height) {
            Err(e) => Err(e),
            Ok(buffer) => Ok(BoolInputData { buffer }),
        }
    }
}

} // verus!
