use vstd::prelude::*;
use crate::cell::{Cell, CellLayer, DistanceField};
use crate::distance::{
    DistanceLayer, DistanceType, OneDimensionalDistanceCalculation, TwoDimensionalDistanceCalculation,
    EuclideanDistance, EuclideanDistanceSquared, ChebyshevDistance, RectilinearDistance, CartesianDistance,
    NearestCellIndex, NearestCellIndexOffset, NearestCellPosition,
};
use crate::result::{
    ChannelBitDepth, ChannelDataType, DistanceTransformationResult, TransformError, TransformationData,
    TransformationResult,
};
use crate::serialize::{LeBytes, values_bytes, flatten_pairs};

verus! {

/// Whether the filter computes a real value for a cell of the given layer.
pub open spec fn layer_selected(filter: DistanceLayer, layer: CellLayer) -> bool {
    match filter {
        DistanceLayer::Combined => true,
        DistanceLayer::Foreground => layer == CellLayer::Foreground,
        DistanceLayer::Background => layer == CellLayer::Background,
    }
}

/// One value per cell: the calculation for selected cells, `null` for the others.
pub open spec fn one_dimensional_values<T, C: OneDimensionalDistanceCalculation<T>>(
    cells: Seq<Cell>,
    filter: DistanceLayer,
    null: T,
) -> Seq<T> {
    Seq::new(
        cells.len(),
        |i: int|
            if layer_selected(filter, cells[i].layer) {
                C::spec_value(cells[i])
            } else {
                null
            },
    )
}

/// One pair per cell: the calculation for selected cells, `null` for the others.
pub open spec fn two_dimensional_values<T, C: TwoDimensionalDistanceCalculation<T>>(
    cells: Seq<Cell>,
    filter: DistanceLayer,
    null: (T, T),
) -> Seq<(T, T)> {
    Seq::new(
        cells.len(),
        |i: int|
            if layer_selected(filter, cells[i].layer) {
                C::spec_value(cells[i])
            } else {
                null
            },
    )
}

/// A distance field with the layer filter and the distance type to compute from it.
pub struct DistanceTransformation {
    pub distance_field: DistanceField,
    pub filter: DistanceLayer,
    pub distance_type: DistanceType,
}

/// The serialized natural-width result of a transformation: channel count,
/// data type, bit depth and bytes; `None` for the Euclidean distance, whose
/// natural values are floating point.
pub open spec fn natural_result(t: DistanceTransformation) -> Option<(nat, ChannelDataType, ChannelBitDepth, Seq<u8>)> {
    let cells = t.distance_field.data@;
    let f = t.filter;
    match t.distance_type {
        DistanceType::EuclideanDistance => None,
        DistanceType::EuclideanDistanceSquared => Some(
            (
                1,
                ChannelDataType::UnsignedInt,
                ChannelBitDepth::SixtyFour,
                values_bytes(one_dimensional_values::<u64, EuclideanDistanceSquared>(cells, f, 0)),
            ),
        ),
        DistanceType::ChebyshevDistance => Some(
            (
                1,
                ChannelDataType::UnsignedInt,
                ChannelBitDepth::Sixteen,
                values_bytes(one_dimensional_values::<u16, ChebyshevDistance>(cells, f, 0)),
            ),
        ),
        DistanceType::RectilinearDistance => Some(
            (
                1,
                ChannelDataType::UnsignedInt,
                ChannelBitDepth::ThirtyTwo,
                values_bytes(one_dimensional_values::<u32, RectilinearDistance>(cells, f, 0)),
            ),
        ),
        DistanceType::NearestCellIndex => Some(
            (
                1,
                ChannelDataType::UnsignedInt,
                ChannelBitDepth::ThirtyTwo,
                values_bytes(one_dimensional_values::<u32, NearestCellIndex>(cells, f, 0)),
            ),
        ),
        DistanceType::NearestCellIndexOffset => Some(
            (
                1,
                ChannelDataType::SignedInt,
                ChannelBitDepth::ThirtyTwo,
                values_bytes(one_dimensional_values::<i32, NearestCellIndexOffset>(cells, f, 0)),
            ),
        ),
        DistanceType::CartesianDistance => Some(
            (
                2,
                ChannelDataType::SignedInt,
                ChannelBitDepth::ThirtyTwo,
                values_bytes(flatten_pairs(two_dimensional_values::<i32, CartesianDistance>(cells, f, (0, 0)))),
            ),
        ),
        DistanceType::NearestCellPosition => Some(
            (
                2,
                ChannelDataType::UnsignedInt,
                ChannelBitDepth::Sixteen,
                values_bytes(flatten_pairs(two_dimensional_values::<u16, NearestCellPosition>(cells, f, (0, 0)))),
            ),
        ),
    }
}

impl DistanceTransformation {
    /// A transformation of the whole field (no filter) to Euclidean distances.
    pub fn new(distance_field: DistanceField) -> (r: Self)
        ensures
            r.distance_field == distance_field,
            r.filter == DistanceLayer::Combined,
            r.distance_type == DistanceType::EuclideanDistance,
    {
        DistanceTransformation { distance_field, filter: DistanceLayer::Combined, distance_type: DistanceType::EuclideanDistance }
    }

    pub fn filter(&mut self, layer: DistanceLayer)
        ensures
            final(self).filter == layer,
            final(self).distance_field == old(self).distance_field,
            final(self).distance_type == old(self).distance_type,
    {
        self.filter = layer;
    }

    pub fn distance_type(&mut self, distance_type: DistanceType)
        ensures
            final(self).distance_type == distance_type,
            final(self).distance_field == old(self).distance_field,
            final(self).filter == old(self).filter,
    {
        self.distance_type = distance_type;
    }

    fn one_dimensional_result<T: Copy, C: OneDimensionalDistanceCalculation<T>>(&self, null_val: T) -> (r: Vec<T>)
        ensures
            r@ == one_dimensional_values::<T, C>(self.distance_field.data@, self.filter, null_val),
    {
        let cells = &self.distance_field.data;
        let mut buffer: Vec<T> = Vec::new();
        let mut i: usize = 0;
        while i < cells.len()
            invariant
                i <= cells.len(),
                buffer@ == one_dimensional_values::<T, C>(cells@, self.filter, null_val).take(i as int),
            decreases cells.len() - i,
        {
            let cell = &cells[i];
            let selected = match self.filter {
                DistanceLayer::Combined => true,
                DistanceLayer::Foreground => cell.layer == CellLayer::Foreground,
                DistanceLayer::Background => cell.layer == CellLayer::Background,
            };
            if selected {
                buffer.push(C::calculate_legacy(cell));
            } else {
                buffer.push(null_val);
            }
            i += 1;
            proof {
                assert(buffer@ =~= one_dimensional_values::<T, C>(cells@, self.filter, null_val).take(i as int));
            }
        }
        proof {
            assert(one_dimensional_values::<T, C>(cells@, self.filter, null_val).take(cells.len() as int)
                =~= one_dimensional_values::<T, C>(cells@, self.filter, null_val));
        }
        buffer
    }

    fn two_dimensional_result<T: Copy, C: TwoDimensionalDistanceCalculation<T>>(&self, null_val: (T, T)) -> (r: Vec<(T, T)>)
        ensures
            r@ == two_dimensional_values::<T, C>(self.distance_field.data@, self.filter, null_val),
    {
        let cells = &self.distance_field.data;
        let mut buffer: Vec<(T, T)> = Vec::new();
        let mut i: usize = 0;
        while i < cells.len()
            invariant
                i <= cells.len(),
                buffer@ == two_dimensional_values::<T, C>(cells@, self.filter, null_val).take(i as int),
            decreases cells.len() - i,
        {
            let cell = &cells[i];
            let selected = match self.filter {
                DistanceLayer::Combined => true,
                DistanceLayer::Foreground => cell.layer == CellLayer::Foreground,
                DistanceLayer::Background => cell.layer == CellLayer::Background,
            };
            if selected {
                buffer.push(C::calculate_legacy(cell));
            } else {
                buffer.push(null_val);
            }
            i += 1;
            proof {
                assert(buffer@ =~= two_dimensional_values::<T, C>(cells@, self.filter, null_val).take(i as int));
            }
        }
        proof {
            assert(two_dimensional_values::<T, C>(cells@, self.filter, null_val).take(cells.len() as int)
                =~= two_dimensional_values::<T, C>(cells@, self.filter, null_val));
        }
        buffer
    }

    fn one_dimensional_transform<T: LeBytes, C: OneDimensionalDistanceCalculation<T>>(&self, null_val: T) -> (r: TransformationResult<T>)
        ensures
            r is OneDimensional,
            r.spec_width() == self.distance_field.width,
            r.spec_height() == self.distance_field.height,
            r.flat_values() == one_dimensional_values::<T, C>(self.distance_field.data@, self.filter, null_val),
    {
        let data = self.one_dimensional_result::<T, C>(null_val);
        TransformationResult::OneDimensional(
            TransformationData::new(self.distance_field.width, self.distance_field.height, data),
        )
    }

    fn two_dimensional_transform<T: LeBytes, C: TwoDimensionalDistanceCalculation<T>>(&self, null_val: (T, T)) -> (r: TransformationResult<T>)
        ensures
            r is TwoDimensional,
            r.spec_width() == self.distance_field.width,
            r.spec_height() == self.distance_field.height,
            r.flat_values() == flatten_pairs(two_dimensional_values::<T, C>(self.distance_field.data@, self.filter, null_val)),
    {
        let data = self.two_dimensional_result::<T, C>(null_val);
        TransformationResult::TwoDimensional(
            TransformationData::new(self.distance_field.width, self.distance_field.height, data),
        )
    }

    /// The values at the distance type's natural width, serialized. The
    /// Euclidean distance, whose natural values are floating point, is
    /// `UnsupportedConfiguration` here.
    pub fn result(&self) -> (r: Result<DistanceTransformationResult, TransformError>)
        ensures
            match natural_result(*self) {
                None => r == Err::<DistanceTransformationResult, TransformError>(TransformError::UnsupportedConfiguration),
                Some((channels, data_type, bit_depth, bytes)) => r is Ok && r->Ok_0.width == self.distance_field.width
                    && r->Ok_0.height == self.distance_field.height && r->Ok_0.num_channels == channels
                    && r->Ok_0.data_type == data_type && r->Ok_0.bit_depth == bit_depth && r->Ok_0.data@ == bytes,
            },
    {
        let unsigned = ChannelDataType::UnsignedInt;
        let signed = ChannelDataType::SignedInt;
        match self.distance_type {
            DistanceType::EuclideanDistance => Err(TransformError::UnsupportedConfiguration),
            DistanceType::EuclideanDistanceSquared => Ok(
                DistanceTransformationResult::from_transformation_result(
                    &self.one_dimensional_transform::<u64, EuclideanDistanceSquared>(0),
                    unsigned,
                ),
            ),
            DistanceType::ChebyshevDistance => Ok(
                DistanceTransformationResult::from_transformation_result(
                    &self.one_dimensional_transform::<u16, ChebyshevDistance>(0),
                    unsigned,
                ),
            ),
            DistanceType::RectilinearDistance => Ok(
                DistanceTransformationResult::from_transformation_result(
                    &self.one_dimensional_transform::<u32, RectilinearDistance>(0),
                    unsigned,
                ),
            ),
            DistanceType::NearestCellIndex => Ok(
                DistanceTransformationResult::from_transformation_result(
                    &self.one_dimensional_transform::<u32, NearestCellIndex>(0),
                    unsigned,
                ),
            ),
            DistanceType::NearestCellIndexOffset => Ok(
                DistanceTransformationResult::from_transformation_result(
                    &self.one_dimensional_transform::<i32, NearestCellIndexOffset>(0),
                    signed,
                ),
            ),
            DistanceType::CartesianDistance => Ok(
                DistanceTransformationResult::from_transformation_result(
                    &self.two_dimensional_transform::<i32, CartesianDistance>((0, 0)),
                    signed,
                ),
            ),
            DistanceType::NearestCellPosition => Ok(
                DistanceTransformationResult::from_transformation_result(
                    &self.two_dimensional_transform::<u16, NearestCellPosition>((0, 0)),
                    unsigned,
                ),
            ),
        }
    }
}

/// The values of a transformation at a fixed value type: distances narrowed
/// with saturation, the metric's zero value for cells the filter leaves out.
pub trait TransformOutputGenerator<T> {
    /// Width and height of the result.
    spec fn spec_dimensions(&self) -> (u16, u16);

    /// Values per cell.
    spec fn spec_channels(&self) -> nat;

    /// All values, cell after cell.
    spec fn spec_values(&self) -> Seq<T>;

    fn transform(&self) -> (r: TransformationResult<T>)
        ensures
            (r.spec_width(), r.spec_height()) == self.spec_dimensions(),
            r.channels() == self.spec_channels(),
            r.flat_values() == self.spec_values(),
    ;
}

impl TransformOutputGenerator<u8> for DistanceTransformation {
    open spec fn spec_dimensions(&self) -> (u16, u16) {
        (self.distance_field.width, self.distance_field.height)
    }

    open spec fn spec_channels(&self) -> nat {
        self.distance_type.arity()
    }

    open spec fn spec_values(&self) -> Seq<u8> {
        let cells = self.distance_field.data@;
        let f = self.filter;
        match self.distance_type {
            DistanceType::EuclideanDistance => one_dimensional_values::<u8, EuclideanDistance>(cells, f, 0),
            DistanceType::EuclideanDistanceSquared => one_dimensional_values::<u8, EuclideanDistanceSquared>(cells, f, 0),
            DistanceType::ChebyshevDistance => one_dimensional_values::<u8, ChebyshevDistance>(cells, f, 0),
            DistanceType::RectilinearDistance => one_dimensional_values::<u8, RectilinearDistance>(cells, f, 0),
            DistanceType::NearestCellIndex => one_dimensional_values::<u8, NearestCellIndex>(cells, f, 0),
            DistanceType::NearestCellIndexOffset => one_dimensional_values::<u8, NearestCellIndexOffset>(cells, f, 0),
            DistanceType::CartesianDistance => flatten_pairs(
                two_dimensional_values::<u8, CartesianDistance>(cells, f, (0, 0)),
            ),
            DistanceType::NearestCellPosition => flatten_pairs(
                two_dimensional_values::<u8, NearestCellPosition>(cells, f, (0, 0)),
            ),
        }
    }

    fn transform(&self) -> (r: TransformationResult<u8>) {
        match self.distance_type {
            DistanceType::EuclideanDistance => self.one_dimensional_transform::<u8, EuclideanDistance>(0),
            DistanceType::EuclideanDistanceSquared => self.one_dimensional_transform::<u8, EuclideanDistanceSquared>(0),
            DistanceType::ChebyshevDistance => self.one_dimensional_transform::<u8, ChebyshevDistance>(0),
            DistanceType::RectilinearDistance => self.one_dimensional_transform::<u8, RectilinearDistance>(0),
            DistanceType::NearestCellIndex => self.one_dimensional_transform::<u8, NearestCellIndex>(0),
            DistanceType::NearestCellIndexOffset => self.one_dimensional_transform::<u8, NearestCellIndexOffset>(0),
            DistanceType::CartesianDistance => self.two_dimensional_transform::<u8, CartesianDistance>((0, 0)),
            DistanceType::NearestCellPosition => self.two_dimensional_transform::<u8, NearestCellPosition>((0, 0)),
        }
    }
}

impl TransformOutputGenerator<u16> for DistanceTransformation {
    open spec fn spec_dimensions(&self) -> (u16, u16) {
        (self.distance_field.width, self.distance_field.height)
    }

    open spec fn spec_channels(&self) -> nat {
        self.distance_type.arity()
    }

    open spec fn spec_values(&self) -> Seq<u16> {
        let cells = self.distance_field.data@;
        let f = self.filter;
        match self.distance_type {
            DistanceType::EuclideanDistance => one_dimensional_values::<u16, EuclideanDistance>(cells, f, 0),
            DistanceType::EuclideanDistanceSquared => one_dimensional_values::<u16, EuclideanDistanceSquared>(cells, f, 0),
            DistanceType::ChebyshevDistance => one_dimensional_values::<u16, ChebyshevDistance>(cells, f, 0),
            DistanceType::RectilinearDistance => one_dimensional_values::<u16, RectilinearDistance>(cells, f, 0),
            DistanceType::NearestCellIndex => one_dimensional_values::<u16, NearestCellIndex>(cells, f, 0),
            DistanceType::NearestCellIndexOffset => one_dimensional_values::<u16, NearestCellIndexOffset>(cells, f, 0),
            DistanceType::CartesianDistance => flatten_pairs(
                two_dimensional_values::<u16, CartesianDistance>(cells, f, (0, 0)),
            ),
            DistanceType::NearestCellPosition => flatten_pairs(
                two_dimensional_values::<u16, NearestCellPosition>(cells, f, (0, 0)),
            ),
        }
    }

    fn transform(&self) -> (r: TransformationResult<u16>) {
        match self.distance_type {
            DistanceType::EuclideanDistance => self.one_dimensional_transform::<u16, EuclideanDistance>(0),
            DistanceType::EuclideanDistanceSquared => self.one_dimensional_transform::<u16, EuclideanDistanceSquared>(0),
            DistanceType::ChebyshevDistance => self.one_dimensional_transform::<u16, ChebyshevDistance>(0),
            DistanceType::RectilinearDistance => self.one_dimensional_transform::<u16, RectilinearDistance>(0),
            DistanceType::NearestCellIndex => self.one_dimensional_transform::<u16, NearestCellIndex>(0),
            DistanceType::NearestCellIndexOffset => self.one_dimensional_transform::<u16, NearestCellIndexOffset>(0),
            DistanceType::CartesianDistance => self.two_dimensional_transform::<u16, CartesianDistance>((0, 0)),
            DistanceType::NearestCellPosition => self.two_dimensional_transform::<u16, NearestCellPosition>((0, 0)),
        }
    }
}

impl TransformOutputGenerator<u32> for DistanceTransformation {
    open spec fn spec_dimensions(&self) -> (u16, u16) {
        (self.distance_field.width, self.distance_field.height)
    }

    open spec fn spec_channels(&self) -> nat {
        self.distance_type.arity()
    }

    open spec fn spec_values(&self) -> Seq<u32> {
        let cells = self.distance_field.data@;
        let f = self.filter;
        match self.distance_type {
            DistanceType::EuclideanDistance => one_dimensional_values::<u32, EuclideanDistance>(cells, f, 0),
            DistanceType::EuclideanDistanceSquared => one_dimensional_values::<u32, EuclideanDistanceSquared>(cells, f, 0),
            DistanceType::ChebyshevDistance => one_dimensional_values::<u32, ChebyshevDistance>(cells, f, 0),
            DistanceType::RectilinearDistance => one_dimensional_values::<u32, RectilinearDistance>(cells, f, 0),
            DistanceType::NearestCellIndex => one_dimensional_values::<u32, NearestCellIndex>(cells, f, 0),
            DistanceType::NearestCellIndexOffset => one_dimensional_values::<u32, NearestCellIndexOffset>(cells, f, 0),
            DistanceType::CartesianDistance => flatten_pairs(
                two_dimensional_values::<u32, CartesianDistance>(cells, f, (0, 0)),
            ),
            DistanceType::NearestCellPosition => flatten_pairs(
                two_dimensional_values::<u32, NearestCellPosition>(cells, f, (0, 0)),
            ),
        }
    }

    fn transform(&self) -> (r: TransformationResult<u32>) {
        match self.distance_type {
            DistanceType::EuclideanDistance => self.one_dimensional_transform::<u32, EuclideanDistance>(0),
            DistanceType::EuclideanDistanceSquared => self.one_dimensional_transform::<u32, EuclideanDistanceSquared>(0),
            DistanceType::ChebyshevDistance => self.one_dimensional_transform::<u32, ChebyshevDistance>(0),
            DistanceType::RectilinearDistance => self.one_dimensional_transform::<u32, RectilinearDistance>(0),
            DistanceType::NearestCellIndex => self.one_dimensional_transform::<u32, NearestCellIndex>(0),
            DistanceType::NearestCellIndexOffset => self.one_dimensional_transform::<u32, NearestCellIndexOffset>(0),
            DistanceType::CartesianDistance => self.two_dimensional_transform::<u32, CartesianDistance>((0, 0)),
            DistanceType::NearestCellPosition => self.two_dimensional_transform::<u32, NearestCellPosition>((0, 0)),
        }
    }
}

impl From<DistanceField> for DistanceTransformation {
    fn from(df: DistanceField) -> (r: Self) {
        DistanceTransformation::new(df)
    }
}

impl vstd::std_specs::convert::FromSpecImpl<DistanceField> for DistanceTransformation {
    open spec fn obeys_from_spec() -> bool {
        true
    }

    open spec fn from_spec(df: DistanceField) -> Self {
        DistanceTransformation {
            distance_field: df,
            filter: DistanceLayer::Combined,
            distance_type: DistanceType::EuclideanDistance,
        }
    }
}

} // verus!
