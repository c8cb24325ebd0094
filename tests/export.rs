use rs_sdf::cell::{Cell, CellLayer, CellPosition, DistanceField};
use rs_sdf::distance::{DistanceLayer, DistanceType};
use rs_sdf::result::{
    get_descriptor, image_channel_layout, BitDepth, ChannelBitDepth, ChannelDataType, TransformError,
    TransformationResult,
};
use rs_sdf::export::{ImageBufferWriter, TransformationResultWriter};
use rs_sdf::result::TransformationData;
use rs_sdf::transformation::{DistanceTransformation, TransformOutputGenerator};

fn get_distance_field() -> DistanceField {
    let c = Cell::new(CellLayer::Foreground, 0, 0, 0);
    DistanceField { width: 1, height: 1, data: vec![c; 1] }
}

fn one_dimensional_len<T>(r: &TransformationResult<T>) -> usize {
    match r {
        TransformationResult::OneDimensional(d) => d.data.len(),
        _ => panic!("expected one value per cell"),
    }
}

#[test]
fn converts_distance_field_to_export_data() {
    let mut dt = DistanceTransformation::new(get_distance_field());
    dt.filter(DistanceLayer::Foreground);
    dt.distance_type(DistanceType::EuclideanDistance);

    let res: TransformationResult<u8> = dt.transform();
    let d = get_descriptor(&res);
    assert_eq!(d.num_channels, 1);
    assert!(d.bit_depth == BitDepth::Eight);
    assert_eq!(one_dimensional_len(&res), 1);

    let res: TransformationResult<u16> = dt.transform();
    let d = get_descriptor(&res);
    assert_eq!(d.num_channels, 1);
    assert!(d.bit_depth == BitDepth::Sixteen);
    assert_eq!(one_dimensional_len(&res), 1);

    let res: TransformationResult<u32> = dt.transform();
    let d = get_descriptor(&res);
    assert_eq!(d.num_channels, 1);
    assert!(d.bit_depth == BitDepth::ThirtyTwo);
    assert_eq!(one_dimensional_len(&res), 1);
}

fn two_by_one_field() -> DistanceField {
    let mut a = Cell::new(CellLayer::Foreground, 0, 0, 0);
    a.set_nearest_cell_position(CellPosition { x: 1, y: 0, index: 1 });
    let mut b = Cell::new(CellLayer::Background, 1, 1, 0);
    b.set_nearest_cell_position(CellPosition { x: 0, y: 0, index: 0 });
    DistanceField { width: 2, height: 1, data: vec![a, b] }
}

#[test]
fn natural_width_results_are_serialized() {
    let mut dt = DistanceTransformation::from(two_by_one_field());
    dt.distance_type(DistanceType::NearestCellIndexOffset);
    let r = dt.result().unwrap();
    assert_eq!(r.num_channels, 1);
    assert_eq!(r.data_type, ChannelDataType::SignedInt);
    assert_eq!(r.bit_depth, ChannelBitDepth::ThirtyTwo);
    assert_eq!(r.data, vec![1, 0, 0, 0, 0xff, 0xff, 0xff, 0xff]);

    dt.distance_type(DistanceType::CartesianDistance);
    let r = dt.result().unwrap();
    assert_eq!(r.num_channels, 2);
    assert_eq!(r.data.len(), 16);
    assert_eq!(&r.data[4..8], &[0, 0, 0, 0]);
    assert_eq!(&r.data[8..12], &[0xff, 0xff, 0xff, 0xff]);

    dt.distance_type(DistanceType::EuclideanDistanceSquared);
    let r = dt.result().unwrap();
    assert_eq!(r.bit_depth, ChannelBitDepth::SixtyFour);
    assert_eq!(r.data, vec![1, 0, 0, 0, 0, 0, 0, 0, 1, 0, 0, 0, 0, 0, 0, 0]);

    dt.distance_type(DistanceType::EuclideanDistance);
    assert!(matches!(dt.result(), Err(TransformError::UnsupportedConfiguration)));
}

#[test]
fn layer_filter_zeroes_the_other_layer() {
    let mut dt = DistanceTransformation::from(two_by_one_field());
    dt.distance_type(DistanceType::NearestCellIndex);
    dt.filter(DistanceLayer::Background);
    let r = dt.result().unwrap();
    assert_eq!(r.data, vec![0, 0, 0, 0, 0, 0, 0, 0]);
    dt.filter(DistanceLayer::Foreground);
    let r = dt.result().unwrap();
    assert_eq!(r.data, vec![1, 0, 0, 0, 0, 0, 0, 0]);
    dt.filter(DistanceLayer::Combined);
    let r = dt.result().unwrap();
    assert_eq!(r.data, vec![1, 0, 0, 0, 0, 0, 0, 0]);

    dt.distance_type(DistanceType::NearestCellPosition);
    dt.filter(DistanceLayer::Foreground);
    let res: TransformationResult<u8> = dt.transform();
    match res {
        TransformationResult::TwoDimensional(d) => assert_eq!(d.data, vec![(1, 0), (0, 0)]),
        _ => panic!("expected pairs"),
    }
}

#[test]
fn field_filters_drop_references() {
    let df = two_by_one_field();
    let inner = DistanceField::filter_inner(&df);
    assert!(inner.data[0].nearest_cell_position.is_some());
    assert!(inner.data[1].nearest_cell_position.is_none());
    let outer = DistanceField::filter_outer(&df);
    assert!(outer.data[0].nearest_cell_position.is_none());
    assert!(outer.data[1].nearest_cell_position.is_some());
}

#[test]
fn image_layouts() {
    assert_eq!(image_channel_layout(1, ChannelBitDepth::Eight), Ok((1, 8)));
    assert_eq!(image_channel_layout(3, ChannelBitDepth::Sixteen), Ok((3, 16)));
    assert_eq!(image_channel_layout(1, ChannelBitDepth::ThirtyTwo), Ok((2, 16)));
    assert_eq!(image_channel_layout(2, ChannelBitDepth::ThirtyTwo), Ok((4, 16)));
    assert_eq!(image_channel_layout(1, ChannelBitDepth::SixtyFour), Ok((4, 16)));
    assert_eq!(image_channel_layout(3, ChannelBitDepth::SixtyFour), Err(TransformError::UnsupportedConfiguration));
    assert_eq!(image_channel_layout(3, ChannelBitDepth::ThirtyTwo), Err(TransformError::UnsupportedConfiguration));
    assert_eq!(image_channel_layout(0, ChannelBitDepth::Eight), Err(TransformError::UnsupportedConfiguration));
    assert_eq!(image_channel_layout(5, ChannelBitDepth::Eight), Err(TransformError::UnsupportedConfiguration));
}

#[test]
fn distance_type_descriptions() {
    assert_eq!(DistanceType::EuclideanDistance.human_readable_name(), "euclidean");
    assert_eq!(DistanceType::NearestCellIndexOffset.human_readable_name(), "nearest_cell_index_offset");
    assert_eq!(DistanceType::CartesianDistance.dimensions(), 2);
    assert_eq!(DistanceType::NearestCellPosition.dimensions(), 2);
    assert_eq!(DistanceType::ChebyshevDistance.dimensions(), 1);
    assert_eq!(ChannelBitDepth::ThirtyTwo.number_of_bytes(), 4);
}

#[test]
fn image_buffers_are_big_endian() {
    let d = TransformationData::new(2, 1, vec![0x1234u16, 0x00ff]);
    assert_eq!(d.write(), vec![0x12, 0x34, 0x00, 0xff]);
    let p = TransformationData::new(1, 1, vec![(0x0102u16, 0x0304u16)]);
    assert_eq!(p.write(), vec![1, 2, 3, 4]);
    let r: TransformationResult<u32> = TransformationResult::OneDimensional(TransformationData::new(1, 1, vec![0x01020304u32]));
    assert_eq!(r.write_to_buffer(), vec![1, 2, 3, 4]);
    let desc = r.descriptor();
    assert_eq!((desc.width, desc.height, desc.num_channels), (1, 1, 1));
    assert!(desc.bit_depth == BitDepth::ThirtyTwo);
}
