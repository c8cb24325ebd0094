use rs_sdf::cell::{Cell, CellLayer, CellPosition};
use rs_sdf::distance::{
    CartesianDistance, ChebyshevDistance, EuclideanDistance, EuclideanDistanceSquared, NearestCellIndex,
    NearestCellIndexOffset, NearestCellPosition, OneDimensionalDistanceCalculation, RectilinearDistance,
    TwoDimensionalDistanceCalculation,
};

fn setup_cell(index: u32, source_x: u16, source_y: u16, nearest_x: u16, nearest_y: u16, nearest_index: u32) -> Cell {
    Cell {
        nearest_cell_position: Some(CellPosition { x: nearest_x, y: nearest_y, index: nearest_index }),
        index,
        x: source_x,
        y: source_y,
        layer: CellLayer::Foreground,
    }
}

#[test]
fn calculate_euclidean_distance() {
    let fun = EuclideanDistance::calculate_legacy;
    let dummy_index = 0;

    let c = setup_cell(0, 0, 0, 0, 0, dummy_index);
    let res: u16 = fun(&c);
    assert_eq!(res, 0u16);

    let c = setup_cell(0, 0, 0, 3, 4, dummy_index);
    let res: u16 = fun(&c);
    assert_eq!(res, 5u16);

    let c = setup_cell(0, 3, 4, 0, 0, dummy_index);
    let res: u16 = fun(&c);
    assert_eq!(res, 5u16);
}

#[test]
fn calculate_euclidean_distance_squared() {
    let f = EuclideanDistanceSquared::calculate_legacy;
    let dummy_index = 0;

    let c = setup_cell(0, 0, 0, 0, 0, dummy_index);
    let res: u16 = f(&c);
    assert_eq!(res, 0);

    let c = setup_cell(0, 0, 0, 3, 4, dummy_index);
    let res: u16 = f(&c);
    assert_eq!(res, 25);

    let c = setup_cell(0, 3, 4, 0, 0, dummy_index);
    let res: u16 = f(&c);
    assert_eq!(res, 25);
}

#[test]
fn calculate_chebyshev_distance() {
    let f = ChebyshevDistance::calculate_legacy;
    let dummy_index = 0;

    let c = setup_cell(0, 0, 0, 0, 0, dummy_index);
    let res: u16 = f(&c);
    assert_eq!(res, 0);

    let c = setup_cell(0, 0, 0, 3, 4, dummy_index);
    let res: u16 = f(&c);
    assert_eq!(res, 4);

    let c = setup_cell(0, 3, 4, 0, 0, dummy_index);
    let res: u16 = f(&c);
    assert_eq!(res, 4);
}

#[test]
fn calculate_rectilinear_distance() {
    let f = RectilinearDistance::calculate_legacy;
    let dummy_index = 0;

    let c = setup_cell(0, 0, 0, 0, 0, dummy_index);
    let res: u32 = f(&c);
    assert_eq!(res, 0);

    let c = setup_cell(0, 0, 0, 3, 4, dummy_index);
    let res: u32 = f(&c);
    assert_eq!(res, 7);

    let c = setup_cell(0, 3, 4, 0, 0, dummy_index);
    let res: u32 = f(&c);
    assert_eq!(res, 7);
}

#[test]
fn calculate_cartesian_distance() {
    let f = CartesianDistance::calculate_legacy;
    let dummy_index = 0;

    let c = setup_cell(0, 0, 0, 0, 0, dummy_index);
    let res: (i32, i32) = f(&c);
    assert_eq!(res, (0, 0));

    let c = setup_cell(0, 0, 0, 3, 4, dummy_index);
    let res: (i32, i32) = f(&c);
    assert_eq!(res, (3, 4));

    let c = setup_cell(0, 3, 4, 0, 0, dummy_index);
    let res: (i32, i32) = f(&c);
    assert_eq!(res, (-3, -4));
}

#[test]
fn get_nearest_cell_index() {
    let f = NearestCellIndex::calculate_legacy;
    let c = setup_cell(0, 0, 0, 0, 0, 99);
    let res: u32 = f(&c);
    assert_eq!(res, 99);
}

#[test]
fn get_nearest_cell_position() {
    let f = NearestCellPosition::calculate_legacy;
    let c = setup_cell(0, 0, 0, 99, 99, 0);
    let res: (u16, u16) = f(&c);
    assert_eq!(res, (99, 99));
}

#[test]
fn scenario_three_four_five() {
    let c = setup_cell(0, 0, 0, 3, 4, 0);
    let e: u16 = EuclideanDistance::calculate_legacy(&c);
    assert_eq!(e, 5);
    assert_eq!(EuclideanDistanceSquared::calculate_u64(&c), 25);
    assert_eq!(EuclideanDistance::calculate_u32(&c), 5);
}

#[test]
fn euclidean_rounds_down() {
    let c = setup_cell(0, 0, 0, 1, 1, 0);
    assert_eq!(EuclideanDistanceSquared::calculate_u64(&c), 2);
    assert_eq!(EuclideanDistance::calculate_u32(&c), 1);
    let c = setup_cell(0, 0, 0, 65535, 65535, 0);
    assert_eq!(EuclideanDistanceSquared::calculate_u64(&c), 8_589_672_450);
    assert_eq!(EuclideanDistance::calculate_u32(&c), 92_680);
}

#[test]
fn metrics_without_nearest_cell_are_zero() {
    let c = Cell::new(CellLayer::Background, 4, 1, 1);
    assert_eq!(EuclideanDistanceSquared::calculate_u64(&c), 0);
    assert_eq!(EuclideanDistance::calculate_u32(&c), 0);
    assert_eq!(ChebyshevDistance::calculate(&c), 0);
    assert_eq!(RectilinearDistance::calculate_u32(&c), 0);
    assert_eq!(CartesianDistance::calculate_i32(&c), (0, 0));
    assert_eq!(NearestCellIndex::calculate_u32(&c), 0);
    assert_eq!(NearestCellIndexOffset::calculate_i32(&c), 0);
    assert_eq!(NearestCellPosition::calculate_u16(&c), (0, 0));
    assert_eq!(c.distance_to_nearest_squared(), None);
}

#[test]
fn metric_ordering_on_examples() {
    for &(nx, ny) in &[(3u16, 4u16), (1, 1), (10, 0), (7, 2), (0, 0)] {
        let c = setup_cell(0, 0, 0, nx, ny, 0);
        let cheb = ChebyshevDistance::calculate(&c) as u32;
        let euc = EuclideanDistance::calculate_u32(&c);
        let rect = RectilinearDistance::calculate_u32(&c);
        assert!(cheb <= euc && euc <= rect);
        let sq = EuclideanDistanceSquared::calculate_u64(&c);
        assert!((euc as u64) * (euc as u64) <= sq && sq < (euc as u64 + 1) * (euc as u64 + 1));
    }
}

#[test]
fn narrowing_saturates() {
    let c = setup_cell(0, 0, 0, 300, 0, 0);
    let e: u8 = EuclideanDistance::calculate_legacy(&c);
    assert_eq!(e, 255);
    let r: u8 = RectilinearDistance::calculate_legacy(&c);
    assert_eq!(r, 255);
    let ch: u8 = ChebyshevDistance::calculate_legacy(&c);
    assert_eq!(ch, 255);
    let s: u16 = EuclideanDistanceSquared::calculate_legacy(&c);
    assert_eq!(s, 65535);
    let s8: u8 = EuclideanDistanceSquared::calculate_legacy(&c);
    assert_eq!(s8, 255);
    let p: (u8, u8) = NearestCellPosition::calculate_legacy(&c);
    assert_eq!(p, (255, 0));
}

#[test]
fn index_offset_is_signed() {
    let c = setup_cell(10, 0, 0, 0, 0, 3);
    assert_eq!(NearestCellIndexOffset::calculate_i32(&c), -7);
    let v: u8 = NearestCellIndexOffset::calculate_legacy(&c);
    assert_eq!(v, 0);
    let c = setup_cell(3, 0, 0, 0, 0, 400);
    let v: u8 = NearestCellIndexOffset::calculate_legacy(&c);
    assert_eq!(v, 255);
    let v: i32 = NearestCellIndexOffset::calculate_legacy(&c);
    assert_eq!(v, 397);
}

#[test]
fn cartesian_narrowing_offsets_magnitude() {
    let c = setup_cell(0, 3, 4, 0, 0, 0);
    let v: (u8, u8) = CartesianDistance::calculate_legacy(&c);
    assert_eq!(v, (130, 131));
    let v: (u16, u16) = CartesianDistance::calculate_legacy(&c);
    assert_eq!(v, (32770, 32771));
}

#[test]
fn squared_distance_uses_wide_arithmetic() {
    assert_eq!(Cell::get_distance_squared(&0, &0, &65535, &65535), 8_589_672_450);
    let c = setup_cell(0, 2, 2, 5, 6, 0);
    assert_eq!(c.distance_to_nearest_squared(), Some(25));
    assert_eq!(c.get_nearest_cell_position().unwrap().get_coordinates(), (5, 6));
}
