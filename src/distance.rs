use vstd::prelude::*;
use crate::cell::{Cell, dist2_to};
use crate::clamp::{
    clamp_max, saturate, floor_sqrt, integer_sqrt, lemma_floor_sqrt, i32_to_u8_clamped, i32_to_u16_clamped, u16_to_u8_clamped,
    u32_to_u8_clamped, u32_to_u16_clamped, u64_to_u8_clamped, u64_to_u16_clamped, u64_to_u32_clamped,
    i32_to_u8_saturated, i32_to_u16_saturated, i32_to_u32_saturated, abs_capped, i32_to_u32_offset,
};

verus! {

/// Which cells receive a computed value.
#[derive(Clone, Copy, Debug, PartialEq, Eq, Structural)]
pub enum DistanceLayer {
    /// Only foreground cells; the others get the metric's zero value.
    Foreground,
    /// Only background cells; the others get the metric's zero value.
    Background,
    /// Every cell.
    Combined,
}

/// The distance types that the library calculates.
#[derive(Clone, Copy, Debug, PartialEq, Eq, Structural)]
pub enum DistanceType {
    /// The Euclidean distance to the nearest cell: a single unsigned value.
    EuclideanDistance,
    /// The squared Euclidean distance to the nearest cell: a single unsigned value.
    EuclideanDistanceSquared,
    /// The Chebyshev (chessboard) distance: the larger of the horizontal and
    /// vertical distances, a single unsigned value.
    ChebyshevDistance,
    /// The rectilinear (Manhattan) distance: the sum of the horizontal and
    /// vertical distances, a single unsigned value.
    RectilinearDistance,
    /// The signed offsets on the x- and y-axis to the nearest cell.
    CartesianDistance,
    /// The index of the nearest cell in the row-major list of cells.
    NearestCellIndex,
    /// The index of the nearest cell minus the index of the cell: a signed value.
    NearestCellIndexOffset,
    /// The coordinates of the nearest cell: a pair of unsigned values.
    NearestCellPosition,
}

/// The numeric type of a distance value.
#[derive(Clone, Copy, Debug, PartialEq, Eq, Structural)]
pub enum DistanceValueType {
    U16,
    U32,
    I16,
    I32,
    F32,
    F64,
    TupleU16,
}

impl DistanceType {
    pub fn human_readable_name(&self) -> (r: String)
        ensures
            r@ == match *self {
                DistanceType::EuclideanDistance => "euclidean"@,
                DistanceType::EuclideanDistanceSquared => "euclidean_squared"@,
                DistanceType::CartesianDistance => "cartesian"@,
                DistanceType::ChebyshevDistance => "chebyshev"@,
                DistanceType::RectilinearDistance => "rectilinear"@,
                DistanceType::NearestCellPosition => "nearest_cell_pos"@,
                DistanceType::NearestCellIndex => "nearest_cell_index"@,
                DistanceType::NearestCellIndexOffset => "nearest_cell_index_offset"@,
            },
    {
        match self {
            DistanceType::EuclideanDistance => String::from_str("euclidean"),
            DistanceType::EuclideanDistanceSquared => String::from_str("euclidean_squared"),
            DistanceType::CartesianDistance => String::from_str("cartesian"),
            DistanceType::ChebyshevDistance => String::from_str("chebyshev"),
            DistanceType::RectilinearDistance => String::from_str("rectilinear"),
            DistanceType::NearestCellPosition => String::from_str("nearest_cell_pos"),
            DistanceType::NearestCellIndex => String::from_str("nearest_cell_index"),
            DistanceType::NearestCellIndexOffset => String::from_str("nearest_cell_index_offset"),
        }
    }

    pub fn value_type(&self) -> (r: DistanceValueType)
        ensures
            r == match *self {
                DistanceType::EuclideanDistance => DistanceValueType::U16,
                DistanceType::EuclideanDistanceSquared => DistanceValueType::U32,
                DistanceType::ChebyshevDistance => DistanceValueType::U16,
                DistanceType::RectilinearDistance => DistanceValueType::U16,
                DistanceType::CartesianDistance => DistanceValueType::TupleU16,
                DistanceType::NearestCellIndex => DistanceValueType::U32,
                DistanceType::NearestCellIndexOffset => DistanceValueType::I32,
                DistanceType::NearestCellPosition => DistanceValueType::TupleU16,
            },
    {
        match self {
            DistanceType::EuclideanDistance => DistanceValueType::U16,
            DistanceType::EuclideanDistanceSquared => DistanceValueType::U32,
            DistanceType::ChebyshevDistance => DistanceValueType::U16,
            DistanceType::RectilinearDistance => DistanceValueType::U16,
            DistanceType::CartesianDistance => DistanceValueType::TupleU16,
            DistanceType::NearestCellIndex => DistanceValueType::U32,
            DistanceType::NearestCellIndexOffset => DistanceValueType::I32,
            DistanceType::NearestCellPosition => DistanceValueType::TupleU16,
        }
    }

    pub open spec fn arity(self) -> nat {
        match self {
            DistanceType::CartesianDistance | DistanceType::NearestCellPosition => 2,
            _ => 1,
        }
    }

    /// The number of values per cell: two for the signed offsets and for the
    /// nearest cell's coordinates, one for the others.
    pub fn dimensions(&self) -> (r: u8)
        ensures
            r == self.arity(),
    {
        match self {
            DistanceType::CartesianDistance => 2,
            DistanceType::NearestCellPosition => 2,
            _ => 1,
        }
    }
}

pub open spec fn abs(v: int) -> int {
    if v < 0 {
        -v
    } else {
        v
    }
}

pub open spec fn max(a: int, b: int) -> int {
    if a >= b {
        a
    } else {
        b
    }
}

/// The offset on the x-axis from a cell to its nearest cell (0 without one).
pub open spec fn delta_x(c: Cell) -> int {
    match c.nearest_cell_position {
        None => 0,
        Some(p) => p.x - c.x,
    }
}

/// The offset on the y-axis from a cell to its nearest cell (0 without one).
pub open spec fn delta_y(c: Cell) -> int {
    match c.nearest_cell_position {
        None => 0,
        Some(p) => p.y - c.y,
    }
}

pub open spec fn chebyshev_of(c: Cell) -> int {
    max(abs(delta_x(c)), abs(delta_y(c)))
}

pub open spec fn rectilinear_of(c: Cell) -> int {
    abs(delta_x(c)) + abs(delta_y(c))
}

pub open spec fn euclidean_squared_of(c: Cell) -> int {
    delta_x(c) * delta_x(c) + delta_y(c) * delta_y(c)
}

/// The Euclidean distance rounded down to an integer.
pub open spec fn euclidean_of(c: Cell) -> int {
    floor_sqrt(euclidean_squared_of(c) as nat) as int
}

/// The nearest cell's index (0 without one).
pub open spec fn nearest_index_of(c: Cell) -> int {
    match c.nearest_cell_position {
        None => 0,
        Some(p) => p.index as int,
    }
}

/// The nearest cell's index minus the cell's index (0 without one).
pub open spec fn index_offset_of(c: Cell) -> int {
    match c.nearest_cell_position {
        None => 0,
        Some(p) => p.index - c.index,
    }
}

/// The nearest cell's coordinates ((0, 0) without one).
pub open spec fn nearest_position_of(c: Cell) -> (int, int) {
    match c.nearest_cell_position {
        None => (0, 0),
        Some(p) => (p.x as int, p.y as int),
    }
}

/// `v` limited to the range of `i32`.
pub open spec fn clamp_i32(v: int) -> int {
    if v < i32::MIN {
        i32::MIN as int
    } else {
        clamp_max(v, i32::MAX as int)
    }
}

fn abs_diff(a: u16, b: u16) -> (r: u16)
    ensures
        r as int == abs(a - b),
{
    if a >= b {
        a - b
    } else {
        b - a
    }
}

proof fn lemma_euclidean_squared(c: Cell)
    ensures
        0 <= euclidean_squared_of(c) < 0x4_0000_0000,
        c.nearest_cell_position is Some ==> euclidean_squared_of(c) == dist2_to(
            c,
            c.nearest_cell_position->Some_0,
        ),
{
    let dx = delta_x(c);
    let dy = delta_y(c);
    assert(0 <= dx * dx + dy * dy < 0x4_0000_0000) by (nonlinear_arith)
        requires
            -65535 <= dx <= 65535,
            -65535 <= dy <= 65535,
    ;
    assert(dx * dx == (-dx) * (-dx) && dy * dy == (-dy) * (-dy)) by (nonlinear_arith);
}

proof fn lemma_floor_sqrt_exists(n: nat)
    ensures
        (floor_sqrt(n) * floor_sqrt(n)) <= n < (floor_sqrt(n) + 1) * (floor_sqrt(n) + 1),
    decreases n,
{
    if n == 0 {
        assert(0 * 0 <= 0nat < (0 + 1) * (0 + 1)) by (nonlinear_arith);
        lemma_floor_sqrt(0, 0);
    } else {
        lemma_floor_sqrt_exists((n - 1) as nat);
        let r = floor_sqrt((n - 1) as nat);
        if n < (r + 1) * (r + 1) {
            lemma_floor_sqrt(n, r);
        } else {
            assert((r + 1) * (r + 1) <= n < (r + 2) * (r + 2)) by (nonlinear_arith)
                requires
                    r * r <= n - 1 < (r + 1) * (r + 1),
                    n >= (r + 1) * (r + 1),
            ;
            lemma_floor_sqrt(n, r + 1);
        }
    }
}

/// The integer Euclidean distance is the squared distance's square root rounded
/// down: its square is at most the squared distance, the next square exceeds
/// it, and where the squared distance is a perfect square the two agree exactly.
pub proof fn lemma_euclidean_matches_squared(cell: Cell)
    ensures
        euclidean_of(cell) * euclidean_of(cell) <= euclidean_squared_of(cell) < (euclidean_of(cell) + 1) * (
        euclidean_of(cell) + 1),
        forall|k: nat| #[trigger] (k * k) == euclidean_squared_of(cell) ==> euclidean_of(cell) == k
            && euclidean_of(cell) * euclidean_of(cell) == euclidean_squared_of(cell),
{
    lemma_euclidean_squared(cell);
    let sq = euclidean_squared_of(cell) as nat;
    lemma_floor_sqrt_exists(sq);
    assert forall|k: nat| #[trigger] (k * k) == euclidean_squared_of(cell) implies euclidean_of(cell) == k
        && euclidean_of(cell) * euclidean_of(cell) == euclidean_squared_of(cell) by {
        assert(k * k <= sq < (k + 1) * (k + 1)) by (nonlinear_arith)
            requires
                k * k == sq,
        ;
        lemma_floor_sqrt(sq, k);
    }
}

/// For every cell the Chebyshev distance is at most the (integer) Euclidean
/// distance, which is at most the rectilinear distance.
pub proof fn lemma_metric_ordering(cell: Cell)
    ensures
        chebyshev_of(cell) <= euclidean_of(cell) <= rectilinear_of(cell),
{
    lemma_euclidean_matches_squared(cell);
    let r = euclidean_of(cell);
    let sq = euclidean_squared_of(cell);
    let ax = abs(delta_x(cell));
    let ay = abs(delta_y(cell));
    assert(ax * ax + ay * ay == sq) by (nonlinear_arith)
        requires
            ax == abs(delta_x(cell)),
            ay == abs(delta_y(cell)),
            sq == delta_x(cell) * delta_x(cell) + delta_y(cell) * delta_y(cell),
    ;
    let m = max(ax, ay);
    assert(m <= r) by (nonlinear_arith)
        requires
            m == ax || m == ay,
            0 <= ax,
            0 <= ay,
            0 <= r,
            ax * ax + ay * ay == sq,
            sq < (r + 1) * (r + 1),
    ;
    assert(r <= ax + ay) by (nonlinear_arith)
        requires
            0 <= ax,
            0 <= ay,
            0 <= r,
            ax * ax + ay * ay == sq,
            r * r <= sq,
    ;
}

/// A calculation of one value per cell.
pub trait OneDimensionalDistanceCalculation<T> {
    /// The value for a cell.
    spec fn spec_value(cell: Cell) -> T;

    fn calculate_legacy(cell: &Cell) -> (r: T)
        ensures
            r == Self::spec_value(*cell),
    ;
}

/// A calculation of a pair of values per cell.
pub trait TwoDimensionalDistanceCalculation<T> {
    /// The pair for a cell.
    spec fn spec_value(cell: Cell) -> (T, T);

    fn calculate_legacy(cell: &Cell) -> (r: (T, T))
        ensures
            r == Self::spec_value(*cell),
    ;
}

/// The Euclidean distance to the nearest cell.
pub struct EuclideanDistance;

/// The squared Euclidean distance to the nearest cell.
pub struct EuclideanDistanceSquared;

/// The Chebyshev distance to the nearest cell.
pub struct ChebyshevDistance;

/// The rectilinear distance to the nearest cell.
pub struct RectilinearDistance;

/// The signed offsets on the x- and y-axis from the cell to its nearest cell.
pub struct CartesianDistance;

/// The index of the nearest cell.
pub struct NearestCellIndex;

/// The index of the nearest cell relative to the cell's own index.
pub struct NearestCellIndexOffset;

/// The coordinates of the nearest cell.
pub struct NearestCellPosition;

impl EuclideanDistanceSquared {
    /// The squared distance at full precision; 0 without a nearest cell.
    pub fn calculate_u64(cell: &Cell) -> (r: u64)
        ensures
            r as int == euclidean_squared_of(*cell),
            r < 0x4_0000_0000,
    {
        proof {
            lemma_euclidean_squared(*cell);
        }
        match cell.distance_to_nearest_squared() {
            Some(d) => d,
            None => 0,
        }
    }
}

impl EuclideanDistance {
    /// The distance rounded down to an integer; 0 without a nearest cell.
    pub fn calculate_u32(cell: &Cell) -> (r: u32)
        ensures
            r as int == euclidean_of(*cell),
    {
        let sq = EuclideanDistanceSquared::calculate_u64(cell);
        let r = integer_sqrt(sq);
        assert(r < 0x2_0000) by (nonlinear_arith)
            requires
                r * r <= sq,
                sq < 0x4_0000_0000,
        ;
        r as u32
    }
}

impl ChebyshevDistance {
    /// The larger of the horizontal and vertical distances; 0 without a nearest cell.
    pub fn calculate(cell: &Cell) -> (r: u16)
        ensures
            r as int == chebyshev_of(*cell),
    {
        match &cell.nearest_cell_position {
            Some(nearest) => {
                let dx = abs_diff(nearest.x, cell.x);
                let dy = abs_diff(nearest.y, cell.y);
                if dx >= dy {
                    dx
                } else {
                    dy
                }
            },
            None => 0,
        }
    }
}

impl RectilinearDistance {
    /// The sum of the horizontal and vertical distances; 0 without a nearest cell.
    pub fn calculate_u32(cell: &Cell) -> (r: u32)
        ensures
            r as int == rectilinear_of(*cell),
    {
        match &cell.nearest_cell_position {
            Some(nearest) => abs_diff(nearest.x, cell.x) as u32 + abs_diff(nearest.y, cell.y) as u32,
            None => 0,
        }
    }
}

impl CartesianDistance {
    /// The offsets pointing from the cell to its nearest cell; (0, 0) without one.
    pub fn calculate_i32(cell: &Cell) -> (r: (i32, i32))
        ensures
            r.0 as int == delta_x(*cell),
            r.1 as int == delta_y(*cell),
    {
        match &cell.nearest_cell_position {
            Some(nearest) => (nearest.x as i32 - cell.x as i32, nearest.y as i32 - cell.y as i32),
            None => (0, 0),
        }
    }
}

impl NearestCellIndex {
    /// The nearest cell's index; 0 without a nearest cell.
    pub fn calculate_u32(cell: &Cell) -> (r: u32)
        ensures
            r as int == nearest_index_of(*cell),
    {
        match &cell.nearest_cell_position {
            Some(nearest) => nearest.index,
            None => 0,
        }
    }
}

impl NearestCellIndexOffset {
    /// The nearest cell's index minus the cell's index, limited to the range
    /// of `i32`; 0 without a nearest cell.
    pub fn calculate_i32(cell: &Cell) -> (r: i32)
        ensures
            r as int == clamp_i32(index_offset_of(*cell)),
    {
        match &cell.nearest_cell_position {
            Some(nearest) => {
                let d: i64 = nearest.index as i64 - cell.index as i64;
                if d < i32::MIN as i64 {
                    i32::MIN
                } else if d > i32::MAX as i64 {
                    i32::MAX
                } else {
                    d as i32
                }
            },
            None => 0,
        }
    }
}

impl NearestCellPosition {
    /// The nearest cell's coordinates; (0, 0) without a nearest cell.
    pub fn calculate_u16(cell: &Cell) -> (r: (u16, u16))
        ensures
            (r.0 as int, r.1 as int) == nearest_position_of(*cell),
    {
        match &cell.nearest_cell_position {
            Some(nearest) => (nearest.x, nearest.y),
            None => (0, 0),
        }
    }
}

impl OneDimensionalDistanceCalculation<u8> for EuclideanDistance {
    open spec fn spec_value(cell: Cell) -> u8 {
        clamp_max(euclidean_of(cell), 255) as u8
    }

    fn calculate_legacy(cell: &Cell) -> (r: u8) {
        u32_to_u8_clamped(EuclideanDistance::calculate_u32(cell))
    }
}

impl OneDimensionalDistanceCalculation<u16> for EuclideanDistance {
    open spec fn spec_value(cell: Cell) -> u16 {
        clamp_max(euclidean_of(cell), 65535) as u16
    }

    fn calculate_legacy(cell: &Cell) -> (r: u16) {
        u32_to_u16_clamped(EuclideanDistance::calculate_u32(cell))
    }
}

impl OneDimensionalDistanceCalculation<u32> for EuclideanDistance {
    open spec fn spec_value(cell: Cell) -> u32 {
        euclidean_of(cell) as u32
    }

    fn calculate_legacy(cell: &Cell) -> (r: u32) {
        EuclideanDistance::calculate_u32(cell)
    }
}

impl OneDimensionalDistanceCalculation<u8> for EuclideanDistanceSquared {
    open spec fn spec_value(cell: Cell) -> u8 {
        clamp_max(euclidean_squared_of(cell), 255) as u8
    }

    fn calculate_legacy(cell: &Cell) -> (r: u8) {
        u64_to_u8_clamped(EuclideanDistanceSquared::calculate_u64(cell))
    }
}

impl OneDimensionalDistanceCalculation<u16> for EuclideanDistanceSquared {
    open spec fn spec_value(cell: Cell) -> u16 {
        clamp_max(euclidean_squared_of(cell), 65535) as u16
    }

    fn calculate_legacy(cell: &Cell) -> (r: u16) {
        u64_to_u16_clamped(EuclideanDistanceSquared::calculate_u64(cell))
    }
}

impl OneDimensionalDistanceCalculation<u32> for EuclideanDistanceSquared {
    open spec fn spec_value(cell: Cell) -> u32 {
        clamp_max(euclidean_squared_of(cell), u32::MAX as int) as u32
    }

    fn calculate_legacy(cell: &Cell) -> (r: u32) {
        u64_to_u32_clamped(EuclideanDistanceSquared::calculate_u64(cell))
    }
}

impl OneDimensionalDistanceCalculation<u64> for EuclideanDistanceSquared {
    open spec fn spec_value(cell: Cell) -> u64 {
        euclidean_squared_of(cell) as u64
    }

    fn calculate_legacy(cell: &Cell) -> (r: u64) {
        EuclideanDistanceSquared::calculate_u64(cell)
    }
}

impl OneDimensionalDistanceCalculation<u8> for ChebyshevDistance {
    open spec fn spec_value(cell: Cell) -> u8 {
        clamp_max(chebyshev_of(cell), 255) as u8
    }

    fn calculate_legacy(cell: &Cell) -> (r: u8) {
        u16_to_u8_clamped(ChebyshevDistance::calculate(cell))
    }
}

impl OneDimensionalDistanceCalculation<u16> for ChebyshevDistance {
    open spec fn spec_value(cell: Cell) -> u16 {
        chebyshev_of(cell) as u16
    }

    fn calculate_legacy(cell: &Cell) -> (r: u16) {
        ChebyshevDistance::calculate(cell)
    }
}

impl OneDimensionalDistanceCalculation<u32> for ChebyshevDistance {
    open spec fn spec_value(cell: Cell) -> u32 {
        chebyshev_of(cell) as u32
    }

    fn calculate_legacy(cell: &Cell) -> (r: u32) {
        ChebyshevDistance::calculate(cell) as u32
    }
}

impl OneDimensionalDistanceCalculation<u8> for RectilinearDistance {
    open spec fn spec_value(cell: Cell) -> u8 {
        clamp_max(rectilinear_of(cell), 255) as u8
    }

    fn calculate_legacy(cell: &Cell) -> (r: u8) {
        u32_to_u8_clamped(RectilinearDistance::calculate_u32(cell))
    }
}

impl OneDimensionalDistanceCalculation<u16> for RectilinearDistance {
    open spec fn spec_value(cell: Cell) -> u16 {
        clamp_max(rectilinear_of(cell), 65535) as u16
    }

    fn calculate_legacy(cell: &Cell) -> (r: u16) {
        u32_to_u16_clamped(RectilinearDistance::calculate_u32(cell))
    }
}

impl OneDimensionalDistanceCalculation<u32> for RectilinearDistance {
    open spec fn spec_value(cell: Cell) -> u32 {
        rectilinear_of(cell) as u32
    }

    fn calculate_legacy(cell: &Cell) -> (r: u32) {
        RectilinearDistance::calculate_u32(cell)
    }
}

impl OneDimensionalDistanceCalculation<u8> for NearestCellIndex {
    open spec fn spec_value(cell: Cell) -> u8 {
        clamp_max(nearest_index_of(cell), 255) as u8
    }

    fn calculate_legacy(cell: &Cell) -> (r: u8) {
        u32_to_u8_clamped(NearestCellIndex::calculate_u32(cell))
    }
}

impl OneDimensionalDistanceCalculation<u16> for NearestCellIndex {
    open spec fn spec_value(cell: Cell) -> u16 {
        clamp_max(nearest_index_of(cell), 65535) as u16
    }

    fn calculate_legacy(cell: &Cell) -> (r: u16) {
        u32_to_u16_clamped(NearestCellIndex::calculate_u32(cell))
    }
}

impl OneDimensionalDistanceCalculation<u32> for NearestCellIndex {
    open spec fn spec_value(cell: Cell) -> u32 {
        nearest_index_of(cell) as u32
    }

    fn calculate_legacy(cell: &Cell) -> (r: u32) {
        NearestCellIndex::calculate_u32(cell)
    }
}

impl OneDimensionalDistanceCalculation<u8> for NearestCellIndexOffset {
    open spec fn spec_value(cell: Cell) -> u8 {
        saturate(index_offset_of(cell), 255) as u8
    }

    fn calculate_legacy(cell: &Cell) -> (r: u8) {
        i32_to_u8_saturated(NearestCellIndexOffset::calculate_i32(cell))
    }
}

impl OneDimensionalDistanceCalculation<u16> for NearestCellIndexOffset {
    open spec fn spec_value(cell: Cell) -> u16 {
        saturate(index_offset_of(cell), 65535) as u16
    }

    fn calculate_legacy(cell: &Cell) -> (r: u16) {
        i32_to_u16_saturated(NearestCellIndexOffset::calculate_i32(cell))
    }
}

impl OneDimensionalDistanceCalculation<u32> for NearestCellIndexOffset {
    open spec fn spec_value(cell: Cell) -> u32 {
        saturate(clamp_i32(index_offset_of(cell)), u32::MAX as int) as u32
    }

    fn calculate_legacy(cell: &Cell) -> (r: u32) {
        i32_to_u32_saturated(NearestCellIndexOffset::calculate_i32(cell))
    }
}

impl OneDimensionalDistanceCalculation<i32> for NearestCellIndexOffset {
    open spec fn spec_value(cell: Cell) -> i32 {
        clamp_i32(index_offset_of(cell)) as i32
    }

    fn calculate_legacy(cell: &Cell) -> (r: i32) {
        NearestCellIndexOffset::calculate_i32(cell)
    }
}

impl TwoDimensionalDistanceCalculation<u8> for CartesianDistance {
    open spec fn spec_value(cell: Cell) -> (u8, u8) {
        (
            clamp_max(abs_capped(delta_x(cell)) + 127, 255) as u8,
            clamp_max(abs_capped(delta_y(cell)) + 127, 255) as u8,
        )
    }

    fn calculate_legacy(cell: &Cell) -> (r: (u8, u8)) {
        let (dx, dy) = CartesianDistance::calculate_i32(cell);
        (i32_to_u8_clamped(dx), i32_to_u8_clamped(dy))
    }
}

impl TwoDimensionalDistanceCalculation<u16> for CartesianDistance {
    open spec fn spec_value(cell: Cell) -> (u16, u16) {
        (
            clamp_max(abs_capped(delta_x(cell)) + 32767, 65535) as u16,
            clamp_max(abs_capped(delta_y(cell)) + 32767, 65535) as u16,
        )
    }

    fn calculate_legacy(cell: &Cell) -> (r: (u16, u16)) {
        let (dx, dy) = CartesianDistance::calculate_i32(cell);
        (i32_to_u16_clamped(dx), i32_to_u16_clamped(dy))
    }
}

impl TwoDimensionalDistanceCalculation<u32> for CartesianDistance {
    open spec fn spec_value(cell: Cell) -> (u32, u32) {
        ((abs_capped(delta_x(cell)) + 0x7fff_ffff) as u32, (abs_capped(delta_y(cell)) + 0x7fff_ffff) as u32)
    }

    fn calculate_legacy(cell: &Cell) -> (r: (u32, u32)) {
        let (dx, dy) = CartesianDistance::calculate_i32(cell);
        (i32_to_u32_offset(dx), i32_to_u32_offset(dy))
    }
}

impl TwoDimensionalDistanceCalculation<i32> for CartesianDistance {
    open spec fn spec_value(cell: Cell) -> (i32, i32) {
        (delta_x(cell) as i32, delta_y(cell) as i32)
    }

    fn calculate_legacy(cell: &Cell) -> (r: (i32, i32)) {
        CartesianDistance::calculate_i32(cell)
    }
}

impl TwoDimensionalDistanceCalculation<u8> for NearestCellPosition {
    open spec fn spec_value(cell: Cell) -> (u8, u8) {
        (clamp_max(nearest_position_of(cell).0, 255) as u8, clamp_max(nearest_position_of(cell).1, 255) as u8)
    }

    fn calculate_legacy(cell: &Cell) -> (r: (u8, u8)) {
        let (x, y) = NearestCellPosition::calculate_u16(cell);
        (u16_to_u8_clamped(x), u16_to_u8_clamped(y))
    }
}

impl TwoDimensionalDistanceCalculation<u16> for NearestCellPosition {
    open spec fn spec_value(cell: Cell) -> (u16, u16) {
        (nearest_position_of(cell).0 as u16, nearest_position_of(cell).1 as u16)
    }

    fn calculate_legacy(cell: &Cell) -> (r: (u16, u16)) {
        NearestCellPosition::calculate_u16(cell)
    }
}

impl TwoDimensionalDistanceCalculation<u32> for NearestCellPosition {
    open spec fn spec_value(cell: Cell) -> (u32, u32) {
        (nearest_position_of(cell).0 as u32, nearest_position_of(cell).1 as u32)
    }

    fn calculate_legacy(cell: &Cell) -> (r: (u32, u32)) {
        let (x, y) = NearestCellPosition::calculate_u16(cell);
        (x as u32, y as u32)
    }
}

} // verus!
