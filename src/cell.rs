use vstd::prelude::*;

verus! {

/// The layer a cell belongs to.
#[derive(Clone, Copy, Debug, PartialEq, Eq, Structural)]
pub enum CellLayer {
    /// Cells regarded as set (for an image: opaque pixels).
    Foreground,
    /// Cells regarded as not set (for an image: transparent pixels).
    Background,
}

/// A reference to a cell of the field: its coordinates and its row-major index.
#[derive(Clone, Copy, Debug, PartialEq, Eq, Structural)]
pub struct CellPosition {
    pub x: u16,
    pub y: u16,
    pub index: u32,
}

/// A single cell of a distance field.
#[derive(Clone, Copy, Debug, PartialEq, Eq, Structural)]
pub struct Cell {
    /// The layer (foreground, background) this cell belongs to.
    pub layer: CellLayer,
    /// The index of the cell in the field seen as a one-dimensional list.
    pub index: u32,
    /// The horizontal position of the cell in the field.
    pub x: u16,
    /// The vertical position of the cell in the field.
    pub y: u16,
    /// The position of the nearest known cell of the other layer.
    pub nearest_cell_position: Option<CellPosition>,
}

/// Squared Euclidean distance between two points.
pub open spec fn dist2(ax: int, ay: int, bx: int, by: int) -> int {
    (ax - bx) * (ax - bx) + (ay - by) * (ay - by)
}

/// Squared distance from a cell to a referenced position.
pub open spec fn dist2_to(c: Cell, p: CellPosition) -> int {
    dist2(c.x as int, c.y as int, p.x as int, p.y as int)
}

/// The same cell with another nearest-cell reference.
pub open spec fn with_nearest(c: Cell, n: Option<CellPosition>) -> Cell {
    Cell { layer: c.layer, index: c.index, x: c.x, y: c.y, nearest_cell_position: n }
}

/// The reference to cell `c` itself.
pub open spec fn position_of(c: Cell) -> CellPosition {
    CellPosition { x: c.x, y: c.y, index: c.index }
}

/// The layer of a cell whose occupancy bit is `b`.
pub open spec fn layer_of(b: bool) -> CellLayer {
    if b {
        CellLayer::Foreground
    } else {
        CellLayer::Background
    }
}

/// The cells built from an occupancy sequence of a field `w` cells wide, in
/// row-major order, none with a nearest cell yet.
pub open spec fn initial_cells(bits: Seq<bool>, w: int) -> Seq<Cell> {
    Seq::new(
        bits.len(),
        |i: int|
            Cell {
                layer: layer_of(bits[i]),
                index: i as u32,
                x: (i % w) as u16,
                y: (i / w) as u16,
                nearest_cell_position: None,
            },
    )
}

/// `b` holds the cells of `a`, possibly with other nearest-cell references.
pub open spec fn same_cells(a: Seq<Cell>, b: Seq<Cell>) -> bool {
    a.len() == b.len() && forall|i: int|
        0 <= i < a.len() ==> #[trigger] b[i].layer == a[i].layer && b[i].index == a[i].index && b[i].x
            == a[i].x && b[i].y == a[i].y
}

/// Each cell's index is its position in the sequence.
pub open spec fn indexed(cells: Seq<Cell>) -> bool {
    forall|i: int| 0 <= i < cells.len() ==> #[trigger] cells[i].index == i
}

/// Each nearest-cell reference names a cell of the sequence, with that cell's
/// coordinates, and that cell lies in the other layer.
pub open spec fn references_valid(cells: Seq<Cell>) -> bool {
    forall|i: int|
        0 <= i < cells.len() ==> match #[trigger] cells[i].nearest_cell_position {
            None => true,
            Some(p) => p.index < cells.len() && cells[p.index as int].x == p.x && cells[p.index as int].y
                == p.y && cells[p.index as int].layer != cells[i].layer,
        }
}

/// Cell `i` sits at column `i % w` and row `i / w`.
pub open spec fn laid_out(cells: Seq<Cell>, w: int) -> bool {
    forall|i: int| 0 <= i < cells.len() ==> #[trigger] cells[i].x == i % w && cells[i].y == i / w
}

/// All cells lie in the same layer.
pub open spec fn one_layer(cells: Seq<Cell>) -> bool {
    forall|i: int, j: int| 0 <= i < cells.len() && 0 <= j < cells.len() ==> #[trigger] cells[i].layer == #[trigger] cells[j].layer
}

/// No cell has a nearest-cell reference.
pub open spec fn no_references(cells: Seq<Cell>) -> bool {
    forall|i: int| 0 <= i < cells.len() ==> (#[trigger] cells[i]).nearest_cell_position is None
}

/// A field whose cells all lie in one layer has no boundary: where every
/// reference names a cell of the other layer, no cell has a reference.
pub proof fn lemma_one_layer_has_no_references(cells: Seq<Cell>)
    requires
        references_valid(cells),
        one_layer(cells),
    ensures
        no_references(cells),
{
    assert forall|i: int| 0 <= i < cells.len() implies (#[trigger] cells[i]).nearest_cell_position is None by {
        if let Some(p) = cells[i].nearest_cell_position {
            assert(cells[p.index as int].layer == cells[i].layer);
        }
    }
}

proof fn lemma_square_bound(d: int)
    requires
        -65535 <= d <= 65535,
    ensures
        0 <= d * d <= 65535 * 65535,
{
    assert(0 <= d * d <= 65535 * 65535) by (nonlinear_arith)
        requires
            -65535 <= d <= 65535,
    ;
}

impl CellPosition {
    pub fn get_coordinates(&self) -> (r: (u16, u16))
        ensures
            r == (self.x, self.y),
    {
        (self.x, self.y)
    }
}

impl Cell {
    /// A cell at `(x, y)` with row-major `index` and no nearest cell yet.
    pub fn new(layer: CellLayer, index: u32, x: u16, y: u16) -> (r: Self)
        ensures
            r == (Cell { layer, index, x, y, nearest_cell_position: None }),
    {
        Cell { layer, index, x, y, nearest_cell_position: None }
    }

    /// Squared distance between two points of the field, computed without overflow.
    pub fn get_distance_squared(first_x: &u16, first_y: &u16, second_x: &u16, second_y: &u16) -> (r: u64)
        ensures
            r as int == dist2(*first_x as int, *first_y as int, *second_x as int, *second_y as int),
    {
        let horiz: i32 = *first_x as i32 - *second_x as i32;
        let vert: i32 = *first_y as i32 - *second_y as i32;
        proof {
            lemma_square_bound(horiz as int);
            lemma_square_bound(vert as int);
        }
        let h: i64 = horiz as i64;
        let v: i64 = vert as i64;
        let hh: u64 = (h * h) as u64;
        let vv: u64 = (v * v) as u64;
        hh + vv
    }

    /// The squared distance to the nearest cell of the other layer, if one is known.
    pub fn distance_to_nearest_squared(&self) -> (r: Option<u64>)
        ensures
            match self.nearest_cell_position {
                None => r.is_none(),
                Some(p) => r.is_some() && r.unwrap() as int == dist2_to(*self, p),
            },
    {
        match &self.nearest_cell_position {
            Some(nearest) => Some(Self::get_distance_squared(&self.x, &self.y, &nearest.x, &nearest.y)),
            None => None,
        }
    }

    pub fn get_nearest_cell_position(&self) -> (r: &Option<CellPosition>)
        ensures
            *r == self.nearest_cell_position,
    {
        &self.nearest_cell_position
    }

    /// Set the position of the nearest cell of the other layer.
    pub fn set_nearest_cell_position(&mut self, pos: CellPosition)
        ensures
            *final(self) == with_nearest(*old(self), Some(pos)),
    {
        self.nearest_cell_position = Some(pos);
    }
}

/// A two-dimensional distance field: its cells in row-major order.
/// Width and height are at most 65535, so a field holds fewer than 2^32 cells.
pub struct DistanceField {
    pub data: Vec<Cell>,
    pub width: u16,
    pub height: u16,
}

impl DistanceField {
    /// Positive dimensions; one cell per position, in row-major order, each
    /// knowing its index and coordinates; references that name cells of the
    /// other layer.
    pub open spec fn wf(&self) -> bool {
        self.width > 0 && self.height > 0 && self.data.len() == self.width * self.height && indexed(self.data@)
            && laid_out(self.data@, self.width as int) && references_valid(self.data@)
    }
}

/// The cell with its reference dropped unless it lies in layer `keep`.
pub open spec fn filtered_cell(c: Cell, keep: CellLayer) -> Cell {
    if c.layer == keep {
        c
    } else {
        with_nearest(c, None)
    }
}

impl DistanceField {
    fn filter_layer(source: &Self, keep: CellLayer) -> (r: Self)
        ensures
            r.width == source.width,
            r.height == source.height,
            r.data@ == source.data@.map_values(|c: Cell| filtered_cell(c, keep)),
            source.wf() ==> r.wf(),
    {
        let mut cells: Vec<Cell> = Vec::new();
        let mut i: usize = 0;
        while i < source.data.len()
            invariant
                i <= source.data.len(),
                cells@ == source.data@.take(i as int).map_values(|c: Cell| filtered_cell(c, keep)),
            decreases source.data.len() - i,
        {
            let c = source.data[i];
            if c.layer == keep {
                cells.push(c);
            } else {
                cells.push(Cell { nearest_cell_position: None, ..c });
            }
            i += 1;
            proof {
                assert(cells@ =~= source.data@.take(i as int).map_values(|c: Cell| filtered_cell(c, keep)));
            }
        }
        proof {
            assert(source.data@.take(source.data.len() as int) =~= source.data@);
            if source.wf() {
                let s = source.data@;
                assert(forall|i: int| 0 <= i < cells@.len() ==> #[trigger] cells@[i] == filtered_cell(s[i], keep));
                assert(indexed(cells@)) by {
                    assert forall|i: int| 0 <= i < cells@.len() implies #[trigger] cells@[i].index == i by {
                        assert(s[i].index == i);
                    }
                }
                assert(laid_out(cells@, source.width as int)) by {
                    assert forall|i: int| 0 <= i < cells@.len() implies #[trigger] cells@[i].x == i % (
                    source.width as int) && cells@[i].y == i / (source.width as int) by {
                        assert(s[i].x == i % (source.width as int));
                    }
                }
                assert(references_valid(cells@)) by {
                    assert forall|i: int| 0 <= i < cells@.len() implies match #[trigger] cells@[i].nearest_cell_position {
                        None => true,
                        Some(p) => p.index < cells@.len() && cells@[p.index as int].x == p.x && cells@[p.index as int].y
                            == p.y && cells@[p.index as int].layer != cells@[i].layer,
                    } by {
                        if let Some(p) = cells@[i].nearest_cell_position {
                            assert(s[i].nearest_cell_position == Some(p));
                            assert(cells@[p.index as int] == filtered_cell(s[p.index as int], keep));
                        }
                    }
                }
            }
        }
        DistanceField { data: cells, width: source.width, height: source.height }
    }

    /// The field with the references of background cells dropped.
    pub fn filter_inner(source: &Self) -> (r: Self)
        ensures
            r.width == source.width,
            r.height == source.height,
            r.data@ == source.data@.map_values(|c: Cell| filtered_cell(c, CellLayer::Foreground)),
            source.wf() ==> r.wf(),
    {
        Self::filter_layer(source, CellLayer::Foreground)
    }

    /// The field with the references of foreground cells dropped.
    pub fn filter_outer(source: &Self) -> (r: Self)
        ensures
            r.width == source.width,
            r.height == source.height,
            r.data@ == source.data@.map_values(|c: Cell| filtered_cell(c, CellLayer::Background)),
            source.wf() ==> r.wf(),
    {
        Self::filter_layer(source, CellLayer::Background)
    }
}

} // verus!
