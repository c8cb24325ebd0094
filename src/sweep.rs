use vstd::prelude::*;
use crate::cell::{
    Cell, CellLayer, CellPosition, DistanceField, dist2_to, with_nearest, position_of, initial_cells,
    same_cells, indexed, references_valid, laid_out, one_layer, no_references, lemma_one_layer_has_no_references,
};
use crate::input::{InputField, SourceField, valid_dimensions};
use crate::boundary::{
    adjacent, lemma_boundary_cells_reference_a_neighbour, lemma_apply_keeps_layout, lemma_initial_laid_out,
};

verus! {

/// The new nearest-cell reference of `target` after comparing it with `source`.
///
/// A source of the other layer is itself a boundary cell and becomes the
/// reference. A source of the same layer hands its own reference on when the
/// target has none, or when it is strictly closer to the target; ties keep the
/// existing reference.
pub open spec fn compared_nearest(target: Cell, source: Cell) -> Option<CellPosition> {
    if target.layer != source.layer {
        Some(position_of(source))
    } else {
        match (target.nearest_cell_position, source.nearest_cell_position) {
            (None, sn) => sn,
            (Some(tn), None) => Some(tn),
            (Some(tn), Some(sn)) => if dist2_to(target, sn) < dist2_to(target, tn) {
                Some(sn)
            } else {
                Some(tn)
            },
        }
    }
}

/// One comparison step `(target, source)` applied to the cells.
pub open spec fn compare_step(cells: Seq<Cell>, step: (int, int)) -> Seq<Cell> {
    let (t, s) = step;
    if 0 <= t < cells.len() && 0 <= s < cells.len() {
        cells.update(t, with_nearest(cells[t], compared_nearest(cells[t], cells[s])))
    } else {
        cells
    }
}

/// The comparison steps applied in order.
pub open spec fn apply_steps(cells: Seq<Cell>, steps: Seq<(int, int)>) -> Seq<Cell>
    decreases steps.len(),
{
    if steps.len() == 0 {
        cells
    } else {
        compare_step(apply_steps(cells, steps.drop_last()), steps.last())
    }
}

/// The single step `(t, s)` when `c` holds, else nothing.
pub open spec fn step_if(c: bool, t: int, s: int) -> Seq<(int, int)> {
    if c {
        seq![(t, s)]
    } else {
        seq![]
    }
}

/// Down pass, left-to-right scan: the comparisons of cell `(x, y)`
/// (left; and below the first row also top, top-left, top-right).
pub open spec fn down_cell_steps(w: int, y: int, x: int) -> Seq<(int, int)> {
    let i = y * w + x;
    if y == 0 {
        step_if(x > 0, i, i - 1)
    } else {
        step_if(x > 0, i, i - 1) + seq![(i, i - w)] + step_if(x > 0, i, i - w - 1) + step_if(
            x + 1 < w,
            i,
            i - w + 1,
        )
    }
}

/// Down pass: the left-to-right scan of row `y` over its first `x` cells.
pub open spec fn down_scan(w: int, y: int, x: int) -> Seq<(int, int)>
    decreases x,
{
    if x <= 0 {
        seq![]
    } else {
        down_scan(w, y, x - 1) + down_cell_steps(w, y, x - 1)
    }
}

/// A right-to-left scan of row `y` comparing with the right neighbour, after `k` cells.
pub open spec fn right_scan(w: int, y: int, k: int) -> Seq<(int, int)>
    decreases k,
{
    if k <= 0 {
        seq![]
    } else {
        right_scan(w, y, k - 1) + seq![(y * w + (w - 1 - k), y * w + (w - k))]
    }
}

/// The down pass over the first `y` rows.
pub open spec fn down_rows(w: int, y: int) -> Seq<(int, int)>
    decreases y,
{
    if y <= 0 {
        seq![]
    } else {
        down_rows(w, y - 1) + down_scan(w, y - 1, w) + right_scan(w, y - 1, w - 1)
    }
}

/// Up pass, right-to-left scan: the comparisons of cell `(x, y)`
/// (right; and above the last row also bottom, bottom-right, bottom-left).
pub open spec fn up_cell_steps(w: int, h: int, y: int, x: int) -> Seq<(int, int)> {
    let i = y * w + x;
    if y == h - 1 {
        step_if(x + 1 < w, i, i + 1)
    } else {
        step_if(x + 1 < w, i, i + 1) + seq![(i, i + w)] + step_if(x + 1 < w, i, i + w + 1)
            + step_if(x > 0, i, i + w - 1)
    }
}

/// Up pass: the right-to-left scan of row `y` over its last `k` cells.
pub open spec fn up_scan(w: int, h: int, y: int, k: int) -> Seq<(int, int)>
    decreases k,
{
    if k <= 0 {
        seq![]
    } else {
        up_scan(w, h, y, k - 1) + up_cell_steps(w, h, y, w - k)
    }
}

/// A left-to-right scan of row `y` comparing with the left neighbour, up to cell `x`.
pub open spec fn left_scan(w: int, y: int, x: int) -> Seq<(int, int)>
    decreases x,
{
    if x <= 1 {
        seq![]
    } else {
        left_scan(w, y, x - 1) + seq![(y * w + x - 1, y * w + x - 2)]
    }
}

/// The up pass over the last `k` rows.
pub open spec fn up_rows(w: int, h: int, k: int) -> Seq<(int, int)>
    decreases k,
{
    if k <= 0 {
        seq![]
    } else {
        up_rows(w, h, k - 1) + up_scan(w, h, h - k, w) + left_scan(w, h - k, w)
    }
}

/// Every comparison of the two-pass sweep over a `w` x `h` field, in order.
pub open spec fn sweep_steps(w: int, h: int) -> Seq<(int, int)> {
    down_rows(w, h) + up_rows(w, h, h)
}

/// The cells after the two-pass sweep.
pub open spec fn swept(cells: Seq<Cell>, w: int, h: int) -> Seq<Cell> {
    apply_steps(cells, sweep_steps(w, h))
}

proof fn lemma_apply_push(cells: Seq<Cell>, steps: Seq<(int, int)>, p: (int, int))
    ensures
        apply_steps(cells, steps.push(p)) == compare_step(apply_steps(cells, steps), p),
{
    assert(steps.push(p).drop_last() =~= steps);
}

proof fn lemma_apply_extend(cells: Seq<Cell>, pre: Seq<(int, int)>, done: Seq<(int, int)>, p: (int, int))
    ensures
        apply_steps(cells, pre + done.push(p)) == compare_step(apply_steps(cells, pre + done), p),
{
    assert((pre + done).push(p) =~= pre + done.push(p));
    lemma_apply_push(cells, pre + done, p);
}

pub proof fn lemma_apply_concat(cells: Seq<Cell>, a: Seq<(int, int)>, b: Seq<(int, int)>)
    ensures
        apply_steps(cells, a + b) == apply_steps(apply_steps(cells, a), b),
    decreases b.len(),
{
    if b.len() == 0 {
        assert(a + b =~= a);
    } else {
        lemma_apply_concat(cells, a, b.drop_last());
        assert((a + b).drop_last() =~= a + b.drop_last());
        assert((a + b).last() == b.last());
    }
}

proof fn lemma_step_keeps_cells(cells: Seq<Cell>, step: (int, int))
    requires
        indexed(cells),
        references_valid(cells),
    ensures
        same_cells(cells, compare_step(cells, step)),
        indexed(compare_step(cells, step)),
        references_valid(compare_step(cells, step)),
{
    let next = compare_step(cells, step);
    assert(same_cells(cells, next));
    assert forall|i: int| 0 <= i < next.len() implies match #[trigger] next[i].nearest_cell_position {
        None => true,
        Some(p) => p.index < next.len() && next[p.index as int].x == p.x && next[p.index as int].y == p.y
            && next[p.index as int].layer != next[i].layer,
    } by {
        let (t, s) = step;
        if 0 <= t < cells.len() && 0 <= s < cells.len() && i == t {
            if cells[t].layer != cells[s].layer {
                assert(cells[s].index == s);
            }
        }
    }
    assert forall|i: int| 0 <= i < next.len() implies #[trigger] next[i].index == i by {
        assert(cells[i].index == i);
    }
}

pub proof fn lemma_apply_keeps_cells(cells: Seq<Cell>, steps: Seq<(int, int)>)
    requires
        indexed(cells),
        references_valid(cells),
    ensures
        same_cells(cells, apply_steps(cells, steps)),
        indexed(apply_steps(cells, steps)),
        references_valid(apply_steps(cells, steps)),
    decreases steps.len(),
{
    if steps.len() > 0 {
        let prev = apply_steps(cells, steps.drop_last());
        lemma_apply_keeps_cells(cells, steps.drop_last());
        lemma_step_keeps_cells(prev, steps.last());
        let next = apply_steps(cells, steps);
        assert forall|i: int| 0 <= i < cells.len() implies #[trigger] next[i].layer == cells[i].layer
            && next[i].index == cells[i].index && next[i].x == cells[i].x && next[i].y == cells[i].y by {
            assert(prev[i].layer == cells[i].layer);
            assert(next[i].layer == prev[i].layer);
        }
    }
}

pub proof fn lemma_initial_cells(bits: Seq<bool>, w: int)
    requires
        w > 0,
        bits.len() <= 65535 * 65535,
    ensures
        indexed(initial_cells(bits, w)),
        references_valid(initial_cells(bits, w)),
{
    let cells = initial_cells(bits, w);
    assert forall|i: int| 0 <= i < cells.len() implies #[trigger] cells[i].index == i by {
        assert(i as u32 == i);
    }
}

proof fn lemma_row_fits(y: int, w: int, h: int)
    requires
        0 <= y < h,
        0 < w,
    ensures
        y * w + w <= w * h,
        0 <= y * w,
        (y + 1) * w == y * w + w,
        y > 0 ==> y * w >= w,
{
    assert(y * w + w <= w * h && 0 <= y * w && (y + 1) * w == y * w + w && (y > 0 ==> y * w >= w))
        by (nonlinear_arith)
        requires
            0 <= y < h,
            0 < w,
    ;
}

proof fn lemma_field_size(w: int, h: int)
    requires
        0 < w <= 65535,
        0 < h <= 65535,
    ensures
        0 < w * h <= 65535 * 65535,
{
    assert(0 < w * h <= 65535 * 65535) by (nonlinear_arith)
        requires
            0 < w <= 65535,
            0 < h <= 65535,
    ;
}

/// Compare the target cell with a source cell and update the target's reference.
fn compare_cells(buffer: &mut Vec<Cell>, target_index: usize, source_index: usize)
    requires
        target_index < old(buffer).len(),
        source_index < old(buffer).len(),
    ensures
        final(buffer)@ == compare_step(old(buffer)@, (target_index as int, source_index as int)),
{
    let target = buffer[target_index];
    let source = buffer[source_index];
    let mut nearest: Option<CellPosition> = target.nearest_cell_position;
    if target.layer != source.layer {
        nearest = Some(CellPosition { x: source.x, y: source.y, index: source.index });
    } else {
        match target.distance_to_nearest_squared() {
            None => {
                nearest = source.nearest_cell_position;
            },
            Some(existing) => {
                if let Some(sn) = source.nearest_cell_position {
                    let d = Cell::get_distance_squared(&target.x, &target.y, &sn.x, &sn.y);
                    if d < existing {
                        nearest = Some(sn);
                    }
                }
            },
        }
    }
    let updated = Cell { nearest_cell_position: nearest, ..target };
    assert(updated == with_nearest(target, compared_nearest(target, source)));
    buffer.set(target_index, updated);
}

/// Cell `i` references a cell of the other layer that is one of its eight neighbours.
pub open spec fn boundary_referenced(cells: Seq<Cell>, i: int) -> bool {
    match cells[i].nearest_cell_position {
        None => false,
        Some(p) => 0 <= p.index < cells.len() && adjacent(cells[i], cells[p.index as int])
            && cells[p.index as int].layer != cells[i].layer,
    }
}

/// The cells of a `width` x `height` occupancy grid, none with a reference yet.
fn init_buffer_for_distance_field(data: &Vec<bool>, width: u16, height: u16) -> (r: Vec<Cell>)
    requires
        valid_dimensions(width as int, height as int, data.len() as int),
    ensures
        r@ == initial_cells(data@, width as int),
{
    let w = width as usize;
    let h = height as usize;
    proof {
        lemma_field_size(w as int, h as int);
    }
    let mut cells: Vec<Cell> = Vec::new();
    let mut y: usize = 0;
    let mut row: usize = 0;
    while y < h
        invariant
            0 < w <= 65535,
            0 < h <= 65535,
            data.len() == w * h,
            y <= h,
            row == y * w,
            cells.len() == row,
            forall|k: int| 0 <= k < row ==> #[trigger] cells@[k] == initial_cells(data@, w as int)[k],
        decreases h - y,
    {
        proof {
            lemma_row_fits(y as int, w as int, h as int);
        }
        let mut x: usize = 0;
        while x < w
            invariant
                0 < w <= 65535,
                0 < h <= 65535,
                data.len() == w * h,
                y < h,
                x <= w,
                row == y * w,
                row + w <= w * h,
                cells.len() == row + x,
                forall|k: int| 0 <= k < row + x ==> #[trigger] cells@[k] == initial_cells(data@, w as int)[k],
            decreases w - x,
        {
            let i = row + x;
            let layer = if data[i] {
                CellLayer::Foreground
            } else {
                CellLayer::Background
            };
            proof {
                vstd::arithmetic::div_mod::lemma_fundamental_div_mod_converse_mod(i as int, w as int, y as int, x as int);
                vstd::arithmetic::div_mod::lemma_fundamental_div_mod_converse_div(i as int, w as int, y as int, x as int);
                assert(y * w + x == i);
            }
            cells.push(Cell::new(layer, i as u32, x as u16, y as u16));
            x += 1;
        }
        y += 1;
        row += w;
    }
    proof {
        assert(row == w * h) by (nonlinear_arith)
            requires
                row == y * w,
                y == h,
        ;
        assert(cells@ =~= initial_cells(data@, w as int));
    }
    cells
}

/// The two-pass eight-neighbour sweep over the cells of a field.
pub struct EightSideSweepProcessor;

impl EightSideSweepProcessor {
    /// Down pass: rows top to bottom; each row is scanned left to right against
    /// the left, top, top-left and top-right neighbours that exist, then right
    /// to left against the right neighbour.
    fn sweep_buffer_down(&self, buffer: &mut Vec<Cell>, field_width: u16, field_height: u16)
        requires
            old(buffer).len() == field_width as int * field_height as int,
            field_width > 0,
            field_height > 0,
        ensures
            final(buffer).len() == old(buffer).len(),
            final(buffer)@ == apply_steps(old(buffer)@, down_rows(field_width as int, field_height as int)),
    {
        let w = field_width as usize;
        let h = field_height as usize;
        let ghost init = buffer@;
        proof {
            lemma_field_size(w as int, h as int);
        }
        let mut y: usize = 0;
        let mut row: usize = 0;
        while y < h
            invariant
                0 < w <= 65535,
                0 < h <= 65535,
                y <= h,
                row == y * w,
                buffer.len() == w * h,
                buffer@ == apply_steps(init, down_rows(w as int, y as int)),
            decreases h - y,
        {
            proof {
                lemma_row_fits(y as int, w as int, h as int);
            }
            let mut x: usize = 0;
            while x < w
                invariant
                    0 < w <= 65535,
                    0 < h <= 65535,
                    y < h,
                    x <= w,
                    row == y * w,
                    row + w <= w * h,
                    y > 0 ==> row >= w,
                    buffer.len() == w * h,
                    buffer@ == apply_steps(init, down_rows(w as int, y as int) + down_scan(w as int, y as int, x as int)),
                decreases w - x,
            {
                let i = row + x;
                let ghost pre = down_rows(w as int, y as int) + down_scan(w as int, y as int, x as int);
                let ghost mut done: Seq<(int, int)> = seq![];
                if x > 0 {
                    compare_cells(buffer, i, i - 1);
                    proof {
                        lemma_apply_extend(init, pre, done, (i as int, i - 1));
                        done = done.push((i as int, i - 1));
                    }
                }
                if y > 0 {
                    compare_cells(buffer, i, i - w);
                    proof {
                        lemma_apply_extend(init, pre, done, (i as int, i - w));
                        done = done.push((i as int, i - w));
                    }
                    if x > 0 {
                        compare_cells(buffer, i, i - w - 1);
                        proof {
                            lemma_apply_extend(init, pre, done, (i as int, i - w - 1));
                            done = done.push((i as int, i - w - 1));
                        }
                    }
                    if x + 1 < w {
                        compare_cells(buffer, i, i - w + 1);
                        proof {
                            lemma_apply_extend(init, pre, done, (i as int, i - w + 1));
                            done = done.push((i as int, i - w + 1));
                        }
                    }
                }
                proof {
                    assert(done =~= down_cell_steps(w as int, y as int, x as int));
                    assert(pre + done =~= down_rows(w as int, y as int) + down_scan(w as int, y as int, x + 1));
                }
                x += 1;
            }
            let mut k: usize = 0;
            while k + 1 < w
                invariant
                    0 < w <= 65535,
                    0 < h <= 65535,
                    y < h,
                    k < w,
                    row == y * w,
                    row + w <= w * h,
                    buffer.len() == w * h,
                    buffer@ == apply_steps(
                        init,
                        down_rows(w as int, y as int) + down_scan(w as int, y as int, w as int) + right_scan(w as int, y as int, k as int),
                    ),
                decreases w - k,
            {
                let i = row + (w - 2 - k);
                compare_cells(buffer, i, i + 1);
                proof {
                    let pre = down_rows(w as int, y as int) + down_scan(w as int, y as int, w as int);
                    lemma_apply_extend(init, pre, right_scan(w as int, y as int, k as int), (i as int, i + 1));
                    assert(right_scan(w as int, y as int, k + 1) =~= right_scan(w as int, y as int, k as int).push((i as int, i + 1)));
                }
                k += 1;
            }
            proof {
                assert(down_rows(w as int, y + 1) == down_rows(w as int, y as int) + down_scan(w as int, y as int, w as int)
                    + right_scan(w as int, y as int, w - 1));
            }
            y += 1;
            row += w;
        }
    }

    /// Up pass: rows bottom to top; each row is scanned right to left against
    /// the right, bottom, bottom-right and bottom-left neighbours that exist,
    /// then left to right against the left neighbour.
    fn sweep_buffer_up(&self, buffer: &mut Vec<Cell>, field_width: u16, field_height: u16)
        requires
            old(buffer).len() == field_width as int * field_height as int,
            field_width > 0,
            field_height > 0,
        ensures
            final(buffer)@ == apply_steps(
                old(buffer)@,
                up_rows(field_width as int, field_height as int, field_height as int),
            ),
    {
        let w = field_width as usize;
        let h = field_height as usize;
        let ghost init = buffer@;
        proof {
            lemma_field_size(w as int, h as int);
        }
        let mut k: usize = 0;
        while k < h
            invariant
                0 < w <= 65535,
                0 < h <= 65535,
                k <= h,
                buffer.len() == w * h,
                buffer@ == apply_steps(init, up_rows(w as int, h as int, k as int)),
            decreases h - k,
        {
            let y = h - 1 - k;
            proof {
                lemma_row_fits(y as int, w as int, h as int);
                if y + 1 < h {
                    lemma_row_fits(y + 1, w as int, h as int);
                }
            }
            let row = y * w;
            let mut j: usize = 0;
            while j < w
                invariant
                    0 < w <= 65535,
                    0 < h <= 65535,
                    y < h,
                    j <= w,
                    row == y * w,
                    row + w <= w * h,
                    y + 1 < h ==> row + w + w <= w * h,
                    buffer.len() == w * h,
                    buffer@ == apply_steps(
                        init,
                        up_rows(w as int, h as int, k as int) + up_scan(w as int, h as int, y as int, j as int),
                    ),
                decreases w - j,
            {
                let x = w - 1 - j;
                let i = row + x;
                let ghost pre = up_rows(w as int, h as int, k as int) + up_scan(w as int, h as int, y as int, j as int);
                let ghost mut done: Seq<(int, int)> = seq![];
                if x + 1 < w {
                    compare_cells(buffer, i, i + 1);
                    proof {
                        lemma_apply_extend(init, pre, done, (i as int, i + 1));
                        done = done.push((i as int, i + 1));
                    }
                }
                if y + 1 < h {
                    compare_cells(buffer, i, i + w);
                    proof {
                        lemma_apply_extend(init, pre, done, (i as int, i + w));
                        done = done.push((i as int, i + w));
                    }
                    if x + 1 < w {
                        compare_cells(buffer, i, i + w + 1);
                        proof {
                            lemma_apply_extend(init, pre, done, (i as int, i + w + 1));
                            done = done.push((i as int, i + w + 1));
                        }
                    }
                    if x > 0 {
                        compare_cells(buffer, i, i + w - 1);
                        proof {
                            lemma_apply_extend(init, pre, done, (i as int, i + w - 1));
                            done = done.push((i as int, i + w - 1));
                        }
                    }
                }
                proof {
                    assert(done =~= up_cell_steps(w as int, h as int, y as int, x as int));
                    assert(pre + done =~= up_rows(w as int, h as int, k as int) + up_scan(
                        w as int,
                        h as int,
                        y as int,
                        j + 1,
                    ));
                }
                j += 1;
            }
            let mut x: usize = 1;
            while x < w
                invariant
                    0 < w <= 65535,
                    0 < h <= 65535,
                    y < h,
                    1 <= x <= w,
                    row == y * w,
                    row + w <= w * h,
                    buffer.len() == w * h,
                    buffer@ == apply_steps(
                        init,
                        up_rows(w as int, h as int, k as int) + up_scan(w as int, h as int, y as int, w as int)
                            + left_scan(w as int, y as int, x as int),
                    ),
                decreases w - x,
            {
                let i = row + x;
                compare_cells(buffer, i, i - 1);
                proof {
                    let pre = up_rows(w as int, h as int, k as int) + up_scan(w as int, h as int, y as int, w as int);
                    lemma_apply_extend(init, pre, left_scan(w as int, y as int, x as int), (i as int, i - 1));
                    assert(left_scan(w as int, y as int, x + 1) =~= left_scan(w as int, y as int, x as int).push(
                        (i as int, i - 1),
                    ));
                }
                x += 1;
            }
            proof {
                assert(up_rows(w as int, h as int, k + 1) == up_rows(w as int, h as int, k as int) + up_scan(
                    w as int,
                    h as int,
                    y as int,
                    w as int,
                ) + left_scan(w as int, y as int, w as int));
            }
            k += 1;
        }
    }

    /// The swept cells of a `width` x `height` occupancy grid.
    fn sweep_occupancy(&self, data: &Vec<bool>, width: u16, height: u16) -> (r: Vec<Cell>)
        requires
            valid_dimensions(width as int, height as int, data.len() as int),
        ensures
            r@ == swept(initial_cells(data@, width as int), width as int, height as int),
            same_cells(initial_cells(data@, width as int), r@),
            indexed(r@),
            laid_out(r@, width as int),
            references_valid(r@),
            one_layer(initial_cells(data@, width as int)) ==> no_references(r@),
            forall|i: int, j: int|
                0 <= i < data@.len() && 0 <= j < data@.len() && adjacent(
                    #[trigger] initial_cells(data@, width as int)[i],
                    #[trigger] initial_cells(data@, width as int)[j],
                ) && data@[i] != data@[j] ==> boundary_referenced(r@, i),
    {
        proof {
            lemma_field_size(width as int, height as int);
        }
        let mut buffer = init_buffer_for_distance_field(data, width, height);
        self.sweep_buffer(&mut buffer, width, height);
        proof {
            let init = initial_cells(data@, width as int);
            lemma_initial_cells(data@, width as int);
            lemma_apply_keeps_cells(init, sweep_steps(width as int, height as int));
            lemma_initial_laid_out(data@, width as int, height as int);
            lemma_apply_keeps_layout(init, width as int, sweep_steps(width as int, height as int));
            if one_layer(init) {
                assert(one_layer(buffer@)) by {
                    assert forall|i: int, j: int| 0 <= i < buffer@.len() && 0 <= j < buffer@.len() implies
                        #[trigger] buffer@[i].layer == #[trigger] buffer@[j].layer by {
                        assert(buffer@[i].layer == init[i].layer);
                        assert(buffer@[j].layer == init[j].layer);
                    }
                }
                lemma_one_layer_has_no_references(buffer@);
            }
            assert forall|i: int, j: int|
                0 <= i < data@.len() && 0 <= j < data@.len() && adjacent(
                    #[trigger] initial_cells(data@, width as int)[i],
                    #[trigger] initial_cells(data@, width as int)[j],
                ) && data@[i] != data@[j] implies boundary_referenced(buffer@, i) by {
                lemma_boundary_cells_reference_a_neighbour(data@, width as int, height as int, i, j);
            }
        }
        buffer
    }

    /// The two passes, down then up.
    fn sweep_buffer(&self, buffer: &mut Vec<Cell>, field_width: u16, field_height: u16)
        requires
            old(buffer).len() == field_width as int * field_height as int,
            field_width > 0,
            field_height > 0,
        ensures
            final(buffer)@ == swept(old(buffer)@, field_width as int, field_height as int),
    {
        let ghost init = buffer@;
        self.sweep_buffer_down(buffer, field_width, field_height);
        self.sweep_buffer_up(buffer, field_width, field_height);
        proof {
            lemma_apply_concat(
                init,
                down_rows(field_width as int, field_height as int),
                up_rows(field_width as int, field_height as int, field_height as int),
            );
        }
    }
}

impl EightSideSweepProcessor {
    /// The distance field of an input field: its cells, swept.
    pub fn process(&self, field: &InputField) -> (r: DistanceField)
        requires
            field.wf(),
        ensures
            r.width == field.width,
            r.height == field.height,
            r.wf(),
            r.data@ == swept(initial_cells(field.bits(), field.width as int), field.width as int, field.height as int),
            same_cells(initial_cells(field.bits(), field.width as int), r.data@),
            references_valid(r.data@),
            one_layer(initial_cells(field.bits(), field.width as int)) ==> no_references(r.data@),
            forall|i: int, j: int|
                0 <= i < field.bits().len() && 0 <= j < field.bits().len() && adjacent(
                    #[trigger] initial_cells(field.bits(), field.width as int)[i],
                    #[trigger] initial_cells(field.bits(), field.width as int)[j],
                ) && field.bits()[i] != field.bits()[j] ==> boundary_referenced(r.data@, i),
    {
        let bits = field.to_booleans();
        let cells = self.sweep_occupancy(&bits, field.width, field.height);
        DistanceField { data: cells, width: field.width, height: field.height }
    }
}

impl DistanceField {
    /// The cells of an input field before sweeping: each with its layer, its
    /// coordinates and its row-major index, and no nearest cell.
    pub fn new(source: &InputField) -> (r: Self)
        requires
            source.wf(),
        ensures
            r.width == source.width,
            r.height == source.height,
            r.wf(),
            r.data@ == initial_cells(source.bits(), source.width as int),
    {
        let bits = source.to_booleans();
        let cells = init_buffer_for_distance_field(&bits, source.width, source.height);
        proof {
            lemma_field_size(source.width as int, source.height as int);
            lemma_initial_cells(bits@, source.width as int);
            lemma_initial_laid_out(bits@, source.width as int, source.height as int);
        }
        DistanceField { data: cells, width: source.width, height: source.height }
    }
}

/// Builds a distance field from an input field with a processor.
pub struct DistanceFieldBuilder {
    pub input: InputField,
}

impl DistanceFieldBuilder {
    pub fn new(input: InputField) -> (r: Self)
        ensures
            r.input == input,
    {
        DistanceFieldBuilder { input }
    }

    /// The distance field of the input, computed by the processor.
    pub fn build(self, processor: EightSideSweepProcessor) -> (r: DistanceField)
        requires
            self.input.wf(),
        ensures
            r.wf(),
            r.width == self.input.width,
            r.height == self.input.height,
            r.data@ == swept(
                initial_cells(self.input.bits(), self.input.width as int),
                self.input.width as int,
                self.input.height as int,
            ),
    {
        processor.process(&self.input)
    }
}

/// Generate the distance field of a grid: build its cells and sweep them.
pub fn generate_df(field: &SourceField) -> (r: DistanceField)
    requires
        field.wf(),
    ensures
        r.width == field.width,
        r.height == field.height,
        r.wf(),
        r.data@ == swept(initial_cells(field.data@, field.width as int), field.width as int, field.height as int),
        same_cells(initial_cells(field.data@, field.width as int), r.data@),
        references_valid(r.data@),
        one_layer(initial_cells(field.data@, field.width as int)) ==> no_references(r.data@),
        forall|i: int, j: int|
            0 <= i < field.data@.len() && 0 <= j < field.data@.len() && adjacent(
                #[trigger] initial_cells(field.data@, field.width as int)[i],
                #[trigger] initial_cells(field.data@, field.width as int)[j],
            ) && field.data@[i] != field.data@[j] ==> boundary_referenced(r.data@, i),
{
    let processor = EightSideSweepProcessor;
    let cells = processor.sweep_occupancy(&field.data, field.width, field.height);
    DistanceField { data: cells, width: field.width, height: field.height }
}

} // verus!
