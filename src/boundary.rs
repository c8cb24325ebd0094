use vstd::prelude::*;
use vstd::arithmetic::div_mod::{lemma_fundamental_div_mod_converse_div, lemma_fundamental_div_mod_converse_mod};
use crate::cell::{
    Cell, laid_out, one_layer, no_references, lemma_one_layer_has_no_references, dist2_to, position_of, initial_cells, indexed, references_valid,
};
use crate::input::valid_dimensions;
use crate::sweep::{
    compare_step, apply_steps, lemma_apply_concat, lemma_apply_keeps_cells,
    lemma_initial_cells, boundary_referenced, sweep_steps, swept, down_rows, down_scan, down_cell_steps, right_scan, up_rows,
    up_scan, up_cell_steps, left_scan, step_if,
};

verus! {

/// Two cells at distinct positions that differ by at most one in each coordinate.
pub open spec fn adjacent(a: Cell, b: Cell) -> bool {
    (a.x != b.x || a.y != b.y) && -1 <= a.x - b.x <= 1 && -1 <= a.y - b.y <= 1
}

/// A cell that references a cell at squared distance at most 2.
pub open spec fn settled(cells: Seq<Cell>, i: int) -> bool {
    match cells[i].nearest_cell_position {
        None => false,
        Some(p) => dist2_to(cells[i], p) <= 2,
    }
}

/// A step comparing two cells of an `n`-cell field `w` wide that are at most
/// one column and one row apart.
pub open spec fn neighbour_step(w: int, n: int, step: (int, int)) -> bool {
    let (t, s) = step;
    0 <= t < n && 0 <= s < n && -1 <= t % w - s % w <= 1 && -1 <= t / w - s / w <= 1
}

pub open spec fn neighbour_steps(w: int, n: int, steps: Seq<(int, int)>) -> bool {
    forall|k: int| 0 <= k < steps.len() ==> neighbour_step(w, n, #[trigger] steps[k])
}

proof fn lemma_small_square(d: int)
    requires
        -1 <= d <= 1,
    ensures
        d * d <= 1,
        d * d == 0 ==> d == 0,
{
    assert(d * d <= 1 && (d * d == 0 ==> d == 0)) by (nonlinear_arith)
        requires
            -1 <= d <= 1,
    ;
}

proof fn lemma_near_square(d: int)
    requires
        d * d <= 2,
    ensures
        -1 <= d <= 1,
{
    assert(-1 <= d <= 1) by (nonlinear_arith)
        requires
            d * d <= 2,
    ;
}

proof fn lemma_step_settles(cells: Seq<Cell>, w: int, step: (int, int))
    requires
        w > 0,
        indexed(cells),
        references_valid(cells),
        laid_out(cells, w),
        neighbour_step(w, cells.len() as int, step),
    ensures
        forall|i: int| 0 <= i < cells.len() && settled(cells, i) ==> settled(compare_step(cells, step), i),
        cells[step.0].layer != cells[step.1].layer ==> settled(compare_step(cells, step), step.0),
{
    let (t, s) = step;
    let next = compare_step(cells, step);
    if cells[t].layer != cells[s].layer {
        let dx = t % w - s % w;
        let dy = t / w - s / w;
        lemma_small_square(dx);
        lemma_small_square(dy);
        assert(cells[t].x == t % w && cells[s].x == s % w);
        assert(cells[t].y == t / w && cells[s].y == s / w);
        assert(dist2_to(cells[t], position_of(cells[s])) == dx * dx + dy * dy);
    }
}

proof fn lemma_apply_settles(cells: Seq<Cell>, w: int, steps: Seq<(int, int)>, i: int)
    requires
        w > 0,
        indexed(cells),
        references_valid(cells),
        laid_out(cells, w),
        neighbour_steps(w, cells.len() as int, steps),
        0 <= i < cells.len(),
        settled(cells, i),
    ensures
        settled(apply_steps(cells, steps), i),
    decreases steps.len(),
{
    if steps.len() > 0 {
        let d = steps.drop_last();
        assert(neighbour_steps(w, cells.len() as int, d)) by {
            assert forall|k: int| 0 <= k < d.len() implies neighbour_step(w, cells.len() as int, #[trigger] d[k]) by {
                assert(d[k] == steps[k]);
            }
        }
        lemma_apply_settles(cells, w, d, i);
        let prev = apply_steps(cells, d);
        lemma_apply_keeps_cells(cells, d);
        assert(laid_out(prev, w)) by {
            assert forall|j: int| 0 <= j < prev.len() implies #[trigger] prev[j].x == j % w && prev[j].y == j / w by {
                assert(prev[j].layer == cells[j].layer);
                assert(cells[j].x == j % w);
            }
        }
        assert(neighbour_step(w, cells.len() as int, steps[steps.len() - 1]));
        lemma_step_settles(prev, w, steps.last());
    }
}

proof fn lemma_coords(w: int, q: int, r: int)
    requires
        w > 0,
        0 <= r < w,
    ensures
        (q * w + r) % w == r,
        (q * w + r) / w == q,
{
    lemma_fundamental_div_mod_converse_mod(q * w + r, w, q, r);
    lemma_fundamental_div_mod_converse_div(q * w + r, w, q, r);
}

proof fn lemma_shift_row(w: int, y: int)
    ensures
        (y - 1) * w == y * w - w,
        (y + 1) * w == y * w + w,
{
    assert((y - 1) * w == y * w - w && (y + 1) * w == y * w + w) by (nonlinear_arith);
}

proof fn lemma_index_bound(w: int, h: int, y: int, x: int)
    requires
        0 < w,
        0 <= y < h,
        0 <= x < w,
    ensures
        0 <= y * w + x < w * h,
{
    assert(0 <= y * w + x < w * h) by (nonlinear_arith)
        requires
            0 < w,
            0 <= y < h,
            0 <= x < w,
    ;
}

proof fn lemma_neighbour_pair(w: int, h: int, y: int, x: int, dy: int, dx: int)
    requires
        0 < w,
        0 <= y < h,
        0 <= x < w,
        0 <= y + dy < h,
        0 <= x + dx < w,
        -1 <= dy <= 1,
        -1 <= dx <= 1,
    ensures
        neighbour_step(w, w * h, (y * w + x, (y + dy) * w + (x + dx))),
{
    lemma_coords(w, y, x);
    lemma_coords(w, y + dy, x + dx);
    lemma_index_bound(w, h, y, x);
    lemma_index_bound(w, h, y + dy, x + dx);
}

proof fn lemma_nb_concat(w: int, n: int, a: Seq<(int, int)>, b: Seq<(int, int)>)
    requires
        neighbour_steps(w, n, a),
        neighbour_steps(w, n, b),
    ensures
        neighbour_steps(w, n, a + b),
{
    assert forall|k: int| 0 <= k < (a + b).len() implies neighbour_step(w, n, #[trigger] (a + b)[k]) by {
        if k < a.len() {
            assert((a + b)[k] == a[k]);
        } else {
            assert((a + b)[k] == b[k - a.len()]);
        }
    }
}

proof fn lemma_nb_step_if(w: int, n: int, c: bool, t: int, s: int)
    requires
        c ==> neighbour_step(w, n, (t, s)),
    ensures
        neighbour_steps(w, n, step_if(c, t, s)),
{
}

proof fn lemma_down_cell_nb(w: int, h: int, y: int, x: int)
    requires
        0 < w,
        0 <= y < h,
        0 <= x < w,
    ensures
        neighbour_steps(w, w * h, down_cell_steps(w, y, x)),
{
    let n = w * h;
    let i = y * w + x;
    lemma_shift_row(w, y);
    if x > 0 {
        lemma_neighbour_pair(w, h, y, x, 0, -1);
    }
    lemma_nb_step_if(w, n, x > 0, i, i - 1);
    if y > 0 {
        lemma_neighbour_pair(w, h, y, x, -1, 0);
        if x > 0 {
            lemma_neighbour_pair(w, h, y, x, -1, -1);
        }
        if x + 1 < w {
            lemma_neighbour_pair(w, h, y, x, -1, 1);
        }
        lemma_nb_step_if(w, n, true, i, i - w);
        lemma_nb_step_if(w, n, x > 0, i, i - w - 1);
        lemma_nb_step_if(w, n, x + 1 < w, i, i - w + 1);
        assert(seq![(i, i - w)] == step_if(true, i, i - w));
        lemma_nb_concat(w, n, step_if(x > 0, i, i - 1), seq![(i, i - w)]);
        lemma_nb_concat(w, n, step_if(x > 0, i, i - 1) + seq![(i, i - w)], step_if(x > 0, i, i - w - 1));
        lemma_nb_concat(
            w,
            n,
            step_if(x > 0, i, i - 1) + seq![(i, i - w)] + step_if(x > 0, i, i - w - 1),
            step_if(x + 1 < w, i, i - w + 1),
        );
    }
}

proof fn lemma_up_cell_nb(w: int, h: int, y: int, x: int)
    requires
        0 < w,
        0 <= y < h,
        0 <= x < w,
    ensures
        neighbour_steps(w, w * h, up_cell_steps(w, h, y, x)),
{
    let n = w * h;
    let i = y * w + x;
    lemma_shift_row(w, y);
    if x + 1 < w {
        lemma_neighbour_pair(w, h, y, x, 0, 1);
    }
    lemma_nb_step_if(w, n, x + 1 < w, i, i + 1);
    if y != h - 1 {
        lemma_neighbour_pair(w, h, y, x, 1, 0);
        if x + 1 < w {
            lemma_neighbour_pair(w, h, y, x, 1, 1);
        }
        if x > 0 {
            lemma_neighbour_pair(w, h, y, x, 1, -1);
        }
        lemma_nb_step_if(w, n, true, i, i + w);
        lemma_nb_step_if(w, n, x + 1 < w, i, i + w + 1);
        lemma_nb_step_if(w, n, x > 0, i, i + w - 1);
        assert(seq![(i, i + w)] == step_if(true, i, i + w));
        lemma_nb_concat(w, n, step_if(x + 1 < w, i, i + 1), seq![(i, i + w)]);
        lemma_nb_concat(w, n, step_if(x + 1 < w, i, i + 1) + seq![(i, i + w)], step_if(x + 1 < w, i, i + w + 1));
        lemma_nb_concat(
            w,
            n,
            step_if(x + 1 < w, i, i + 1) + seq![(i, i + w)] + step_if(x + 1 < w, i, i + w + 1),
            step_if(x > 0, i, i + w - 1),
        );
    }
}

proof fn lemma_down_scan_nb(w: int, h: int, y: int, x: int)
    requires
        0 < w,
        0 <= y < h,
        x <= w,
    ensures
        neighbour_steps(w, w * h, down_scan(w, y, x)),
    decreases x,
{
    if x > 0 {
        lemma_down_scan_nb(w, h, y, x - 1);
        lemma_down_cell_nb(w, h, y, x - 1);
        lemma_nb_concat(w, w * h, down_scan(w, y, x - 1), down_cell_steps(w, y, x - 1));
    }
}

proof fn lemma_right_scan_nb(w: int, h: int, y: int, k: int)
    requires
        0 < w,
        0 <= y < h,
        k <= w - 1,
    ensures
        neighbour_steps(w, w * h, right_scan(w, y, k)),
    decreases k,
{
    if k > 0 {
        lemma_right_scan_nb(w, h, y, k - 1);
        lemma_neighbour_pair(w, h, y, w - 1 - k, 0, 1);
        lemma_nb_step_if(w, w * h, true, y * w + (w - 1 - k), y * w + (w - k));
        assert(seq![(y * w + (w - 1 - k), y * w + (w - k))] == step_if(true, y * w + (w - 1 - k), y * w + (w - k)));
        lemma_nb_concat(w, w * h, right_scan(w, y, k - 1), seq![(y * w + (w - 1 - k), y * w + (w - k))]);
    }
}

proof fn lemma_up_scan_nb(w: int, h: int, y: int, k: int)
    requires
        0 < w,
        0 <= y < h,
        k <= w,
    ensures
        neighbour_steps(w, w * h, up_scan(w, h, y, k)),
    decreases k,
{
    if k > 0 {
        lemma_up_scan_nb(w, h, y, k - 1);
        lemma_up_cell_nb(w, h, y, w - k);
        lemma_nb_concat(w, w * h, up_scan(w, h, y, k - 1), up_cell_steps(w, h, y, w - k));
    }
}

proof fn lemma_left_scan_nb(w: int, h: int, y: int, x: int)
    requires
        0 < w,
        0 <= y < h,
        x <= w,
    ensures
        neighbour_steps(w, w * h, left_scan(w, y, x)),
    decreases x,
{
    if x > 1 {
        lemma_left_scan_nb(w, h, y, x - 1);
        lemma_neighbour_pair(w, h, y, x - 1, 0, -1);
        lemma_nb_step_if(w, w * h, true, y * w + x - 1, y * w + x - 2);
        assert(seq![(y * w + x - 1, y * w + x - 2)] == step_if(true, y * w + x - 1, y * w + x - 2));
        lemma_nb_concat(w, w * h, left_scan(w, y, x - 1), seq![(y * w + x - 1, y * w + x - 2)]);
    }
}

proof fn lemma_down_rows_nb(w: int, h: int, y: int)
    requires
        0 < w,
        y <= h,
    ensures
        neighbour_steps(w, w * h, down_rows(w, y)),
    decreases y,
{
    if y > 0 {
        lemma_down_rows_nb(w, h, y - 1);
        lemma_down_scan_nb(w, h, y - 1, w);
        lemma_right_scan_nb(w, h, y - 1, w - 1);
        lemma_nb_concat(w, w * h, down_rows(w, y - 1), down_scan(w, y - 1, w));
        lemma_nb_concat(w, w * h, down_rows(w, y - 1) + down_scan(w, y - 1, w), right_scan(w, y - 1, w - 1));
    }
}

proof fn lemma_up_rows_nb(w: int, h: int, k: int)
    requires
        0 < w,
        k <= h,
    ensures
        neighbour_steps(w, w * h, up_rows(w, h, k)),
    decreases k,
{
    if k > 0 {
        lemma_up_rows_nb(w, h, k - 1);
        lemma_up_scan_nb(w, h, h - k, w);
        lemma_left_scan_nb(w, h, h - k, w);
        lemma_nb_concat(w, w * h, up_rows(w, h, k - 1), up_scan(w, h, h - k, w));
        lemma_nb_concat(w, w * h, up_rows(w, h, k - 1) + up_scan(w, h, h - k, w), left_scan(w, h - k, w));
    }
}

proof fn lemma_sweep_nb(w: int, h: int)
    requires
        0 < w,
        0 < h,
    ensures
        neighbour_steps(w, w * h, sweep_steps(w, h)),
{
    lemma_down_rows_nb(w, h, h);
    lemma_up_rows_nb(w, h, h);
    lemma_nb_concat(w, w * h, down_rows(w, h), up_rows(w, h, h));
}

proof fn lemma_has_left(a: Seq<(int, int)>, b: Seq<(int, int)>, p: (int, int))
    requires
        a.contains(p),
    ensures
        (a + b).contains(p),
{
    let k = choose|k: int| 0 <= k < a.len() && a[k] == p;
    assert((a + b)[k] == p);
}

proof fn lemma_has_right(a: Seq<(int, int)>, b: Seq<(int, int)>, p: (int, int))
    requires
        b.contains(p),
    ensures
        (a + b).contains(p),
{
    let k = choose|k: int| 0 <= k < b.len() && b[k] == p;
    assert((a + b)[a.len() + k] == p);
}

proof fn lemma_has_step_if(t: int, s: int)
    ensures
        step_if(true, t, s).contains((t, s)),
{
    assert(step_if(true, t, s)[0] == (t, s));
}

proof fn lemma_down_scan_has(w: int, y: int, x: int, x2: int, p: (int, int))
    requires
        0 <= x < x2,
        down_cell_steps(w, y, x).contains(p),
    ensures
        down_scan(w, y, x2).contains(p),
    decreases x2,
{
    if x2 == x + 1 {
        lemma_has_right(down_scan(w, y, x), down_cell_steps(w, y, x), p);
    } else {
        lemma_down_scan_has(w, y, x, x2 - 1, p);
        lemma_has_left(down_scan(w, y, x2 - 1), down_cell_steps(w, y, x2 - 1), p);
    }
}

proof fn lemma_right_scan_has(w: int, y: int, k: int, k2: int)
    requires
        1 <= k <= k2,
    ensures
        right_scan(w, y, k2).contains((y * w + (w - 1 - k), y * w + (w - k))),
    decreases k2,
{
    let p = (y * w + (w - 1 - k), y * w + (w - k));
    if k2 == k {
        assert(seq![p][0] == p);
        lemma_has_right(right_scan(w, y, k - 1), seq![p], p);
    } else {
        lemma_right_scan_has(w, y, k, k2 - 1);
        lemma_has_left(right_scan(w, y, k2 - 1), seq![(y * w + (w - 1 - k2), y * w + (w - k2))], p);
    }
}

proof fn lemma_down_rows_has(w: int, y: int, y2: int, p: (int, int))
    requires
        0 <= y < y2,
        down_scan(w, y, w).contains(p) || right_scan(w, y, w - 1).contains(p),
    ensures
        down_rows(w, y2).contains(p),
    decreases y2,
{
    if y2 == y + 1 {
        if down_scan(w, y, w).contains(p) {
            lemma_has_right(down_rows(w, y), down_scan(w, y, w), p);
            lemma_has_left(down_rows(w, y) + down_scan(w, y, w), right_scan(w, y, w - 1), p);
        } else {
            lemma_has_right(down_rows(w, y) + down_scan(w, y, w), right_scan(w, y, w - 1), p);
        }
    } else {
        lemma_down_rows_has(w, y, y2 - 1, p);
        lemma_has_left(down_rows(w, y2 - 1), down_scan(w, y2 - 1, w), p);
        lemma_has_left(down_rows(w, y2 - 1) + down_scan(w, y2 - 1, w), right_scan(w, y2 - 1, w - 1), p);
    }
}

proof fn lemma_up_scan_has(w: int, h: int, y: int, k: int, k2: int, p: (int, int))
    requires
        1 <= k <= k2,
        up_cell_steps(w, h, y, w - k).contains(p),
    ensures
        up_scan(w, h, y, k2).contains(p),
    decreases k2,
{
    if k2 == k {
        lemma_has_right(up_scan(w, h, y, k - 1), up_cell_steps(w, h, y, w - k), p);
    } else {
        lemma_up_scan_has(w, h, y, k, k2 - 1, p);
        lemma_has_left(up_scan(w, h, y, k2 - 1), up_cell_steps(w, h, y, w - k2), p);
    }
}

proof fn lemma_up_rows_has(w: int, h: int, k: int, k2: int, p: (int, int))
    requires
        1 <= k <= k2,
        up_scan(w, h, h - k, w).contains(p),
    ensures
        up_rows(w, h, k2).contains(p),
    decreases k2,
{
    if k2 == k {
        lemma_has_right(up_rows(w, h, k - 1), up_scan(w, h, h - k, w), p);
        lemma_has_left(up_rows(w, h, k - 1) + up_scan(w, h, h - k, w), left_scan(w, h - k, w), p);
    } else {
        lemma_up_rows_has(w, h, k, k2 - 1, p);
        lemma_has_left(up_rows(w, h, k2 - 1), up_scan(w, h, h - k2, w), p);
        lemma_has_left(up_rows(w, h, k2 - 1) + up_scan(w, h, h - k2, w), left_scan(w, h - k2, w), p);
    }
}

/// The comparison of cell `(x, y)` with its neighbour `(x + dx, y + dy)` is a
/// step of the sweep.
proof fn lemma_sweep_compares_neighbours(w: int, h: int, y: int, x: int, dy: int, dx: int)
    requires
        0 < w,
        0 <= y < h,
        0 <= x < w,
        0 <= y + dy < h,
        0 <= x + dx < w,
        -1 <= dy <= 1,
        -1 <= dx <= 1,
        dx != 0 || dy != 0,
    ensures
        sweep_steps(w, h).contains((y * w + x, (y + dy) * w + (x + dx))),
{
    let i = y * w + x;
    let j = (y + dy) * w + (x + dx);
    let p = (i, j);
    lemma_shift_row(w, y);
    let ls = step_if(x > 0, i, i - 1);
    if dy == -1 || (dy == 0 && dx == -1) {
        // left, top-left, top, top-right: the left-to-right scan of the down pass
        let c = down_cell_steps(w, y, x);
        if dy == 0 {
            lemma_has_step_if(i, i - 1);
            if y == 0 {
                assert(c.contains(p));
            } else {
                lemma_has_left(ls, seq![(i, i - w)], p);
                lemma_has_left(ls + seq![(i, i - w)], step_if(x > 0, i, i - w - 1), p);
                lemma_has_left(ls + seq![(i, i - w)] + step_if(x > 0, i, i - w - 1), step_if(x + 1 < w, i, i - w + 1), p);
            }
        } else if dx == 0 {
            assert(seq![(i, i - w)][0] == p);
            lemma_has_right(ls, seq![(i, i - w)], p);
            lemma_has_left(ls + seq![(i, i - w)], step_if(x > 0, i, i - w - 1), p);
            lemma_has_left(ls + seq![(i, i - w)] + step_if(x > 0, i, i - w - 1), step_if(x + 1 < w, i, i - w + 1), p);
        } else if dx == -1 {
            lemma_has_step_if(i, i - w - 1);
            lemma_has_right(ls + seq![(i, i - w)], step_if(x > 0, i, i - w - 1), p);
            lemma_has_left(ls + seq![(i, i - w)] + step_if(x > 0, i, i - w - 1), step_if(x + 1 < w, i, i - w + 1), p);
        } else {
            lemma_has_step_if(i, i - w + 1);
            lemma_has_right(ls + seq![(i, i - w)] + step_if(x > 0, i, i - w - 1), step_if(x + 1 < w, i, i - w + 1), p);
        }
        assert(c.contains(p));
        lemma_down_scan_has(w, y, x, w, p);
        lemma_down_rows_has(w, y, h, p);
        lemma_has_left(down_rows(w, h), up_rows(w, h, h), p);
    } else if dy == 0 {
        // right: the right-to-left scan of the down pass
        lemma_right_scan_has(w, y, w - 1 - x, w - 1);
        lemma_down_rows_has(w, y, h, p);
        lemma_has_left(down_rows(w, h), up_rows(w, h, h), p);
    } else {
        // bottom-left, bottom, bottom-right: the right-to-left scan of the up pass
        let rs = step_if(x + 1 < w, i, i + 1);
        let c = up_cell_steps(w, h, y, x);
        if dx == 0 {
            assert(seq![(i, i + w)][0] == p);
            lemma_has_right(rs, seq![(i, i + w)], p);
            lemma_has_left(rs + seq![(i, i + w)], step_if(x + 1 < w, i, i + w + 1), p);
            lemma_has_left(rs + seq![(i, i + w)] + step_if(x + 1 < w, i, i + w + 1), step_if(x > 0, i, i + w - 1), p);
        } else if dx == 1 {
            lemma_has_step_if(i, i + w + 1);
            lemma_has_right(rs + seq![(i, i + w)], step_if(x + 1 < w, i, i + w + 1), p);
            lemma_has_left(rs + seq![(i, i + w)] + step_if(x + 1 < w, i, i + w + 1), step_if(x > 0, i, i + w - 1), p);
        } else {
            lemma_has_step_if(i, i + w - 1);
            lemma_has_right(rs + seq![(i, i + w)] + step_if(x + 1 < w, i, i + w + 1), step_if(x > 0, i, i + w - 1), p);
        }
        assert(c.contains(p));
        lemma_up_scan_has(w, h, y, w - x, w, p);
        lemma_up_rows_has(w, h, h - y, h, p);
        lemma_has_right(down_rows(w, h), up_rows(w, h, h), p);
    }
}

pub(crate) proof fn lemma_apply_keeps_layout(cells: Seq<Cell>, w: int, steps: Seq<(int, int)>)
    requires
        indexed(cells),
        references_valid(cells),
        laid_out(cells, w),
    ensures
        laid_out(apply_steps(cells, steps), w),
{
    let next = apply_steps(cells, steps);
    lemma_apply_keeps_cells(cells, steps);
    assert forall|m: int| 0 <= m < next.len() implies #[trigger] next[m].x == m % w && next[m].y == m / w by {
        assert(next[m].layer == cells[m].layer);
        assert(cells[m].x == m % w);
    }
}

pub(crate) proof fn lemma_initial_laid_out(bits: Seq<bool>, w: int, h: int)
    requires
        valid_dimensions(w, h, bits.len() as int),
        w <= 65535,
        h <= 65535,
    ensures
        laid_out(initial_cells(bits, w), w),
{
    let cells = initial_cells(bits, w);
    assert forall|i: int| 0 <= i < cells.len() implies #[trigger] cells[i].x == i % w && cells[i].y == i / w by {
        vstd::arithmetic::div_mod::lemma_fundamental_div_mod(i, w);
        let q = i / w;
        let r = i % w;
        assert(q < h) by (nonlinear_arith)
            requires
                i == w * q + r,
                0 <= r,
                i < w * h,
                w > 0,
        ;
        assert(0 <= q) by (nonlinear_arith)
            requires
                i == w * q + r,
                0 <= r < w,
                0 <= i,
                w > 0,
        ;
    }
}

/// The boundary law of the sweep: a cell with a neighbour (one of the eight
/// around it) in the other layer ends with a reference to a cell of the other
/// layer that is itself one of its eight neighbours.
pub proof fn lemma_boundary_cells_reference_a_neighbour(bits: Seq<bool>, w: int, h: int, i: int, j: int)
    requires
        valid_dimensions(w, h, bits.len() as int),
        w <= 65535,
        h <= 65535,
        0 <= i < bits.len(),
        0 <= j < bits.len(),
        adjacent(initial_cells(bits, w)[i], initial_cells(bits, w)[j]),
        bits[i] != bits[j],
    ensures
        boundary_referenced(swept(initial_cells(bits, w), w, h), i),
{
    let init = initial_cells(bits, w);
    let n = w * h;
    assert(w * h <= 65535 * 65535) by (nonlinear_arith)
        requires
            0 < w <= 65535,
            0 < h <= 65535,
    ;
    lemma_initial_cells(bits, w);
    lemma_initial_laid_out(bits, w, h);
    let x = i % w;
    let y = i / w;
    let dx = j % w - x;
    let dy = j / w - y;
    assert(init[i].x == x && init[i].y == y);
    assert(init[j].x == j % w && init[j].y == j / w);
    vstd::arithmetic::div_mod::lemma_fundamental_div_mod(i, w);
    vstd::arithmetic::div_mod::lemma_fundamental_div_mod(j, w);
    assert(i == y * w + x && j == (y + dy) * w + (x + dx)) by (nonlinear_arith)
        requires
            i == w * (i / w) + i % w,
            j == w * (j / w) + j % w,
            x == i % w,
            y == i / w,
            dx == j % w - x,
            dy == j / w - y,
    ;
    assert(0 <= y < h && 0 <= y + dy < h) by {
        assert(0 <= y < h) by (nonlinear_arith)
            requires
                i == w * y + x,
                0 <= x < w,
                0 <= i < w * h,
                w > 0,
        ;
        assert(0 <= y + dy < h) by (nonlinear_arith)
            requires
                j == w * (y + dy) + (x + dx),
                0 <= x + dx < w,
                0 <= j < w * h,
                w > 0,
        ;
    }
    lemma_sweep_compares_neighbours(w, h, y, x, dy, dx);
    let steps = sweep_steps(w, h);
    let step = (i, j);
    lemma_sweep_nb(w, h);
    let k = choose|k: int| 0 <= k < steps.len() && steps[k] == step;
    let pre = steps.take(k);
    let post = steps.skip(k + 1);
    assert(steps =~= pre.push(step) + post);
    assert(neighbour_steps(w, n, pre)) by {
        assert forall|m: int| 0 <= m < pre.len() implies neighbour_step(w, n, #[trigger] pre[m]) by {
            assert(pre[m] == steps[m]);
        }
    }
    assert(neighbour_steps(w, n, post)) by {
        assert forall|m: int| 0 <= m < post.len() implies neighbour_step(w, n, #[trigger] post[m]) by {
            assert(post[m] == steps[k + 1 + m]);
        }
    }
    // up to the comparison of `i` with `j`
    let mid = apply_steps(init, pre);
    lemma_apply_keeps_cells(init, pre);
    lemma_apply_keeps_layout(init, w, pre);
    assert(mid[i].layer == init[i].layer && mid[j].layer == init[j].layer);
    assert(neighbour_step(w, n, steps[k]));
    lemma_step_settles(mid, w, step);
    let after = apply_steps(init, pre.push(step));
    assert(pre.push(step).drop_last() =~= pre);
    assert(after == compare_step(mid, step));
    // and after the rest of the sweep
    lemma_apply_keeps_cells(init, pre.push(step));
    lemma_apply_keeps_layout(init, w, pre.push(step));
    lemma_apply_settles(after, w, post, i);
    lemma_apply_concat(init, pre.push(step), post);
    let c = swept(init, w, h);
    assert(c == apply_steps(after, post));
    lemma_apply_keeps_cells(init, steps);
    lemma_apply_keeps_layout(init, w, steps);
    let p = c[i].nearest_cell_position->Some_0;
    let q = p.index as int;
    assert(c[q].x == p.x && c[q].y == p.y && c[q].layer != c[i].layer);
    let ex = c[i].x - p.x;
    let ey = c[i].y - p.y;
    assert(ex * ex <= 2 && ey * ey <= 2) by (nonlinear_arith)
        requires
            ex * ex + ey * ey <= 2,
    ;
    lemma_near_square(ex);
    lemma_near_square(ey);
    if c[i].x == c[q].x && c[i].y == c[q].y {
        vstd::arithmetic::div_mod::lemma_fundamental_div_mod(q, w);
        assert(q == i);
    }
}

/// The one-layer law of the sweep: where every cell of the grid lies in the
/// same layer there is no boundary, and after sweeping no cell has a reference.
pub proof fn lemma_one_layer_grid_has_no_references(bits: Seq<bool>, w: int, h: int)
    requires
        valid_dimensions(w, h, bits.len() as int),
        w <= 65535,
        h <= 65535,
        forall|i: int, j: int| 0 <= i < bits.len() && 0 <= j < bits.len() ==> #[trigger] bits[i] == #[trigger] bits[j],
    ensures
        no_references(swept(initial_cells(bits, w), w, h)),
{
    let init = initial_cells(bits, w);
    assert(w * h <= 65535 * 65535) by (nonlinear_arith)
        requires
            0 < w <= 65535,
            0 < h <= 65535,
    ;
    lemma_initial_cells(bits, w);
    let c = swept(init, w, h);
    lemma_apply_keeps_cells(init, sweep_steps(w, h));
    assert forall|i: int, j: int| 0 <= i < c.len() && 0 <= j < c.len() implies #[trigger] c[i].layer
        == #[trigger] c[j].layer by {
        assert(c[i].layer == init[i].layer);
        assert(c[j].layer == init[j].layer);
        assert(bits[i] == bits[j]);
    }
    lemma_one_layer_has_no_references(c);
}

} // verus!
