use vstd::prelude::*;

use crate::engine::{Life, LifeView, Snapshot};
use crate::kernel::{
    age_next, alive_at, cell_next, fill_ages, fill_cells, fits, lemma_index_in_grid,
    neighbor_count, next_ages, next_alive_at_index, next_cells,
};
use crate::rules::{Params, RuleTable};

verus! {

/// Every neighbour count lies between zero and eight.
pub proof fn lemma_neighbor_count_bounded(cells: Seq<u32>, w: int, h: int, x: int, y: int)
    ensures
        0 <= neighbor_count(cells, w, h, x, y) <= 8,
{
}

/// A corner cell counts at most three live neighbours, whatever the grid holds: the other
/// five positions of its neighbourhood are off the grid.
pub proof fn lemma_corner_neighbors(cells: Seq<u32>, w: int, h: int)
    ensures
        neighbor_count(cells, w, h, 0, 0) <= 3,
{
}

/// An interior cell of a grid whose cells are all alive counts all eight neighbours.
pub proof fn lemma_interior_full(cells: Seq<u32>, w: int, h: int, x: int, y: int)
    requires
        cells.len() == w * h,
        forall|i: int| 0 <= i < cells.len() ==> cells[i] != 0,
        1 <= x < w - 1,
        1 <= y < h - 1,
    ensures
        neighbor_count(cells, w, h, x, y) == 8,
{
    lemma_index_in_grid(w, h, x - 1, y - 1);
    lemma_index_in_grid(w, h, x, y - 1);
    lemma_index_in_grid(w, h, x + 1, y - 1);
    lemma_index_in_grid(w, h, x - 1, y);
    lemma_index_in_grid(w, h, x + 1, y);
    lemma_index_in_grid(w, h, x - 1, y + 1);
    lemma_index_in_grid(w, h, x, y + 1);
    lemma_index_in_grid(w, h, x + 1, y + 1);
}

/// Running preserves the parameters and the buffer sizes, and counts generations.
pub proof fn lemma_run_valid(v: LifeView, n: nat)
    requires
        v.valid(),
    ensures
        v.run(n).valid(),
        v.run(n).params == v.params,
        v.run(n).cells.len() == v.cells.len(),
        v.run(n).generation == v.generation + n,
    decreases n,
{
    if n > 0 {
        lemma_run_valid(v, (n - 1) as nat);
    }
}

/// Under a rule with no birth on zero neighbours, a grid with no live cell stays without one
/// for any number of generations.
pub proof fn lemma_extinction(v: LifeView, n: nat)
    requires
        v.valid(),
        !v.params.rules.is_born_spec(0),
        forall|i: int| 0 <= i < v.cells.len() ==> v.cells[i] == 0,
    ensures
        forall|i: int| 0 <= i < v.run(n).cells.len() ==> v.run(n).cells[i] == 0,
    decreases n,
{
    if n > 0 {
        lemma_extinction(v, (n - 1) as nat);
        lemma_run_valid(v, (n - 1) as nat);
        let u = v.run((n - 1) as nat);
        assert forall|i: int| 0 <= i < u.cells.len() implies !next_alive_at_index(
            u.params,
            u.cells,
            i,
        ) by {
            let w = u.params.width as int;
            let (x, y) = (i % w, i / w);
            assert(neighbor_count(u.cells, w, u.params.height as int, x, y) == 0);
        }
    }
}

/// While a cell stays alive its age grows by one each generation until it reaches the
/// lifetime cap, and then stays there.
pub proof fn lemma_age_saturation(v: LifeView, i: int, n: nat)
    requires
        v.valid(),
        0 <= i < v.cells.len(),
        v.ages[i] <= v.params.lifetime,
        forall|m: nat| 1 <= m <= n ==> #[trigger] v.run(m).cells[i] != 0,
    ensures
        v.run(n).ages[i] == vstd::math::min(v.ages[i] + n, v.params.lifetime as int),
    decreases n,
{
    if n > 0 {
        lemma_age_saturation(v, i, (n - 1) as nat);
        lemma_run_valid(v, (n - 1) as nat);
        assert(v.run(n).cells[i] != 0);
    }
}

/// The generation after a cell dies, its age is zero.
pub proof fn lemma_age_reset(v: LifeView, i: int)
    requires
        v.valid(),
        0 <= i < v.cells.len(),
        v.advanced().cells[i] == 0,
    ensures
        v.advanced().ages[i] == 0,
{
}

/// Two reads of one engine state give identical snapshots.
pub proof fn lemma_read_idempotent(life: Life, a: Snapshot, b: Snapshot)
    requires
        a.width == life@.params.width && a.height == life@.params.height,
        a.cells@ == life@.cells && a.ages@ == life@.ages,
        b.width == life@.params.width && b.height == life@.params.height,
        b.cells@ == life@.cells && b.ages@ == life@.ages,
    ensures
        a.width == b.width && a.height == b.height,
        a.cells@ == b.cells@,
        a.ages@ == b.ages@,
{
}

/// The cells after evaluating the batches `parts` (index ranges `lo..hi`) one after another
/// into `target`.
pub open spec fn fill_cells_in_batches(
    p: Params,
    cells: Seq<u32>,
    target: Seq<u32>,
    parts: Seq<(int, int)>,
) -> Seq<u32>
    decreases parts.len(),
{
    if parts.len() == 0 {
        target
    } else {
        let last = parts.last();
        fill_cells(p, cells, fill_cells_in_batches(p, cells, target, parts.drop_last()), last.0, last.1)
    }
}

/// The ages after evaluating the batches `parts` one after another into `target`.
pub open spec fn fill_ages_in_batches(
    p: Params,
    cells: Seq<u32>,
    ages: Seq<u32>,
    target: Seq<u32>,
    parts: Seq<(int, int)>,
) -> Seq<u32>
    decreases parts.len(),
{
    if parts.len() == 0 {
        target
    } else {
        let last = parts.last();
        fill_ages(
            p,
            cells,
            ages,
            fill_ages_in_batches(p, cells, ages, target, parts.drop_last()),
            last.0,
            last.1,
        )
    }
}

/// Some batch of `parts` holds index `i`.
pub open spec fn covered(parts: Seq<(int, int)>, i: int) -> bool {
    exists|k: int| 0 <= k < parts.len() && (#[trigger] parts[k]).0 <= i < parts[k].1
}

proof fn lemma_batches_entry(
    p: Params,
    cells: Seq<u32>,
    ages: Seq<u32>,
    tc: Seq<u32>,
    ta: Seq<u32>,
    parts: Seq<(int, int)>,
)
    ensures
        fill_cells_in_batches(p, cells, tc, parts).len() == tc.len(),
        fill_ages_in_batches(p, cells, ages, ta, parts).len() == ta.len(),
        forall|i: int|
            0 <= i < tc.len() ==> #[trigger] fill_cells_in_batches(p, cells, tc, parts)[i] == if covered(
                parts,
                i,
            ) {
                cell_next(p, cells, i)
            } else {
                tc[i]
            },
        forall|i: int|
            0 <= i < ta.len() ==> #[trigger] fill_ages_in_batches(p, cells, ages, ta, parts)[i]
                == if covered(parts, i) {
                age_next(p, cells, ages, i)
            } else {
                ta[i]
            },
    decreases parts.len(),
{
    if parts.len() > 0 {
        let init = parts.drop_last();
        let last = parts.last();
        lemma_batches_entry(p, cells, ages, tc, ta, init);
        assert forall|i: int| #[trigger] covered(parts, i) == (covered(init, i) || (last.0 <= i
            < last.1)) by {
            if covered(init, i) {
                let k = choose|k: int| 0 <= k < init.len() && (#[trigger] init[k]).0 <= i < init[k].1;
                assert(parts[k] == init[k]);
            }
            if covered(parts, i) && !(last.0 <= i < last.1) {
                let k = choose|k: int|
                    0 <= k < parts.len() && (#[trigger] parts[k]).0 <= i < parts[k].1;
                assert(k != parts.len() - 1);
                assert(init[k] == parts[k]);
            }
            if last.0 <= i < last.1 {
                assert(parts[parts.len() - 1] == last);
            }
        }
    }
}

/// Evaluating the cells in batches that together cover the grid, in any order and whatever
/// the spare buffers held before, gives exactly the next generation: the result does not
/// depend on how the work is split or scheduled.
pub proof fn lemma_batches_give_next_generation(
    p: Params,
    cells: Seq<u32>,
    ages: Seq<u32>,
    spare_cells: Seq<u32>,
    spare_ages: Seq<u32>,
    parts: Seq<(int, int)>,
)
    requires
        fits(p, cells),
        ages.len() == cells.len(),
        spare_cells.len() == cells.len(),
        spare_ages.len() == cells.len(),
        forall|i: int| 0 <= i < cells.len() ==> covered(parts, i),
    ensures
        fill_cells_in_batches(p, cells, spare_cells, parts) == next_cells(p, cells),
        fill_ages_in_batches(p, cells, ages, spare_ages, parts) == next_ages(p, cells, ages),
{
    lemma_batches_entry(p, cells, ages, spare_cells, spare_ages, parts);
    assert(fill_cells_in_batches(p, cells, spare_cells, parts) =~= next_cells(p, cells));
    assert(fill_ages_in_batches(p, cells, ages, spare_ages, parts) =~= next_ages(p, cells, ages));
}

/// The standard rule: survive on two or three live neighbours, be born on exactly three.
pub open spec fn is_classic(r: RuleTable) -> bool {
    forall|n: int|
        0 <= n < 9 ==> (#[trigger] r.survives_spec(n) == (n == 2 || n == 3) && r.is_born_spec(n)
            == (n == 3))
}

/// Whether `(x, y)` is one of the four cells of the 2x2 block whose top-left corner is
/// `(bx, by)`.
pub open spec fn in_block(bx: int, by: int, x: int, y: int) -> bool {
    bx <= x <= bx + 1 && by <= y <= by + 1
}

/// A `w` by `h` grid whose cells are 1 where `shape` holds and 0 elsewhere.
pub open spec fn shape_grid(w: int, h: int, shape: spec_fn(int, int) -> bool) -> Seq<u32> {
    Seq::new((w * h) as nat, |i: int| if shape(i % w, i / w) { 1u32 } else { 0u32 })
}

/// A `w` by `h` grid holding only the 2x2 block at `(bx, by)`.
pub open spec fn block_grid(w: int, h: int, bx: int, by: int) -> Seq<u32> {
    shape_grid(w, h, |x: int, y: int| in_block(bx, by, x, y))
}

proof fn lemma_coords_of_index(w: int, h: int, i: int)
    requires
        w > 0,
        0 <= i < w * h,
    ensures
        0 <= i % w < w,
        0 <= i / w < h,
        i == (i / w) * w + i % w,
{
    assert(0 <= i / w < h) by (nonlinear_arith)
        requires
            w > 0,
            0 <= i < w * h,
    ;
    vstd::arithmetic::div_mod::lemma_fundamental_div_mod(i, w);
    assert(i == (i / w) * w + i % w) by (nonlinear_arith)
        requires
            i == w * (i / w) + i % w,
    ;
}

proof fn lemma_shape_alive(w: int, h: int, shape: spec_fn(int, int) -> bool, x: int, y: int)
    requires
        w > 0,
        h > 0,
    ensures
        alive_at(shape_grid(w, h, shape), w, h, x, y) == (0 <= x < w && 0 <= y < h && shape(x, y)),
{
    if 0 <= x < w && 0 <= y < h {
        lemma_index_in_grid(w, h, x, y);
        vstd::arithmetic::div_mod::lemma_fundamental_div_mod_converse(y * w + x, w, y, x);
        assert(w * h >= 0) by (nonlinear_arith)
            requires
                w > 0,
                h > 0,
        ;
    }
}

proof fn lemma_shape_neighborhood(w: int, h: int, shape: spec_fn(int, int) -> bool, i: int)
    requires
        w > 0,
        h > 0,
        0 <= i < w * h,
    ensures
        0 <= i % w < w,
        0 <= i / w < h,
        forall|a: int, b: int|
            i % w - 1 <= a <= i % w + 1 && i / w - 1 <= b <= i / w + 1 ==> #[trigger] alive_at(
                shape_grid(w, h, shape),
                w,
                h,
                a,
                b,
            ) == (0 <= a < w && 0 <= b < h && shape(a, b)),
{
    lemma_coords_of_index(w, h, i);
    assert forall|a: int, b: int|
        i % w - 1 <= a <= i % w + 1 && i / w - 1 <= b <= i / w + 1 implies #[trigger] alive_at(
        shape_grid(w, h, shape),
        w,
        h,
        a,
        b,
    ) == (0 <= a < w && 0 <= b < h && shape(a, b)) by {
        lemma_shape_alive(w, h, shape, a, b);
    }
}

proof fn lemma_block_step(p: Params, bx: int, by: int)
    requires
        p.width > 0,
        p.height > 0,
        is_classic(p.rules),
        0 <= bx && bx + 1 < p.width,
        0 <= by && by + 1 < p.height,
    ensures
        next_cells(p, block_grid(p.width as int, p.height as int, bx, by)) == block_grid(
            p.width as int,
            p.height as int,
            bx,
            by,
        ),
{
    let (w, h) = (p.width as int, p.height as int);
    let g = block_grid(w, h, bx, by);
    assert forall|i: int| 0 <= i < g.len() implies #[trigger] cell_next(p, g, i) == g[i] by {
        lemma_shape_neighborhood(w, h, |x: int, y: int| in_block(bx, by, x, y), i);
        let (x, y) = (i % w, i / w);
        let n = neighbor_count(g, w, h, x, y);
        if in_block(bx, by, x, y) {
            assert(n == 3);
            assert(p.rules.survives_spec(3));
        } else {
            assert(0 <= n <= 2);
            assert(p.rules.survives_spec(n) == (n == 2 || n == 3));
        }
    }
    assert(next_cells(p, g) =~= g);
}

/// Under the standard rule, a lone 2x2 block is a still life: the cells are unchanged after
/// any number of generations.
pub proof fn lemma_block_still_life(v: LifeView, bx: int, by: int, n: nat)
    requires
        v.valid(),
        is_classic(v.params.rules),
        0 <= bx && bx + 1 < v.params.width,
        0 <= by && by + 1 < v.params.height,
        v.cells == block_grid(v.params.width as int, v.params.height as int, bx, by),
    ensures
        v.run(n).cells == v.cells,
    decreases n,
{
    if n > 0 {
        lemma_block_still_life(v, bx, by, (n - 1) as nat);
        lemma_run_valid(v, (n - 1) as nat);
        lemma_block_step(v.params, bx, by);
    }
}

/// Whether `(x, y)` is on the horizontal bar of three cells centred on `(cx, cy)`.
pub open spec fn in_row_bar(cx: int, cy: int, x: int, y: int) -> bool {
    y == cy && cx - 1 <= x <= cx + 1
}

/// Whether `(x, y)` is on the vertical bar of three cells centred on `(cx, cy)`.
pub open spec fn in_column_bar(cx: int, cy: int, x: int, y: int) -> bool {
    x == cx && cy - 1 <= y <= cy + 1
}

/// A `w` by `h` grid holding only the horizontal bar centred on `(cx, cy)`.
pub open spec fn row_bar_grid(w: int, h: int, cx: int, cy: int) -> Seq<u32> {
    shape_grid(w, h, |x: int, y: int| in_row_bar(cx, cy, x, y))
}

/// A `w` by `h` grid holding only the vertical bar centred on `(cx, cy)`.
pub open spec fn column_bar_grid(w: int, h: int, cx: int, cy: int) -> Seq<u32> {
    shape_grid(w, h, |x: int, y: int| in_column_bar(cx, cy, x, y))
}

proof fn lemma_bar_step(p: Params, cx: int, cy: int, from_row: bool)
    requires
        is_classic(p.rules),
        1 <= cx && cx + 1 < p.width,
        1 <= cy && cy + 1 < p.height,
    ensures
        from_row ==> next_cells(p, row_bar_grid(p.width as int, p.height as int, cx, cy))
            == column_bar_grid(p.width as int, p.height as int, cx, cy),
        !from_row ==> next_cells(p, column_bar_grid(p.width as int, p.height as int, cx, cy))
            == row_bar_grid(p.width as int, p.height as int, cx, cy),
{
    let (w, h) = (p.width as int, p.height as int);
    let row = |x: int, y: int| in_row_bar(cx, cy, x, y);
    let column = |x: int, y: int| in_column_bar(cx, cy, x, y);
    let (src, dst) = if from_row {
        (row, column)
    } else {
        (column, row)
    };
    let g = shape_grid(w, h, src);
    let d = shape_grid(w, h, dst);
    assert forall|i: int| 0 <= i < g.len() implies #[trigger] cell_next(p, g, i) == d[i] by {
        lemma_shape_neighborhood(w, h, src, i);
        let (x, y) = (i % w, i / w);
        let n = neighbor_count(g, w, h, x, y);
        assert(0 <= n <= 8);
        assert(p.rules.survives_spec(n) == (n == 2 || n == 3));
    }
    assert(next_cells(p, g) =~= d);
}

/// Under the standard rule, a lone bar of three cells away from the border turns into the
/// perpendicular bar after one generation, and is back to itself after two.
pub proof fn lemma_blinker_period_two(v: LifeView, cx: int, cy: int)
    requires
        v.valid(),
        is_classic(v.params.rules),
        1 <= cx && cx + 1 < v.params.width,
        1 <= cy && cy + 1 < v.params.height,
        v.cells == row_bar_grid(v.params.width as int, v.params.height as int, cx, cy),
    ensures
        v.run(1).cells == column_bar_grid(v.params.width as int, v.params.height as int, cx, cy),
        v.run(2).cells == v.cells,
{
    lemma_bar_step(v.params, cx, cy, true);
    lemma_bar_step(v.params, cx, cy, false);
    assert(v.run(1) == v.run(0).advanced());
    assert(v.run(2) == v.run(1).advanced());
}

} // verus!
