use vstd::prelude::*;

use crate::rules::{Params, RuleTable};

verus! {

/// Whether `(x, y)` lies on the grid and holds a live cell; off-grid positions are dead.
pub open spec fn alive_at(cells: Seq<u32>, w: int, h: int, x: int, y: int) -> bool {
    &&& 0 <= x < w
    &&& 0 <= y < h
    &&& 0 <= y * w + x < cells.len()
    &&& cells[y * w + x] != 0
}

pub open spec fn live(cells: Seq<u32>, w: int, h: int, x: int, y: int) -> int {
    if alive_at(cells, w, h, x, y) {
        1
    } else {
        0
    }
}

/// Live cells among the eight Moore neighbours of `(x, y)`, on a bounded grid.
pub open spec fn neighbor_count(cells: Seq<u32>, w: int, h: int, x: int, y: int) -> int {
    live(cells, w, h, x - 1, y - 1) + live(cells, w, h, x, y - 1) + live(cells, w, h, x + 1, y - 1)
        + live(cells, w, h, x - 1, y) + live(cells, w, h, x + 1, y)
        + live(cells, w, h, x - 1, y + 1) + live(cells, w, h, x, y + 1)
        + live(cells, w, h, x + 1, y + 1)
}

/// Whether the cell at `(x, y)` is alive in the next generation.
pub open spec fn next_alive(rules: RuleTable, cells: Seq<u32>, w: int, h: int, x: int, y: int) -> bool {
    let n = neighbor_count(cells, w, h, x, y);
    if alive_at(cells, w, h, x, y) {
        rules.survives_spec(n)
    } else {
        rules.is_born_spec(n)
    }
}

/// Whether the cell stored at row-major index `i` is alive in the next generation.
pub open spec fn next_alive_at_index(p: Params, cells: Seq<u32>, i: int) -> bool {
    let w = p.width as int;
    next_alive(p.rules, cells, w, p.height as int, i % w, i / w)
}

/// Next state of the cell at index `i`: 1 when alive, 0 when dead.
pub open spec fn cell_next(p: Params, cells: Seq<u32>, i: int) -> u32 {
    if next_alive_at_index(p, cells, i) {
        1
    } else {
        0
    }
}

/// Next age of the cell at index `i`: one more than before, capped at the lifetime, while
/// alive; zero once dead.
pub open spec fn age_next(p: Params, cells: Seq<u32>, ages: Seq<u32>, i: int) -> u32 {
    if next_alive_at_index(p, cells, i) {
        if ages[i] < p.lifetime {
            (ages[i] + 1) as u32
        } else {
            p.lifetime
        }
    } else {
        0
    }
}

/// The whole next generation of cell states.
pub open spec fn next_cells(p: Params, cells: Seq<u32>) -> Seq<u32> {
    Seq::new(cells.len(), |i: int| cell_next(p, cells, i))
}

/// The whole next generation of ages.
pub open spec fn next_ages(p: Params, cells: Seq<u32>, ages: Seq<u32>) -> Seq<u32> {
    Seq::new(ages.len(), |i: int| age_next(p, cells, ages, i))
}

/// `target` with the cells of indices `lo..hi` replaced by their next states.
pub open spec fn fill_cells(p: Params, cells: Seq<u32>, target: Seq<u32>, lo: int, hi: int) -> Seq<u32> {
    Seq::new(target.len(), |i: int| if lo <= i < hi { cell_next(p, cells, i) } else { target[i] })
}

/// `target` with the ages of indices `lo..hi` replaced by their next ages.
pub open spec fn fill_ages(
    p: Params,
    cells: Seq<u32>,
    ages: Seq<u32>,
    target: Seq<u32>,
    lo: int,
    hi: int,
) -> Seq<u32> {
    Seq::new(target.len(), |i: int| if lo <= i < hi { age_next(p, cells, ages, i) } else { target[i] })
}

/// A buffer of `cells` fits the grid of `p` exactly.
pub open spec fn fits(p: Params, cells: Seq<u32>) -> bool {
    cells.len() == p.width * p.height
}

/// A position on a `w` by `h` grid has a row-major index inside the grid.
pub proof fn lemma_index_in_grid(w: int, h: int, x: int, y: int)
    requires
        0 <= x < w,
        0 <= y < h,
    ensures
        0 <= y * w + x < w * h,
{
    assert(0 <= y * w) by (nonlinear_arith)
        requires
            0 <= y,
            0 <= w,
    ;
    assert(y * w + x < w * h) by (nonlinear_arith)
        requires
            0 <= x < w,
            0 <= y < h,
    ;
}

/// 1 when `(x, y)` is on the grid and alive, else 0.
fn live_at(cells: &Vec<u32>, width: u32, height: u32, x: i64, y: i64) -> (r: u32)
    requires
        cells@.len() == width * height,
    ensures
        r == live(cells@, width as int, height as int, x as int, y as int),
{
    if x < 0 || y < 0 || x >= width as i64 || y >= height as i64 {
        return 0;
    }
    proof {
        lemma_index_in_grid(width as int, height as int, x as int, y as int);
    }
    let (xu, yu) = (x as usize, y as usize);
    let n = cells.len();
    assert(yu * width <= yu * width + xu < n);
    let i = yu * width as usize + xu;
    if cells[i] != 0 {
        1
    } else {
        0
    }
}

/// Counts the live Moore neighbours of `(x, y)`; positions off the grid count as dead.
pub fn count_neighbors(cells: &Vec<u32>, width: u32, height: u32, x: u32, y: u32) -> (r: u32)
    requires
        cells@.len() == width * height,
        x < width,
        y < height,
    ensures
        r == neighbor_count(cells@, width as int, height as int, x as int, y as int),
        r <= 8,
{
    let (xi, yi) = (x as i64, y as i64);
    live_at(cells, width, height, xi - 1, yi - 1) + live_at(cells, width, height, xi, yi - 1)
        + live_at(cells, width, height, xi + 1, yi - 1) + live_at(cells, width, height, xi - 1, yi)
        + live_at(cells, width, height, xi + 1, yi) + live_at(cells, width, height, xi - 1, yi + 1)
        + live_at(cells, width, height, xi, yi + 1) + live_at(cells, width, height, xi + 1, yi + 1)
}

/// Evaluates one cell: its next state (1 alive, 0 dead) and its next age.
///
/// Reads only the frozen current buffers, so cells may be evaluated in any order.
pub fn evaluate_cell(p: &Params, cells: &Vec<u32>, ages: &Vec<u32>, i: usize) -> (r: (u32, u32))
    requires
        fits(*p, cells@),
        ages@.len() == cells@.len(),
        i < cells@.len(),
    ensures
        r.0 == cell_next(*p, cells@, i as int),
        r.1 == age_next(*p, cells@, ages@, i as int),
{
    let w = p.width;
    assert(w > 0 && (i as int) / (w as int) < p.height) by (nonlinear_arith)
        requires
            0 <= i < w * p.height,
            0 <= w,
            0 <= p.height,
    ;
    let x = (i % w as usize) as u32;
    let y = (i / w as usize) as u32;
    let n = count_neighbors(cells, w, p.height, x, y);
    let alive_now = cells[i] != 0;
    proof {
        lemma_index_in_grid(w as int, p.height as int, x as int, y as int);
        assert(y * w + x == i) by (nonlinear_arith)
            requires
                x == i as int % w as int,
                y == i as int / w as int,
                w > 0,
        ;
    }
    let alive_next = if alive_now {
        p.rules.survives(n)
    } else {
        p.rules.is_born(n)
    };
    if !alive_next {
        (0, 0)
    } else if ages[i] < p.lifetime {
        (1, ages[i] + 1)
    } else {
        (1, p.lifetime)
    }
}

/// Writes the next generation of the cells `lo..hi` into `next_cells` and `next_ages`,
/// leaving every other entry untouched.
pub fn evaluate_range(
    p: &Params,
    cells: &Vec<u32>,
    ages: &Vec<u32>,
    next_cells: &mut Vec<u32>,
    next_ages: &mut Vec<u32>,
    lo: usize,
    hi: usize,
)
    requires
        fits(*p, cells@),
        ages@.len() == cells@.len(),
        old(next_cells)@.len() == cells@.len(),
        old(next_ages)@.len() == cells@.len(),
        lo <= hi <= cells@.len(),
    ensures
        final(next_cells)@ == fill_cells(*p, cells@, old(next_cells)@, lo as int, hi as int),
        final(next_ages)@ == fill_ages(*p, cells@, ages@, old(next_ages)@, lo as int, hi as int),
{
    let mut i = lo;
    while i < hi
        invariant
            fits(*p, cells@),
            ages@.len() == cells@.len(),
            lo <= i <= hi <= cells@.len(),
            next_cells@.len() == cells@.len(),
            next_ages@.len() == cells@.len(),
            next_cells@ == fill_cells(*p, cells@, old(next_cells)@, lo as int, i as int),
            next_ages@ == fill_ages(*p, cells@, ages@, old(next_ages)@, lo as int, i as int),
        decreases hi - i,
    {
        let (state, age) = evaluate_cell(p, cells, ages, i);
        next_cells[i] = state;
        next_ages[i] = age;
        i = i + 1;
        assert(next_cells@ =~= fill_cells(*p, cells@, old(next_cells)@, lo as int, i as int));
        assert(next_ages@ =~= fill_ages(*p, cells@, ages@, old(next_ages)@, lo as int, i as int));
    }
}

} // verus!
