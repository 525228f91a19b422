use vstd::prelude::*;
use vstd::string::StringExecFns;

verus! {

/// Brightness of a live cell: 255 when ages are not tracked (cap 0), otherwise rising from 64
/// at age 0 to 255 at the cap.
pub open spec fn brightness(age: u32, cap: u32) -> int {
    if cap == 0 {
        255
    } else if age >= cap {
        255
    } else {
        64 + 191 * (age as int) / (cap as int)
    }
}

/// Channel `k` (red, green, blue, alpha) of a cell's display colour: opaque black when dead,
/// an opaque grey of the cell's brightness when alive.
pub open spec fn channel(alive: bool, age: u32, cap: u32, k: int) -> u8 {
    if k == 3 {
        255
    } else if alive {
        brightness(age, cap) as u8
    } else {
        0
    }
}

/// The RGBA colour of one cell.
pub fn cell_color(alive: bool, age: u32, cap: u32) -> (c: [u8; 4])
    ensures
        forall|k: int| 0 <= k < 4 ==> c@[k] == channel(alive, age, cap, k),
{
    if !alive {
        return [0, 0, 0, 255];
    }
    let level: u8 = if cap == 0 || age >= cap {
        255
    } else {
        assert(191 * (age as int) / (cap as int) < 191) by (nonlinear_arith)
            requires
                age < cap,
        ;
        (64 + 191 * age as u64 / cap as u64) as u8
    };
    [level, level, level, 255]
}

/// An RGBA image of the grid, four bytes per cell in the cells' row-major order.
pub fn frame_rgba(cells: &Vec<u32>, ages: &Vec<u32>, cap: u32) -> (r: Vec<u8>)
    requires
        ages@.len() == cells@.len(),
        4 * cells@.len() <= usize::MAX,
    ensures
        r@.len() == 4 * cells@.len(),
        forall|c: int, k: int|
            0 <= c < cells@.len() && 0 <= k < 4 ==> #[trigger] r@[4 * c + k] == channel(
                cells@[c] != 0,
                ages@[c],
                cap,
                k,
            ),
{
    let mut r: Vec<u8> = Vec::with_capacity(4 * cells.len());
    let mut i: usize = 0;
    while i < cells.len()
        invariant
            ages@.len() == cells@.len(),
            i <= cells@.len(),
            r@.len() == 4 * i,
            forall|c: int, k: int|
                0 <= c < i && 0 <= k < 4 ==> #[trigger] r@[4 * c + k] == channel(
                    cells@[c] != 0,
                    ages@[c],
                    cap,
                    k,
                ),
        decreases cells@.len() - i,
    {
        let color = cell_color(cells[i] != 0, ages[i], cap);
        r.push(color[0]);
        r.push(color[1]);
        r.push(color[2]);
        r.push(color[3]);
        assert forall|c: int, k: int| 0 <= c <= i && 0 <= k < 4 implies #[trigger] r@[4 * c + k]
            == channel(cells@[c] != 0, ages@[c], cap, k) by {
            if c == i {
                assert(r@[4 * c + k] == color@[k]);
            }
        }
        i = i + 1;
    }
    r
}

/// The two characters that draw one cell in text: `__` when dead, two full blocks when alive.
pub open spec fn glyph(cell: u32) -> Seq<char> {
    if cell == 0 {
        "__"@
    } else {
        "\u{2588}\u{2588}"@
    }
}

/// The text of a row of cells, one glyph per cell.
pub open spec fn row_text(cells: Seq<u32>) -> Seq<char>
    decreases cells.len(),
{
    if cells.len() == 0 {
        Seq::empty()
    } else {
        row_text(cells.drop_last()) + glyph(cells.last())
    }
}

/// The grid as text lines: `cells` cut into rows of `width`, the last one possibly shorter.
pub open spec fn text_lines(cells: Seq<u32>, width: nat) -> Seq<Seq<char>>
    decreases cells.len(),
{
    if width == 0 || cells.len() == 0 {
        Seq::empty()
    } else if cells.len() <= width {
        seq![row_text(cells)]
    } else {
        seq![row_text(cells.take(width as int))] + text_lines(cells.skip(width as int), width)
    }
}

/// The text for one cell.
pub fn repr(cell: u32) -> (s: String)
    ensures
        s@ == glyph(cell),
{
    if cell == 0 {
        String::from_str("__")
    } else {
        String::from_str("\u{2588}\u{2588}")
    }
}

/// The text of one row of cells.
fn row_string(cells: &Vec<u32>, lo: usize, hi: usize) -> (s: String)
    requires
        lo <= hi <= cells@.len(),
    ensures
        s@ == row_text(cells@.subrange(lo as int, hi as int)),
{
    let mut s = String::new();
    let mut i = lo;
    while i < hi
        invariant
            lo <= i <= hi <= cells@.len(),
            s@ == row_text(cells@.subrange(lo as int, i as int)),
        decreases hi - i,
    {
        let g = repr(cells[i]);
        s.append(g.as_str());
        assert(cells@.subrange(lo as int, i + 1).drop_last() =~= cells@.subrange(lo as int, i as int));
        i = i + 1;
    }
    s
}

/// The grid drawn as text lines, `width` cells to a line.
pub fn text_rows(cells: &Vec<u32>, width: u32) -> (rows: Vec<String>)
    requires
        width > 0,
    ensures
        rows@.len() == text_lines(cells@, width as nat).len(),
        forall|k: int| 0 <= k < rows@.len() ==> #[trigger] rows@[k]@ == text_lines(cells@, width as nat)[k],
{
    let n = cells.len();
    let w = width as usize;
    let mut rows: Vec<String> = Vec::new();
    let mut start: usize = 0;
    let ghost done: Seq<Seq<char>> = Seq::empty();
    assert(cells@.subrange(0, n as int) =~= cells@);
    assert(done + text_lines(cells@, w as nat) =~= text_lines(cells@, w as nat));
    while start < n
        invariant
            n == cells@.len(),
            w == width,
            w > 0,
            start <= n,
            rows@.len() == done.len(),
            forall|k: int| 0 <= k < rows@.len() ==> #[trigger] rows@[k]@ == done[k],
            done + text_lines(cells@.subrange(start as int, n as int), w as nat) == text_lines(
                cells@,
                w as nat,
            ),
        decreases n - start,
    {
        let ghost rest = cells@.subrange(start as int, n as int);
        let end = if n - start <= w {
            n
        } else {
            start + w
        };
        let line = row_string(cells, start, end);
        if n - start <= w {
            assert(cells@.subrange(start as int, end as int) =~= rest);
            assert(cells@.subrange(end as int, n as int) =~= Seq::<u32>::empty());
        } else {
            assert(cells@.subrange(start as int, end as int) =~= rest.take(w as int));
            assert(cells@.subrange(end as int, n as int) =~= rest.skip(w as int));
        }
        proof {
            done = done.push(line@);
        }
        rows.push(line);
        start = end;
        assert(done + text_lines(cells@.subrange(start as int, n as int), w as nat) =~= text_lines(
            cells@,
            w as nat,
        ));
    }
    assert(cells@.subrange(start as int, n as int) =~= Seq::<u32>::empty());
    assert(done =~= text_lines(cells@, w as nat));
    rows
}

} // verus!
