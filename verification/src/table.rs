use vstd::prelude::*;

verus! {

use vstd::math::max;
use crate::text::{str_width, spec_run, text_width, space_run};

// ---------------------------------------------------------------------------
// Cells
// ---------------------------------------------------------------------------

/// Cell alignment inside its column.
#[derive(Clone, Copy, Debug, PartialEq, Eq, Structural)]
pub enum Align {
    Left,
    Center,
    Right,
}

/// One table cell: its text and its alignment.
pub struct Cell {
    pub text: String,
    pub align: Align,
}

/// The mathematical image of a cell.
pub ghost struct CellV {
    pub text: Seq<char>,
    pub align: Align,
}

impl View for Cell {
    type V = CellV;

    open spec fn view(&self) -> CellV {
        CellV { text: self.text@, align: self.align }
    }
}

impl Cell {
    /// A left-aligned cell.
    pub fn new(text: String) -> (r: Cell)
        ensures
            r@ == (CellV { text: text@, align: Align::Left }),
    {
        Cell { text, align: Align::Left }
    }

    /// A cell with an explicit alignment.
    pub fn aligned(text: String, align: Align) -> (r: Cell)
        ensures
            r@ == (CellV { text: text@, align }),
    {
        Cell { text, align }
    }
}

// ---------------------------------------------------------------------------
// Layout, in specification
// ---------------------------------------------------------------------------

/// The images of a row of cells.
pub open spec fn spec_cells_of(cs: Seq<Cell>) -> Seq<CellV> {
    cs.map_values(|c: Cell| c@)
}

/// The header row built from a list of titles: every title centered.
pub open spec fn spec_header_row(ts: Seq<String>) -> Seq<CellV> {
    ts.map_values(|s: String| CellV { text: s@, align: Align::Center })
}

/// The number of columns: the length of the longest row.
pub open spec fn spec_ncols(t: Seq<Seq<CellV>>) -> int
    decreases t.len(),
{
    if t.len() == 0 {
        0
    } else {
        max(spec_ncols(t.drop_last()), t.last().len() as int)
    }
}

/// The measured width of the cell at column `j` of a row (zero past its end).
pub open spec fn spec_cell_w(row: Seq<CellV>, j: int) -> int {
    if 0 <= j < row.len() {
        str_width(row[j].text) as int
    } else {
        0
    }
}

/// The natural width of column `j`: its widest cell over all rows.
pub open spec fn spec_colw(t: Seq<Seq<CellV>>, j: int) -> int
    decreases t.len(),
{
    if t.len() == 0 {
        0
    } else {
        max(spec_colw(t.drop_last(), j), spec_cell_w(t.last(), j))
    }
}

/// The sum of the first `k` natural column widths.
pub open spec fn spec_sum_colw(t: Seq<Seq<CellV>>, k: int) -> int
    decreases k,
{
    if k <= 0 {
        0
    } else {
        spec_sum_colw(t, k - 1) + spec_colw(t, k - 1)
    }
}

/// The natural rendered width: every column at its natural width, with one
/// separating space between adjacent columns.
pub open spec fn spec_natural_width(t: Seq<Seq<CellV>>) -> int {
    if spec_ncols(t) == 0 {
        0
    } else {
        spec_sum_colw(t, spec_ncols(t)) + spec_ncols(t) - 1
    }
}

/// The column widths used at a target width: the natural widths, except that
/// the last column absorbs the shortfall when the target is wider.
pub open spec fn spec_col_widths(t: Seq<Seq<CellV>>, target: int) -> Seq<int> {
    let n = spec_ncols(t);
    let nw = spec_natural_width(t);
    Seq::new(
        n as nat,
        |j: int|
            if j == n - 1 && target > nw {
                spec_colw(t, j) + (target - nw)
            } else {
                spec_colw(t, j)
            },
    )
}

/// A cell padded with spaces to width `w` (kept as it is when already wider).
pub open spec fn spec_pad(c: CellV, w: int) -> Seq<char> {
    let tw = str_width(c.text) as int;
    if tw >= w {
        c.text
    } else {
        let p = w - tw;
        match c.align {
            Align::Left => c.text + spec_run(' ', p as nat),
            Align::Right => spec_run(' ', p as nat) + c.text,
            Align::Center => spec_run(' ', (p / 2) as nat) + c.text + spec_run(
                ' ',
                (p - p / 2) as nat,
            ),
        }
    }
}

/// The empty filler cell for rows shorter than the column count.
pub open spec fn spec_empty_cell() -> CellV {
    CellV { text: Seq::empty(), align: Align::Left }
}

/// The first `k` columns of a rendered row, cells separated by one space.
pub open spec fn spec_line_prefix(row: Seq<CellV>, ws: Seq<int>, k: int) -> Seq<char>
    decreases k,
{
    if k <= 0 {
        Seq::empty()
    } else {
        let c = if k - 1 < row.len() {
            row[k - 1]
        } else {
            spec_empty_cell()
        };
        let piece = spec_pad(c, ws[k - 1]);
        if k == 1 {
            piece
        } else {
            spec_line_prefix(row, ws, k - 1) + seq![' '] + piece
        }
    }
}

/// One rendered row.
pub open spec fn spec_row_line(row: Seq<CellV>, ws: Seq<int>) -> Seq<char> {
    spec_line_prefix(row, ws, ws.len() as int)
}

/// All rendered lines of a table at a target width (a target of zero keeps
/// every column at its natural width).
pub open spec fn spec_render_lines(t: Seq<Seq<CellV>>, target: int) -> Seq<Seq<char>> {
    Seq::new(t.len(), |i: int| spec_row_line(t[i], spec_col_widths(t, target)))
}

// ---------------------------------------------------------------------------
// Small facts about the layout
// ---------------------------------------------------------------------------

pub proof fn lemma_ncols_nonneg(t: Seq<Seq<CellV>>)
    ensures
        spec_ncols(t) >= 0,
    decreases t.len(),
{
    if t.len() > 0 {
        lemma_ncols_nonneg(t.drop_last());
    }
}

pub proof fn lemma_colw_nonneg(t: Seq<Seq<CellV>>, j: int)
    ensures
        spec_colw(t, j) >= 0,
    decreases t.len(),
{
    if t.len() > 0 {
        lemma_colw_nonneg(t.drop_last(), j);
    }
}

pub proof fn lemma_sum_colw_nonneg(t: Seq<Seq<CellV>>, k: int)
    ensures
        spec_sum_colw(t, k) >= 0,
    decreases k,
{
    if k > 0 {
        lemma_sum_colw_nonneg(t, k - 1);
        lemma_colw_nonneg(t, k - 1);
    }
}

/// Every column is at most as wide as the whole sum of columns.
pub proof fn lemma_colw_le_sum(t: Seq<Seq<CellV>>, j: int, k: int)
    requires
        0 <= j < k,
    ensures
        spec_colw(t, j) <= spec_sum_colw(t, k),
    decreases k,
{
    if j == k - 1 {
        lemma_sum_colw_nonneg(t, k - 1);
    } else {
        lemma_colw_le_sum(t, j, k - 1);
        lemma_colw_nonneg(t, k - 1);
    }
}

// ---------------------------------------------------------------------------
// The table
// ---------------------------------------------------------------------------

/// A border-free grid of text cells. Rows are added in order; the grid then
/// renders as aligned columns, either at their natural width or stretched to
/// a target width.
pub struct Table {
    pub rows: Vec<Vec<Cell>>,
}

impl View for Table {
    type V = Seq<Seq<CellV>>;

    open spec fn view(&self) -> Seq<Seq<CellV>> {
        self.rows@.map_values(|r: Vec<Cell>| spec_cells_of(r@))
    }
}

impl Table {
    /// An empty table.
    pub fn new() -> (r: Table)
        ensures
            r@ == Seq::<Seq<CellV>>::empty(),
    {
        let t = Table { rows: Vec::new() };
        proof {
            assert(t@ =~= Seq::<Seq<CellV>>::empty());
        }
        t
    }

    /// Appends a row of cells.
    pub fn add_row(&mut self, cells: Vec<Cell>)
        ensures
            final(self)@ == old(self)@.push(spec_cells_of(cells@)),
    {
        self.rows.push(cells);
        proof {
            assert(self@ =~= old(self)@.push(spec_cells_of(cells@)));
        }
    }

    /// Appends a header row: every title centered.
    pub fn add_header(&mut self, titles: Vec<String>)
        ensures
            final(self)@ == old(self)@.push(spec_header_row(titles@)),
    {
        let mut cells: Vec<Cell> = Vec::new();
        let mut i: usize = 0;
        while i < titles.len()
            invariant
                i <= titles.len(),
                cells@.len() == i as int,
                forall|k: int|
                    0 <= k < i as int ==> #[trigger] cells@[k]@ == (CellV {
                        text: titles@[k]@,
                        align: Align::Center,
                    }),
            decreases titles.len() - i,
        {
            let text = titles[i].clone();
            cells.push(Cell::aligned(text, Align::Center));
            i = i + 1;
        }
        proof {
            assert(spec_cells_of(cells@) =~= spec_header_row(titles@));
        }
        self.add_row(cells);
    }

    /// The number of columns.
    pub fn ncols(&self) -> (n: usize)
        ensures
            n as int == spec_ncols(self@),
    {
        let mut n: usize = 0;
        let mut i: usize = 0;
        while i < self.rows.len()
            invariant
                i <= self.rows.len(),
                n as int == spec_ncols(self@.take(i as int)),
            decreases self.rows.len() - i,
        {
            let l = self.rows[i].len();
            if l > n {
                n = l;
            }
            i = i + 1;
            proof {
                assert(self@.take(i as int).drop_last() =~= self@.take(i as int - 1));
                assert(self@.take(i as int).last() == self@[i as int - 1]);
            }
        }
        proof {
            assert(self@.take(self@.len() as int) =~= self@);
        }
        n
    }

    /// The natural width of column `j`.
    fn col_width(&self, j: usize) -> (w: usize)
        ensures
            w as int == spec_colw(self@, j as int),
    {
        let mut w: usize = 0;
        let mut i: usize = 0;
        while i < self.rows.len()
            invariant
                i <= self.rows.len(),
                w as int == spec_colw(self@.take(i as int), j as int),
            decreases self.rows.len() - i,
        {
            if j < self.rows[i].len() {
                let tw = text_width(self.rows[i][j].text.as_str());
                if tw > w {
                    w = tw;
                }
            }
            i = i + 1;
            proof {
                assert(self@.take(i as int).drop_last() =~= self@.take(i as int - 1));
                assert(self@.take(i as int).last() == self@[i as int - 1]);
            }
        }
        proof {
            assert(self@.take(self@.len() as int) =~= self@);
        }
        w
    }

    /// The natural rendered width of the whole grid, saturating at the
    /// machine word (the width fits comfortably in practice).
    pub fn natural_width(&self) -> (w: usize)
        ensures
            spec_natural_width(self@) <= usize::MAX as int ==> w as int == spec_natural_width(
                self@,
            ),
            spec_natural_width(self@) > usize::MAX as int ==> w == usize::MAX,
    {
        let n = self.ncols();
        if n == 0 {
            return 0;
        }
        let mut acc: u128 = 0;
        let mut j: usize = 0;
        while j < n
            invariant
                j <= n,
                n as int == spec_ncols(self@),
                acc as int == spec_sum_colw(self@, j as int),
                acc as int <= (j as int) * (usize::MAX as int),
            decreases n - j,
        {
            let w = self.col_width(j);
            acc = acc + (w as u128);
            j = j + 1;
        }
        let total: u128 = acc + ((n - 1) as u128);
        proof {
            assert(total as int == spec_natural_width(self@));
        }
        if total > (usize::MAX as u128) {
            usize::MAX
        } else {
            total as usize
        }
    }

    /// The column widths used when rendering at `target`.
    fn col_widths(&self, target: usize) -> (ws: Vec<usize>)
        ensures
            ws@.len() == spec_ncols(self@),
            forall|j: int|
                0 <= j < ws@.len() ==> ws@[j] as int == spec_col_widths(self@, target as int)[j],
    {
        let n = self.ncols();
        let nw = self.natural_width();
        let extra: usize = if target > nw {
            target - nw
        } else {
            0
        };
        proof {
            if spec_natural_width(self@) > usize::MAX as int {
                assert(extra == 0);
            }
        }
        let mut ws: Vec<usize> = Vec::new();
        let mut j: usize = 0;
        while j < n
            invariant
                j <= n,
                n as int == spec_ncols(self@),
                nw as int <= spec_natural_width(self@),
                extra as int == if target as int > spec_natural_width(self@) {
                    target as int - spec_natural_width(self@)
                } else {
                    0
                },
                ws@.len() == j,
                forall|k: int|
                    0 <= k < j ==> ws@[k] as int == spec_col_widths(self@, target as int)[k],
            decreases n - j,
        {
            let mut w = self.col_width(j);
            if j == n - 1 && extra > 0 {
                proof {
                    lemma_colw_le_sum(self@, j as int, n as int);
                    lemma_ncols_nonneg(self@);
                }
                w = w + extra;
            }
            ws.push(w);
            j = j + 1;
        }
        ws
    }

    /// Renders the grid: one line per row, every column padded to its width.
    pub fn render_lines(&self, target: usize) -> (r: Vec<String>)
        ensures
            r.deep_view() == spec_render_lines(self@, target as int),
    {
        let ws = self.col_widths(target);
        let ghost gws = spec_col_widths(self@, target as int);
        let mut r: Vec<String> = Vec::new();
        let mut i: usize = 0;
        while i < self.rows.len()
            invariant
                i <= self.rows.len(),
                ws@.len() == spec_ncols(self@),
                forall|k: int| 0 <= k < ws@.len() ==> ws@[k] as int == gws[k],
                gws == spec_col_widths(self@, target as int),
                r@.len() == i,
                forall|k: int|
                    0 <= k < i ==> r@[k]@ == spec_render_lines(self@, target as int)[k],
            decreases self.rows.len() - i,
        {
            let line = row_line(&self.rows[i], &ws, Ghost(gws));
            proof {
                assert(self@[i as int] == spec_cells_of(self.rows@[i as int]@));
            }
            r.push(line);
            i = i + 1;
        }
        proof {
            assert(r.deep_view() =~= spec_render_lines(self@, target as int));
        }
        r
    }
}

/// Pads one cell's text to width `w` under its alignment.
fn pad_cell(text: &str, align: Align, w: usize) -> (s: String)
    ensures
        s@ == spec_pad(CellV { text: text@, align }, w as int),
{
    let tw = text_width(text);
    if tw >= w {
        text.to_owned()
    } else {
        let p = w - tw;
        match align {
            Align::Left => {
                let mut s = text.to_owned();
                s.append(space_run(p).as_str());
                s
            },
            Align::Right => {
                let mut s = space_run(p);
                s.append(text);
                s
            },
            Align::Center => {
                let mut s = space_run(p / 2);
                s.append(text);
                s.append(space_run(p - p / 2).as_str());
                s
            },
        }
    }
}

/// Renders one row at the given column widths.
fn row_line(row: &Vec<Cell>, ws: &Vec<usize>, gws: Ghost<Seq<int>>) -> (s: String)
    requires
        gws@.len() == ws@.len(),
        forall|k: int| 0 <= k < ws@.len() ==> ws@[k] as int == gws@[k],
    ensures
        s@ == spec_row_line(spec_cells_of(row@), gws@),
{
    let ghost rv = spec_cells_of(row@);
    let mut s = String::new();
    let mut j: usize = 0;
    proof {
        reveal_strlit(" ");
        reveal_strlit("");
        assert(" "@ =~= seq![' ']);
        assert(""@ =~= Seq::<char>::empty());
    }
    while j < ws.len()
        invariant
            j <= ws.len(),
            gws@.len() == ws@.len(),
            forall|k: int| 0 <= k < ws@.len() ==> ws@[k] as int == gws@[k],
            rv == spec_cells_of(row@),
            ""@ == Seq::<char>::empty(),
            " "@ == seq![' '],
            s@ == spec_line_prefix(rv, gws@, j as int),
        decreases ws.len() - j,
    {
        if j > 0 {
            s.append(" ");
        }
        let piece = if j < row.len() {
            pad_cell(row[j].text.as_str(), row[j].align, ws[j])
        } else {
            pad_cell("", Align::Left, ws[j])
        };
        s.append(piece.as_str());
        j = j + 1;
        proof {
            assert(s@ =~= spec_line_prefix(rv, gws@, j as int));
        }
    }
    s
}

} // verus!
