//! Per-session pane state: scroll offset, collapse flag, weight, and the
//! bounded scrollback of rendered lines.

use vstd::prelude::*;
use vstd::string::StrSliceExecFns;

verus! {

/// Longest scrollback kept per pane; oldest lines are evicted first.
pub const MAX_SCROLLBACK: usize = 10000;

/// Smallest legal pane weight.
pub const MIN_WEIGHT: u16 = 1;

/// Largest legal pane weight.
pub const MAX_WEIGHT: u16 = 50;

/// Weight a freshly created pane starts with.
pub const DEFAULT_WEIGHT: u16 = 10;

/// A color as the terminal emulator reports it for one cell.
#[derive(Clone, Copy, PartialEq, Eq, Structural, Debug)]
pub enum CellColor {
    /// The terminal's default foreground or background.
    DefaultColor,
    /// One of the 256 palette entries.
    Palette(u8),
    /// A 24-bit color, as red, green and blue.
    TrueColor(u8, u8, u8),
}

/// One cell of a rendered line, as kept in the scrollback.
#[derive(Clone, Copy, PartialEq, Eq, Structural, Debug)]
pub struct RenderedCell {
    pub ch: char,
    pub fg: CellColor,
    pub bg: CellColor,
    pub bold: bool,
    pub italic: bool,
    pub underline: bool,
}

impl Default for RenderedCell {
    /// A blank cell: a space in the default colors with no attributes.
    fn default() -> (c: RenderedCell)
        ensures
            c == blank_cell(),
    {
        RenderedCell {
            ch: ' ',
            fg: CellColor::DefaultColor,
            bg: CellColor::DefaultColor,
            bold: false,
            italic: false,
            underline: false,
        }
    }
}

/// The blank cell used where the emulator reports nothing.
pub open spec fn blank_cell() -> RenderedCell {
    RenderedCell {
        ch: ' ',
        fg: CellColor::DefaultColor,
        bg: CellColor::DefaultColor,
        bold: false,
        italic: false,
        underline: false,
    }
}

/// One cell of the live emulator grid, as handed in by the host side.
/// `text` is the cell's full content; an empty string marks an empty cell.
#[derive(Clone, PartialEq, Eq, Debug)]
pub struct GridCell {
    pub text: String,
    pub fg: CellColor,
    pub bg: CellColor,
    pub bold: bool,
    pub italic: bool,
    pub underline: bool,
}

/// How a grid cell is frozen into the scrollback: its first character,
/// or a space when the cell is empty; colors and attributes carried over.
pub open spec fn spec_cell_of_grid(g: GridCell) -> RenderedCell {
    RenderedCell {
        ch: if g.text@.len() == 0 {
            ' '
        } else {
            g.text@[0]
        },
        fg: g.fg,
        bg: g.bg,
        bold: g.bold,
        italic: g.italic,
        underline: g.underline,
    }
}

/// A row of the live grid frozen into a scrollback line, cell by cell.
pub open spec fn spec_row_of_grid(row: Seq<GridCell>) -> Seq<RenderedCell> {
    row.map_values(|g: GridCell| spec_cell_of_grid(g))
}

/// One interactive session's state, PTY and emulator handles excluded.
pub struct Pane {
    /// Stable identifier, assigned monotonically and never reused in a run.
    pub id: usize,
    /// Human label shown in the pane's title.
    pub name: String,
    /// 0 means live view; N means N lines back into the scrollback.
    pub scroll_offset: usize,
    /// Columns of the last-sized inner area.
    pub cols: u16,
    /// Rows of the last-sized inner area.
    pub rows: u16,
    /// Rendered lines ejected from the top of the emulator grid, oldest first.
    pub scrollback: Vec<Vec<RenderedCell>>,
    /// Latched true once the child exits.
    pub closed: bool,
    /// When true the pane renders at a fixed minimal height.
    pub collapsed: bool,
    /// Share of leftover vertical space, in [MIN_WEIGHT, MAX_WEIGHT].
    pub weight: u16,
}

impl Pane {
    /// The pane's internal invariant.
    pub open spec fn wf(self) -> bool {
        &&& MIN_WEIGHT <= self.weight <= MAX_WEIGHT
        &&& self.scroll_offset <= self.scrollback@.len()
        &&& self.scrollback@.len() <= MAX_SCROLLBACK
    }

    /// A fresh pane: live view, empty scrollback, open, expanded,
    /// default weight.
    pub fn new(id: usize, name: String, cols: u16, rows: u16) -> (p: Pane)
        ensures
            p.id == id,
            p.name == name,
            p.cols == cols,
            p.rows == rows,
            p.scroll_offset == 0,
            p.scrollback@.len() == 0,
            !p.closed,
            !p.collapsed,
            p.weight == DEFAULT_WEIGHT,
            p.wf(),
    {
        Pane {
            id,
            name,
            scroll_offset: 0,
            cols,
            rows,
            scrollback: Vec::new(),
            closed: false,
            collapsed: false,
            weight: DEFAULT_WEIGHT,
        }
    }

    /// Scroll `lines` further back, clamped to the scrollback length.
    pub fn scroll_up(&mut self, lines: usize)
        requires
            old(self).wf(),
        ensures
            final(self).wf(),
            *final(self) == spec_scroll_up_pane(*old(self), lines as int),
            final(self).scroll_offset == if old(self).scroll_offset + lines
                <= old(self).scrollback@.len() {
                old(self).scroll_offset + lines
            } else {
                old(self).scrollback@.len() as int
            },
            unchanged_but_scroll(*old(self), *final(self)),
    {
        let max: usize = self.scrollback.len();
        let room: usize = max - self.scroll_offset;
        if lines >= room {
            self.scroll_offset = max;
        } else {
            self.scroll_offset = self.scroll_offset + lines;
        }
    }

    /// Scroll `lines` toward the live view, stopping at 0.
    pub fn scroll_down(&mut self, lines: usize)
        requires
            old(self).wf(),
        ensures
            final(self).wf(),
            *final(self) == spec_scroll_down_pane(*old(self), lines as int),
            final(self).scroll_offset == if lines <= old(self).scroll_offset {
                old(self).scroll_offset - lines
            } else {
                0
            },
            unchanged_but_scroll(*old(self), *final(self)),
    {
        if lines >= self.scroll_offset {
            self.scroll_offset = 0;
        } else {
            self.scroll_offset = self.scroll_offset - lines;
        }
    }

    /// Record a resize: a no-op for a zero or unchanged size, otherwise the
    /// stored inner size is replaced. Returns whether the host side must
    /// resize the PTY and re-seed the emulator from the screen contents.
    pub fn resize(&mut self, cols: u16, rows: u16) -> (changed: bool)
        requires
            old(self).wf(),
        ensures
            final(self).wf(),
            changed == (cols != 0 && rows != 0 && !(cols == old(self).cols && rows == old(
                self,
            ).rows)),
            changed ==> *final(self) == (Pane { cols, rows, ..*old(self) }),
            !changed ==> *final(self) == *old(self),
    {
        if cols == 0 || rows == 0 {
            return false;
        }
        if cols == self.cols && rows == self.rows {
            return false;
        }
        self.cols = cols;
        self.rows = rows;
        true
    }

    /// Freeze the live grid into the scrollback, row by row, then evict the
    /// oldest lines beyond [`MAX_SCROLLBACK`] (first in, first out).
    pub fn snapshot_scrollback(&mut self, grid: &Vec<Vec<GridCell>>)
        requires
            old(self).wf(),
        ensures
            final(self).wf(),
            unchanged_but_scrollback(*old(self), *final(self)),
            final(self).scrollback@.len() == (if old(self).scrollback@.len() + grid@.len()
                <= MAX_SCROLLBACK {
                old(self).scrollback@.len() + grid@.len() as int
            } else {
                MAX_SCROLLBACK as int
            }),
            forall|k: int|
                0 <= k < final(self).scrollback@.len() ==> (#[trigger] final(self).scrollback@[k])@
                    == appended_row(
                    old(self).scrollback@,
                    grid@,
                    k + snapshot_excess(old(self).scrollback@.len() as int, grid@.len() as int),
                ),
    {
        let ghost old_sb = old(self).scrollback@;
        let ghost g_grid = grid@;
        let rows_n = grid.len();
        let mut ri: usize = 0;
        while ri < rows_n
            invariant
                ri <= rows_n,
                rows_n == g_grid.len(),
                grid@ == g_grid,
                old_sb == old(self).scrollback@,
                old(self).wf(),
                unchanged_but_scrollback(*old(self), *self),
                self.scrollback@.len() == old_sb.len() + ri,
                forall|k: int|
                    0 <= k < old_sb.len() ==> (#[trigger] self.scrollback@[k]) == old_sb[k],
                forall|k: int|
                    old_sb.len() <= k < self.scrollback@.len() ==> (#[trigger] self.scrollback@[
                        k
                    ])@ == spec_row_of_grid(g_grid[k - old_sb.len()]@),
            decreases rows_n - ri,
        {
            let row = &grid[ri];
            let cols_n = row.len();
            let mut line: Vec<RenderedCell> = Vec::new();
            let mut ci: usize = 0;
            while ci < cols_n
                invariant
                    ci <= cols_n,
                    cols_n == row@.len(),
                    line@.len() == ci,
                    forall|c: int|
                        0 <= c < ci ==> (#[trigger] line@[c]) == spec_cell_of_grid(row@[c]),
                decreases cols_n - ci,
            {
                line.push(cell_of_grid(&row[ci]));
                ci = ci + 1;
            }
            assert(line@ =~= spec_row_of_grid(row@));
            self.scrollback.push(line);
            ri = ri + 1;
        }
        while self.scrollback.len() > MAX_SCROLLBACK
            invariant
                old_sb == old(self).scrollback@,
                g_grid == grid@,
                old(self).wf(),
                unchanged_but_scrollback(*old(self), *self),
                self.scrollback@.len() <= old_sb.len() + g_grid.len(),
                self.scrollback@.len() >= old_sb.len() + g_grid.len() - snapshot_excess(
                    old_sb.len() as int,
                    g_grid.len() as int,
                ),
                self.scrollback@.len() >= old_sb.len() || self.scrollback@.len()
                    >= MAX_SCROLLBACK,
                forall|k: int|
                    0 <= k < self.scrollback@.len() ==> (#[trigger] self.scrollback@[k])@
                        == appended_row(
                        old_sb,
                        g_grid,
                        k + old_sb.len() + g_grid.len() - self.scrollback@.len(),
                    ),
            decreases self.scrollback@.len(),
        {
            let ghost prev = self.scrollback@;
            self.scrollback.remove(0);
            assert(forall|k: int|
                0 <= k < self.scrollback@.len() ==> (#[trigger] self.scrollback@[k]) == prev[k
                    + 1]);
        }
    }

    /// Return to the live view.
    pub fn scroll_to_bottom(&mut self)
        requires
            old(self).wf(),
        ensures
            final(self).wf(),
            final(self).scroll_offset == 0,
            unchanged_but_scroll(*old(self), *final(self)),
    {
        self.scroll_offset = 0;
    }
}

/// The pane scrolled `lines` further back, clamped to the scrollback
/// length.
pub open spec fn spec_scroll_up_pane(p: Pane, lines: int) -> Pane {
    let o: int = if p.scroll_offset + lines <= p.scrollback@.len() {
        p.scroll_offset + lines
    } else {
        p.scrollback@.len() as int
    };
    Pane { scroll_offset: o as usize, ..p }
}

/// The pane scrolled `lines` toward the live view, stopping at 0.
pub open spec fn spec_scroll_down_pane(p: Pane, lines: int) -> Pane {
    let o: int = if lines <= p.scroll_offset {
        p.scroll_offset - lines
    } else {
        0
    };
    Pane { scroll_offset: o as usize, ..p }
}

/// Rows beyond this many over the bound are evicted after a snapshot.
pub open spec fn snapshot_excess(old_len: int, grid_len: int) -> int {
    if old_len + grid_len > MAX_SCROLLBACK {
        old_len + grid_len - MAX_SCROLLBACK
    } else {
        0
    }
}

/// Row `i` of the scrollback as it stands right after a snapshot appended
/// the frozen grid, before eviction.
pub open spec fn appended_row(
    old_sb: Seq<Vec<RenderedCell>>,
    grid: Seq<Vec<GridCell>>,
    i: int,
) -> Seq<RenderedCell> {
    if i < old_sb.len() {
        old_sb[i]@
    } else {
        spec_row_of_grid(grid[i - old_sb.len()]@)
    }
}

/// Freeze one live grid cell; see [`spec_cell_of_grid`].
pub fn cell_of_grid(g: &GridCell) -> (c: RenderedCell)
    ensures
        c == spec_cell_of_grid(*g),
{
    let ch: char = if g.text.as_str().is_empty() {
        ' '
    } else {
        g.text.as_str().get_char(0)
    };
    RenderedCell { ch, fg: g.fg, bg: g.bg, bold: g.bold, italic: g.italic, underline: g.underline }
}

/// All pane fields besides the scrollback are equal.
pub open spec fn unchanged_but_scrollback(a: Pane, b: Pane) -> bool {
    &&& b.id == a.id
    &&& b.name == a.name
    &&& b.scroll_offset == a.scroll_offset
    &&& b.cols == a.cols
    &&& b.rows == a.rows
    &&& b.closed == a.closed
    &&& b.collapsed == a.collapsed
    &&& b.weight == a.weight
}

/// All pane fields besides the scroll offset are equal.
pub open spec fn unchanged_but_scroll(a: Pane, b: Pane) -> bool {
    &&& b.id == a.id
    &&& b.name == a.name
    &&& b.cols == a.cols
    &&& b.rows == a.rows
    &&& b.scrollback == a.scrollback
    &&& b.closed == a.closed
    &&& b.collapsed == a.collapsed
    &&& b.weight == a.weight
}

} // verus!
