//! The pure parts of drawing: the color mapping table, the back-scrolled
//! viewport arithmetic, and the content-row search for collapsed panes.

use vstd::prelude::*;
use crate::pane::{CellColor, GridCell};

verus! {

/// A renderer color: reset, one of the sixteen named colors, a palette
/// index, or 24-bit.
#[derive(Clone, Copy, PartialEq, Eq, Structural, Debug)]
pub enum TermColor {
    Reset,
    Black,
    Red,
    Green,
    Yellow,
    Blue,
    Magenta,
    Cyan,
    White,
    DarkGray,
    LightRed,
    LightGreen,
    LightYellow,
    LightBlue,
    LightMagenta,
    LightCyan,
    Gray,
    Indexed(u8),
    Rgb(u8, u8, u8),
}

/// The fixed mapping from emulator colors to renderer colors: default maps
/// to reset, palette indices 0..15 to the named colors, higher indices pass
/// through, RGB passes through.
pub open spec fn spec_convert_color(c: CellColor) -> TermColor {
    match c {
        CellColor::DefaultColor => TermColor::Reset,
        CellColor::Palette(idx) => if idx == 0 {
            TermColor::Black
        } else if idx == 1 {
            TermColor::Red
        } else if idx == 2 {
            TermColor::Green
        } else if idx == 3 {
            TermColor::Yellow
        } else if idx == 4 {
            TermColor::Blue
        } else if idx == 5 {
            TermColor::Magenta
        } else if idx == 6 {
            TermColor::Cyan
        } else if idx == 7 {
            TermColor::White
        } else if idx == 8 {
            TermColor::DarkGray
        } else if idx == 9 {
            TermColor::LightRed
        } else if idx == 10 {
            TermColor::LightGreen
        } else if idx == 11 {
            TermColor::LightYellow
        } else if idx == 12 {
            TermColor::LightBlue
        } else if idx == 13 {
            TermColor::LightMagenta
        } else if idx == 14 {
            TermColor::LightCyan
        } else if idx == 15 {
            TermColor::Gray
        } else {
            TermColor::Indexed(idx)
        },
        CellColor::TrueColor(r, g, b) => TermColor::Rgb(r, g, b),
    }
}

/// Map one emulator color to the renderer color; see
/// [`spec_convert_color`].
pub fn convert_color(c: CellColor) -> (r: TermColor)
    ensures
        r == spec_convert_color(c),
{
    match c {
        CellColor::DefaultColor => TermColor::Reset,
        CellColor::Palette(idx) => {
            if idx == 0 {
                TermColor::Black
            } else if idx == 1 {
                TermColor::Red
            } else if idx == 2 {
                TermColor::Green
            } else if idx == 3 {
                TermColor::Yellow
            } else if idx == 4 {
                TermColor::Blue
            } else if idx == 5 {
                TermColor::Magenta
            } else if idx == 6 {
                TermColor::Cyan
            } else if idx == 7 {
                TermColor::White
            } else if idx == 8 {
                TermColor::DarkGray
            } else if idx == 9 {
                TermColor::LightRed
            } else if idx == 10 {
                TermColor::LightGreen
            } else if idx == 11 {
                TermColor::LightYellow
            } else if idx == 12 {
                TermColor::LightBlue
            } else if idx == 13 {
                TermColor::LightMagenta
            } else if idx == 14 {
                TermColor::LightCyan
            } else if idx == 15 {
                TermColor::Gray
            } else {
                TermColor::Indexed(idx)
            }
        },
        CellColor::TrueColor(r, g, b) => TermColor::Rgb(r, g, b),
    }
}

/// First virtual row shown in a back-scrolled view. The virtual stream is
/// the scrollback followed by the live grid rows; the window of `height`
/// rows ends `scroll_offset` rows before its end.
pub open spec fn spec_view_start(
    scrollback_len: int,
    rows: int,
    scroll_offset: int,
    height: int,
) -> int {
    let end = spec_view_end(scrollback_len, rows, scroll_offset);
    if end - height >= 0 {
        end - height
    } else {
        0
    }
}

/// One past the last virtual row shown in a back-scrolled view.
pub open spec fn spec_view_end(scrollback_len: int, rows: int, scroll_offset: int) -> int {
    let total = scrollback_len + rows;
    if total - scroll_offset >= 0 {
        total - scroll_offset
    } else {
        0
    }
}

/// The half-open range of virtual rows a back-scrolled view displays.
pub fn visible_row_range(
    scrollback_len: usize,
    rows: u16,
    scroll_offset: usize,
    height: u16,
) -> (r: (usize, usize))
    requires
        scrollback_len + rows <= usize::MAX,
    ensures
        r.0 as int == spec_view_start(
            scrollback_len as int,
            rows as int,
            scroll_offset as int,
            height as int,
        ),
        r.1 as int == spec_view_end(scrollback_len as int, rows as int, scroll_offset as int),
        r.0 <= r.1,
        r.1 - r.0 <= height,
        r.1 <= scrollback_len + rows,
    {
    let total: usize = scrollback_len + rows as usize;
    let end: usize = if total >= scroll_offset {
        total - scroll_offset
    } else {
        0
    };
    let start: usize = if end >= height as usize {
        end - height as usize
    } else {
        0
    };
    (start, end)
}

/// Where one displayed row of a back-scrolled view comes from.
#[derive(Clone, Copy, PartialEq, Eq, Structural, Debug)]
pub enum RowSource {
    /// A saved scrollback line, by its index.
    FromScrollback(usize),
    /// A live grid row, by its index.
    FromLive(u16),
}

/// The sources of the rows a back-scrolled view displays, top to bottom:
/// virtual rows below the scrollback length come from the scrollback, the
/// rest from the live grid.
pub fn view_row_sources(
    scrollback_len: usize,
    rows: u16,
    scroll_offset: usize,
    height: u16,
) -> (r: Vec<RowSource>)
    requires
        scrollback_len + rows <= usize::MAX,
    ensures
        r@.len() == spec_view_end(scrollback_len as int, rows as int, scroll_offset as int)
            - spec_view_start(
            scrollback_len as int,
            rows as int,
            scroll_offset as int,
            height as int,
        ),
        r@.len() <= height,
        forall|k: int|
            0 <= k < r@.len() ==> (#[trigger] r@[k]) == {
                let src = spec_view_start(
                    scrollback_len as int,
                    rows as int,
                    scroll_offset as int,
                    height as int,
                ) + k;
                if src < scrollback_len {
                    RowSource::FromScrollback(src as usize)
                } else {
                    RowSource::FromLive((src - scrollback_len) as u16)
                }
            },
    {
    let range = visible_row_range(scrollback_len, rows, scroll_offset, height);
    let start = range.0;
    let end = range.1;
    let mut r: Vec<RowSource> = Vec::new();
    let mut src: usize = start;
    while src < end
        invariant
            start <= src <= end,
            end <= scrollback_len + rows,
            r@.len() == src - start,
            forall|k: int|
                0 <= k < r@.len() ==> (#[trigger] r@[k]) == (if start + k < scrollback_len {
                    RowSource::FromScrollback((start + k) as usize)
                } else {
                    RowSource::FromLive((start + k - scrollback_len) as u16)
                }),
        decreases end - src,
    {
        if src < scrollback_len {
            r.push(RowSource::FromScrollback(src));
        } else {
            r.push(RowSource::FromLive((src - scrollback_len) as u16));
        }
        src = src + 1;
    }
    r
}

/// A grid row with no content: every cell's text is empty.
pub open spec fn spec_row_blank(row: Seq<GridCell>) -> bool {
    forall|c: int| 0 <= c < row.len() ==> (#[trigger] row[c]).text@.len() == 0
}

fn row_blank(row: &Vec<GridCell>) -> (b: bool)
    ensures
        b == spec_row_blank(row@),
{
    let n = row.len();
    let mut c: usize = 0;
    loop
        invariant
            c <= n,
            n == row@.len(),
            forall|j: int| 0 <= j < c ==> (#[trigger] row@[j]).text@.len() == 0,
        ensures
            c == n || row@[c as int].text@.len() > 0,
            c == n ==> spec_row_blank(row@),
        decreases n - c,
    {
        if c >= n {
            break;
        }
        if !row[c].text.as_str().is_empty() {
            break;
        }
        c = c + 1;
    }
    c == n
}

/// The grid row a collapsed pane displays: the last row with any content,
/// else the cursor row clamped into the grid.
pub fn last_content_row(grid: &Vec<Vec<GridCell>>, cursor_row: usize) -> (r: usize)
    requires
        grid@.len() > 0,
    ensures
        r < grid@.len(),
        (exists|i: int| 0 <= i < grid@.len() && !spec_row_blank(grid@[i]@)) ==> {
            &&& !spec_row_blank(grid@[r as int]@)
            &&& forall|j: int| r < j < grid@.len() ==> spec_row_blank((#[trigger] grid@[j])@)
        },
        (forall|i: int| 0 <= i < grid@.len() ==> spec_row_blank((#[trigger] grid@[i])@)) ==> r
            == (if cursor_row < grid@.len() {
            cursor_row as int
        } else {
            grid@.len() - 1
        }),
    {
    let n = grid.len();
    let mut i: usize = n;
    loop
        invariant
            i <= n,
            n == grid@.len(),
            n > 0,
            forall|j: int| i <= j < n ==> spec_row_blank((#[trigger] grid@[j])@),
        ensures
            i == 0 || !spec_row_blank(grid@[i as int - 1]@),
            forall|j: int| i <= j < n ==> spec_row_blank((#[trigger] grid@[j])@),
        decreases i,
    {
        if i == 0 {
            break;
        }
        if !row_blank(&grid[i - 1]) {
            break;
        }
        i = i - 1;
    }
    if i > 0 {
        i - 1
    } else {
        if cursor_row < n {
            cursor_row
        } else {
            n - 1
        }
    }
}

} // verus!
