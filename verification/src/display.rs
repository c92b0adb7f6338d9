//! Layout decisions of the full-screen views: task view columns and cell
//! text fitting, project table columns, and graph glyphs.
use vstd::prelude::*;

use crate::geometry::Rect;
use crate::text::{chars_of, push_char, push_range, string_of_range};
use crate::width::{char_width, str_width, unicode_char_width, unicode_str_width};

verus! {

/// Columns of the checkbox cell of a task row.
pub const CHECKBOX_WIDTH: usize = 4;

/// Columns of the priority cell.
pub const PRIORITY_WIDTH: usize = 3;

/// Columns of the due date cell.
pub const DATE_WIDTH: usize = 13;

/// Columns between two cells.
pub const COLUMN_GAP: usize = 2;

/// The task text keeps at least this many columns while optional cells fit.
pub const MIN_TEXT_WIDTH: usize = 12;

/// Narrowest note name cell.
pub const MIN_NOTE_WIDTH: usize = 10;

/// Widest note name cell.
pub const MAX_NOTE_WIDTH: usize = 28;

/// Column widths for one task row. Columns to the right of the text are
/// dropped one by one as the terminal narrows so the task text always keeps
/// a readable minimum.
#[derive(Debug, Clone, Copy, PartialEq, Eq, Structural)]
pub struct Columns {
    pub text: usize,
    pub priority: bool,
    pub date: bool,
    pub note: usize,
}

/// Columns taken by the cells right of the text, with their gaps.
pub open spec fn trailing_cells(priority: bool, date: bool, note: int) -> int {
    (if priority {
        5int
    } else {
        0
    }) + (if date {
        15int
    } else {
        0
    }) + (if note > 0 {
        2 + note
    } else {
        0
    })
}

/// The note cell width a fresh layout starts from: a quarter of the row,
/// between the minimum and maximum.
pub open spec fn initial_note_width(available: int) -> int {
    let q = available / 4;
    if q < 10 {
        10
    } else if q > 28 {
        28
    } else {
        q
    }
}

/// The columns for a row of `available` columns: the note cell goes first,
/// then the date, then the priority, until the text keeps twelve columns; if
/// even the bare row is that narrow, the text gets what the checkbox leaves.
pub open spec fn columns_for(available: int) -> Columns {
    let n = initial_note_width(available);
    if available >= 4 + trailing_cells(true, true, n) + 12 {
        Columns { text: (available - 4 - trailing_cells(true, true, n)) as usize, priority: true, date: true, note: n as usize }
    } else if available >= 4 + trailing_cells(true, true, 0) + 12 {
        Columns { text: (available - 4 - trailing_cells(true, true, 0)) as usize, priority: true, date: true, note: 0 }
    } else if available >= 4 + trailing_cells(true, false, 0) + 12 {
        Columns { text: (available - 4 - trailing_cells(true, false, 0)) as usize, priority: true, date: false, note: 0 }
    } else if available >= 4 {
        Columns { text: (available - 4) as usize, priority: false, date: false, note: 0 }
    } else {
        Columns { text: 0, priority: false, date: false, note: 0 }
    }
}

impl Columns {
    /// Lay out a row of `available` columns.
    pub fn fit(available: usize) -> (c: Columns)
        ensures
            c == columns_for(available as int),
    {
        let quarter = available / 4;
        let note = if quarter < MIN_NOTE_WIDTH {
            MIN_NOTE_WIDTH
        } else if quarter > MAX_NOTE_WIDTH {
            MAX_NOTE_WIDTH
        } else {
            quarter
        };
        let mut columns = Columns { text: 0, priority: true, date: true, note };
        loop
            invariant
                columns.text == 0,
                columns.note == 0 || columns.note == initial_note_width(available as int),
                columns.note > 0 ==> columns.date && columns.priority,
                columns.date ==> columns.priority,
                columns.note == initial_note_width(available as int) ==> columns.date,
                !columns.date ==> columns.note == 0,
                columns_for(available as int) == if columns.note > 0 {
                    columns_for(available as int)
                } else if columns.date {
                    if available >= 4 + trailing_cells(true, true, initial_note_width(available as int)) + 12 {
                        Columns { text: 0, priority: true, date: true, note: 0 }
                    } else {
                        columns_for(available as int)
                    }
                } else {
                    columns_for(available as int)
                },
                columns.note == 0 && columns.date ==> available < 4 + trailing_cells(
                    true,
                    true,
                    initial_note_width(available as int),
                ) + 12,
                !columns.date && columns.priority ==> available < 4 + trailing_cells(true, true, 0) + 12,
                !columns.priority ==> available < 4 + trailing_cells(true, false, 0) + 12,
            decreases (if columns.note > 0 {
                3int
            } else {
                0
            }) + (if columns.date {
                1int
            } else {
                0
            }) + (if columns.priority {
                1int
            } else {
                0
            }),
        {
            let used = CHECKBOX_WIDTH + columns.trailing_width();
            if available >= used + MIN_TEXT_WIDTH {
                columns.text = available - used;
                return columns;
            }
            if columns.note > 0 {
                columns.note = 0;
            } else if columns.date {
                columns.date = false;
            } else if columns.priority {
                columns.priority = false;
            } else {
                columns.text = if available > CHECKBOX_WIDTH {
                    available - CHECKBOX_WIDTH
                } else {
                    0
                };
                return columns;
            }
        }
    }

    /// Columns taken by the cells right of the text, with their gaps.
    pub fn trailing_width(self) -> (w: usize)
        requires
            self.note <= MAX_NOTE_WIDTH,
        ensures
            w == trailing_cells(self.priority, self.date, self.note as int),
    {
        let mut width: usize = 0;
        if self.priority {
            width += COLUMN_GAP + PRIORITY_WIDTH;
        }
        if self.date {
            width += COLUMN_GAP + DATE_WIDTH;
        }
        if self.note > 0 {
            width += COLUMN_GAP + self.note;
        }
        width
    }
}

/// Length of the longest prefix of `cs[k..]` whose characters (control
/// characters counting zero) fit in `room` columns, starting from `used`.
pub open spec fn fitting_prefix(cs: Seq<char>, k: int, used: int, room: int) -> int
    decreases cs.len() - k,
{
    if k < 0 || k >= cs.len() {
        k
    } else {
        let w = match unicode_char_width(cs[k]) {
            Some(x) => x as int,
            None => 0,
        };
        if used + w > room {
            k
        } else {
            fitting_prefix(cs, k + 1, used + w, room)
        }
    }
}

/// The text as shown in `width` columns: unchanged when it fits, otherwise
/// the longest prefix that leaves one column free, followed by `…`.
pub open spec fn truncated(text: Seq<char>, width: int) -> Seq<char> {
    if width == 0 {
        Seq::empty()
    } else if unicode_str_width(text) <= width {
        text
    } else {
        text.take(fitting_prefix(text, 0, 0, width - 1)).push('…')
    }
}

/// Truncate `text` to at most `width` terminal columns, ending it with an
/// ellipsis when it does not fit.
pub fn truncate(text: &str, width: usize) -> (r: String)
    ensures
        r@ == truncated(text@, width as int),
{
    if width == 0 {
        return String::new();
    }
    if str_width(text) <= width {
        return text.to_owned();
    }
    let cs = chars_of(text);
    let mut used: usize = 0;
    let mut end: usize = 0;
    while end < cs.len()
        invariant
            end <= cs@.len(),
            used <= width - 1,
            width > 0,
            fitting_prefix(cs@, 0, 0, width - 1) == fitting_prefix(cs@, end as int, used as int, width - 1),
        ensures
            fitting_prefix(cs@, 0, 0, width - 1) == end as int,
            end <= cs@.len(),
        decreases cs@.len() - end,
    {
        let w = match char_width(cs[end]) {
            Some(x) => x,
            None => 0,
        };
        if w > width - 1 - used {
            break;
        }
        used += w;
        end += 1;
    }
    let mut out = string_of_range(cs.as_slice(), 0, end);
    push_char(&mut out, '…');
    assert(cs@.subrange(0, end as int) =~= cs@.take(end as int));
    out
}

/// The text truncated to `width` columns and padded with spaces so that it
/// measures `width` columns.
pub open spec fn fitted(text: Seq<char>, width: int) -> Seq<char> {
    let t = truncated(text, width);
    let used = unicode_str_width(t);
    if used < width {
        t + Seq::new((width - used) as nat, |i: int| ' ')
    } else {
        t
    }
}

/// Truncate `text` to at most `width` terminal columns (with an ellipsis when
/// it does not fit) and pad it with spaces to exactly `width` columns so
/// columns stay aligned regardless of glyph widths.
pub fn fit(text: &str, width: usize) -> (r: String)
    ensures
        r@ == fitted(text@, width as int),
{
    let mut fitted_text = truncate(text, width);
    let used = str_width(fitted_text.as_str());
    if used < width {
        let ghost base = fitted_text@;
        let pad = width - used;
        let mut k: usize = 0;
        while k < pad
            invariant
                k <= pad,
                fitted_text@ == base + Seq::new(k as nat, |i: int| ' '),
            decreases pad - k,
        {
            push_char(&mut fitted_text, ' ');
            assert(base + Seq::new((k + 1) as nat, |i: int| ' ') =~= (base + Seq::new(
                k as nat,
                |i: int| ' ',
            )).push(' '));
            k += 1;
        }
    }
    fitted_text
}

/// How many project table columns fit in `width` terminal columns: one per
/// fourteen, at least one.
pub fn columns_that_fit(width: u16) -> (n: usize)
    ensures
        n == if width / 14 > 1 {
            width / 14
        } else {
            1
        },
{
    let n = width as usize / 14;
    if n > 1 {
        n
    } else {
        1
    }
}

/// How much of the graph is drawn: dots, compact markers, or boxed nodes
/// with labels.
#[derive(Debug, Clone, Copy, PartialEq, Eq, Structural)]
pub enum DetailLevel {
    Overview,
    Compact,
    Detail,
}

/// A group of nodes that share one cell in the overview.
#[derive(Debug, Clone, Copy)]
pub struct OverviewBin {
    pub representative: usize,
    pub count: usize,
    pub selected: bool,
    pub root: bool,
    pub connected: bool,
}

/// The glyph of an overview cell: the selected node, the root, a cluster of
/// four or more nodes, or a single dot. None of them is an edge glyph.
pub fn overview_glyph(bin: OverviewBin) -> (c: char)
    ensures
        c == if bin.selected {
            '◆'
        } else if bin.root {
            '◇'
        } else if bin.count >= 4 {
            '●'
        } else {
            '•'
        },
{
    if bin.selected {
        '◆'
    } else if bin.root {
        '◇'
    } else if bin.count >= 4 {
        '●'
    } else {
        '•'
    }
}

/// Edge direction bit: the stroke leaves the cell upwards.
pub const EDGE_NORTH: u8 = 1;

/// Edge direction bit: the stroke leaves the cell to the right.
pub const EDGE_EAST: u8 = 2;

/// Edge direction bit: the stroke leaves the cell downwards.
pub const EDGE_SOUTH: u8 = 4;

/// Edge direction bit: the stroke leaves the cell to the left.
pub const EDGE_WEST: u8 = 8;

/// The box-drawing glyph for a set of edge directions: the exact glyph for
/// each combination of two, three or four directions, a cross for other mixes
/// of horizontal and vertical, and a straight stroke otherwise.
pub open spec fn edge_glyph_of(d: u8) -> char {
    if d == 10 {
        '─'
    } else if d == 5 {
        '│'
    } else if d == 6 {
        '╭'
    } else if d == 12 {
        '╮'
    } else if d == 3 {
        '╰'
    } else if d == 9 {
        '╯'
    } else if d == 7 {
        '├'
    } else if d == 14 {
        '┬'
    } else if d == 13 {
        '┤'
    } else if d == 11 {
        '┴'
    } else if d == 15 {
        '┼'
    } else if d & 10 != 0 && d & 5 != 0 {
        '┼'
    } else if d & 10 != 0 {
        '─'
    } else {
        '│'
    }
}

/// The box-drawing glyph for a set of edge directions.
pub fn edge_glyph(directions: u8) -> (c: char)
    ensures
        c == edge_glyph_of(directions),
{
    if directions == 10 {
        '─'
    } else if directions == 5 {
        '│'
    } else if directions == 6 {
        '╭'
    } else if directions == 12 {
        '╮'
    } else if directions == 3 {
        '╰'
    } else if directions == 9 {
        '╯'
    } else if directions == 7 {
        '├'
    } else if directions == 14 {
        '┬'
    } else if directions == 13 {
        '┤'
    } else if directions == 11 {
        '┴'
    } else if directions == 15 {
        '┼'
    } else if directions & 10 != 0 && directions & 5 != 0 {
        '┼'
    } else if directions & 10 != 0 {
        '─'
    } else {
        '│'
    }
}

/// One of the glyphs edges are drawn with.
pub open spec fn is_edge_char(c: char) -> bool {
    c == '─' || c == '│' || c == '╭' || c == '╮' || c == '╰' || c == '╯' || c == '├' || c == '┬'
        || c == '┤' || c == '┴' || c == '┼'
}

/// Whether a rendered cell symbol is an edge glyph.
pub fn is_edge_glyph(symbol: &str) -> (b: bool)
    ensures
        b == (symbol@.len() == 1 && is_edge_char(symbol@[0])),
{
    let cs = chars_of(symbol);
    if cs.len() != 1 {
        return false;
    }
    let c = cs[0];
    c == '─' || c == '│' || c == '╭' || c == '╮' || c == '╰' || c == '╯' || c == '├' || c == '┬'
        || c == '┤' || c == '┴' || c == '┼'
}

/// Where edges attach to a node drawn at `position`: the node's cell in the
/// overview and compact levels, the middle of its box at the detail level.
pub fn edge_anchor(position: (i32, i32), level: DetailLevel) -> (r: (i32, i32))
    requires
        level == DetailLevel::Detail ==> position.0 < i32::MAX && position.1 < i32::MAX,
    ensures
        r == if level == DetailLevel::Detail {
            ((position.0 + 1) as i32, (position.1 + 1) as i32)
        } else {
            position
        },
{
    match level {
        DetailLevel::Overview => position,
        DetailLevel::Compact => position,
        DetailLevel::Detail => (position.0 + 1, position.1 + 1),
    }
}

/// Right edge (exclusive) of a rectangle, capped at the largest coordinate.
pub open spec fn rect_right(r: Rect) -> int {
    if r.x + r.width > u16::MAX {
        u16::MAX as int
    } else {
        r.x + r.width
    }
}

/// Bottom edge (exclusive) of a rectangle, capped at the largest coordinate.
pub open spec fn rect_bottom(r: Rect) -> int {
    if r.y + r.height > u16::MAX {
        u16::MAX as int
    } else {
        r.y + r.height
    }
}

/// Whether the cell at `(x, y)` lies in `area`.
pub fn contains(area: Rect, x: i32, y: i32) -> (b: bool)
    ensures
        b == (area.x <= x < rect_right(area) && area.y <= y < rect_bottom(area)),
{
    let right: i32 = if area.x as i32 + area.width as i32 > 65535 {
        65535
    } else {
        area.x as i32 + area.width as i32
    };
    let bottom: i32 = if area.y as i32 + area.height as i32 > 65535 {
        65535
    } else {
        area.y as i32 + area.height as i32
    };
    x >= area.x as i32 && x < right && y >= area.y as i32 && y < bottom
}

/// How many node labels the graph draws: none below the detail level or
/// when nodes crowd the screen (more than one per 24 cells, with at least 8
/// allowed); otherwise one per visible node, at most one per 64 cells
/// (between 1 and 48).
pub fn label_budget(level: DetailLevel, visible_nodes: usize, area: Rect) -> (n: usize)
    ensures
        ({
            let cells = if area.width * area.height > 1 {
                area.width * area.height
            } else {
                1
            };
            let comfortable = if cells / 24 > 8 {
                cells / 24
            } else {
                8
            };
            let cap = if cells / 64 < 1 {
                1
            } else if cells / 64 > 48 {
                48
            } else {
                cells / 64
            };
            n == if level != DetailLevel::Detail || visible_nodes == 0 || visible_nodes > comfortable {
                0
            } else if visible_nodes < cap {
                visible_nodes as int
            } else {
                cap
            }
        }),
{
    if level != DetailLevel::Detail || visible_nodes == 0 {
        return 0;
    }
    let w = area.width as u32;
    let h = area.height as u32;
    assert(w * h <= 65535 * 65535) by (nonlinear_arith)
        requires
            w <= 65535,
            h <= 65535,
    ;
    let product: u32 = w * h;
    let cells: usize = if product > 1 {
        product as usize
    } else {
        1
    };
    let comfortable = if cells / 24 > 8 {
        cells / 24
    } else {
        8
    };
    if visible_nodes > comfortable {
        return 0;
    }
    let cap = if cells / 64 < 1 {
        1
    } else if cells / 64 > 48 {
        48
    } else {
        cells / 64
    };
    if visible_nodes < cap {
        visible_nodes
    } else {
        cap
    }
}

} // verus!
