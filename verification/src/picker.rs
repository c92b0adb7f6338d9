//! The result list of the search picker: moving the selection with
//! wrap-around, keeping it in the scrolled window, and finding the result
//! under a click; and where the mouse stands in the editor pane.
use vstd::prelude::*;

use crate::config::{bottom_inset_of, StyleMode};
use crate::geometry::Rect;

verus! {

/// Whether the picker searches file names or note contents.
#[derive(Debug, Clone, Copy, PartialEq, Eq, Structural)]
pub enum SearchPickerMode {
    Files,
    Content,
}

/// Rows of file results the picker shows at once.
pub const MAX_VISIBLE_FILES: usize = 10;

/// Rows of content results the picker shows at once.
pub const MAX_VISIBLE_CONTENT: usize = 18;

/// Rows of results shown at once in `mode`.
pub open spec fn max_visible(mode: SearchPickerMode) -> int {
    match mode {
        SearchPickerMode::Files => 10,
        SearchPickerMode::Content => 18,
    }
}

/// The file result drawn on `row` (counted from result `i`), where a result
/// with a folder hint takes two rows and any other one row; `None` when the
/// results run out first.
pub open spec fn file_at_row(hints: Seq<bool>, i: int, row: int) -> Option<int>
    decreases hints.len() - i,
{
    if i < 0 || i >= hints.len() {
        None
    } else {
        let lines = if hints[i] {
            2int
        } else {
            1int
        };
        if row < lines {
            Some(i)
        } else {
            file_at_row(hints, i + 1, row - lines)
        }
    }
}

/// The entry after `i` among `n`, wrapping from the last to the first.
pub open spec fn wrap_next(i: int, n: int) -> int {
    if i >= n - 1 {
        0
    } else {
        i + 1
    }
}

/// The entry before `i` among `n`, wrapping from the first to the last.
pub open spec fn wrap_prev(i: int, n: int) -> int {
    if i == 0 {
        n - 1
    } else {
        i - 1
    }
}

/// Moving the selection down and then up (or up and then down) in a
/// wrapping list comes back to where it was.
pub proof fn lemma_next_then_previous(i: int, n: int)
    requires
        0 <= i < n,
    ensures
        wrap_prev(wrap_next(i, n), n) == i,
        wrap_next(wrap_prev(i, n), n) == i,
{
}

/// The result list of the open search picker: its mode, for each file
/// result whether it shows a folder hint, the number of content results,
/// the selected result, the first result shown, and the last click (its time
/// in milliseconds and the result it hit).
pub struct PickerList {
    pub mode: SearchPickerMode,
    pub file_folder_hints: Vec<bool>,
    pub content_count: usize,
    pub selected_index: usize,
    pub scroll_offset: usize,
    pub last_click: Option<(u64, usize)>,
}

impl PickerList {
    /// The number of results in the current mode.
    pub open spec fn results_len(&self) -> int {
        match self.mode {
            SearchPickerMode::Files => self.file_folder_hints.len() as int,
            SearchPickerMode::Content => self.content_count as int,
        }
    }

    /// Everything but the selection and the scroll is as in `other`.
    pub open spec fn same_results(&self, other: PickerList) -> bool {
        &&& self.mode == other.mode
        &&& self.file_folder_hints@ == other.file_folder_hints@
        &&& self.content_count == other.content_count
    }

    fn len_and_window(&self) -> (r: (usize, usize))
        ensures
            r.0 == self.results_len(),
            r.1 == max_visible(self.mode),
    {
        match self.mode {
            SearchPickerMode::Files => (self.file_folder_hints.len(), MAX_VISIBLE_FILES),
            SearchPickerMode::Content => (self.content_count, MAX_VISIBLE_CONTENT),
        }
    }

    /// Selects the previous result. From the first it wraps to the last and
    /// scrolls to the end of the list; otherwise the window follows the
    /// selection up. Nothing happens without results.
    pub fn search_picker_select_prev(&mut self)
        ensures
            final(self).same_results(*old(self)),
            final(self).last_click == old(self).last_click,
            old(self).results_len() == 0 ==> final(self).selected_index == old(self).selected_index
                && final(self).scroll_offset == old(self).scroll_offset,
            old(self).results_len() > 0 ==> final(self).selected_index == wrap_prev(
                old(self).selected_index as int,
                old(self).results_len(),
            ),
            old(self).results_len() > 0 && old(self).selected_index == 0 ==> {
                &&& final(self).scroll_offset == if old(self).results_len() > max_visible(old(self).mode) {
                    old(self).results_len() - max_visible(old(self).mode)
                } else {
                    0
                }
            },
            old(self).results_len() > 0 && old(self).selected_index > 0 ==> {
                &&& final(self).scroll_offset == if old(self).selected_index - 1 < old(self).scroll_offset {
                    old(self).selected_index - 1
                } else {
                    old(self).scroll_offset as int
                }
            },
    {
        let (len, window) = self.len_and_window();
        if len == 0 {
            return;
        }
        if self.selected_index > 0 {
            self.selected_index -= 1;
        } else {
            self.selected_index = len - 1;
            self.scroll_offset = if len > window {
                len - window
            } else {
                0
            };
            return;
        }
        if self.selected_index < self.scroll_offset {
            self.scroll_offset = self.selected_index;
        }
    }

    /// Selects the next result. From the last it wraps to the first and
    /// scrolls to the top; otherwise the window follows the selection down.
    /// Nothing happens without results.
    pub fn search_picker_select_next(&mut self)
        requires
            old(self).scroll_offset + max_visible(old(self).mode) <= usize::MAX,
        ensures
            final(self).same_results(*old(self)),
            final(self).last_click == old(self).last_click,
            old(self).results_len() == 0 ==> final(self).selected_index == old(self).selected_index
                && final(self).scroll_offset == old(self).scroll_offset,
            old(self).results_len() > 0 ==> final(self).selected_index == wrap_next(
                old(self).selected_index as int,
                old(self).results_len(),
            ),
            old(self).results_len() > 0 && old(self).selected_index >= old(self).results_len() - 1
                ==> final(self).scroll_offset == 0,
            old(self).results_len() > 0 && old(self).selected_index < old(self).results_len() - 1 ==> {
                &&& final(self).scroll_offset == if old(self).selected_index + 1 >= old(self).scroll_offset + max_visible(
                    old(self).mode,
                ) {
                    old(self).selected_index + 1 - max_visible(old(self).mode) + 1
                } else {
                    old(self).scroll_offset as int
                }
            },
    {
        let (len, window) = self.len_and_window();
        if len == 0 {
            return;
        }
        if self.selected_index < len - 1 {
            self.selected_index += 1;
        } else {
            self.selected_index = 0;
            self.scroll_offset = 0;
            return;
        }
        let visible_end = self.scroll_offset + window;
        if self.selected_index >= visible_end {
            self.scroll_offset = self.selected_index - window + 1;
        }
    }

    /// Scrolls the results up one row, stopping at the top.
    pub fn search_picker_scroll_up(&mut self)
        ensures
            final(self).same_results(*old(self)),
            final(self).last_click == old(self).last_click,
            final(self).selected_index == old(self).selected_index,
            final(self).scroll_offset == if old(self).scroll_offset > 0 {
                old(self).scroll_offset - 1
            } else {
                0
            },
    {
        if self.scroll_offset > 0 {
            self.scroll_offset -= 1;
        }
    }

    /// Scrolls the results down one row while results remain below the
    /// window.
    pub fn search_picker_scroll_down(&mut self)
        requires
            old(self).scroll_offset + max_visible(old(self).mode) <= usize::MAX,
        ensures
            final(self).same_results(*old(self)),
            final(self).last_click == old(self).last_click,
            final(self).selected_index == old(self).selected_index,
            final(self).scroll_offset == if old(self).scroll_offset + max_visible(old(self).mode)
                < old(self).results_len() {
                old(self).scroll_offset + 1
            } else {
                old(self).scroll_offset as int
            },
    {
        let (len, window) = self.len_and_window();
        if self.scroll_offset + window < len {
            self.scroll_offset += 1;
        }
    }

    /// The result drawn on `row` of the results area: among content results
    /// the row counts from the first result shown; among file results, the
    /// one whose rows (two with a folder hint) cover it, or the row counted
    /// the same way when the results run out.
    pub open spec fn result_at_row(&self, row: int) -> int {
        match self.mode {
            SearchPickerMode::Content => self.scroll_offset + row,
            SearchPickerMode::Files => match file_at_row(self.file_folder_hints@, self.scroll_offset as int, row) {
                Some(i) => i,
                None => self.scroll_offset + row,
            },
        }
    }

    /// Handles a click at (`x`, `y`) at time `now_ms`: outside
    /// `results_area`, or below the last result, it gives 0 and changes
    /// nothing. On a result it selects it, records the click, and gives 2
    /// when the previous click hit the same result less than 400 ms before,
    /// else 1.
    pub fn search_picker_click(&mut self, x: u16, y: u16, results_area: Rect, now_ms: u64) -> (r: u8)
        requires
            results_area.x + results_area.width <= u16::MAX,
            results_area.y + results_area.height <= u16::MAX,
            old(self).scroll_offset + u16::MAX <= usize::MAX,
        ensures
            final(self).same_results(*old(self)),
            final(self).scroll_offset == old(self).scroll_offset,
            ({
                let inside = results_area.x <= x < results_area.x + results_area.width && results_area.y <= y
                    < results_area.y + results_area.height;
                let hit = old(self).result_at_row(y - results_area.y);
                if inside && hit < old(self).results_len() {
                    let double = match old(self).last_click {
                        Some((t, i)) => i == hit && (if now_ms >= t {
                            now_ms - t
                        } else {
                            0
                        }) < 400,
                        None => false,
                    };
                    &&& final(self).selected_index == hit
                    &&& final(self).last_click == Some((now_ms, hit as usize))
                    &&& r == if double {
                        2u8
                    } else {
                        1u8
                    }
                } else {
                    &&& r == 0
                    &&& final(self).selected_index == old(self).selected_index
                    &&& final(self).last_click == old(self).last_click
                }
            }),
    {
        if x < results_area.x || x >= results_area.x + results_area.width || y < results_area.y || y
            >= results_area.y + results_area.height {
            return 0;
        }
        let clicked_row = (y - results_area.y) as usize;
        let clicked_index = match self.mode {
            SearchPickerMode::Content => self.scroll_offset + clicked_row,
            SearchPickerMode::Files => {
                let n = self.file_folder_hints.len();
                let ghost hints = self.file_folder_hints@;
                let mut accumulated: usize = 0;
                let mut target: Option<usize> = None;
                let mut i = self.scroll_offset;
                while i < n
                    invariant_except_break
                        target is None,
                    invariant
                        n == hints.len(),
                        hints == self.file_folder_hints@,
                        self.scroll_offset <= i || n <= self.scroll_offset,
                        accumulated <= clicked_row,
                        accumulated <= 2 * (i - self.scroll_offset),
                        i <= n || n <= self.scroll_offset,
                        file_at_row(hints, self.scroll_offset as int, clicked_row as int) == file_at_row(
                            hints,
                            i as int,
                            clicked_row - accumulated,
                        ),
                    ensures
                        target is Some ==> file_at_row(hints, self.scroll_offset as int, clicked_row as int) == Some(target->0 as int),
                        target is None ==> file_at_row(hints, self.scroll_offset as int, clicked_row as int) is None,
                    decreases n - i,
                {
                    let lines: usize = if self.file_folder_hints[i] {
                        2
                    } else {
                        1
                    };
                    if clicked_row - accumulated < lines {
                        target = Some(i);
                        break;
                    }
                    accumulated += lines;
                    i += 1;
                }
                match target {
                    Some(t) => t,
                    None => self.scroll_offset + clicked_row,
                }
            },
        };
        let (len, _) = self.len_and_window();
        if clicked_index < len {
            self.selected_index = clicked_index;
            let is_double = match self.last_click {
                Some((last_time, last_index)) => {
                    let elapsed = if now_ms >= last_time {
                        now_ms - last_time
                    } else {
                        0
                    };
                    last_index == clicked_index && elapsed < 400
                },
                None => false,
            };
            self.last_click = Some((now_ms, clicked_index));
            return if is_double {
                2
            } else {
                1
            };
        }
        0
    }
}

/// Whether (`x`, `y`) lies in `area`.
pub fn is_inside_search_picker(area: Rect, x: u16, y: u16) -> (b: bool)
    requires
        area.x + area.width <= u16::MAX,
        area.y + area.height <= u16::MAX,
    ensures
        b == (area.x <= x < area.x + area.width && area.y <= y < area.y + area.height),
{
    x >= area.x && x < area.x + area.width && y >= area.y && y < area.y + area.height
}

/// The text rows of the editor pane: all of it in zen mode, else below the
/// top border and above the bottom chrome of the style.
pub open spec fn editor_rows(area: Rect, zen_mode: bool, style: StyleMode) -> (int, int) {
    if zen_mode {
        (area.y as int, area.height as int)
    } else {
        (
            if area.y < u16::MAX {
                area.y + 1
            } else {
                u16::MAX as int
            },
            if area.height >= 1 + bottom_inset_of(style) {
                area.height - 1 - bottom_inset_of(style)
            } else {
                0
            },
        )
    }
}

/// Which way dragging the mouse at row `mouse_y` scrolls the editor: up
/// (-1) within two rows of the top when the editor is scrolled, down (1)
/// within two rows of the bottom, else not at all (0), and never in a pane
/// with no text rows.
pub fn get_auto_scroll_direction(
    editor_area: Rect,
    zen_mode: bool,
    style: StyleMode,
    editor_scroll_top: usize,
    mouse_y: u16,
) -> (d: i8)
    ensures
        ({
            let (top, height) = editor_rows(editor_area, zen_mode, style);
            let threshold = if height < 2 {
                height
            } else {
                2
            };
            let top_edge = if top + threshold > u16::MAX {
                u16::MAX as int
            } else {
                top + threshold
            };
            let bottom_edge = if top + height - threshold > u16::MAX {
                u16::MAX as int
            } else {
                top + height - threshold
            };
            d == if height == 0 {
                0
            } else if mouse_y < top_edge && editor_scroll_top > 0 {
                -1
            } else if mouse_y >= bottom_edge {
                1
            } else {
                0
            }
        }),
{
    let (inner_y, inner_height) = if zen_mode {
        (editor_area.y, editor_area.height)
    } else {
        (editor_area.y.saturating_add(1), editor_area.height.saturating_sub(style.vertical_inset()))
    };
    if inner_height == 0 {
        return 0;
    }
    let threshold: u16 = if inner_height < 2 {
        inner_height
    } else {
        2
    };
    let top_boundary = inner_y.saturating_add(threshold);
    let bottom_boundary = inner_y.saturating_add(inner_height - threshold);
    if mouse_y < top_boundary && editor_scroll_top > 0 {
        -1
    } else if mouse_y >= bottom_boundary {
        1
    } else {
        0
    }
}

/// The visual cell (row, column) of the editor text under the mouse, or
/// `None` outside the text rows and columns. Columns count from where the
/// text starts, `content_x_offset` columns in (the gutter); a click on the
/// gutter counts as column 0. Outside zen mode the pane has a one-column
/// border on each side and the style's chrome at top and bottom.
pub fn screen_to_editor_cell(
    editor_area: Rect,
    zen_mode: bool,
    style: StyleMode,
    content_x_offset: u16,
    mouse_x: u16,
    mouse_y: u16,
) -> (r: Option<(usize, usize)>)
    requires
        editor_area.x + editor_area.width <= u16::MAX,
        editor_area.y + editor_area.height <= u16::MAX,
        editor_area.x + 1 + content_x_offset <= u16::MAX,
        !zen_mode ==> editor_area.y < u16::MAX,
    ensures
        ({
            let (ix, iy, iw, ih) = if zen_mode {
                (editor_area.x as int, editor_area.y as int, editor_area.width as int, editor_area.height as int)
            } else {
                (
                    editor_area.x + 1,
                    editor_area.y + 1,
                    if editor_area.width >= 2 {
                        editor_area.width - 2
                    } else {
                        0
                    },
                    if editor_area.height >= 1 + bottom_inset_of(style) {
                        editor_area.height - 1 - bottom_inset_of(style)
                    } else {
                        0
                    },
                )
            };
            let inside = ix <= mouse_x < ix + iw && iy <= mouse_y < iy + ih;
            let start = ix + content_x_offset;
            if inside {
                r == Some(((mouse_y - iy) as usize, (if mouse_x >= start {
                    mouse_x - start
                } else {
                    0
                }) as usize))
            } else {
                r is None
            }
        }),
{
    let (inner_x, inner_y, inner_width, inner_height) = if zen_mode {
        (editor_area.x, editor_area.y, editor_area.width, editor_area.height)
    } else {
        (
            editor_area.x + 1,
            editor_area.y + 1,
            editor_area.width.saturating_sub(2),
            editor_area.height.saturating_sub(style.vertical_inset()),
        )
    };
    if mouse_x < inner_x || mouse_x >= inner_x + inner_width || mouse_y < inner_y || mouse_y >= inner_y
        + inner_height {
        return None;
    }
    let content_start_x = inner_x + content_x_offset;
    let rel_x = if mouse_x >= content_start_x {
        (mouse_x - content_start_x) as usize
    } else {
        0
    };
    let rel_y = (mouse_y - inner_y) as usize;
    Some((rel_y, rel_x))
}

} // verus!
