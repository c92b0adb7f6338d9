//! Mouse geometry: which entry of the editor's context menu is under the
//! pointer, which side of a canvas node the pointer is nearest, where the
//! editor cursor may stay while the view scrolls, and how far a held drag
//! scrolls.
use vstd::prelude::*;

use crate::dialogs::sat_sub;
use crate::geometry::{add_u16, Position, Rect};
use crate::canvas_editor::CanvasResizeHandle;
use crate::session::{DialogState, Mode};

verus! {

/// Columns taken by the editor's context menu.
pub const MENU_WIDTH: u16 = 14;

/// The entry of a context menu with `item_count` entries, drawn at
/// (`menu_x`, `menu_y`) with a border row above and below, that a click at
/// (`mouse_x`, `mouse_y`) picks. A click on the top border picks the first
/// entry; one on the bottom border, or outside, picks none.
pub fn context_menu_click_index(mouse_x: u16, mouse_y: u16, menu_x: u16, menu_y: u16, item_count: u16) -> (r: Option<
    usize,
>)
    requires
        menu_x + MENU_WIDTH <= u16::MAX,
        menu_y + item_count + 2 <= u16::MAX,
    ensures
        r == (if menu_x <= mouse_x < menu_x + 14 && menu_y <= mouse_y < menu_y + item_count + 2 && sat_sub(
            mouse_y - menu_y,
            1,
        ) < item_count {
            Some(sat_sub(mouse_y - menu_y, 1) as usize)
        } else {
            None
        }),
{
    let menu_height = item_count + 2;
    if mouse_x >= menu_x && mouse_x < menu_x + MENU_WIDTH && mouse_y >= menu_y && mouse_y < menu_y + menu_height {
        let relative_y = (mouse_y - menu_y).saturating_sub(1);
        if relative_y < item_count {
            return Some(relative_y as usize);
        }
    }
    None
}

/// The entry of the context menu under the pointer, for highlighting: rows
/// strictly between the two border rows.
pub fn get_context_menu_hover_index(mouse_x: u16, mouse_y: u16, menu_x: u16, menu_y: u16, item_count: u16) -> (r: Option<
    usize,
>)
    requires
        menu_x + MENU_WIDTH <= u16::MAX,
        menu_y + item_count + 2 <= u16::MAX,
    ensures
        r == (if menu_x <= mouse_x < menu_x + 14 && menu_y < mouse_y < menu_y + item_count + 1 {
            Some((mouse_y - menu_y - 1) as usize)
        } else {
            None
        }),
{
    let menu_height = item_count + 2;
    if mouse_x >= menu_x && mouse_x < menu_x + MENU_WIDTH && mouse_y > menu_y && mouse_y < menu_y + menu_height - 1 {
        let index = mouse_y - menu_y - 1;
        if index < item_count {
            return Some(index as usize);
        }
    }
    None
}

/// A side of a canvas node.
#[derive(Debug, Clone, Copy, PartialEq, Eq, Structural)]
pub enum CanvasSide {
    Top,
    Right,
    Bottom,
    Left,
}

/// The distances from the pointer to the top, right, bottom and left edges
/// of `rect` (0 once past an edge); the right and bottom edges are the last
/// column and row inside it.
pub open spec fn edge_distances(rect: Rect, pointer: Position) -> (int, int, int, int) {
    (
        sat_sub(pointer.y as int, rect.y as int),
        sat_sub(sat_sub(add_u16(rect.x as int, rect.width as int), 1), pointer.x as int),
        sat_sub(sat_sub(add_u16(rect.y as int, rect.height as int), 1), pointer.y as int),
        sat_sub(pointer.x as int, rect.x as int),
    )
}

/// The side of `rect` nearest the pointer; on a tie the first of top,
/// right, bottom, left wins.
pub open spec fn nearest_side(rect: Rect, pointer: Position) -> CanvasSide {
    let (t, r, b, l) = edge_distances(rect, pointer);
    if t <= r && t <= b && t <= l {
        CanvasSide::Top
    } else if r <= b && r <= l {
        CanvasSide::Right
    } else if b <= l {
        CanvasSide::Bottom
    } else {
        CanvasSide::Left
    }
}

/// The side of `rect` nearest the pointer (see [`nearest_side`]).
pub fn canvas_side_at(rect: Rect, pointer: Position) -> (side: CanvasSide)
    ensures
        side == nearest_side(rect, pointer),
{
    let right = rect.x.saturating_add(rect.width);
    let bottom = rect.y.saturating_add(rect.height);
    let t = pointer.y.saturating_sub(rect.y);
    let r = right.saturating_sub(1).saturating_sub(pointer.x);
    let b = bottom.saturating_sub(1).saturating_sub(pointer.y);
    let l = pointer.x.saturating_sub(rect.x);
    if t <= r && t <= b && t <= l {
        CanvasSide::Top
    } else if r <= b && r <= l {
        CanvasSide::Right
    } else if b <= l {
        CanvasSide::Bottom
    } else {
        CanvasSide::Left
    }
}

/// The smaller of two numbers.
pub open spec fn smaller(a: int, b: int) -> int {
    if a < b {
        a
    } else {
        b
    }
}

/// The row the editor cursor moves to after the view scrolled, or `None`
/// when the view has no rows: a cursor outside the rows shown is pulled to
/// the nearest one; a cursor inside them keeps `scrolloff` rows (at most half
/// the view) from the top and bottom edges, where there are rows to keep.
pub fn constrained_cursor_row(
    cursor_row: usize,
    line_count: usize,
    scroll_top: usize,
    view_height: usize,
    scrolloff: u8,
) -> (r: Option<usize>)
    requires
        scroll_top + view_height <= usize::MAX,
    ensures
        view_height == 0 <==> r is None,
        r is Some ==> ({
            let max_row = sat_sub(line_count as int, 1);
            let top = scroll_top as int;
            let bottom = smaller(scroll_top + sat_sub(view_height as int, 1), max_row);
            let clamped = if cursor_row < top {
                top
            } else if cursor_row > bottom {
                bottom
            } else {
                cursor_row as int
            };
            let off = smaller(scrolloff as int, (view_height / 2) as int);
            r->0 == if off > 0 && clamped == cursor_row {
                if cursor_row < top + off {
                    smaller(smaller(top + off, max_row), bottom)
                } else if cursor_row > sat_sub(bottom, off) {
                    if sat_sub(bottom, off) > top {
                        sat_sub(bottom, off)
                    } else {
                        top
                    }
                } else {
                    cursor_row as int
                }
            } else {
                clamped
            }
        }),
{
    if view_height == 0 {
        return None;
    }
    let max_row = line_count.saturating_sub(1);
    let viewport_top = scroll_top;
    let reach = scroll_top + view_height.saturating_sub(1);
    let viewport_bottom = if reach < max_row {
        reach
    } else {
        max_row
    };
    let clamped_row = if cursor_row < viewport_top {
        viewport_top
    } else if cursor_row > viewport_bottom {
        viewport_bottom
    } else {
        cursor_row
    };
    let half = view_height / 2;
    let effective = if (scrolloff as usize) < half {
        scrolloff as usize
    } else {
        half
    };
    let final_row = if effective > 0 && clamped_row == cursor_row {
        let scrolloff_top = viewport_top + effective;
        let scrolloff_bottom = viewport_bottom.saturating_sub(effective);
        if cursor_row < scrolloff_top {
            let a = if scrolloff_top < max_row {
                scrolloff_top
            } else {
                max_row
            };
            if a < viewport_bottom {
                a
            } else {
                viewport_bottom
            }
        } else if cursor_row > scrolloff_bottom {
            if scrolloff_bottom > viewport_top {
                scrolloff_bottom
            } else {
                viewport_top
            }
        } else {
            cursor_row
        }
    } else {
        clamped_row
    };
    Some(final_row)
}

/// The editor's first shown row after one step of scrolling while a drag is
/// held at an edge: up one row when `direction` is negative and the view is
/// not at the top, down one row when it is positive and rows remain below,
/// else `None` (nothing moves). The cursor moves along with the view.
pub fn auto_scroll_target(direction: i8, scroll_top: usize, line_count: usize, view_height: usize) -> (r: Option<usize>)
    ensures
        r == (if direction < 0 {
            if scroll_top > 0 {
                Some((scroll_top - 1) as usize)
            } else {
                None
            }
        } else if scroll_top < sat_sub(line_count as int, view_height as int) {
            Some((scroll_top + 1) as usize)
        } else {
            None
        }),
{
    if direction < 0 {
        if scroll_top > 0 {
            Some(scroll_top - 1)
        } else {
            None
        }
    } else {
        let max_scroll = line_count.saturating_sub(view_height);
        if scroll_top < max_scroll {
            Some(scroll_top + 1)
        } else {
            None
        }
    }
}

/// Who handles a mouse event.
#[derive(Debug, Clone, Copy, PartialEq, Eq, Structural)]
pub enum MouseRoute {
    /// The editor's context menu.
    ContextMenu,
    /// The search picker.
    SearchPicker,
    /// The graph view.
    GraphView,
    /// The task view.
    TaskView,
    /// The editor.
    Edit,
    /// The panes of the main view.
    Panes,
    /// Nobody: another dialog or the welcome screen is in front.
    Ignore,
}

/// Who handles a mouse event: an open context menu, then an open search
/// picker, the graph or task view, the editor in edit mode, and the panes
/// when nothing else is in front.
pub fn route_mouse(context_menu_open: bool, search_picker_open: bool, dialog: DialogState, mode: Mode, show_welcome: bool) -> (r: MouseRoute)
    ensures
        r == if context_menu_open {
            MouseRoute::ContextMenu
        } else if search_picker_open {
            MouseRoute::SearchPicker
        } else if dialog == DialogState::GraphView {
            MouseRoute::GraphView
        } else if dialog == DialogState::TaskView {
            MouseRoute::TaskView
        } else if mode == Mode::Edit {
            MouseRoute::Edit
        } else if dialog == DialogState::Closed && !show_welcome {
            MouseRoute::Panes
        } else {
            MouseRoute::Ignore
        },
{
    if context_menu_open {
        MouseRoute::ContextMenu
    } else if search_picker_open {
        MouseRoute::SearchPicker
    } else if dialog == DialogState::GraphView {
        MouseRoute::GraphView
    } else if dialog == DialogState::TaskView {
        MouseRoute::TaskView
    } else if mode == Mode::Edit {
        MouseRoute::Edit
    } else if dialog == DialogState::Closed && !show_welcome {
        MouseRoute::Panes
    } else {
        MouseRoute::Ignore
    }
}

/// The row of a list pane (sidebar or outline) under a click at `mouse_y`,
/// below the pane's top border row, if a list entry is drawn there: the
/// `row`-th of `count` entries.
pub fn clicked_list_row(area: Rect, mouse_y: u16, count: usize) -> (r: Option<usize>)
    requires
        area.y < u16::MAX,
    ensures
        r == if sat_sub(mouse_y as int, area.y + 1) < count {
            Some(sat_sub(mouse_y as int, area.y + 1) as usize)
        } else {
            None
        },
{
    let top = area.y + 1;
    let row = mouse_y.saturating_sub(top) as usize;
    if row < count {
        Some(row)
    } else {
        None
    }
}

/// What the mouse did.
#[derive(Debug, Clone, Copy, PartialEq, Eq, Structural)]
pub enum PointerKind {
    LeftDown,
    LeftDrag,
    LeftUp,
    Moved,
    ScrollUp,
    ScrollDown,
    Other,
}

/// What a canvas reads to decide what the pointer does: whether a
/// connection is being drawn; the drawn nodes, connection handles and
/// resize handles with their areas (nodes in drawing order, the last on
/// top); the node whose text is being edited and the editor's area, and,
/// once committing that edit was tried for this click, whether it took;
/// the last node clicked and when (in milliseconds); the cells of drawn
/// edges; the canvas area; and the selected node.
#[derive(Debug, Clone)]
pub struct CanvasPointerState {
    pub connecting: bool,
    pub node_rects: Vec<(usize, Rect)>,
    pub handle_rects: Vec<(CanvasSide, Rect)>,
    pub resize_rects: Vec<(CanvasResizeHandle, Rect)>,
    pub editor: Option<(usize, Rect)>,
    pub edit_committed: Option<bool>,
    pub last_click: Option<(u64, usize)>,
    pub edge_cells: Vec<(usize, Position)>,
    pub view_area: Rect,
    pub selected_node: usize,
}

/// A side of a node.
#[derive(Debug, Clone, Copy, PartialEq, Eq, Structural)]
pub struct NodeSide {
    pub node: usize,
    pub side: CanvasSide,
}

/// A resize handle under the pointer, and where the pointer is.
#[derive(Debug, Clone, Copy, PartialEq, Eq, Structural)]
pub struct HandleAt {
    pub handle: CanvasResizeHandle,
    pub at: Position,
}

/// What a pointer event does on a canvas.
#[derive(Debug, Clone, Copy, PartialEq, Eq, Structural)]
pub enum CanvasPointerAction {
    /// Ends the connection being drawn on a side of a node.
    ConnectTo { node: usize, side: CanvasSide },
    /// Starts drawing a connection from a handle of the selected node.
    BeginConnect { side: CanvasSide, at: Position },
    /// Starts resizing a node by one of its handles.
    BeginResize { node: usize, handle: CanvasResizeHandle, at: Position },
    /// Moves the editor's cursor to the click.
    PlaceEditCursor { at: Position },
    /// The click stays with the open edit: inside the edited node, or the
    /// edit could not be committed.
    KeepEditing,
    /// Commit the open edit, then decide again with its outcome.
    CommitEdit,
    /// Starts dragging a node (the click is recorded as the last one); a
    /// second click on the same node within 400 ms instead opens it.
    DragNode { node: usize, at: Position, double_click: bool },
    /// Selects an edge.
    SelectEdge { edge: usize },
    /// Starts panning the view.
    BeginPan { at: Position },
    /// The click is taken and does nothing.
    Ignore,
    /// Continues a drag, with the node under the pointer; `keep_aspect`
    /// when shift is held.
    Drag { at: Position, hovered: Option<usize>, keep_aspect: bool },
    /// Ends a drag, connection or resize over a node's side, or over none.
    EndInteraction { target: Option<NodeSide> },
    /// The node, edge (where no node is under the pointer) and resize
    /// handle under a moving pointer.
    Hover { node: Option<usize>, edge: Option<usize>, resize: Option<HandleAt> },
    /// Scrolls the editor's text by this many rows.
    ScrollEditor { delta: i8 },
    /// Zooms the view at the pointer, in or out.
    Zoom { zoom_in: bool },
}

/// The last of `rects[..k]` that holds `p`: the topmost drawn.
pub open spec fn topmost<T>(rects: Seq<(T, Rect)>, p: Position, k: int) -> Option<(T, Rect)>
    decreases k,
{
    if k <= 0 {
        None
    } else if rects[k - 1].1.holds(p) {
        Some(rects[k - 1])
    } else {
        topmost(rects, p, k - 1)
    }
}

/// The first of `rects[k..]` that holds `p`.
pub open spec fn first_holding<T>(rects: Seq<(T, Rect)>, p: Position, k: int) -> Option<T>
    decreases rects.len() - k,
{
    if k < 0 || k >= rects.len() {
        None
    } else if rects[k].1.holds(p) {
        Some(rects[k].0)
    } else {
        first_holding(rects, p, k + 1)
    }
}

/// The last edge of `cells[..k]` drawn at `p`.
pub open spec fn edge_at(cells: Seq<(usize, Position)>, p: Position, k: int) -> Option<usize>
    decreases k,
{
    if k <= 0 {
        None
    } else if cells[k - 1].1 == p {
        Some(cells[k - 1].0)
    } else {
        edge_at(cells, p, k - 1)
    }
}

/// Some drawn area of node `node` holds `p`.
pub open spec fn node_holds(rects: Seq<(usize, Rect)>, node: usize, p: Position) -> bool {
    exists|i: int| 0 <= i < rects.len() && rects[i].0 == node && #[trigger] rects[i].1.holds(p)
}

/// The open editor's area holds `p`.
pub open spec fn editor_holds(s: CanvasPointerState, p: Position) -> bool {
    s.editor matches Some(e) && e.1.holds(p)
}

/// A click on `node` at `now_ms` repeats the last click within 400 ms.
pub open spec fn is_double_click(last: Option<(u64, usize)>, node: usize, now_ms: u64) -> bool {
    match last {
        Some((when, previous)) => previous == node && sat_sub(now_ms as int, when as int) < 400,
        None => false,
    }
}

/// What a left click at `p` does on a canvas, checking in order: a node
/// while a connection is drawn, a connection handle, a resize handle, the
/// open editor (its area, its node, then committing it), a node (dragged,
/// or opened on a double click), an edge, and the canvas itself.
pub open spec fn canvas_click(s: CanvasPointerState, p: Position, now_ms: u64) -> CanvasPointerAction {
    let nodes = s.node_rects@;
    let top = topmost(nodes, p, nodes.len() as int);
    if s.connecting && top is Some {
        CanvasPointerAction::ConnectTo { node: (top->0).0, side: nearest_side((top->0).1, p) }
    } else if first_holding(s.handle_rects@, p, 0) is Some {
        CanvasPointerAction::BeginConnect { side: first_holding(s.handle_rects@, p, 0)->0, at: p }
    } else if first_holding(s.resize_rects@, p, 0) is Some {
        CanvasPointerAction::BeginResize {
            node: s.selected_node,
            handle: first_holding(s.resize_rects@, p, 0)->0,
            at: p,
        }
    } else if s.editor is Some && editor_holds(s, p) {
        CanvasPointerAction::PlaceEditCursor { at: p }
    } else if s.editor is Some && node_holds(nodes, (s.editor->0).0, p) {
        CanvasPointerAction::KeepEditing
    } else if s.editor is Some && s.edit_committed is None {
        CanvasPointerAction::CommitEdit
    } else if s.editor is Some && s.edit_committed == Some(false) {
        CanvasPointerAction::KeepEditing
    } else if top is Some {
        CanvasPointerAction::DragNode {
            node: (top->0).0,
            at: p,
            double_click: is_double_click(s.last_click, (top->0).0, now_ms),
        }
    } else if edge_at(s.edge_cells@, p, s.edge_cells@.len() as int) is Some {
        CanvasPointerAction::SelectEdge { edge: edge_at(s.edge_cells@, p, s.edge_cells@.len() as int)->0 }
    } else if s.view_area.holds(p) {
        CanvasPointerAction::BeginPan { at: p }
    } else {
        CanvasPointerAction::Ignore
    }
}

/// What a pointer event does on a canvas; `None` for events a canvas does
/// not take.
pub open spec fn canvas_pointer_spec(s: CanvasPointerState, kind: PointerKind, p: Position, shift: bool, now_ms: u64) -> Option<
    CanvasPointerAction,
> {
    let nodes = s.node_rects@;
    let top = topmost(nodes, p, nodes.len() as int);
    match kind {
        PointerKind::LeftDown => Some(canvas_click(s, p, now_ms)),
        PointerKind::LeftDrag => Some(
            CanvasPointerAction::Drag {
                at: p,
                hovered: match top {
                    Some(t) => Some(t.0),
                    None => None,
                },
                keep_aspect: shift,
            },
        ),
        PointerKind::LeftUp => Some(
            CanvasPointerAction::EndInteraction {
                target: match top {
                    Some(t) => Some(NodeSide { node: t.0, side: nearest_side(t.1, p) }),
                    None => None,
                },
            },
        ),
        PointerKind::Moved => Some(
            CanvasPointerAction::Hover {
                node: match top {
                    Some(t) => Some(t.0),
                    None => None,
                },
                edge: if top is None {
                    edge_at(s.edge_cells@, p, s.edge_cells@.len() as int)
                } else {
                    None
                },
                resize: match first_holding(s.resize_rects@, p, 0) {
                    Some(h) => Some(HandleAt { handle: h, at: p }),
                    None => None,
                },
            },
        ),
        PointerKind::ScrollUp => Some(
            if editor_holds(s, p) {
                CanvasPointerAction::ScrollEditor { delta: -3i8 }
            } else {
                CanvasPointerAction::Zoom { zoom_in: true }
            },
        ),
        PointerKind::ScrollDown => Some(
            if editor_holds(s, p) {
                CanvasPointerAction::ScrollEditor { delta: 3 }
            } else {
                CanvasPointerAction::Zoom { zoom_in: false }
            },
        ),
        PointerKind::Other => None,
    }
}

fn topmost_exec<T: Copy>(rects: &Vec<(T, Rect)>, p: Position) -> (r: Option<(T, Rect)>)
    ensures
        r == topmost(rects@, p, rects@.len() as int),
{
    let mut k = rects.len();
    while k > 0
        invariant
            k <= rects@.len(),
            topmost(rects@, p, rects@.len() as int) == topmost(rects@, p, k as int),
        decreases k,
    {
        let (t, rect) = rects[k - 1];
        if rect.contains(p) {
            return Some((t, rect));
        }
        k -= 1;
    }
    None
}

fn first_holding_exec<T: Copy>(rects: &Vec<(T, Rect)>, p: Position) -> (r: Option<T>)
    ensures
        r == first_holding(rects@, p, 0),
{
    let mut k: usize = 0;
    while k < rects.len()
        invariant
            k <= rects@.len(),
            first_holding(rects@, p, 0) == first_holding(rects@, p, k as int),
        decreases rects@.len() - k,
    {
        let (t, rect) = rects[k];
        if rect.contains(p) {
            return Some(t);
        }
        k += 1;
    }
    None
}

fn edge_at_exec(cells: &Vec<(usize, Position)>, p: Position) -> (r: Option<usize>)
    ensures
        r == edge_at(cells@, p, cells@.len() as int),
{
    let mut k = cells.len();
    while k > 0
        invariant
            k <= cells@.len(),
            edge_at(cells@, p, cells@.len() as int) == edge_at(cells@, p, k as int),
        decreases k,
    {
        let (edge, cell) = cells[k - 1];
        if cell == p {
            return Some(edge);
        }
        k -= 1;
    }
    None
}

fn node_holds_exec(rects: &Vec<(usize, Rect)>, node: usize, p: Position) -> (b: bool)
    ensures
        b == node_holds(rects@, node, p),
{
    let mut i: usize = 0;
    while i < rects.len()
        invariant
            i <= rects@.len(),
            forall|j: int| 0 <= j < i ==> !(rects@[j].0 == node && #[trigger] rects@[j].1.holds(p)),
        decreases rects@.len() - i,
    {
        let (n, rect) = rects[i];
        if n == node && rect.contains(p) {
            return true;
        }
        i += 1;
    }
    false
}

fn editor_holds_exec(s: &CanvasPointerState, p: Position) -> (b: bool)
    ensures
        b == editor_holds(*s, p),
{
    match s.editor {
        Some((_, area)) => area.contains(p),
        None => false,
    }
}

fn canvas_click_exec(s: &CanvasPointerState, p: Position, now_ms: u64) -> (a: CanvasPointerAction)
    ensures
        a == canvas_click(*s, p, now_ms),
{
    let top = topmost_exec(&s.node_rects, p);
    if s.connecting {
        if let Some((node, rect)) = top {
            return CanvasPointerAction::ConnectTo { node, side: canvas_side_at(rect, p) };
        }
    }
    if let Some(side) = first_holding_exec(&s.handle_rects, p) {
        return CanvasPointerAction::BeginConnect { side, at: p };
    }
    if let Some(handle) = first_holding_exec(&s.resize_rects, p) {
        return CanvasPointerAction::BeginResize { node: s.selected_node, handle, at: p };
    }
    if let Some((edited, _)) = s.editor {
        if editor_holds_exec(s, p) {
            return CanvasPointerAction::PlaceEditCursor { at: p };
        }
        if node_holds_exec(&s.node_rects, edited, p) {
            return CanvasPointerAction::KeepEditing;
        }
        match s.edit_committed {
            None => {
                return CanvasPointerAction::CommitEdit;
            },
            Some(false) => {
                return CanvasPointerAction::KeepEditing;
            },
            Some(true) => {},
        }
    }
    if let Some((node, _)) = top {
        let double_click = match s.last_click {
            Some((when, previous)) => previous == node && now_ms.saturating_sub(when) < 400,
            None => false,
        };
        return CanvasPointerAction::DragNode { node, at: p, double_click };
    }
    if let Some(edge) = edge_at_exec(&s.edge_cells, p) {
        return CanvasPointerAction::SelectEdge { edge };
    }
    if s.view_area.contains(p) {
        CanvasPointerAction::BeginPan { at: p }
    } else {
        CanvasPointerAction::Ignore
    }
}

/// What a pointer event at `pointer` does on a canvas, with shift held or
/// not, at `now_ms` (see [`canvas_pointer_spec`]).
pub fn canvas_pointer_action(s: &CanvasPointerState, kind: PointerKind, pointer: Position, shift: bool, now_ms: u64) -> (a: Option<
    CanvasPointerAction,
>)
    ensures
        a == canvas_pointer_spec(*s, kind, pointer, shift, now_ms),
{
    match kind {
        PointerKind::LeftDown => Some(canvas_click_exec(s, pointer, now_ms)),
        PointerKind::LeftDrag => {
            let hovered = match topmost_exec(&s.node_rects, pointer) {
                Some((node, _)) => Some(node),
                None => None,
            };
            Some(CanvasPointerAction::Drag { at: pointer, hovered, keep_aspect: shift })
        },
        PointerKind::LeftUp => {
            let target = match topmost_exec(&s.node_rects, pointer) {
                Some((node, rect)) => Some(NodeSide { node, side: canvas_side_at(rect, pointer) }),
                None => None,
            };
            Some(CanvasPointerAction::EndInteraction { target })
        },
        PointerKind::Moved => {
            let node = match topmost_exec(&s.node_rects, pointer) {
                Some((node, _)) => Some(node),
                None => None,
            };
            let edge = if node.is_none() {
                edge_at_exec(&s.edge_cells, pointer)
            } else {
                None
            };
            let resize = match first_holding_exec(&s.resize_rects, pointer) {
                Some(h) => Some(HandleAt { handle: h, at: pointer }),
                None => None,
            };
            Some(CanvasPointerAction::Hover { node, edge, resize })
        },
        PointerKind::ScrollUp => Some(
            if editor_holds_exec(s, pointer) {
                CanvasPointerAction::ScrollEditor { delta: -3 }
            } else {
                CanvasPointerAction::Zoom { zoom_in: true }
            },
        ),
        PointerKind::ScrollDown => Some(
            if editor_holds_exec(s, pointer) {
                CanvasPointerAction::ScrollEditor { delta: 3 }
            } else {
                CanvasPointerAction::Zoom { zoom_in: false }
            },
        ),
        PointerKind::Other => None,
    }
}

/// What a pointer event does on a base table.
#[derive(Debug, Clone, Copy, PartialEq, Eq, Structural)]
pub enum BasePointerAction {
    /// Moves the shown columns left (-1) or right (1), focusing the content.
    MoveColumn(i8),
    /// Selects a row, focusing the content.
    SelectRow(usize),
    /// Moves the selection down (1) or up (-1).
    MoveSelection(i8),
    /// The click is taken and does nothing.
    Ignore,
}

/// What a pointer event does on a base table with the given column arrows
/// and row areas: a click on the left arrow, then the right arrow, then the
/// first row holding it; scrolling moves the selection. `None` for events a
/// base does not take.
pub open spec fn base_pointer_spec(
    left: Option<Rect>,
    right: Option<Rect>,
    rows: Seq<(usize, Rect)>,
    kind: PointerKind,
    p: Position,
) -> Option<BasePointerAction> {
    match kind {
        PointerKind::LeftDown => Some(
            if left matches Some(r) && r.holds(p) {
                BasePointerAction::MoveColumn(-1i8)
            } else if right matches Some(r) && r.holds(p) {
                BasePointerAction::MoveColumn(1)
            } else if first_holding(rows, p, 0) is Some {
                BasePointerAction::SelectRow(first_holding(rows, p, 0)->0)
            } else {
                BasePointerAction::Ignore
            },
        ),
        PointerKind::ScrollDown => Some(BasePointerAction::MoveSelection(1)),
        PointerKind::ScrollUp => Some(BasePointerAction::MoveSelection(-1i8)),
        _ => None,
    }
}

/// What a pointer event does on a base table (see [`base_pointer_spec`]).
pub fn base_pointer_action(
    left: Option<Rect>,
    right: Option<Rect>,
    rows: &Vec<(usize, Rect)>,
    kind: PointerKind,
    pointer: Position,
) -> (a: Option<BasePointerAction>)
    ensures
        a == base_pointer_spec(left, right, rows@, kind, pointer),
{
    match kind {
        PointerKind::LeftDown => {
            let on_left = match left {
                Some(r) => r.contains(pointer),
                None => false,
            };
            let on_right = match right {
                Some(r) => r.contains(pointer),
                None => false,
            };
            if on_left {
                Some(BasePointerAction::MoveColumn(-1))
            } else if on_right {
                Some(BasePointerAction::MoveColumn(1))
            } else {
                match first_holding_exec(rows, pointer) {
                    Some(row) => Some(BasePointerAction::SelectRow(row)),
                    None => Some(BasePointerAction::Ignore),
                }
            }
        },
        PointerKind::ScrollDown => Some(BasePointerAction::MoveSelection(1)),
        PointerKind::ScrollUp => Some(BasePointerAction::MoveSelection(-1)),
        _ => None,
    }
}

} // verus!
