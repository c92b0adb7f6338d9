use ekphos::canvas_editor::CanvasResizeHandle;
use ekphos::geometry::{Position, Rect};
use ekphos::pointer::{
    base_pointer_action, canvas_pointer_action, BasePointerAction, CanvasPointerAction, CanvasPointerState, CanvasSide,
    HandleAt, NodeSide, PointerKind,
};

fn rect(x: u16, y: u16, width: u16, height: u16) -> Rect {
    Rect { x, y, width, height }
}

fn at(x: u16, y: u16) -> Position {
    Position { x, y }
}

fn canvas() -> CanvasPointerState {
    CanvasPointerState {
        connecting: false,
        node_rects: vec![(0, rect(0, 0, 10, 5)), (1, rect(5, 2, 10, 5))],
        handle_rects: vec![(CanvasSide::Right, rect(20, 0, 1, 1))],
        resize_rects: vec![(CanvasResizeHandle::BottomRight, rect(30, 0, 1, 1))],
        editor: None,
        edit_committed: None,
        last_click: None,
        edge_cells: vec![(7, at(40, 10)), (8, at(40, 10))],
        view_area: rect(0, 0, 100, 50),
        selected_node: 1,
    }
}

fn click(s: &CanvasPointerState, p: Position, now: u64) -> Option<CanvasPointerAction> {
    canvas_pointer_action(s, PointerKind::LeftDown, p, false, now)
}

#[test]
fn a_click_picks_the_topmost_node_and_double_clicks_open_it() {
    let mut s = canvas();
    assert_eq!(click(&s, at(6, 3), 1000), Some(CanvasPointerAction::DragNode { node: 1, at: at(6, 3), double_click: false }));
    s.last_click = Some((1000, 1));
    assert_eq!(click(&s, at(6, 3), 1399), Some(CanvasPointerAction::DragNode { node: 1, at: at(6, 3), double_click: true }));
    assert_eq!(click(&s, at(6, 3), 1400), Some(CanvasPointerAction::DragNode { node: 1, at: at(6, 3), double_click: false }));
    assert_eq!(click(&s, at(1, 1), 1100), Some(CanvasPointerAction::DragNode { node: 0, at: at(1, 1), double_click: false }));
}

#[test]
fn clicks_check_connection_handles_resize_edges_and_pan_in_order() {
    let mut s = canvas();
    assert_eq!(click(&s, at(20, 0), 0), Some(CanvasPointerAction::BeginConnect { side: CanvasSide::Right, at: at(20, 0) }));
    assert_eq!(
        click(&s, at(30, 0), 0),
        Some(CanvasPointerAction::BeginResize { node: 1, handle: CanvasResizeHandle::BottomRight, at: at(30, 0) })
    );
    assert_eq!(click(&s, at(40, 10), 0), Some(CanvasPointerAction::SelectEdge { edge: 8 }));
    assert_eq!(click(&s, at(50, 20), 0), Some(CanvasPointerAction::BeginPan { at: at(50, 20) }));
    assert_eq!(click(&s, at(200, 200), 0), Some(CanvasPointerAction::Ignore));
    s.connecting = true;
    assert_eq!(click(&s, at(14, 4), 0), Some(CanvasPointerAction::ConnectTo { node: 1, side: CanvasSide::Right }));
}

#[test]
fn clicks_with_an_open_editor() {
    let mut s = canvas();
    s.editor = Some((0, rect(1, 1, 3, 2)));
    assert_eq!(click(&s, at(2, 1), 0), Some(CanvasPointerAction::PlaceEditCursor { at: at(2, 1) }));
    assert_eq!(click(&s, at(0, 0), 0), Some(CanvasPointerAction::KeepEditing));
    assert_eq!(click(&s, at(12, 5), 0), Some(CanvasPointerAction::CommitEdit));
    s.edit_committed = Some(false);
    assert_eq!(click(&s, at(12, 5), 0), Some(CanvasPointerAction::KeepEditing));
    s.edit_committed = Some(true);
    assert_eq!(click(&s, at(12, 5), 0), Some(CanvasPointerAction::DragNode { node: 1, at: at(12, 5), double_click: false }));
    assert_eq!(
        canvas_pointer_action(&s, PointerKind::ScrollUp, at(2, 1), false, 0),
        Some(CanvasPointerAction::ScrollEditor { delta: -3 })
    );
    assert_eq!(canvas_pointer_action(&s, PointerKind::ScrollDown, at(50, 40), false, 0), Some(CanvasPointerAction::Zoom { zoom_in: false }));
}

#[test]
fn drags_releases_and_hovers() {
    let s = canvas();
    assert_eq!(
        canvas_pointer_action(&s, PointerKind::LeftDrag, at(6, 3), true, 0),
        Some(CanvasPointerAction::Drag { at: at(6, 3), hovered: Some(1), keep_aspect: true })
    );
    assert_eq!(
        canvas_pointer_action(&s, PointerKind::LeftUp, at(5, 4), false, 0),
        Some(CanvasPointerAction::EndInteraction { target: Some(NodeSide { node: 1, side: CanvasSide::Left }) })
    );
    assert_eq!(
        canvas_pointer_action(&s, PointerKind::Moved, at(40, 10), false, 0),
        Some(CanvasPointerAction::Hover { node: None, edge: Some(8), resize: None })
    );
    assert_eq!(
        canvas_pointer_action(&s, PointerKind::Moved, at(30, 0), false, 0),
        Some(CanvasPointerAction::Hover {
            node: None,
            edge: None,
            resize: Some(HandleAt { handle: CanvasResizeHandle::BottomRight, at: at(30, 0) })
        })
    );
    assert_eq!(canvas_pointer_action(&s, PointerKind::Other, at(0, 0), false, 0), None);
}

#[test]
fn base_tables_take_arrows_rows_and_scrolling() {
    let rows = vec![(0, rect(0, 2, 20, 1)), (1, rect(0, 3, 20, 1))];
    let left = Some(rect(0, 0, 1, 1));
    let right = Some(rect(19, 0, 1, 1));
    let act = |kind, p| base_pointer_action(left, right, &rows, kind, p);
    assert_eq!(act(PointerKind::LeftDown, at(0, 0)), Some(BasePointerAction::MoveColumn(-1)));
    assert_eq!(act(PointerKind::LeftDown, at(19, 0)), Some(BasePointerAction::MoveColumn(1)));
    assert_eq!(act(PointerKind::LeftDown, at(5, 3)), Some(BasePointerAction::SelectRow(1)));
    assert_eq!(act(PointerKind::LeftDown, at(5, 9)), Some(BasePointerAction::Ignore));
    assert_eq!(act(PointerKind::ScrollDown, at(5, 9)), Some(BasePointerAction::MoveSelection(1)));
    assert_eq!(act(PointerKind::ScrollUp, at(5, 9)), Some(BasePointerAction::MoveSelection(-1)));
    assert_eq!(act(PointerKind::Moved, at(5, 9)), None);
}
