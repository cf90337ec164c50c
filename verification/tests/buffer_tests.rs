use tui_core::buffer::{Buffer, Cell};
use tui_core::style::Style;
use tui_core::vec2::Vec2;

#[test]
fn buffer_set_cells() {
    let mut buffer = Buffer::new(Vec2::new(10, 10));

    buffer.set(Vec2::new(0, 0), Some(Cell::new('a', Style::new()))).unwrap();
    buffer.set(Vec2::new(0, 9), Some(Cell::new('b', Style::new()))).unwrap();
    buffer.set(Vec2::new(1, 0), Some(Cell::new('c', Style::new()))).unwrap();
    buffer.set(Vec2::new(9, 9), Some(Cell::new('d', Style::new()))).unwrap();

    assert!(matches!(buffer.get(Vec2::new(0, 0)), Some(Some(cell)) if cell.c == 'a'));
    assert!(matches!(buffer.get(Vec2::new(0, 9)), Some(Some(cell)) if cell.c == 'b'));
    assert!(matches!(buffer.get(Vec2::new(1, 0)), Some(Some(cell)) if cell.c == 'c'));
    assert!(matches!(buffer.get(Vec2::new(9, 9)), Some(Some(cell)) if cell.c == 'd'));

    assert!(buffer.get(Vec2::new(10, 10)).is_none());
}

#[test]
fn buffer2_set_cells() {
    let mut buffer = Buffer::new(Vec2::new(10, 10));
    let view = buffer.view(true);

    let size = view.size();
    assert_eq!(size, Vec2::new(10, 10));

    view.set(&mut buffer, Vec2::new(0, 0), Some(Cell::new('a', Style::new()))).unwrap();
    view.set(&mut buffer, Vec2::new(0, 9), Some(Cell::new('b', Style::new()))).unwrap();
    view.set(&mut buffer, Vec2::new(1, 0), Some(Cell::new('c', Style::new()))).unwrap();
    view.set(&mut buffer, Vec2::new(9, 9), Some(Cell::new('d', Style::new()))).unwrap();

    view.set_cursor(&mut buffer, Some(Vec2::new(9, 9)));
    assert_eq!(buffer.cursor(), Some(Vec2::new(9, 9)));

    // An out-of-window position is a silent no-op.
    view.set_cursor(&mut buffer, Some(Vec2::new(10, 10)));
    assert_eq!(buffer.cursor(), Some(Vec2::new(9, 9)));

    assert!(matches!(view.get(&buffer, Vec2::new(0, 0)), Some(Some(cell)) if cell.c == 'a'));
    assert!(matches!(view.get(&buffer, Vec2::new(0, 9)), Some(Some(cell)) if cell.c == 'b'));
    assert!(matches!(view.get(&buffer, Vec2::new(1, 0)), Some(Some(cell)) if cell.c == 'c'));
    assert!(matches!(view.get(&buffer, Vec2::new(9, 9)), Some(Some(cell)) if cell.c == 'd'));

    assert!(view.get(&buffer, Vec2::new(10, 10)).is_none());
}

#[test]
fn view() {
    let mut buffer = Buffer::new(Vec2::new(10, 10));
    let view = buffer.view(true);
    let view2 = view.view(Vec2::new(1, 1), Vec2::new(9, 9), true);

    assert_eq!(view2.size(), Vec2::new(8, 8));

    view2.set(&mut buffer, Vec2::new(0, 0), Some(Cell::new('a', Style::new()))).unwrap();
    view2.set(&mut buffer, Vec2::new(0, 7), Some(Cell::new('b', Style::new()))).unwrap();
    view2.set(&mut buffer, Vec2::new(1, 0), Some(Cell::new('c', Style::new()))).unwrap();
    view2.set(&mut buffer, Vec2::new(7, 7), Some(Cell::new('d', Style::new()))).unwrap();

    // An out-of-window position is a silent no-op: no cursor was set yet.
    view2.set_cursor(&mut buffer, Some(Vec2::new(8, 8)));
    assert_eq!(buffer.cursor(), None);

    view2.set_cursor(&mut buffer, Some(Vec2::new(7, 7)));
    assert_eq!(buffer.cursor(), Some(Vec2::new(8, 8)));

    assert!(matches!(view2.get(&buffer, Vec2::new(0, 0)), Some(Some(cell)) if cell.c == 'a'));
    assert!(matches!(view2.get(&buffer, Vec2::new(0, 7)), Some(Some(cell)) if cell.c == 'b'));
    assert!(matches!(view2.get(&buffer, Vec2::new(1, 0)), Some(Some(cell)) if cell.c == 'c'));
    assert!(matches!(view2.get(&buffer, Vec2::new(7, 7)), Some(Some(cell)) if cell.c == 'd'));

    assert!(view2.get(&buffer, Vec2::new(8, 8)).is_none());

    assert!(matches!(view.get(&buffer, Vec2::new(1, 1)), Some(Some(cell)) if cell.c == 'a'));
    assert!(matches!(view.get(&buffer, Vec2::new(1, 8)), Some(Some(cell)) if cell.c == 'b'));
    assert!(matches!(view.get(&buffer, Vec2::new(2, 1)), Some(Some(cell)) if cell.c == 'c'));
    assert!(matches!(view.get(&buffer, Vec2::new(8, 8)), Some(Some(cell)) if cell.c == 'd'));
}

#[test]
fn resize_same_size_clears_cells_and_cursor() {
    let mut buffer = Buffer::new(Vec2::new(4, 3));
    buffer.set(Vec2::new(2, 1), Some(Cell::new('x', Style::new()))).unwrap();
    buffer.set_cursor(Some(Vec2::new(1, 1)));

    buffer.resize_and_clear(Vec2::new(4, 3));

    assert_eq!(buffer.size(), Vec2::new(4, 3));
    assert_eq!(buffer.cursor(), None);
    for y in 0..3u16 {
        for x in 0..4u16 {
            assert!(matches!(buffer.get(Vec2::new(x, y)), Some(None)));
        }
    }
}

#[test]
fn resize_to_new_shape() {
    let mut buffer = Buffer::new(Vec2::new(2, 2));
    buffer.set(Vec2::new(1, 1), Some(Cell::new('x', Style::new()))).unwrap();
    buffer.resize_and_clear(Vec2::new(5, 1));
    assert_eq!(buffer.size(), Vec2::new(5, 1));
    assert!(matches!(buffer.get(Vec2::new(4, 0)), Some(None)));
    assert!(buffer.get(Vec2::new(0, 1)).is_none());
}

#[test]
fn out_of_bounds_write_fails_and_changes_nothing() {
    let mut buffer = Buffer::new(Vec2::new(3, 3));
    assert!(buffer.set(Vec2::new(3, 0), Some(Cell::new('x', Style::new()))).is_err());
    assert!(buffer.set(Vec2::new(0, 3), Some(Cell::new('x', Style::new()))).is_err());
    for y in 0..3u16 {
        for x in 0..3u16 {
            assert!(matches!(buffer.get(Vec2::new(x, y)), Some(None)));
        }
    }
}

#[test]
fn subview_writes_visible_through_parent_only_inside_window() {
    let mut buffer = Buffer::new(Vec2::new(6, 6));
    let parent = buffer.view(true);
    let sub = parent.view(Vec2::new(2, 3), Vec2::new(5, 5), false);

    sub.set(&mut buffer, Vec2::new(1, 1), Some(Cell::new('z', Style::new()))).unwrap();
    assert!(matches!(parent.get(&buffer, Vec2::new(3, 4)), Some(Some(cell)) if cell.c == 'z'));

    assert!(sub.get(&buffer, Vec2::new(3, 0)).is_none());
    assert!(sub.set(&mut buffer, Vec2::new(3, 0), Some(Cell::new('q', Style::new()))).is_err());
    assert!(matches!(parent.get(&buffer, Vec2::new(5, 3)), Some(None)));
}

#[test]
fn degenerate_view_yields_no_cells() {
    let mut buffer = Buffer::new(Vec2::new(4, 4));
    let parent = buffer.view(true);
    let sub = parent.view(Vec2::new(3, 3), Vec2::new(3, 3), true);
    assert!(sub.get(&buffer, Vec2::new(0, 0)).is_none());
    sub.set_cursor(&mut buffer, Some(Vec2::new(0, 0)));
    assert_eq!(buffer.cursor(), None);
}

#[test]
fn cursor_disabled_view_cannot_steal_cursor() {
    let mut buffer = Buffer::new(Vec2::new(4, 4));
    buffer.set_cursor(Some(Vec2::new(2, 2)));
    let parent = buffer.view(false);
    let sub = parent.view(Vec2::new(0, 0), Vec2::new(4, 4), true);
    sub.set_cursor(&mut buffer, Some(Vec2::new(1, 1)));
    assert_eq!(buffer.cursor(), Some(Vec2::new(2, 2)));
}

#[test]
fn blit_copies_with_offset_and_fallback() {
    let mut dst = Buffer::new(Vec2::new(5, 4));
    dst.set(Vec2::new(0, 0), Some(Cell::new('k', Style::new()))).unwrap();
    dst.set(Vec2::new(3, 2), Some(Cell::new('o', Style::new()))).unwrap();

    let mut src = Buffer::new(Vec2::new(2, 2));
    src.set(Vec2::new(0, 0), Some(Cell::new('s', Style::new()))).unwrap();
    src.set_cursor(Some(Vec2::new(1, 1)));

    dst.blit(Vec2::new(2, 1), &src, true, Some(Cell::new('.', Style::new())));

    // The source's populated slot lands at the offset; its untouched
    // slots land as the fallback.
    assert!(matches!(dst.get(Vec2::new(2, 1)), Some(Some(cell)) if cell.c == 's'));
    assert!(matches!(dst.get(Vec2::new(3, 1)), Some(Some(cell)) if cell.c == '.'));
    assert!(matches!(dst.get(Vec2::new(2, 2)), Some(Some(cell)) if cell.c == '.'));
    assert!(matches!(dst.get(Vec2::new(3, 2)), Some(Some(cell)) if cell.c == '.'));
    // Cells outside the landing area keep their contents.
    assert!(matches!(dst.get(Vec2::new(0, 0)), Some(Some(cell)) if cell.c == 'k'));
    assert!(matches!(dst.get(Vec2::new(4, 3)), Some(None)));
    // The cursor follows the source, shifted by the offset.
    assert_eq!(dst.cursor(), Some(Vec2::new(3, 2)));
}

#[test]
fn out_of_window_cursor_placement_is_a_silent_no_op() {
    let mut buffer = Buffer::new(Vec2::new(4, 4));
    let view = buffer.view(true);
    view.set_cursor(&mut buffer, Some(Vec2::new(1, 1)));
    assert_eq!(buffer.cursor(), Some(Vec2::new(1, 1)));
    // Out of the window: the recorded cursor stays.
    view.set_cursor(&mut buffer, Some(Vec2::new(4, 0)));
    assert_eq!(buffer.cursor(), Some(Vec2::new(1, 1)));
    // An explicit None clears it.
    view.set_cursor(&mut buffer, None);
    assert_eq!(buffer.cursor(), None);
}
