use tui_core::ansi::encode_cmds;
use tui_core::buffer::{Buffer, Cell};
use tui_core::render::{draw_diff, draw_no_diff, TermCmd, TermModel};
use tui_core::style::{Color, Style, Weight};
use tui_core::vec2::Vec2;

fn model_matches(model: &TermModel, buf: &Buffer) -> bool {
    let size = buf.size();
    if model.size != size {
        return false;
    }
    for y in 0..size.y {
        for x in 0..size.x {
            let want = match buf.get(Vec2::new(x, y)) {
                Some(Some(cell)) => cell,
                Some(None) => Cell::new(' ', Style::new()),
                None => return false,
            };
            let idx = y as usize * size.x as usize + x as usize;
            if model.cells[idx] != want {
                return false;
            }
        }
    }
    if model.vis != buf.cursor().is_some() {
        return false;
    }
    if let Some(p) = buf.cursor() {
        if model.pos != p {
            return false;
        }
    }
    true
}

#[test]
fn diffing_identical_buffers_emits_nothing() {
    let mut a = Buffer::new(Vec2::new(5, 4));
    a.set(Vec2::new(1, 2), Some(Cell::new('x', Style::new().with_fg(Color::Red)))).unwrap();
    a.set_cursor(Some(Vec2::new(3, 1)));

    let mut b = Buffer::new(Vec2::new(5, 4));
    b.set(Vec2::new(1, 2), Some(Cell::new('x', Style::new().with_fg(Color::Red)))).unwrap();
    b.set_cursor(Some(Vec2::new(3, 1)));

    let cmds = draw_diff(&a, &b);
    assert!(cmds.is_empty());
    assert_eq!(encode_cmds(&cmds), "");
}

#[test]
fn replaying_a_diff_turns_the_previous_frame_into_the_next() {
    let mut a = Buffer::new(Vec2::new(6, 3));
    a.set(Vec2::new(0, 0), Some(Cell::new('o', Style::new()))).unwrap();
    a.set(Vec2::new(5, 2), Some(Cell::new('k', Style::new().with_weight(Weight::Bold)))).unwrap();
    a.set_cursor(Some(Vec2::new(2, 2)));

    let mut b = Buffer::new(Vec2::new(6, 3));
    b.set(Vec2::new(0, 0), Some(Cell::new('n', Style::new().with_fg(Color::Green)))).unwrap();
    b.set(Vec2::new(1, 0), Some(Cell::new('e', Style::new().with_fg(Color::Green)))).unwrap();
    b.set(Vec2::new(3, 1), Some(Cell::new('w', Style::new().with_underline(true)))).unwrap();
    b.set_cursor(Some(Vec2::new(4, 0)));

    let cmds = draw_diff(&a, &b);
    let mut model = TermModel::from_buffer(&a, Vec2::new(0, 0));
    model.apply_all(&cmds);
    assert!(model_matches(&model, &b));
}

#[test]
fn replaying_a_diff_that_hides_the_cursor() {
    let mut a = Buffer::new(Vec2::new(4, 2));
    a.set_cursor(Some(Vec2::new(1, 1)));
    let b = Buffer::new(Vec2::new(4, 2));

    let cmds = draw_diff(&a, &b);
    let mut model = TermModel::from_buffer(&a, Vec2::new(0, 0));
    model.apply_all(&cmds);
    assert!(!model.vis);
    assert!(model_matches(&model, &b));
}

#[test]
fn shape_change_forces_a_full_repaint() {
    let a = Buffer::new(Vec2::new(3, 3));
    let mut b = Buffer::new(Vec2::new(5, 2));
    b.set(Vec2::new(4, 1), Some(Cell::new('z', Style::new()))).unwrap();

    let cmds = draw_diff(&a, &b);
    assert!(matches!(cmds.first(), Some(TermCmd::ClearAll)));

    // The repaint lands any same-shaped terminal in the new frame,
    // whatever it showed before.
    let mut junk = Buffer::new(Vec2::new(5, 2));
    junk.set(Vec2::new(0, 0), Some(Cell::new('j', Style::new().with_bg(Color::Blue)))).unwrap();
    junk.set_cursor(Some(Vec2::new(2, 0)));
    let mut model = TermModel::from_buffer(&junk, Vec2::new(0, 0));
    model.apply_all(&cmds);
    assert!(model_matches(&model, &b));
}

#[test]
fn full_repaint_writes_populated_cells_only() {
    let mut b = Buffer::new(Vec2::new(3, 1));
    b.set(Vec2::new(2, 0), Some(Cell::new('c', Style::new()))).unwrap();
    let cmds = draw_no_diff(&b);
    let puts = cmds.iter().filter(|c| matches!(c, TermCmd::Put(_))).count();
    assert_eq!(puts, 1);
}

#[test]
fn adjacent_writes_need_no_extra_cursor_move() {
    let a = Buffer::new(Vec2::new(4, 1));
    let mut b = Buffer::new(Vec2::new(4, 1));
    b.set(Vec2::new(1, 0), Some(Cell::new('a', Style::new()))).unwrap();
    b.set(Vec2::new(2, 0), Some(Cell::new('b', Style::new()))).unwrap();

    let cmds = draw_diff(&a, &b);
    let moves = cmds.iter().filter(|c| matches!(c, TermCmd::CursorTo(_))).count();
    assert_eq!(moves, 1);
}

#[test]
fn style_deltas_are_emitted_per_attribute() {
    let a = Buffer::new(Vec2::new(2, 1));
    let mut b = Buffer::new(Vec2::new(2, 1));
    b.set(Vec2::new(0, 0), Some(Cell::new('x', Style::new().with_fg(Color::Red)))).unwrap();
    b.set(Vec2::new(1, 0), Some(Cell::new('y', Style::new().with_fg(Color::Red)))).unwrap();

    let cmds = draw_diff(&a, &b);
    // One foreground change for the first cell, none for the second, one
    // reset at the end of the sweep.
    let fgs = cmds.iter().filter(|c| matches!(c, TermCmd::Fg(_))).count();
    assert_eq!(fgs, 2);
}

#[test]
fn encode_spells_out_csi_sequences() {
    let cmds = vec![
        TermCmd::ClearAll,
        TermCmd::CursorTo(Vec2::new(4, 2)),
        TermCmd::CursorVis(true),
        TermCmd::CursorVis(false),
        TermCmd::Fg(Color::Red),
        TermCmd::Bg(Color::Default),
        TermCmd::SetWeight(Weight::Bold),
        TermCmd::SetWeight(Weight::Normal),
        TermCmd::SetUnderline(true),
        TermCmd::Put('A'),
        TermCmd::Put('\u{7}'),
    ];
    let s = encode_cmds(&cmds);
    assert_eq!(
        s,
        "\u{1b}[2J\u{1b}[3J\u{1b}[3;5H\u{1b}[?25h\u{1b}[?25l\u{1b}[31m\u{1b}[49m\u{1b}[1m\u{1b}[22m\u{1b}[4mA"
    );
}
