use tui_core::ansi::AnsiBuilder;
use tui_core::buffer::{Buffer, Cell};
use tui_core::style::{Color, Style, Weight};
use tui_core::term::{TermPos, TermSize};
use tui_core::vec2::Vec2;

#[test]
fn vec2_arithmetic_saturates() {
    let a = Vec2::new(3, 5);
    let b = Vec2::new(4, 2);
    assert_eq!(a.saturating_add(b), Vec2::new(7, 7));
    assert_eq!(a.saturating_sub(b), Vec2::new(0, 3));
    assert_eq!(Vec2::new(u16::MAX, 0).saturating_add(Vec2::new(1, 1)), Vec2::new(u16::MAX, 1));
    assert_eq!(a.checked_add(b), Some(Vec2::new(7, 7)));
    assert_eq!(Vec2::new(u16::MAX, 0).checked_add(Vec2::new(1, 0)), None);
    assert_eq!(a.checked_sub(b), None);
    assert_eq!(b.checked_sub(Vec2::new(4, 2)), Some(Vec2::new(0, 0)));
}

#[test]
fn vec2_comparisons() {
    let a = Vec2::new(1, 5);
    let b = Vec2::new(2, 3);
    assert!(a.either_lt(b));
    assert!(a.either_gt(b));
    assert!(a.either_lteq(b));
    assert!(a.either_gteq(b));
    assert!(!a.both_lt(b));
    assert!(!a.both_gt(b));
    assert!(Vec2::new(1, 2).both_lt(Vec2::new(3, 4)));
    assert!(Vec2::new(3, 4).both_gteq(Vec2::new(3, 2)));
    assert_eq!(a.min(b), Vec2::new(1, 3));
    assert_eq!(a.max(b), Vec2::new(2, 5));
    assert_eq!(Vec2::new(4, 5).area(), 20);
}

#[test]
fn term_geometry() {
    assert_eq!(TermSize::new(80, 24).area(), 80 * 24);
    let p = TermPos::new(3, 4).offset(TermPos::new(10, 20));
    assert_eq!(p, TermPos::new(13, 24));
    let clamped = TermPos::new(u16::MAX, 0).offset(TermPos::new(5, 0));
    assert_eq!(clamped.x, u16::MAX);
}

#[test]
fn style_builders_compose() {
    let s = Style::new()
        .with_fg(Color::Cyan)
        .with_bg(Color::Black)
        .with_weight(Weight::Dim)
        .with_underline(true);
    assert_eq!(s.fg, Color::Cyan);
    assert_eq!(s.bg, Color::Black);
    assert_eq!(s.weight, Weight::Dim);
    assert!(s.underline);
    assert_eq!(Color::Default.sgr_digit(), 9);
    assert_eq!(Color::White.sgr_digit(), 7);
}

#[test]
fn builder_tracks_pen_and_cursor_state() {
    let mut b = AnsiBuilder::new();
    b.clear_screen();
    b.set_cursor_position(Vec2::new(0, 0));
    b.show_cursor(false);
    // Showing again after hiding emits; repeating does not.
    b.show_cursor(false);
    b.write_style(Style::new().with_fg(Color::Red));
    // An unchanged style appends nothing.
    b.write_style(Style::new().with_fg(Color::Red));
    b.write_char('A');
    b.write_char('\u{8}');
    b.write_newline();
    let s = b.finish();
    assert_eq!(
        s,
        "\u{1b}[2J\u{1b}[3J\u{1b}[1;1H\u{1b}[?25l\u{1b}[31mA\r\n\u{1b}[39m"
    );
}

#[test]
fn builder_write_str_drops_control_characters() {
    let mut b = AnsiBuilder::new();
    b.write_str("a\u{1b}b\tc");
    let s = b.finish();
    assert_eq!(s, "abc");
}

#[test]
fn frame_of_buffer_spells_out_a_full_repaint() {
    let mut buf = Buffer::new(Vec2::new(2, 2));
    buf.set(Vec2::new(0, 0), Some(Cell::new('h', Style::new()))).unwrap();
    buf.set(Vec2::new(1, 1), Some(Cell::new('i', Style::new()))).unwrap();
    buf.set_cursor(Some(Vec2::new(1, 0)));
    let s = AnsiBuilder::frame_of_buffer(&buf);
    // Clear, hide the cursor, reset the pen, write the two populated
    // cells (moving only over the gap), then restore the cursor.
    assert_eq!(
        s,
        "\u{1b}[2J\u{1b}[3J\u{1b}[?25l\u{1b}[39m\u{1b}[49m\u{1b}[22m\u{1b}[24m\u{1b}[1;1Hh\u{1b}[2;2Hi\u{1b}[1;2H\u{1b}[?25h"
    );
}
