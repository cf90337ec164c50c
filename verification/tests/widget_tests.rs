use tui_core::buffer::Buffer;
use tui_core::context::{Context, Handled};
use tui_core::editor::StringEditor;
use tui_core::event::{EventKind, KeyCode, KeyEvent, Modifiers};
use tui_core::layout::SizeConstraint;
use tui_core::style::Style;
use tui_core::vec2::Vec2;
use tui_core::widget::{
    render_widget, widget_on_event, Container, Label, LineStyle, Renderable, Stack, TextField,
    Widget,
};

fn key(code: KeyCode) -> EventKind {
    EventKind::Key(KeyEvent::key(code))
}

fn cell_char(buf: &Buffer, x: u16, y: u16) -> Option<char> {
    match buf.get(Vec2::new(x, y)) {
        Some(Some(cell)) => Some(cell.c),
        _ => None,
    }
}

#[test]
fn focus_next_saturates_at_the_last_child() {
    let mut stack: Stack<u32> = Stack::new();
    for _ in 0..3 {
        stack.push(Widget::Label(Label::new(String::from("x"))), SizeConstraint::new());
    }
    stack.set_focus(Some(0));
    stack.focus_next();
    assert_eq!(stack.focused, Some(1));
    stack.focus_next();
    assert_eq!(stack.focused, Some(2));
    stack.focus_next();
    assert_eq!(stack.focused, Some(2));
}

#[test]
fn focus_prev_saturates_at_the_first_child() {
    let mut stack: Stack<u32> = Stack::new();
    for _ in 0..3 {
        stack.push(Widget::Label(Label::new(String::from("x"))), SizeConstraint::new());
    }
    stack.set_focus(Some(2));
    stack.focus_prev();
    assert_eq!(stack.focused, Some(1));
    stack.focus_prev();
    assert_eq!(stack.focused, Some(0));
    stack.focus_prev();
    assert_eq!(stack.focused, Some(0));
}

#[test]
fn set_focus_rejects_out_of_bounds_indices() {
    let mut stack: Stack<u32> = Stack::new();
    stack.push(Widget::Label(Label::new(String::from("x"))), SizeConstraint::new());
    stack.set_focus(Some(5));
    assert_eq!(stack.focused, None);
    stack.set_focus(Some(0));
    assert_eq!(stack.focused, Some(0));
}

#[test]
fn vertical_stack_moves_focus_on_up_and_down() {
    let mut stack: Stack<u32> = Stack::new();
    for _ in 0..2 {
        stack.push(Widget::Label(Label::new(String::from("x"))), SizeConstraint::new());
    }
    stack.set_focus(Some(0));
    let mut ctx: Context<u32> = Context::new();
    let w = Widget::Stack(stack);
    let (w, handled) = widget_on_event(w, &mut ctx, &key(KeyCode::Down));
    assert!(matches!(handled, Handled::Yes));
    let (w, handled) = widget_on_event(w, &mut ctx, &key(KeyCode::Up));
    assert!(matches!(handled, Handled::Yes));
    // Left/Right do not move focus in a vertical stack and nothing is
    // focused to consume them either way at label leaves.
    let (_, handled) = widget_on_event(w, &mut ctx, &key(KeyCode::Left));
    assert!(matches!(handled, Handled::No));
}

#[test]
fn label_renders_into_the_first_row() {
    let mut buf = Buffer::new(Vec2::new(10, 2));
    let view = buf.view(true);
    let w: Widget<u32> = Widget::Label(Label::new(String::from("hey")));
    let _ = render_widget(w, &mut buf, &view);
    assert_eq!(cell_char(&buf, 0, 0), Some('h'));
    assert_eq!(cell_char(&buf, 1, 0), Some('e'));
    assert_eq!(cell_char(&buf, 2, 0), Some('y'));
    assert_eq!(cell_char(&buf, 3, 0), None);
}

#[test]
fn label_truncates_to_the_view_width() {
    let mut buf = Buffer::new(Vec2::new(2, 1));
    let view = buf.view(true);
    let w: Widget<u32> = Widget::Label(Label::new(String::from("wide")));
    let _ = render_widget(w, &mut buf, &view);
    assert_eq!(cell_char(&buf, 0, 0), Some('w'));
    assert_eq!(cell_char(&buf, 1, 0), Some('i'));
    assert!(buf.get(Vec2::new(2, 0)).is_none());
}

#[test]
fn container_border_frames_its_child() {
    let mut buf = Buffer::new(Vec2::new(5, 4));
    let view = buf.view(true);
    let inner: Widget<u32> = Widget::Label(Label::new(String::from("ab")));
    let w = Widget::Container(
        Container::new(inner).with_border(LineStyle::Line, Style::new()),
    );
    let _ = render_widget(w, &mut buf, &view);
    assert_eq!(cell_char(&buf, 0, 0), Some('┌'));
    assert_eq!(cell_char(&buf, 4, 0), Some('┐'));
    assert_eq!(cell_char(&buf, 0, 3), Some('└'));
    assert_eq!(cell_char(&buf, 4, 3), Some('┘'));
    assert_eq!(cell_char(&buf, 2, 0), Some('─'));
    assert_eq!(cell_char(&buf, 0, 2), Some('│'));
    // The child rendered one cell in from the edges.
    assert_eq!(cell_char(&buf, 1, 1), Some('a'));
    assert_eq!(cell_char(&buf, 2, 1), Some('b'));
}

#[test]
fn stack_renders_children_by_assigned_sizes() {
    let mut stack: Stack<u32> = Stack::new();
    stack.push(
        Widget::Label(Label::new(String::from("top"))),
        SizeConstraint::fixed(1),
    );
    stack.push(
        Widget::Label(Label::new(String::from("bottom"))),
        SizeConstraint::new(),
    );
    let mut buf = Buffer::new(Vec2::new(8, 4));
    let view = buf.view(true);
    let _ = render_widget(Widget::Stack(stack), &mut buf, &view);
    assert_eq!(cell_char(&buf, 0, 0), Some('t'));
    // The second child starts right below the first one's single row.
    assert_eq!(cell_char(&buf, 0, 1), Some('b'));
}

#[test]
fn only_the_focused_child_places_the_cursor() {
    let mut stack: Stack<u32> = Stack::new();
    stack.push(Widget::TextField(TextField::new().with_text("one")), SizeConstraint::fixed(1));
    stack.push(Widget::TextField(TextField::new().with_text("two")), SizeConstraint::fixed(1));
    stack.set_focus(Some(1));
    let mut buf = Buffer::new(Vec2::new(8, 4));
    let view = buf.view(true);
    let _ = render_widget(Widget::Stack(stack), &mut buf, &view);
    // Each editor's cursor sits at the end of its text; only the focused
    // child's placement lands, at the second row.
    assert_eq!(buf.cursor(), Some(Vec2::new(3, 1)));
}

#[test]
fn unhandled_input_goes_only_to_the_focused_child() {
    let mut stack: Stack<u32> = Stack::new();
    stack.push(Widget::TextField(TextField::new()), SizeConstraint::fixed(1));
    stack.push(Widget::TextField(TextField::new()), SizeConstraint::fixed(1));
    stack.set_focus(Some(1));
    let mut ctx: Context<u32> = Context::new();
    let (w, handled) = widget_on_event(
        Widget::Stack(stack),
        &mut ctx,
        &key(KeyCode::Char('q')),
    );
    assert!(matches!(handled, Handled::Yes));
    match w {
        Widget::Stack(st) => {
            match (&st.elements[0].view, &st.elements[1].view) {
                (Widget::TextField(first), Widget::TextField(second)) => {
                    assert_eq!(first.editor.len_chars(), 0);
                    assert_eq!(second.editor.len_chars(), 1);
                },
                _ => panic!("stack children changed kind"),
            }
        },
        _ => panic!("widget changed kind"),
    }
}

#[test]
fn text_field_enter_queues_the_armed_message() {
    let mut ctx: Context<u32> = Context::new();
    let mut field: TextField<u32> = TextField::new().with_text("hi").on_enter(7);
    let handled = field.on_event(&mut ctx, &key(KeyCode::Return));
    assert!(matches!(handled, Handled::Yes));
    let batch = ctx.take_batch();
    assert_eq!(batch, vec![7]);
}

#[test]
fn editor_edits_text_and_tracks_the_cursor() {
    let mut ed = StringEditor::new();
    ed.insert_char('a');
    ed.insert_char('b');
    ed.insert_char('c');
    assert_eq!(ed.chars().as_slice(), &['a', 'b', 'c']);
    assert_eq!(ed.cursor_pos_chars(), 3);
    ed.move_left();
    ed.backspace();
    assert_eq!(ed.chars().as_slice(), &['a', 'c']);
    assert_eq!(ed.cursor_pos_chars(), 1);
    ed.insert_str("xy");
    assert_eq!(ed.chars().as_slice(), &['a', 'x', 'y', 'c']);
    ed.move_home();
    ed.delete_char();
    assert_eq!(ed.chars().as_slice(), &['x', 'y', 'c']);
    ed.move_end();
    assert_eq!(ed.cursor_pos_chars(), 3);
    ed.set_cursor(99);
    assert_eq!(ed.cursor_pos_chars(), 3);
    ed.clear();
    assert!(ed.is_empty());
}

#[test]
fn editor_handles_key_events() {
    let mut ed = StringEditor::new();
    assert!(matches!(ed.handle_event(&key(KeyCode::Char('h'))), Handled::Yes));
    assert!(matches!(ed.handle_event(&key(KeyCode::Char('i'))), Handled::Yes));
    assert!(matches!(ed.handle_event(&key(KeyCode::Tab)), Handled::No));
    let alt_h = EventKind::Key(KeyEvent {
        key_code: KeyCode::Char('h'),
        modifiers: Modifiers::alt(),
    });
    assert!(matches!(ed.handle_event(&alt_h), Handled::No));
    assert_eq!(ed.chars().as_slice(), &['h', 'i']);
}

#[test]
fn text_field_enter_without_armed_message_queues_nothing() {
    let mut ctx: Context<u32> = Context::new();
    let mut field: TextField<u32> = TextField::new().with_text("hi");
    let handled = field.on_event(&mut ctx, &key(KeyCode::Return));
    assert!(matches!(handled, Handled::Yes));
    assert!(ctx.take_batch().is_empty());
}

#[test]
fn text_field_editing_keys_edit_the_text() {
    let mut ctx: Context<u32> = Context::new();
    let mut field: TextField<u32> = TextField::new().with_text("ab");
    assert!(matches!(field.on_event(&mut ctx, &key(KeyCode::Char('c'))), Handled::Yes));
    assert_eq!(field.editor.chars().as_slice(), &['a', 'b', 'c']);
    assert!(matches!(field.on_event(&mut ctx, &key(KeyCode::Backspace)), Handled::Yes));
    assert_eq!(field.editor.chars().as_slice(), &['a', 'b']);
    // An unconsumed key neither edits nor queues.
    assert!(matches!(field.on_event(&mut ctx, &key(KeyCode::Tab)), Handled::No));
    assert_eq!(field.editor.chars().as_slice(), &['a', 'b']);
    assert!(ctx.take_batch().is_empty());
}
