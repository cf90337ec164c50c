//! The widget tree and the composition protocol.
//!
//! A [`Widget`] is one node of the view tree: a text label, an editable
//! text field, a container that may draw a border around its child, or a
//! stack that arranges children along one axis and tracks focus. The tree
//! renders into windowed sub-views of a buffer ([`render_widget`]) and
//! receives input events ([`widget_on_event`]); a stack hands unhandled
//! input only to its focused child, never to siblings, and only the
//! focused branch's sub-views may place the cursor.

use vstd::prelude::*;

use crate::buffer::{Buffer, BufferView, Cell};
use crate::context::{Context, Handled};
use crate::editor::StringEditor;
use crate::event::{EventKind, KeyCode, KeyEvent};
use crate::layout::{allocate_space, spec_assigned_size, SizeConstraint};
use crate::style::Style;
use crate::vec2::Vec2;

verus! {

/// How one node reacts to rendering and input: the contract every widget
/// kind implements. A render pass may write cells and the cursor through
/// its view but never reshapes the buffer; an event handler may queue
/// messages but never drops ones already queued.
pub trait Renderable<M>: Sized {
    fn on_event(&mut self, ctx: &mut Context<M>, event: &EventKind) -> (r: Handled)
        ensures
            old(ctx).spec_messages().is_prefix_of(final(ctx).spec_messages()),
    ;

    fn render(&mut self, buf: &mut Buffer, view: &BufferView)
        requires
            old(buf).wf(),
            view.wf_for(*old(buf)),
        ensures
            final(buf).wf(),
            final(buf).spec_size() == old(buf).spec_size(),
    ;
}

/// The kind of line a container border is drawn with.
#[derive(Default, Debug, Clone, Copy, PartialEq, Eq, Structural)]
pub enum LineStyle {
    #[default]
    Line,
}

impl LineStyle {
    /// The horizontal edge character.
    pub fn h(&self) -> (r: char)
        ensures
            r == line_h(*self),
    {
        match self {
            LineStyle::Line => '─',
        }
    }

    /// The vertical edge character.
    pub fn v(&self) -> (r: char)
        ensures
            r == line_v(*self),
    {
        match self {
            LineStyle::Line => '│',
        }
    }

    /// The top-left corner character.
    pub fn tl(&self) -> (r: char)
        ensures
            r == line_tl(*self),
    {
        match self {
            LineStyle::Line => '┌',
        }
    }

    /// The top-right corner character.
    pub fn tr(&self) -> (r: char)
        ensures
            r == line_tr(*self),
    {
        match self {
            LineStyle::Line => '┐',
        }
    }

    /// The bottom-left corner character.
    pub fn bl(&self) -> (r: char)
        ensures
            r == line_bl(*self),
    {
        match self {
            LineStyle::Line => '└',
        }
    }

    /// The bottom-right corner character.
    pub fn br(&self) -> (r: char)
        ensures
            r == line_br(*self),
    {
        match self {
            LineStyle::Line => '┘',
        }
    }
}

/// The horizontal, vertical and corner characters of a border line kind.
pub open spec fn line_h(l: LineStyle) -> char {
    match l {
        LineStyle::Line => '─',
    }
}

pub open spec fn line_v(l: LineStyle) -> char {
    match l {
        LineStyle::Line => '│',
    }
}

pub open spec fn line_tl(l: LineStyle) -> char {
    match l {
        LineStyle::Line => '┌',
    }
}

pub open spec fn line_tr(l: LineStyle) -> char {
    match l {
        LineStyle::Line => '┐',
    }
}

pub open spec fn line_bl(l: LineStyle) -> char {
    match l {
        LineStyle::Line => '└',
    }
}

pub open spec fn line_br(l: LineStyle) -> char {
    match l {
        LineStyle::Line => '┘',
    }
}

/// A single line of styled text.
pub struct Label {
    pub text: String,
    pub style: Style,
}

impl Label {
    pub fn new(text: String) -> (r: Self)
        ensures
            r.text@ == text@,
            r.style == crate::style::style_default(),
    {
        Self { text, style: Style::new() }
    }

    pub fn with_style(self, style: Style) -> (r: Self)
        ensures
            r.text@ == self.text@,
            r.style == style,
    {
        Self { style, ..self }
    }
}

impl<M> Renderable<M> for Label {
    /// A label ignores input.
    fn on_event(&mut self, ctx: &mut Context<M>, event: &EventKind) -> (r: Handled)
        ensures
            old(ctx).spec_messages().is_prefix_of(final(ctx).spec_messages()),
            r is No,
            *final(ctx) == *old(ctx),
            *final(self) == *old(self),
    {
        proof {
            assert(ctx.spec_messages().subrange(0, ctx.spec_messages().len() as int) =~= ctx.spec_messages());
        }
        Handled::No
    }

    /// Writes the text into the view's first row, truncated to its width;
    /// a view with no rows shows nothing. No other cell changes.
    #[verifier::loop_isolation(false)]
    fn render(&mut self, buf: &mut Buffer, view: &BufferView)
        ensures
            final(buf).wf(),
            final(buf).spec_size() == old(buf).spec_size(),
            final(buf).spec_cursor() == old(buf).spec_cursor(),
            *final(self) == *old(self),
            forall|x: int|
                0 <= x < old(self).text@.len() && view.in_view(x, 0) ==> view.cell(
                    *final(buf),
                    x,
                    0,
                ) == Some(Cell { c: old(self).text@[x], style: old(self).style }),
            forall|cx: int, cy: int|
                old(buf).in_bounds(cx, cy) && !(cy == view.start.y && view.start.x <= cx
                    < view.start.x + old(self).text@.len() && view.in_view(cx - view.start.x, 0))
                    ==> final(buf).cell_at(cx, cy) == old(buf).cell_at(cx, cy),
    {
        let size = view.size();
        if size.y == 0 {
            return ;
        }
        let n = self.text.as_str().unicode_len();
        let w = size.x as usize;
        let count = if n <= w {
            n
        } else {
            w
        };
        let mut x: usize = 0;
        while x < count
            invariant
                old(buf).wf(),
                view.wf_for(*old(buf)),
                count <= self.text@.len(),
                count <= view.end.x - view.start.x,
                x <= count,
                buf.wf(),
                buf.spec_size() == old(buf).spec_size(),
                buf.spec_cursor() == old(buf).spec_cursor(),
                view.wf_for(*buf),
                forall|j: int|
                    0 <= j < x ==> view.cell(*buf, j, 0) == Some(
                        Cell { c: self.text@[j], style: self.style },
                    ),
                forall|cx: int, cy: int|
                    old(buf).in_bounds(cx, cy) && !(cy == view.start.y && view.start.x <= cx
                        < view.start.x + x) ==> buf.cell_at(cx, cy) == old(buf).cell_at(cx, cy),
            decreases count - x,
        {
            let c = self.text.as_str().get_char(x);
            let ghost bprev = *buf;
            let res = view.set(
                buf,
                Vec2::new(x as u16, 0),
                Some(Cell::new(c, self.style)),
            );
            proof {
                assert(res is Ok);
                assert(view.in_view(x as int, 0));
                assert(buf.cell_at(view.start.x + (x as int), view.start.y as int) == Some(
                    Cell { c: self.text@[x as int], style: self.style },
                ));
                assert(view.cell(*buf, x as int, 0) == Some(
                    Cell { c: self.text@[x as int], style: self.style },
                ));
                assert forall|j: int|
                    0 <= j < x + 1 implies view.cell(*buf, j, 0) == Some(
                    Cell { c: self.text@[j], style: self.style },
                ) by {
                    if j < x {
                        assert(view.cell(bprev, j, 0) == Some(
                            Cell { c: self.text@[j], style: self.style },
                        ));
                        assert(bprev.in_bounds(view.start.x + j, view.start.y + 0));
                        assert(buf.cell_at(view.start.x + j, view.start.y + 0) == bprev.cell_at(
                            view.start.x + j,
                            view.start.y + 0,
                        ));
                    }
                }
                assert forall|cx: int, cy: int|
                    old(buf).in_bounds(cx, cy) && !(cy == view.start.y && view.start.x <= cx
                        < view.start.x + x + 1) implies buf.cell_at(cx, cy) == old(buf).cell_at(
                    cx,
                    cy,
                ) by {
                    assert(bprev.cell_at(cx, cy) == buf.cell_at(cx, cy));
                }
            }
            x += 1;
        }
        proof {
            assert forall|x2: int|
                0 <= x2 < self.text@.len() && view.in_view(x2, 0) implies view.cell(*buf, x2, 0)
                == Some(Cell { c: self.text@[x2], style: self.style }) by {
                assert(x2 < count);
            }
        }
    }
}

/// An editable one-line text field. When Return is pressed and a message
/// is armed with [`TextField::on_enter`], a copy of that message is
/// queued.
pub struct TextField<M> {
    pub editor: StringEditor,
    pub style: Style,
    pub on_enter: Option<M>,
}

impl<M> TextField<M> {
    pub open spec fn wf(self) -> bool {
        self.editor.wf()
    }

    pub open spec fn spec_on_enter(self) -> Option<M> {
        self.on_enter
    }

    pub fn new() -> (r: Self)
        ensures
            r.wf(),
            r.editor.spec_chars() == Seq::<char>::empty(),
            r.style == crate::style::style_default(),
            r.spec_on_enter() is None,
    {
        Self { editor: StringEditor::new(), style: Style::new(), on_enter: None }
    }

    pub fn with_text(self, text: &str) -> (r: Self)
        ensures
            r.wf(),
            r.editor.spec_chars() == text@,
            r.style == self.style,
            r.spec_on_enter() == self.spec_on_enter(),
    {
        let mut editor = self.editor;
        editor.set_string(text);
        Self { editor, ..self }
    }

    pub fn with_style(self, style: Style) -> (r: Self)
        ensures
            r == (TextField { style, ..self }),
    {
        Self { style, ..self }
    }

    /// Arms the message queued when Return is pressed in this field.
    pub fn on_enter(self, message: M) -> (r: Self)
        ensures
            r.editor == self.editor,
            r.style == self.style,
            r.spec_on_enter() == Some(message),
    {
        Self { on_enter: Some(message), ..self }
    }
}

/// Whether an event is the unmodified Return key.
pub open spec fn is_plain_return(event: EventKind) -> bool {
    match event {
        EventKind::Key(k) => k.modifiers.bits == 0 && k.key_code == KeyCode::Return,
        _ => false,
    }
}

impl<M: Clone> Renderable<M> for TextField<M> {
    /// An unmodified Return consumes the key and queues a copy of the
    /// armed message (nothing when none is armed); every other event goes
    /// to the editor, which consumes exactly the unmodified editing keys
    /// and edits the text as [`crate::editor::edited_chars`] and
    /// [`crate::editor::edited_cursor`] describe. Nothing else about the
    /// context changes.
    fn on_event(&mut self, ctx: &mut Context<M>, event: &EventKind) -> (r: Handled)
        ensures
            old(ctx).spec_messages().is_prefix_of(final(ctx).spec_messages()),
            final(ctx).spec_quit() == old(ctx).spec_quit(),
            final(ctx).spec_rebuild() == old(ctx).spec_rebuild(),
            is_plain_return(*event) ==> {
                &&& r is Yes
                &&& *final(self) == *old(self)
                &&& (match old(self).on_enter {
                    Some(m) => exists|m2: M|
                        #[trigger] cloned(m, m2) && final(ctx).spec_messages() == old(
                            ctx,
                        ).spec_messages().push(m2),
                    None => *final(ctx) == *old(ctx),
                })
            },
            !is_plain_return(*event) ==> {
                &&& *final(ctx) == *old(ctx)
                &&& final(self).style == old(self).style
                &&& final(self).on_enter == old(self).on_enter
                &&& (r is Yes <==> crate::editor::editor_consumes(*event))
                &&& final(self).editor.spec_chars() == crate::editor::edited_chars(
                    old(self).editor.spec_chars(),
                    old(self).editor.spec_cursor(),
                    *event,
                )
                &&& final(self).editor.spec_cursor() == crate::editor::edited_cursor(
                    old(self).editor.spec_chars(),
                    old(self).editor.spec_cursor(),
                    *event,
                )
            },
    {
        let r = match event {
            EventKind::Key(KeyEvent { key_code: KeyCode::Return, modifiers }) if modifiers.is_empty() => {
                match &self.on_enter {
                    Some(m) => {
                        let copy = m.clone();
                        proof {
                            assert(cloned(*m, copy));
                        }
                        ctx.send(copy);
                        Handled::Yes
                    },
                    None => Handled::Yes,
                }
            },
            _ => self.editor.handle_event(event),
        };
        proof {
            assert(ctx.spec_messages().subrange(0, old(ctx).spec_messages().len() as int) =~= old(
                ctx,
            ).spec_messages());
            assert(has_resolved(ctx));
            assert(has_resolved(self));
        }
        r
    }

    /// Writes the text into the first row, truncated to the view's width,
    /// and places the cursor at the editing position exactly when it lies
    /// inside the view's width; an editing position past the width leaves
    /// the cursor alone.
    #[verifier::loop_isolation(false)]
    fn render(&mut self, buf: &mut Buffer, view: &BufferView)
        ensures
            final(buf).wf(),
            final(buf).spec_size() == old(buf).spec_size(),
            *final(self) == *old(self),
            forall|x: int|
                0 <= x < old(self).editor.spec_chars().len() && view.in_view(x, 0) ==> view.cell(
                    *final(buf),
                    x,
                    0,
                ) == Some(Cell { c: old(self).editor.spec_chars()[x], style: old(self).style }),
            (view.end.x - view.start.x > 0 && view.end.y - view.start.y > 0 && old(
                self,
            ).editor.spec_cursor() < view.end.x - view.start.x && view.cursor_enabled)
                ==> final(buf).spec_cursor() == Some(
                crate::buffer::spec_vec2_sat_add(
                    view.start,
                    Vec2 { x: old(self).editor.spec_cursor() as u16, y: 0 },
                ),
            ),
            (old(self).editor.spec_cursor() >= view.end.x - view.start.x || view.end.x
                - view.start.x == 0 || view.end.y - view.start.y == 0 || !view.cursor_enabled)
                ==> final(buf).spec_cursor() == old(buf).spec_cursor(),
            forall|cx: int, cy: int|
                old(buf).in_bounds(cx, cy) && !(cy == view.start.y && view.start.x <= cx
                    < view.start.x + old(self).editor.spec_chars().len() && view.in_view(
                    cx - view.start.x,
                    0,
                )) ==> final(buf).cell_at(cx, cy) == old(buf).cell_at(cx, cy),
    {
        let size = view.size();
        if size.x == 0 || size.y == 0 {
            return ;
        }
        let chars = self.editor.chars();
        let n = chars.len();
        let w = size.x as usize;
        let count = if n <= w {
            n
        } else {
            w
        };
        let mut x: usize = 0;
        while x < count
            invariant
                old(buf).wf(),
                view.wf_for(*old(buf)),
                count <= chars@.len(),
                count <= view.end.x - view.start.x,
                x <= count,
                buf.wf(),
                buf.spec_size() == old(buf).spec_size(),
                buf.spec_cursor() == old(buf).spec_cursor(),
                view.wf_for(*buf),
                forall|j: int|
                    0 <= j < x ==> view.cell(*buf, j, 0) == Some(
                        Cell { c: chars@[j], style: self.style },
                    ),
                forall|cx: int, cy: int|
                    old(buf).in_bounds(cx, cy) && !(cy == view.start.y && view.start.x <= cx
                        < view.start.x + x) ==> buf.cell_at(cx, cy) == old(buf).cell_at(cx, cy),
            decreases count - x,
        {
            let c = chars[x];
            let ghost bprev = *buf;
            let res = view.set(buf, Vec2::new(x as u16, 0), Some(Cell::new(c, self.style)));
            proof {
                assert(res is Ok);
                assert forall|j: int|
                    0 <= j < x + 1 implies view.cell(*buf, j, 0) == Some(
                    Cell { c: chars@[j], style: self.style },
                ) by {
                    if j < x {
                        assert(view.cell(bprev, j, 0) == Some(
                            Cell { c: chars@[j], style: self.style },
                        ));
                        assert(bprev.in_bounds(view.start.x + j, view.start.y + 0));
                        assert(buf.cell_at(view.start.x + j, view.start.y + 0) == bprev.cell_at(
                            view.start.x + j,
                            view.start.y + 0,
                        ));
                    }
                }
                assert forall|cx: int, cy: int|
                    old(buf).in_bounds(cx, cy) && !(cy == view.start.y && view.start.x <= cx
                        < view.start.x + x + 1) implies buf.cell_at(cx, cy) == old(buf).cell_at(
                    cx,
                    cy,
                ) by {
                    assert(bprev.cell_at(cx, cy) == buf.cell_at(cx, cy));
                }
            }
            x += 1;
        }
        let cursor_x = self.editor.cursor_pos_chars();
        proof {
            assert forall|x2: int|
                0 <= x2 < self.editor.spec_chars().len() && view.in_view(x2, 0) implies view.cell(
                *buf,
                x2,
                0,
            ) == Some(Cell { c: self.editor.spec_chars()[x2], style: self.style }) by {
                assert(x2 < count);
            }
        }
        if cursor_x < w {
            let ghost bprev = *buf;
            view.set_cursor(buf, Some(Vec2::new(cursor_x as u16, 0)));
            proof {
                assert forall|x2: int|
                    0 <= x2 < self.editor.spec_chars().len() && view.in_view(x2, 0) implies view.cell(
                    *buf,
                    x2,
                    0,
                ) == Some(Cell { c: self.editor.spec_chars()[x2], style: self.style }) by {
                    assert(buf.cell_at(view.start.x + x2, view.start.y + 0) == bprev.cell_at(
                        view.start.x + x2,
                        view.start.y + 0,
                    ));
                }
            }
        }
    }
}

/// A wrapper around one child, optionally drawing a border just inside
/// its own window; with a border the child renders one cell in from each
/// edge.
pub struct Container<M> {
    pub child: Box<Widget<M>>,
    pub border: Option<(LineStyle, Style)>,
}

impl<M> Container<M> {
    pub fn new(child: Widget<M>) -> (r: Self)
        ensures
            *r.child == child,
            r.border is None,
    {
        Self { child: Box::new(child), border: None }
    }

    pub fn with_border(self, line: LineStyle, style: Style) -> (r: Self)
        ensures
            r.child == self.child,
            r.border == Some((line, style)),
    {
        Self { border: Some((line, style)), ..self }
    }
}

/// The axis a stack arranges its children along.
#[derive(Debug, Clone, Copy, PartialEq, Eq, Structural)]
pub enum Direction {
    Right,
    Down,
}

/// One stack child: the widget, its size constraint, and the size the
/// last layout pass assigned (recomputed every render, never persisted
/// meaningfully across frames).
pub struct StackElement<M> {
    pub view: Widget<M>,
    pub constraint: SizeConstraint,
    pub size: u16,
}

/// Arranges children along one axis under size constraints and tracks
/// which child is focused. Unhandled input goes only to the focused
/// child, and only the focused child's sub-view may place the cursor.
pub struct Stack<M> {
    pub elements: Vec<StackElement<M>>,
    pub focused: Option<usize>,
    pub direction: Direction,
}

impl<M> Stack<M> {
    pub open spec fn spec_focused(self) -> Option<usize> {
        self.focused
    }

    /// An empty vertical stack with nothing focused.
    pub fn new() -> (r: Self)
        ensures
            r.elements@.len() == 0,
            r.spec_focused() is None,
            r.direction == Direction::Down,
    {
        Self { elements: Vec::new(), focused: None, direction: Direction::Down }
    }

    pub fn with_direction(self, direction: Direction) -> (r: Self)
        ensures
            r.elements == self.elements,
            r.spec_focused() == self.spec_focused(),
            r.direction == direction,
    {
        Self { direction, ..self }
    }

    /// Appends a child with its constraint; its computed size starts at
    /// zero until a render pass assigns one.
    pub fn push(&mut self, view: Widget<M>, constraint: SizeConstraint)
        ensures
            final(self).elements@ == old(self).elements@.push(
                StackElement { view, constraint, size: 0u16 },
            ),
            final(self).spec_focused() == old(self).spec_focused(),
            final(self).direction == old(self).direction,
    {
        self.elements.push(StackElement { view, constraint, size: 0 });
    }

    /// Focuses the child at an index; an out-of-bounds index clears the
    /// focus.
    pub fn set_focus(&mut self, focused: Option<usize>)
        ensures
            final(self).elements == old(self).elements,
            final(self).direction == old(self).direction,
            final(self).spec_focused() == (match focused {
                Some(idx) => if idx < old(self).elements@.len() {
                    Some(idx)
                } else {
                    None::<usize>
                },
                None => None::<usize>,
            }),
    {
        self.focused = match focused {
            Some(idx) => if idx < self.elements.len() {
                Some(idx)
            } else {
                None
            },
            None => None,
        };
    }

    /// Moves the focus one child back, stopping at the first; with no
    /// focus it does nothing.
    pub fn focus_prev(&mut self)
        ensures
            final(self).elements == old(self).elements,
            final(self).direction == old(self).direction,
            final(self).spec_focused() == (match old(self).spec_focused() {
                Some(i) => Some((if i > 0 {
                    (i - 1) as usize
                } else {
                    0usize
                })),
                None => None::<usize>,
            }),
    {
        self.focused = match self.focused {
            Some(i) => Some(
                if i > 0 {
                    i - 1
                } else {
                    0
                },
            ),
            None => None,
        };
    }

    /// Moves the focus one child forward, stopping at the last; with no
    /// focus it does nothing.
    pub fn focus_next(&mut self)
        ensures
            final(self).elements == old(self).elements,
            final(self).direction == old(self).direction,
            final(self).spec_focused() == (match old(self).spec_focused() {
                Some(i) => if old(self).elements@.len() > 0 {
                    Some(
                        (if i + 1 < old(self).elements@.len() {
                            (i + 1) as usize
                        } else {
                            (old(self).elements@.len() - 1) as usize
                        }),
                    )
                } else {
                    None::<usize>
                },
                None => None::<usize>,
            }),
    {
        let n = self.elements.len();
        self.focused = match self.focused {
            Some(i) => {
                if n == 0 {
                    None
                } else if i < n - 1 {
                    Some(i + 1)
                } else {
                    Some(n - 1)
                }
            },
            None => None,
        };
    }

    /// Handles a focus-navigation key: Up and Down move the focus in a
    /// vertical stack, Left and Right in a horizontal one, all without
    /// modifiers; anything else is not handled here and changes nothing.
    pub fn handle_nav_key(&mut self, event: &EventKind) -> (r: Handled)
        ensures
            final(self).elements == old(self).elements,
            final(self).direction == old(self).direction,
            r is No ==> *final(self) == *old(self),
            r is Yes <==> (nav_is_prev(*event, old(self).direction) || nav_is_next(
                *event,
                old(self).direction,
            )),
            nav_is_prev(*event, old(self).direction) ==> final(self).spec_focused()
                == spec_focus_prev(old(self).spec_focused()),
            nav_is_next(*event, old(self).direction) ==> final(self).spec_focused()
                == spec_focus_next(old(self).spec_focused(), old(self).elements@.len() as int),
    {
        match event {
            EventKind::Key(KeyEvent { key_code, modifiers }) => {
                if !modifiers.is_empty() {
                    return Handled::No;
                }
                match (key_code, self.direction) {
                    (KeyCode::Up, Direction::Down) => {
                        self.focus_prev();
                        Handled::Yes
                    },
                    (KeyCode::Down, Direction::Down) => {
                        self.focus_next();
                        Handled::Yes
                    },
                    (KeyCode::Left, Direction::Right) => {
                        self.focus_prev();
                        Handled::Yes
                    },
                    (KeyCode::Right, Direction::Right) => {
                        self.focus_next();
                        Handled::Yes
                    },
                    _ => Handled::No,
                }
            },
            _ => Handled::No,
        }
    }
}

/// Whether an event is the unmodified key that moves the focus one child
/// back along the stack's axis.
pub open spec fn nav_is_prev(event: EventKind, direction: Direction) -> bool {
    match event {
        EventKind::Key(k) => k.modifiers.bits == 0 && ((k.key_code == KeyCode::Up && direction
            == Direction::Down) || (k.key_code == KeyCode::Left && direction == Direction::Right)),
        _ => false,
    }
}

/// Whether an event is the unmodified key that moves the focus one child
/// forward along the stack's axis.
pub open spec fn nav_is_next(event: EventKind, direction: Direction) -> bool {
    match event {
        EventKind::Key(k) => k.modifiers.bits == 0 && ((k.key_code == KeyCode::Down && direction
            == Direction::Down) || (k.key_code == KeyCode::Right && direction
            == Direction::Right)),
        _ => false,
    }
}

/// Where the focus stands after one step back: one child earlier,
/// stopping at the first.
pub open spec fn spec_focus_prev(f: Option<usize>) -> Option<usize> {
    match f {
        Some(i) => Some(
            (if i > 0 {
                (i - 1) as usize
            } else {
                0usize
            }),
        ),
        None => None,
    }
}

/// Where the focus stands after one step forward: one child later,
/// stopping at the last.
pub open spec fn spec_focus_next(f: Option<usize>, n: int) -> Option<usize> {
    match f {
        Some(i) => if n > 0 {
            Some(
                (if i + 1 < n {
                    (i + 1) as usize
                } else {
                    (n - 1) as usize
                }),
            )
        } else {
            None
        },
        None => None,
    }
}

/// One node of the view tree.
pub enum Widget<M> {
    Label(Label),
    TextField(TextField<M>),
    Container(Container<M>),
    Stack(Stack<M>),
}

/// What one buffer slot holds after a border is painted just inside a
/// window: the corner and edge characters of the window in the border's
/// style, and the previous contents everywhere else — inside the frame
/// and outside the window alike.
pub open spec fn border_paint(
    view: BufferView,
    line: LineStyle,
    style: Style,
    prev: Buffer,
    cx: int,
    cy: int,
) -> Option<Cell> {
    let w = view.end.x - view.start.x;
    let h = view.end.y - view.start.y;
    let rx = cx - view.start.x;
    let ry = cy - view.start.y;
    if 0 <= rx < w && 0 <= ry < h {
        if rx == 0 && ry == 0 {
            Some(Cell { c: line_tl(line), style })
        } else if rx == w - 1 && ry == 0 {
            Some(Cell { c: line_tr(line), style })
        } else if rx == 0 && ry == h - 1 {
            Some(Cell { c: line_bl(line), style })
        } else if rx == w - 1 && ry == h - 1 {
            Some(Cell { c: line_br(line), style })
        } else if ry == 0 || ry == h - 1 {
            Some(Cell { c: line_h(line), style })
        } else if rx == 0 || rx == w - 1 {
            Some(Cell { c: line_v(line), style })
        } else {
            prev.cell_at(cx, cy)
        }
    } else {
        prev.cell_at(cx, cy)
    }
}

/// Paints a border just inside a window: the four edges and corners, in
/// the given style. Cells inside the frame and outside the window are
/// untouched, and so is the cursor.
#[verifier::loop_isolation(false)]
fn draw_border(view: &BufferView, buf: &mut Buffer, line: LineStyle, style: Style)
    requires
        old(buf).wf(),
        view.wf_for(*old(buf)),
        view.end.x - view.start.x >= 2,
        view.end.y - view.start.y >= 2,
    ensures
        final(buf).wf(),
        final(buf).spec_size() == old(buf).spec_size(),
        final(buf).spec_cursor() == old(buf).spec_cursor(),
        forall|cx: int, cy: int|
            old(buf).in_bounds(cx, cy) ==> final(buf).cell_at(cx, cy) == border_paint(
                *view,
                line,
                style,
                *old(buf),
                cx,
                cy,
            ),
{
    let wdt = view.end.x - view.start.x;
    let hgt = view.end.y - view.start.y;
    let ghost w = wdt as int;
    let ghost h = hgt as int;
    let mut x: u16 = 1;
    while x < wdt - 1
        invariant
            1 <= x <= w - 1,
            buf.wf(),
            buf.spec_size() == old(buf).spec_size(),
            buf.spec_cursor() == old(buf).spec_cursor(),
            forall|cx: int, cy: int|
                old(buf).in_bounds(cx, cy) ==> buf.cell_at(cx, cy) == (if (cy == view.start.y || cy
                    == view.start.y + h - 1) && view.start.x + 1 <= cx < view.start.x + x {
                    Some(Cell { c: line_h(line), style })
                } else {
                    old(buf).cell_at(cx, cy)
                }),
        decreases wdt - 1 - x,
    {
        let ghost bprev = *buf;
        let r1 = view.set(buf, Vec2::new(x, 0), Some(Cell::new(line.h(), style)));
        proof {
            assert(r1 is Ok);
        }
        let ghost bmid = *buf;
        let r2 = view.set(buf, Vec2::new(x, hgt - 1), Some(Cell::new(line.h(), style)));
        proof {
            assert(r2 is Ok);
            assert forall|cx: int, cy: int| old(buf).in_bounds(cx, cy) implies buf.cell_at(cx, cy)
                == (if (cy == view.start.y || cy == view.start.y + h - 1) && view.start.x + 1 <= cx
                < view.start.x + x + 1 {
                Some(Cell { c: line_h(line), style })
            } else {
                old(buf).cell_at(cx, cy)
            }) by {
                if bprev.in_bounds(cx, cy) {
                    assert(bmid.cell_at(cx, cy) == (if cx == view.start.x + x && cy == view.start.y {
                        Some(Cell { c: line_h(line), style })
                    } else {
                        bprev.cell_at(cx, cy)
                    }));
                }
            }
        }
        x += 1;
    }
    let ghost b1 = *buf;
    let mut y: u16 = 1;
    while y < hgt - 1
        invariant
            1 <= y <= h - 1,
            buf.wf(),
            buf.spec_size() == old(buf).spec_size(),
            buf.spec_cursor() == old(buf).spec_cursor(),
            forall|cx: int, cy: int|
                old(buf).in_bounds(cx, cy) ==> buf.cell_at(cx, cy) == (if (cx == view.start.x || cx
                    == view.start.x + w - 1) && view.start.y + 1 <= cy < view.start.y + y {
                    Some(Cell { c: line_v(line), style })
                } else {
                    b1.cell_at(cx, cy)
                }),
        decreases hgt - 1 - y,
    {
        let ghost bprev = *buf;
        let r1 = view.set(buf, Vec2::new(0, y), Some(Cell::new(line.v(), style)));
        proof {
            assert(r1 is Ok);
        }
        let ghost bmid = *buf;
        let r2 = view.set(buf, Vec2::new(wdt - 1, y), Some(Cell::new(line.v(), style)));
        proof {
            assert(r2 is Ok);
            assert forall|cx: int, cy: int| old(buf).in_bounds(cx, cy) implies buf.cell_at(cx, cy)
                == (if (cx == view.start.x || cx == view.start.x + w - 1) && view.start.y + 1 <= cy
                < view.start.y + y + 1 {
                Some(Cell { c: line_v(line), style })
            } else {
                b1.cell_at(cx, cy)
            }) by {
                if bprev.in_bounds(cx, cy) {
                    assert(bmid.cell_at(cx, cy) == (if cx == view.start.x && cy == view.start.y
                        + y {
                        Some(Cell { c: line_v(line), style })
                    } else {
                        bprev.cell_at(cx, cy)
                    }));
                }
            }
        }
        y += 1;
    }
    let ghost b2 = *buf;
    let c1 = view.set(buf, Vec2::new(0, 0), Some(Cell::new(line.tl(), style)));
    let c2 = view.set(buf, Vec2::new(wdt - 1, 0), Some(Cell::new(line.tr(), style)));
    let c3 = view.set(buf, Vec2::new(0, hgt - 1), Some(Cell::new(line.bl(), style)));
    let c4 = view.set(buf, Vec2::new(wdt - 1, hgt - 1), Some(Cell::new(line.br(), style)));
    proof {
        assert(c1 is Ok && c2 is Ok && c3 is Ok && c4 is Ok);
        assert forall|cx: int, cy: int| old(buf).in_bounds(cx, cy) implies buf.cell_at(cx, cy)
            == border_paint(*view, line, style, *old(buf), cx, cy) by {
            assert(b2.in_bounds(cx, cy));
        }
    }
}

/// The constraints of a stack's children, in order.
pub open spec fn constraints_of<M>(elements: Seq<StackElement<M>>) -> Seq<SizeConstraint> {
    Seq::new(elements.len(), |i: int| elements[i].constraint)
}

/// The extent a stack distributes: the view's height when it stacks
/// downward, its width when it stacks to the right.
pub open spec fn stack_extent(direction: Direction, view: BufferView) -> int {
    match direction {
        Direction::Down => view.end.y - view.start.y,
        Direction::Right => view.end.x - view.start.x,
    }
}

/// The window a bordered container's child renders into: one cell in from
/// every edge of the container's own window.
pub open spec fn border_inner_view(view: BufferView) -> BufferView {
    view.spec_subview(
        Vec2 { x: 1, y: 1 },
        Vec2 {
            x: ((view.end.x - view.start.x) - 1) as u16,
            y: ((view.end.y - view.start.y) - 1) as u16,
        },
        true,
    )
}

/// What one render pass guarantees, by the root widget's kind: a label or
/// text field writes its row-0 cells (and the field places the cursor)
/// and touches nothing else; a container keeps its border, draws nothing
/// in a window under two cells a side, and otherwise overwrites the
/// window's perimeter with its border characters; a stack keeps its
/// shape, focus and direction and carries the sizes the layout passes
/// assign. A render never reshapes the buffer, and a pass through a
/// cursor-disabled view never moves the cursor — only the focused branch
/// may place it.
pub open spec fn render_step<M>(
    w: Widget<M>,
    view: BufferView,
    r: Widget<M>,
    buf0: Buffer,
    buf1: Buffer,
) -> bool
    decreases w, 0int,
{
    &&& buf1.wf()
    &&& buf1.spec_size() == buf0.spec_size()
    &&& (!view.cursor_enabled ==> buf1.spec_cursor() == buf0.spec_cursor())
    &&& (w matches Widget::Label(l) ==> {
        &&& r == Widget::<M>::Label(l)
        &&& buf1.spec_cursor() == buf0.spec_cursor()
        &&& forall|x: int|
            0 <= x < l.text@.len() && view.in_view(x, 0) ==> view.cell(buf1, x, 0) == Some(
                Cell { c: l.text@[x], style: l.style },
            )
        &&& forall|cx: int, cy: int|
            buf0.in_bounds(cx, cy) && !(cy == view.start.y && view.start.x <= cx < view.start.x
                + l.text@.len() && view.in_view(cx - view.start.x, 0)) ==> buf1.cell_at(cx, cy)
                == buf0.cell_at(cx, cy)
    })
    &&& (w matches Widget::TextField(t) ==> {
        &&& r == Widget::TextField(t)
        &&& forall|x: int|
            0 <= x < t.editor.spec_chars().len() && view.in_view(x, 0) ==> view.cell(buf1, x, 0)
                == Some(Cell { c: t.editor.spec_chars()[x], style: t.style })
        &&& forall|cx: int, cy: int|
            buf0.in_bounds(cx, cy) && !(cy == view.start.y && view.start.x <= cx < view.start.x
                + t.editor.spec_chars().len() && view.in_view(cx - view.start.x, 0))
                ==> buf1.cell_at(cx, cy) == buf0.cell_at(cx, cy)
        &&& (view.end.x - view.start.x > 0 && view.end.y - view.start.y > 0
            && t.editor.spec_cursor() < view.end.x - view.start.x && view.cursor_enabled)
            ==> buf1.spec_cursor() == Some(
            crate::buffer::spec_vec2_sat_add(
                view.start,
                Vec2 { x: t.editor.spec_cursor() as u16, y: 0 },
            ),
        )
    })
    &&& (w matches Widget::Container(c) ==> (r matches Widget::Container(c2) && c2.border
        == c.border && (c.border is None ==> render_step(*c.child, view, *c2.child, buf0, buf1))
        && (c.border matches Some((line, style)) ==> (if view.end.x - view.start.x < 2
            || view.end.y - view.start.y < 2 {
            buf1 == buf0
        } else {
            forall|cx: int, cy: int|
                buf0.in_bounds(cx, cy) ==> buf1.cell_at(cx, cy) == border_paint(
                    view,
                    line,
                    style,
                    buf1,
                    cx,
                    cy,
                )
        }))))
    &&& (w matches Widget::Stack(st) ==> {
        &&& r matches Widget::Stack(st2)
        &&& st2.direction == st.direction
        &&& st2.spec_focused() == st.spec_focused()
        &&& st2.elements@.len() == st.elements@.len()
        &&& (st.elements@.len() > 0xFFFF ==> st2.elements == st.elements && buf1 == buf0)
        &&& (st.elements@.len() <= 0xFFFF ==> forall|i: int|
            0 <= i < st.elements@.len() ==> ((#[trigger] st2.elements@[i]).constraint
                == st.elements@[i].constraint && st2.elements@[i].size == spec_assigned_size(
                constraints_of(st.elements@),
                stack_extent(st.direction, view),
                i,
            )))
    })
}

/// What one dispatch step guarantees, by the root widget's kind: a label
/// consumes nothing; a text field consumes Return (queueing a copy of its
/// armed message) and the editing keys, editing its text exactly; a
/// container passes the event straight through; a stack answers the
/// focus-navigation keys itself and otherwise hands the event only to its
/// focused child — siblings, sizes and focus are untouched, and with
/// nothing focused the event is not handled. Queued messages only grow.
pub open spec fn on_event_step<M: Clone>(
    w: Widget<M>,
    event: EventKind,
    r: Widget<M>,
    h: Handled,
    ctx0: Context<M>,
    ctx1: Context<M>,
) -> bool
    decreases w,
{
    &&& ctx0.spec_messages().is_prefix_of(ctx1.spec_messages())
    &&& (w matches Widget::Label(l) ==> (r == Widget::<M>::Label(l) && h is No && ctx1 == ctx0))
    &&& (w matches Widget::TextField(t) ==> (r matches Widget::TextField(t2) && t2.style == t.style
        && t2.on_enter == t.on_enter && (is_plain_return(event) ==> (t2 == t && h is Yes && (
    match t.on_enter {
        Some(m) => exists|m2: M|
            #[trigger] cloned(m, m2) && ctx1.spec_messages() == ctx0.spec_messages().push(m2),
        None => ctx1 == ctx0,
    }))) && (!is_plain_return(
        event,
    ) ==> (ctx1 == ctx0 && (h is Yes <==> crate::editor::editor_consumes(event))
        && t2.editor.spec_chars() == crate::editor::edited_chars(
        t.editor.spec_chars(),
        t.editor.spec_cursor(),
        event,
    ) && t2.editor.spec_cursor() == crate::editor::edited_cursor(
        t.editor.spec_chars(),
        t.editor.spec_cursor(),
        event,
    )))))
    &&& (w matches Widget::Container(c) ==> (r matches Widget::Container(c2) && c2.border
        == c.border && on_event_step(*c.child, event, *c2.child, h, ctx0, ctx1)))
    &&& (w matches Widget::Stack(st) ==> (r matches Widget::Stack(st2) && st2.direction
        == st.direction && ((nav_is_prev(event, st.direction) || nav_is_next(
        event,
        st.direction,
    )) ==> {
        &&& h is Yes
        &&& st2.elements == st.elements
        &&& ctx1 == ctx0
        &&& (nav_is_prev(event, st.direction) ==> st2.spec_focused() == spec_focus_prev(
            st.spec_focused(),
        ))
        &&& (nav_is_next(event, st.direction) ==> st2.spec_focused() == spec_focus_next(
            st.spec_focused(),
            st.elements@.len() as int,
        ))
    }) && (!(nav_is_prev(event, st.direction) || nav_is_next(event, st.direction)) ==> {
        &&& st2.spec_focused() == st.spec_focused()
        &&& st2.elements@.len() == st.elements@.len()
        &&& (match st.spec_focused() {
            None => h is No && st2.elements == st.elements && ctx1 == ctx0,
            Some(f) => {
                if f < st.elements@.len() {
                    &&& forall|j: int|
                        0 <= j < st.elements@.len() && j != f ==> st2.elements@[j]
                            == st.elements@[j]
                    &&& st2.elements@[f as int].constraint == st.elements@[f as int].constraint
                    &&& st2.elements@[f as int].size == st.elements@[f as int].size
                    &&& on_event_step(
                        st.elements@[f as int].view,
                        event,
                        st2.elements@[f as int].view,
                        h,
                        ctx0,
                        ctx1,
                    )
                } else {
                    h is No && st2.elements == st.elements && ctx1 == ctx0
                }
            },
        })
    })))
}

/// The sub-view one stack child renders into: a window starting at the
/// running offset along the stack's axis, spanning the child's assigned
/// size, cursor-enabled only when the child is the focused one.
pub open spec fn stack_child_view(
    view: BufferView,
    direction: Direction,
    k: int,
    offset: u16,
    size: u16,
    focused: Option<usize>,
) -> BufferView {
    let width = (view.end.x - view.start.x) as u16;
    let height = (view.end.y - view.start.y) as u16;
    let end_along = if offset + size <= u16::MAX {
        (offset + size) as u16
    } else {
        u16::MAX
    };
    let is_focused = match focused {
        Some(f) => f == k,
        None => false,
    };
    match direction {
        Direction::Down => view.spec_subview(
            Vec2 { x: 0, y: offset },
            Vec2 { x: width, y: end_along },
            is_focused,
        ),
        Direction::Right => view.spec_subview(
            Vec2 { x: offset, y: 0 },
            Vec2 { x: end_along, y: height },
            is_focused,
        ),
    }
}

/// The running offset after a run of rendered children: each child's
/// assigned size added along the axis, saturating at the numeric bound.
pub open spec fn offset_after<M>(offset: u16, news: Seq<StackElement<M>>) -> u16
    decreases news.len(),
{
    if news.len() == 0 {
        offset
    } else {
        let next = if offset + news[0].size <= u16::MAX {
            (offset + news[0].size) as u16
        } else {
            u16::MAX
        };
        offset_after(next, news.skip(1))
    }
}

/// The running offset advances by one more child's size.
proof fn lemma_offset_after_snoc<M>(offset: u16, news: Seq<StackElement<M>>, el: StackElement<M>)
    ensures
        offset_after(offset, news.push(el)) == (if offset_after(offset, news) + el.size
            <= u16::MAX {
            (offset_after(offset, news) + el.size) as u16
        } else {
            u16::MAX
        }),
    decreases news.len(),
{
    reveal_with_fuel(offset_after, 3);
    if news.len() == 0 {
        assert(news.push(el)[0] == el);
        assert(news.push(el).skip(1) =~= Seq::<StackElement<M>>::empty());
        assert(offset_after(offset, news) == offset);
    } else {
        assert(news.push(el)[0] == news[0]);
        assert(news.push(el).skip(1) =~= news.skip(1).push(el));
        let next = if offset + news[0].size <= u16::MAX {
            (offset + news[0].size) as u16
        } else {
            u16::MAX
        };
        lemma_offset_after_snoc(next, news.skip(1), el);
    }
}

/// A stack's children render one after the other: the child at index `k`
/// renders into its [`stack_child_view`] window at the running offset —
/// each render a [`render_step`] of that child, taking the buffer to the
/// next intermediate state in `mids` — so the windows start at the
/// running offsets of the assigned sizes and only the focused child's
/// window may place the cursor.
pub open spec fn stack_steps<M>(
    elems: Seq<StackElement<M>>,
    news: Seq<StackElement<M>>,
    mids: Seq<Buffer>,
    k: int,
    offset: u16,
    direction: Direction,
    focused: Option<usize>,
    view: BufferView,
    buf0: Buffer,
    buf1: Buffer,
) -> bool
    decreases elems, 1int,
{
    if elems.len() == 0 {
        news.len() == 0 && mids.len() == 0 && buf1 == buf0
    } else {
        &&& news.len() == elems.len()
        &&& mids.len() == elems.len()
        &&& render_step(
            elems[0].view,
            stack_child_view(view, direction, k, offset, news[0].size, focused),
            news[0].view,
            buf0,
            mids[0],
        )
        &&& stack_steps(
            elems.skip(1),
            news.skip(1),
            mids.skip(1),
            k + 1,
            (if offset + news[0].size <= u16::MAX {
                (offset + news[0].size) as u16
            } else {
                u16::MAX
            }),
            direction,
            focused,
            view,
            mids[0],
            buf1,
        )
    }
}

/// Chaining one more rendered child onto a run.
proof fn lemma_stack_steps_snoc<M>(
    elems: Seq<StackElement<M>>,
    news: Seq<StackElement<M>>,
    mids: Seq<Buffer>,
    el: StackElement<M>,
    el2: StackElement<M>,
    k: int,
    offset: u16,
    direction: Direction,
    focused: Option<usize>,
    view: BufferView,
    b0: Buffer,
    b1: Buffer,
    b2: Buffer,
)
    requires
        stack_steps(elems, news, mids, k, offset, direction, focused, view, b0, b1),
        render_step(
            el.view,
            stack_child_view(
                view,
                direction,
                k + elems.len(),
                offset_after(offset, news),
                el2.size,
                focused,
            ),
            el2.view,
            b1,
            b2,
        ),
    ensures
        stack_steps(
            elems.push(el),
            news.push(el2),
            mids.push(b2),
            k,
            offset,
            direction,
            focused,
            view,
            b0,
            b2,
        ),
    decreases elems.len(),
{
    reveal_with_fuel(stack_steps, 3);
    reveal_with_fuel(offset_after, 3);
    let p = elems.push(el);
    let q = news.push(el2);
    let r = mids.push(b2);
    if elems.len() == 0 {
        assert(offset_after(offset, news) == offset);
        assert(p[0] == el);
        assert(q[0] == el2);
        assert(r[0] == b2);
        assert(p.skip(1) =~= Seq::<StackElement<M>>::empty());
        assert(q.skip(1) =~= Seq::<StackElement<M>>::empty());
        assert(r.skip(1) =~= Seq::<Buffer>::empty());
        assert(b1 == b0);
    } else {
        let next = if offset + news[0].size <= u16::MAX {
            (offset + news[0].size) as u16
        } else {
            u16::MAX
        };
        assert(offset_after(offset, news) == offset_after(next, news.skip(1)));
        lemma_stack_steps_snoc(
            elems.skip(1),
            news.skip(1),
            mids.skip(1),
            el,
            el2,
            k + 1,
            next,
            direction,
            focused,
            view,
            mids[0],
            b1,
            b2,
        );
        assert(p[0] == elems[0]);
        assert(q[0] == news[0]);
        assert(r[0] == mids[0]);
        assert(p.skip(1) =~= elems.skip(1).push(el));
        assert(q.skip(1) =~= news.skip(1).push(el2));
        assert(r.skip(1) =~= mids.skip(1).push(b2));
    }
}

/// Renders one widget tree into a view of a buffer, handing each child a
/// clamped sub-view, exactly as [`render_step`] describes by the root's
/// kind. Additionally: a stack root's children (and those of a stack just
/// under a borderless container) render in the chain [`stack_steps`]
/// describes — windows at the running offsets of the assigned sizes, only
/// the focused child's window allowed to place the cursor — and a
/// bordered container's child renders into the inner window, the border
/// then painted over that intermediate state. The tree is returned with
/// the stack elements' computed sizes refreshed.
#[verifier::loop_isolation(false)]
#[verifier::rlimit(100)]
pub fn render_widget<M: Clone>(w: Widget<M>, buf: &mut Buffer, view: &BufferView) -> (r: Widget<M>)
    requires
        old(buf).wf(),
        view.wf_for(*old(buf)),
    ensures
        render_step(w, *view, r, *old(buf), *final(buf)),
        w matches Widget::Stack(st) ==> st.elements@.len() <= 0xFFFF ==> (r matches Widget::Stack(
            st2,
        ) && exists|mids: Seq<Buffer>|
            #[trigger] stack_steps(
                st.elements@,
                st2.elements@,
                mids,
                0,
                0u16,
                st.direction,
                st.spec_focused(),
                *view,
                *old(buf),
                *final(buf),
            )),
        w matches Widget::Container(c) ==> c.border matches Some((line, style)) ==> (view.end.x
            - view.start.x >= 2 && view.end.y - view.start.y >= 2) ==> (r matches Widget::Container(
            c2,
        ) && exists|mid: Buffer|
            #[trigger] render_step(*c.child, border_inner_view(*view), *c2.child, *old(buf), mid)
                && (forall|cx: int, cy: int|
                old(buf).in_bounds(cx, cy) ==> final(buf).cell_at(cx, cy) == border_paint(
                    *view,
                    line,
                    style,
                    mid,
                    cx,
                    cy,
                ))),
        w matches Widget::Container(c) ==> (c.border is None ==> (*c.child matches Widget::Stack(
            st,
        ) ==> (st.elements@.len() <= 0xFFFF ==> (r matches Widget::Container(c2)
            && *c2.child matches Widget::Stack(st2) && exists|mids: Seq<Buffer>|
            #[trigger] stack_steps(
                st.elements@,
                st2.elements@,
                mids,
                0,
                0u16,
                st.direction,
                st.spec_focused(),
                *view,
                *old(buf),
                *final(buf),
            ))))),
    decreases w,
{
    let ghost w0 = w;
    match w {
        Widget::Label(mut l) => {
            Renderable::<M>::render(&mut l, buf, view);
            Widget::Label(l)
        },
        Widget::TextField(mut t) => {
            t.render(buf, view);
            Widget::TextField(t)
        },
        Widget::Container(c) => {
            let ghost c0 = c;
            let Container { child, border } = c;
            let child = *child;
            proof {
                assert(decreases_to!(w0 => w0->Container_0));
                assert(decreases_to!(c0 => c0.child));
                assert(decreases_to!(w0 => child));
            }
            match border {
                None => {
                    let child2 = render_widget(child, buf, view);
                    Widget::Container(Container { child: Box::new(child2), border: None })
                },
                Some((line, style)) => {
                    let size = view.size();
                    let wdt = size.x;
                    let hgt = size.y;
                    if wdt < 2 || hgt < 2 {
                        return Widget::Container(
                            Container { child: Box::new(child), border: Some((line, style)) },
                        );
                    }
                    let inner = view.view(Vec2::new(1, 1), Vec2::new(wdt - 1, hgt - 1), true);
                    proof {
                        crate::buffer::lemma_subview_visibility(
                            *view,
                            *buf,
                            Vec2 { x: 1, y: 1 },
                            Vec2 { x: (wdt - 1) as u16, y: (hgt - 1) as u16 },
                            true,
                            0,
                            0,
                        );
                    }
                    let ghost child0 = child;
                    proof {
                        assert(inner == border_inner_view(*view));
                    }
                    let child2 = render_widget(child, buf, &inner);
                    let ghost mid = *buf;
                    draw_border(view, buf, line, style);
                    proof {
                        assert(render_step(child0, border_inner_view(*view), child2, *old(buf), mid));
                        assert forall|cx: int, cy: int| old(buf).in_bounds(cx, cy) implies
                            buf.cell_at(cx, cy) == border_paint(
                            *view,
                            line,
                            style,
                            mid,
                            cx,
                            cy,
                        ) by {
                            assert(mid.in_bounds(cx, cy));
                        }
                    }
                    Widget::Container(Container { child: Box::new(child2), border: Some((line, style)) })
                },
            }
        },
        Widget::Stack(st) => {
            let ghost st0 = st;
            let Stack { mut elements, focused, direction } = st;
            let ghost orig = elements@;
            let n = elements.len();
            if n > 0xFFFF {
                return Widget::Stack(Stack { elements, focused, direction });
            }
            let size = view.size();
            let extent = match direction {
                Direction::Down => size.y,
                Direction::Right => size.x,
            };
            let mut constraints: Vec<SizeConstraint> = Vec::new();
            let mut i: usize = 0;
            while i < n
                invariant
                    n == elements@.len(),
                    i <= n,
                    constraints@.len() == i,
                    forall|j: int| 0 <= j < i ==> constraints@[j] == elements@[j].constraint,
                decreases n - i,
            {
                constraints.push(elements[i].constraint);
                i += 1;
            }
            let sizes = allocate_space(&constraints, extent);
            proof {
                assert(constraints@ =~= constraints_of(orig));
                assert(extent == stack_extent(direction, *view));
            }
            let mut new_elements: Vec<StackElement<M>> = Vec::new();
            let mut offset: u16 = 0;
            let ghost mut mids: Seq<Buffer> = Seq::<Buffer>::empty();
            proof {
                assert(orig.subrange(0, 0) =~= Seq::<StackElement<M>>::empty());
            }
            let mut k: usize = 0;
            while k < n
                invariant
                    orig.len() == n,
                    k <= n,
                    sizes@.len() == n,
                    elements@ == orig.subrange(k as int, n as int),
                    new_elements@.len() == k,
                    forall|j: int|
                        0 <= j < k ==> ((#[trigger] new_elements@[j]).constraint
                            == orig[j].constraint && new_elements@[j].size == sizes@[j]),
                    buf.wf(),
                    buf.spec_size() == old(buf).spec_size(),
                    !view.cursor_enabled ==> buf.spec_cursor() == old(buf).spec_cursor(),
                    offset == offset_after(0u16, new_elements@),
                    stack_steps(
                        orig.subrange(0, k as int),
                        new_elements@,
                        mids,
                        0,
                        0u16,
                        direction,
                        focused,
                        *view,
                        *old(buf),
                        *buf,
                    ),
                decreases n - k,
            {
                let mut el = elements.remove(0);
                proof {
                    assert(el == orig[k as int]);
                    assert(elements@ =~= orig.subrange(k + 1, n as int));
                    assert(decreases_to!(w0 => w0->Stack_0));
                    assert(decreases_to!(st0 => st0.elements));
                    vstd::std_specs::vec::axiom_vec_index_decreases(st0.elements, k as int);
                    assert(decreases_to!(st0.elements => st0.elements@[k as int]));
                    assert(decreases_to!(st0.elements@[k as int] => st0.elements@[k as int].view));
                    assert(decreases_to!(w0 => el.view));
                }
                el.size = sizes[k];
                let is_focused = match focused {
                    Some(f) => f == k,
                    None => false,
                };
                let sub = match direction {
                    Direction::Down => view.view(
                        Vec2::new(0, offset),
                        Vec2::new(size.x, offset.saturating_add(el.size)),
                        is_focused,
                    ),
                    Direction::Right => view.view(
                        Vec2::new(offset, 0),
                        Vec2::new(offset.saturating_add(el.size), size.y),
                        is_focused,
                    ),
                };
                proof {
                    crate::buffer::lemma_subview_visibility(
                        *view,
                        *buf,
                        sub.start,
                        sub.end,
                        is_focused,
                        0,
                        0,
                    );
                    assert(sub.wf_for(*buf));
                }
                let ghost buf_before = *buf;
                let ghost news_before = new_elements@;
                let child = el.view;
                let child2 = render_widget(child, buf, &sub);
                let el2 = StackElement { view: child2, constraint: el.constraint, size: el.size };
                new_elements.push(el2);
                proof {
                    assert(sub == stack_child_view(
                        *view,
                        direction,
                        k as int,
                        offset,
                        el2.size,
                        focused,
                    ));
                    lemma_stack_steps_snoc(
                        orig.subrange(0, k as int),
                        news_before,
                        mids,
                        orig[k as int],
                        el2,
                        0,
                        0u16,
                        direction,
                        focused,
                        *view,
                        *old(buf),
                        buf_before,
                        *buf,
                    );
                    mids = mids.push(*buf);
                    assert(orig.subrange(0, k + 1) =~= orig.subrange(0, k as int).push(
                        orig[k as int],
                    ));
                    lemma_offset_after_snoc(0u16, news_before, el2);
                }
                offset = offset.saturating_add(el.size);
                k += 1;
            }
            proof {
                assert(orig.subrange(0, n as int) =~= orig);
                assert(stack_steps(
                    orig,
                    new_elements@,
                    mids,
                    0,
                    0u16,
                    direction,
                    focused,
                    *view,
                    *old(buf),
                    *buf,
                ));
            }
            Widget::Stack(Stack { elements: new_elements, focused, direction })
        },
    }
}

/// Propagates one input event through the tree, exactly as
/// [`on_event_step`] describes by the root's kind: a stack first tries
/// the focus-navigation keys itself and otherwise hands the event only to
/// its focused child, never broadcasting to siblings; a container passes
/// the event straight through. Handlers may queue messages but never drop
/// queued ones.
pub fn widget_on_event<M: Clone>(w: Widget<M>, ctx: &mut Context<M>, event: &EventKind) -> (r: (
    Widget<M>,
    Handled,
))
    ensures
        on_event_step(w, *event, r.0, r.1, *old(ctx), *final(ctx)),
    decreases w,
{
    let ghost w0 = w;
    let r = match w {
        Widget::Label(mut l) => {
            let h = Renderable::<M>::on_event(&mut l, ctx, event);
            (Widget::Label(l), h)
        },
        Widget::TextField(mut t) => {
            let h = t.on_event(ctx, event);
            (Widget::TextField(t), h)
        },
        Widget::Container(c) => {
            let ghost c0 = c;
            let Container { child, border } = c;
            let child = *child;
            proof {
                assert(decreases_to!(w0 => w0->Container_0));
                assert(decreases_to!(c0 => c0.child));
                assert(decreases_to!(w0 => child));
            }
            let (child2, h) = widget_on_event(child, ctx, event);
            (Widget::Container(Container { child: Box::new(child2), border }), h)
        },
        Widget::Stack(mut st) => {
            let h = st.handle_nav_key(event);
            match h {
                Handled::Yes => (Widget::Stack(st), Handled::Yes),
                Handled::No => {
                    let ghost st0 = st;
                    let f_opt = st.focused;
                    match f_opt {
                        Some(f) => {
                            if f < st.elements.len() {
                                let mut el = st.elements.remove(f);
                                proof {
                                    assert(decreases_to!(w0 => w0->Stack_0));
                                    assert(decreases_to!(st0 => st0.elements));
                                    vstd::std_specs::vec::axiom_vec_index_decreases(
                                        st0.elements,
                                        f as int,
                                    );
                                    assert(decreases_to!(st0.elements => st0.elements@[f as int]));
                                    assert(decreases_to!(st0.elements@[f as int]
                                        => st0.elements@[f as int].view));
                                    assert(el.view == st0.elements@[f as int].view);
                                }
                                let child = el.view;
                                let (child2, h2) = widget_on_event(child, ctx, event);
                                el = StackElement {
                                    view: child2,
                                    constraint: el.constraint,
                                    size: el.size,
                                };
                                st.elements.insert(f, el);
                                proof {
                                    assert(st.elements@ =~= st0.elements@.update(f as int, el));
                                }
                                (Widget::Stack(st), h2)
                            } else {
                                (Widget::Stack(st), Handled::No)
                            }
                        },
                        None => (Widget::Stack(st), Handled::No),
                    }
                },
            }
        },
    };
    proof {
        assert(ctx.spec_messages().subrange(0, old(ctx).spec_messages().len() as int) =~= old(
            ctx,
        ).spec_messages());
        assert(has_resolved(ctx));
    }
    r
}

impl<M: Clone> Renderable<M> for Widget<M> {
    /// Propagates the event through the tree, exactly as
    /// [`widget_on_event`] describes: the new tree is its returned tree
    /// and the result its returned answer.
    fn on_event(&mut self, ctx: &mut Context<M>, event: &EventKind) -> (r: Handled)
        ensures
            old(ctx).spec_messages().is_prefix_of(final(ctx).spec_messages()),
            on_event_step(*old(self), *event, *final(self), r, *old(ctx), *final(ctx)),
    {
        let mut w = Widget::Label(Label::new(String::new()));
        core::mem::swap(&mut w, self);
        let (w2, h) = widget_on_event(w, ctx, event);
        *self = w2;
        h
    }

    /// Renders the tree into the view, exactly as [`render_step`]
    /// describes; a stack root's children (and those of a stack just
    /// under a borderless container) render in the chain [`stack_steps`]
    /// describes, and a bordered container's child renders into the inner
    /// window before the border is painted over it.
    fn render(&mut self, buf: &mut Buffer, view: &BufferView)
        ensures
            final(buf).wf(),
            final(buf).spec_size() == old(buf).spec_size(),
            render_step(*old(self), *view, *final(self), *old(buf), *final(buf)),
            *old(self) matches Widget::Stack(st) ==> st.elements@.len() <= 0xFFFF ==> (*final(self)
                matches Widget::Stack(st2) && exists|mids: Seq<Buffer>|
                #[trigger] stack_steps(
                    st.elements@,
                    st2.elements@,
                    mids,
                    0,
                    0u16,
                    st.direction,
                    st.spec_focused(),
                    *view,
                    *old(buf),
                    *final(buf),
                )),
            *old(self) matches Widget::Container(c) ==> c.border matches Some((line, style)) ==> (
            view.end.x - view.start.x >= 2 && view.end.y - view.start.y >= 2) ==> (*final(self)
                matches Widget::Container(c2) && exists|mid: Buffer|
                #[trigger] render_step(
                    *c.child,
                    border_inner_view(*view),
                    *c2.child,
                    *old(buf),
                    mid,
                ) && (forall|cx: int, cy: int|
                    old(buf).in_bounds(cx, cy) ==> final(buf).cell_at(cx, cy) == border_paint(
                        *view,
                        line,
                        style,
                        mid,
                        cx,
                        cy,
                    ))),
    {
        let mut w = Widget::Label(Label::new(String::new()));
        core::mem::swap(&mut w, self);
        let w2 = render_widget(w, buf, view);
        *self = w2;
    }
}

} // verus!
