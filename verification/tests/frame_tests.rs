use tui_core::app::{dispatch_messages, render_frame, Component};
use tui_core::buffer::Buffer;
use tui_core::context::{Context, Handled};
use tui_core::render::TermModel;
use tui_core::style::Style;
use tui_core::vec2::Vec2;
use tui_core::widget::{Label, Widget};

/// A counter that re-queues a follow-up message the first time it is
/// poked, so deferral across frames can be observed.
struct Counter {
    pokes_seen: u32,
    followups_seen: u32,
}

#[derive(Clone, PartialEq, Debug)]
enum Msg {
    Poke,
    FollowUp,
}

impl Component for Counter {
    type Message = Msg;

    fn update(&mut self) {}

    fn on_message(&mut self, ctx: &mut Context<Msg>, msg: &Msg) -> Handled {
        match msg {
            Msg::Poke => {
                self.pokes_seen += 1;
                ctx.send(Msg::FollowUp);
                Handled::Yes
            },
            Msg::FollowUp => {
                self.followups_seen += 1;
                Handled::Yes
            },
        }
    }

    fn build(&self) -> Widget<Msg> {
        Widget::Label(Label::new(String::from("counter")))
    }
}

#[test]
fn message_sent_during_a_batch_waits_for_the_next_frame() {
    let mut root = Counter { pokes_seen: 0, followups_seen: 0 };
    let mut ctx: Context<Msg> = Context::new();
    ctx.send(Msg::Poke);

    // Frame one: the poke is handled; the follow-up it queued is not.
    let first_batch = dispatch_messages(&mut root, &mut ctx);
    assert_eq!(first_batch, vec![Msg::Poke]);
    assert_eq!(root.pokes_seen, 1);
    assert_eq!(root.followups_seen, 0);

    // Frame two: the deferred follow-up arrives.
    let second_batch = dispatch_messages(&mut root, &mut ctx);
    assert_eq!(second_batch, vec![Msg::FollowUp]);
    assert_eq!(root.pokes_seen, 1);
    assert_eq!(root.followups_seen, 1);

    // Nothing is left after that.
    let third_batch = dispatch_messages(&mut root, &mut ctx);
    assert!(third_batch.is_empty());
    assert_eq!(root.pokes_seen, 1);
    assert_eq!(root.followups_seen, 1);
}

#[test]
fn take_batch_swaps_in_a_fresh_queue() {
    let mut ctx: Context<u32> = Context::new();
    ctx.send(1);
    ctx.send(2);
    let batch = ctx.take_batch();
    assert_eq!(batch, vec![1, 2]);
    // Sent while the batch is in hand: lands in the fresh queue only.
    ctx.send(3);
    assert_eq!(batch, vec![1, 2]);
    let next = ctx.take_batch();
    assert_eq!(next, vec![3]);
}

#[test]
fn quit_and_rebuild_flags() {
    let mut ctx: Context<u32> = Context::new();
    assert!(!ctx.should_quit());
    assert!(!ctx.should_rebuild_view());
    ctx.rebuild_view();
    assert!(ctx.should_rebuild_view());
    ctx.clear_rebuild_view();
    assert!(!ctx.should_rebuild_view());
    ctx.quit();
    assert!(ctx.should_quit());
}

#[test]
fn render_frame_resizes_and_diffs_against_the_previous_frame() {
    let prev = Buffer::new(Vec2::new(8, 2));
    let mut cur = Buffer::new(Vec2::new(8, 2));
    let tree: Widget<u32> = Widget::Label(Label::new(String::from("hi")).with_style(Style::new()));
    let (_, cmds, _) = render_frame(tree, &prev, &mut cur, Vec2::new(8, 2));
    assert_eq!(cur.size(), Vec2::new(8, 2));

    // Replaying the emitted commands on a terminal showing the previous
    // frame shows the new frame.
    let mut model = TermModel::from_buffer(&prev, Vec2::new(0, 0));
    model.apply_all(&cmds);
    assert_eq!(model.cells[0].c, 'h');
    assert_eq!(model.cells[1].c, 'i');
    assert_eq!(model.cells[2].c, ' ');
}
