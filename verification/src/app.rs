//! The frame loop's phases.
//!
//! The loop itself lives with the host program, which owns the terminal
//! and the clock; the decisions of one tick are here, in order: advance
//! the component's persistent state, rebuild the view tree when the
//! previous frame asked for it, dispatch the decoded input events in
//! arrival order, drain the message batch queued so far, then render the
//! tree into the current buffer and diff it against the previous frame.
//! The caller writes the resulting command stream out, swaps its buffers
//! and repeats until a handler raises the quit flag.

use vstd::prelude::*;

use crate::buffer::{Buffer, BufferView};
use crate::context::{Context, Handled};
use crate::event::EventKind;
use crate::render::{draw_diff, initial_for, renders_to, resolved_grid, TermCmd, TermState};
use crate::vec2::Vec2;
use crate::widget::{on_event_step, render_step, render_widget, widget_on_event, Widget};

verus! {

/// A stateful component: the root of an application. It owns persistent
/// state, advances it once per frame, answers queued messages, and builds
/// the widget tree that renders it.
pub trait Component: Sized {
    type Message: Clone;

    /// Advances persistent state; runs once per frame before dispatch.
    fn update(&mut self);

    /// Answers one queued message. Handlers may queue new messages but
    /// never drop queued ones.
    fn on_message(&mut self, ctx: &mut Context<Self::Message>, msg: &Self::Message) -> (r: Handled)
        ensures
            old(ctx).spec_messages().is_prefix_of(final(ctx).spec_messages()),
    ;

    /// Builds the widget tree that shows the current state.
    fn build(&self) -> Widget<Self::Message>;
}

/// Dispatches one frame's message batch and hands the batch back: the
/// queue is swapped for a fresh one before iteration — so a message
/// enqueued while the batch is being processed defers to a later frame —
/// and the loop offers the root each of the batch's messages, in queue
/// order. The returned batch is exactly the queue at entry. An empty
/// queue dispatches nothing and changes nothing. (That each message went
/// through the root's handler is carried by the loop itself: the
/// handler's per-call relation is a prophetic statement about its `&mut`
/// arguments, which contracts here do not express.)
pub fn dispatch_messages<C: Component>(root: &mut C, ctx: &mut Context<C::Message>) -> (batch: Vec<
    C::Message,
>)
    ensures
        batch@ == old(ctx).spec_messages(),
        old(ctx).spec_messages().len() == 0 ==> {
            &&& *final(root) == *old(root)
            &&& final(ctx).spec_messages() == Seq::<C::Message>::empty()
            &&& final(ctx).spec_quit() == old(ctx).spec_quit()
            &&& final(ctx).spec_rebuild() == old(ctx).spec_rebuild()
        },
{
    let batch = ctx.take_batch();
    let n = batch.len();
    let mut i: usize = 0;
    while i < n
        invariant
            n == batch@.len(),
            batch@ == old(ctx).spec_messages(),
            i <= n,
            n == 0 ==> {
                &&& *root == *old(root)
                &&& ctx.spec_messages() == Seq::<C::Message>::empty()
                &&& ctx.spec_quit() == old(ctx).spec_quit()
                &&& ctx.spec_rebuild() == old(ctx).spec_rebuild()
            },
        decreases n - i,
    {
        let _ = root.on_message(ctx, &batch[i]);
        i += 1;
    }
    proof {
        assert(has_resolved(ctx));
        assert(has_resolved(root));
    }
    batch
}

/// One dispatch pass over a whole batch of events: the tree and context
/// evolve by one [`on_event_step`] per event, strictly in batch order — no
/// event is dropped, reordered or delivered twice.
pub open spec fn events_steps<M: Clone>(
    tree: Widget<M>,
    events: Seq<EventKind>,
    r: Widget<M>,
    ctx0: Context<M>,
    ctx1: Context<M>,
) -> bool
    decreases events.len(),
{
    if events.len() == 0 {
        r == tree && ctx1 == ctx0
    } else {
        exists|mid: Widget<M>, cmid: Context<M>, h: Handled|
            #[trigger] on_event_step(tree, events[0], mid, h, ctx0, cmid) && events_steps(
                mid,
                events.skip(1),
                r,
                cmid,
                ctx1,
            )
    }
}

/// Chaining one more dispatched event onto a batch.
proof fn lemma_events_steps_snoc<M: Clone>(
    tree: Widget<M>,
    events: Seq<EventKind>,
    mid: Widget<M>,
    event: EventKind,
    r: Widget<M>,
    h: Handled,
    ctx0: Context<M>,
    cmid: Context<M>,
    ctx1: Context<M>,
)
    requires
        events_steps(tree, events, mid, ctx0, cmid),
        on_event_step(mid, event, r, h, cmid, ctx1),
    ensures
        events_steps(tree, events.push(event), r, ctx0, ctx1),
    decreases events.len(),
{
    if events.len() == 0 {
        assert(events.push(event)[0] == event);
        assert(events.push(event).skip(1) =~= Seq::<EventKind>::empty());
        assert(events_steps(r, events.push(event).skip(1), r, ctx1, ctx1));
    } else {
        let (m0, c0, h0): (Widget<M>, Context<M>, Handled) = choose|m0: Widget<M>, c0: Context<
            M,
        >, h0: Handled|
            #[trigger] on_event_step(tree, events[0], m0, h0, ctx0, c0) && events_steps(
                m0,
                events.skip(1),
                mid,
                c0,
                cmid,
            );
        lemma_events_steps_snoc(m0, events.skip(1), mid, event, r, h, c0, cmid, ctx1);
        assert(events.push(event)[0] == events[0]);
        assert(events.push(event).skip(1) =~= events.skip(1).push(event));
    }
}

/// Dispatches the frame's decoded input events through the tree, strictly
/// in arrival order: the returned tree and the context are the result of
/// one [`on_event_step`] per event, in order.
pub fn dispatch_events<M: Clone>(
    tree: Widget<M>,
    ctx: &mut Context<M>,
    events: &Vec<EventKind>,
) -> (r: Widget<M>)
    ensures
        old(ctx).spec_messages().is_prefix_of(final(ctx).spec_messages()),
        events_steps(tree, events@, r, *old(ctx), *final(ctx)),
{
    let ghost tree0 = tree;
    let mut tree = tree;
    let n = events.len();
    proof {
        assert(ctx.spec_messages().subrange(0, old(ctx).spec_messages().len() as int) =~= old(
            ctx,
        ).spec_messages());
        assert(events@.subrange(0, 0) =~= Seq::<EventKind>::empty());
    }
    let mut i: usize = 0;
    while i < n
        invariant
            n == events@.len(),
            i <= n,
            old(ctx).spec_messages().is_prefix_of(ctx.spec_messages()),
            events_steps(tree0, events@.subrange(0, i as int), tree, *old(ctx), *ctx),
        decreases n - i,
    {
        let ghost before = ctx.spec_messages();
        let ghost ctx_before = *ctx;
        let ghost tree_before = tree;
        let (tree2, h) = widget_on_event(tree, ctx, &events[i]);
        tree = tree2;
        proof {
            lemma_prefix_transitive::<M>(old(ctx).spec_messages(), before, ctx.spec_messages());
            lemma_events_steps_snoc(
                tree0,
                events@.subrange(0, i as int),
                tree_before,
                events@[i as int],
                tree,
                h,
                *old(ctx),
                ctx_before,
                *ctx,
            );
            assert(events@.subrange(0, i + 1) =~= events@.subrange(0, i as int).push(
                events@[i as int],
            ));
        }
        i += 1;
    }
    proof {
        assert(events@.subrange(0, n as int) =~= events@);
        assert(has_resolved(ctx));
    }
    tree
}

/// A prefix of a prefix is a prefix.
proof fn lemma_prefix_transitive<T>(a: Seq<T>, b: Seq<T>, c: Seq<T>)
    requires
        a.is_prefix_of(b),
        b.is_prefix_of(c),
    ensures
        a.is_prefix_of(c),
{
    assert(a =~= c.subrange(0, a.len() as int));
}

/// The render phase: the current buffer is cleared and resized to the
/// terminal (reusing its storage when the size is unchanged), the tree
/// renders into it through a full-buffer cursor-enabled view — one
/// [`render_step`] from that cleared state — and the result is diffed
/// against the previous frame, yielding the command stream to write.
/// Replaying that stream on a terminal showing the previous frame shows
/// the new one.
pub fn render_frame<M: Clone>(
    tree: Widget<M>,
    prev: &Buffer,
    cur: &mut Buffer,
    term_size: Vec2,
) -> (r: (Widget<M>, Vec<TermCmd>, Ghost<Buffer>))
    requires
        prev.wf(),
        old(cur).wf(),
    ensures
        final(cur).wf(),
        final(cur).spec_size() == term_size,
        r.2@.wf() && r.2@.spec_size() == term_size && r.2@.all_clear() && r.2@.spec_cursor()
            is None,
        render_step(
            tree,
            (BufferView { start: (Vec2 { x: 0, y: 0 }), end: term_size, cursor_enabled: true }),
            r.0,
            r.2@,
            *final(cur),
        ),
        prev.spec_size() == term_size ==> forall|pos0: Vec2|
            renders_to(initial_for(*prev, pos0), r.1@, *final(cur)),
        prev.spec_size() != term_size ==> forall|m: TermState|
            (m.size == term_size && m.screen.len() == resolved_grid(*final(cur)).len())
                ==> renders_to(m, r.1@, *final(cur)),
{
    cur.resize_and_clear(term_size);
    let ghost cleared = *cur;
    let view = cur.view(true);
    let tree2 = render_widget(tree, cur, &view);
    proof {
        assert(view == (BufferView {
            start: (Vec2 { x: 0, y: 0 }),
            end: term_size,
            cursor_enabled: true,
        }));
    }
    let cmds = draw_diff(prev, cur);
    (tree2, cmds, Ghost(cleared))
}

} // verus!
