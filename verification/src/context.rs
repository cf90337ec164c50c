//! The dispatch context: the message queue, the quit flag and the
//! rebuild-requested flag that handlers raise while the frame loop drives
//! them.

use vstd::prelude::*;

verus! {

/// Whether a dispatch step consumed an event or message. A no-op handler
/// answers `No`, which is indistinguishable from "not applicable".
#[must_use]
#[derive(Default, Debug, Clone, Copy, PartialEq, Eq, Structural)]
pub enum Handled {
    Yes,
    #[default]
    No,
}

/// Whether the frame loop should stop after the current frame.
#[derive(Debug, Clone, Copy, PartialEq, Eq, Structural)]
pub enum ShouldQuit {
    Yes,
    No,
}

/// The state handlers mutate while one frame is dispatched: queued
/// messages, the quit flag and the rebuild-requested flag.
pub struct Context<M> {
    messages: Vec<M>,
    should_rebuild_view: bool,
    should_quit: bool,
}

impl<M> Context<M> {
    pub closed spec fn spec_messages(self) -> Seq<M> {
        self.messages@
    }

    pub closed spec fn spec_quit(self) -> bool {
        self.should_quit
    }

    pub closed spec fn spec_rebuild(self) -> bool {
        self.should_rebuild_view
    }

    pub fn new() -> (r: Self)
        ensures
            r.spec_messages() == Seq::<M>::empty(),
            !r.spec_quit(),
            !r.spec_rebuild(),
    {
        Self { messages: Vec::new(), should_rebuild_view: false, should_quit: false }
    }

    /// Queues a message for the next message-pump phase.
    pub fn send(&mut self, message: M)
        ensures
            final(self).spec_messages() == old(self).spec_messages().push(message),
            final(self).spec_quit() == old(self).spec_quit(),
            final(self).spec_rebuild() == old(self).spec_rebuild(),
    {
        self.messages.push(message);
    }

    /// Raises the quit flag; the frame loop exits after this frame.
    pub fn quit(&mut self)
        ensures
            final(self).spec_messages() == old(self).spec_messages(),
            final(self).spec_quit(),
            final(self).spec_rebuild() == old(self).spec_rebuild(),
    {
        self.should_quit = true;
    }

    /// Asks the frame loop to rebuild the view tree before the next frame.
    pub fn rebuild_view(&mut self)
        ensures
            final(self).spec_messages() == old(self).spec_messages(),
            final(self).spec_quit() == old(self).spec_quit(),
            final(self).spec_rebuild(),
    {
        self.should_rebuild_view = true;
    }

    pub fn should_quit(&self) -> (r: bool)
        ensures
            r == self.spec_quit(),
    {
        self.should_quit
    }

    pub fn should_rebuild_view(&self) -> (r: bool)
        ensures
            r == self.spec_rebuild(),
    {
        self.should_rebuild_view
    }

    /// Lowers the rebuild flag once the frame loop has rebuilt the tree.
    pub fn clear_rebuild_view(&mut self)
        ensures
            final(self).spec_messages() == old(self).spec_messages(),
            final(self).spec_quit() == old(self).spec_quit(),
            !final(self).spec_rebuild(),
    {
        self.should_rebuild_view = false;
    }

    /// Swaps the queue for a fresh one and hands back the batch to drain.
    /// Everything sent while the batch is processed therefore lands in the
    /// fresh queue and waits for the next frame.
    pub fn take_batch(&mut self) -> (batch: Vec<M>)
        ensures
            batch@ == old(self).spec_messages(),
            final(self).spec_messages() == Seq::<M>::empty(),
            final(self).spec_quit() == old(self).spec_quit(),
            final(self).spec_rebuild() == old(self).spec_rebuild(),
    {
        let mut batch: Vec<M> = Vec::new();
        core::mem::swap(&mut batch, &mut self.messages);
        batch
    }
}

/// Message deferral: the batch taken for this frame's message phase is
/// fixed at the swap, so a message sent while that batch is processed sits
/// alone in the context's fresh queue — it can only be handled by a later
/// frame, and the batch in hand never grows.
pub proof fn lemma_message_deferral<M>(
    before: Context<M>,
    after_take: Context<M>,
    batch: Seq<M>,
    sent: Seq<M>,
    after_sends: Context<M>,
)
    requires
        batch == before.spec_messages(),
        after_take.spec_messages() == Seq::<M>::empty(),
        after_sends.spec_messages() == after_take.spec_messages() + sent,
    ensures
        after_sends.spec_messages() == sent,
        batch == before.spec_messages(),
{
    assert(after_take.spec_messages() + sent =~= sent);
}

} // verus!
