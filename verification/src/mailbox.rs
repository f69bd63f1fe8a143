//! Per-actor inboxes and the handles that name them.

use vstd::prelude::*;

verus! {

/// An actor's inbox: the deposited messages, oldest first.
///
/// Its view is the sequence of messages that are waiting.
#[derive(Debug)]
pub struct Mailbox<M> {
    entries: Vec<M>,
}

impl<M> View for Mailbox<M> {
    type V = Seq<M>;

    closed spec fn view(&self) -> Seq<M> {
        self.entries@
    }
}

impl<M> Mailbox<M> {
    /// An inbox with nothing in it.
    pub fn new() -> (mailbox: Self)
        ensures
            mailbox@ == Seq::<M>::empty(),
    {
        Mailbox { entries: Vec::new() }
    }

    /// Appends `message` behind everything already waiting.
    pub fn push(&mut self, message: M)
        ensures
            final(self)@ == old(self)@.push(message),
    {
        self.entries.push(message);
    }

    /// How many messages are waiting.
    pub fn len(&self) -> (n: usize)
        ensures
            n == self@.len(),
    {
        self.entries.len()
    }

    /// Whether no message is waiting.
    pub fn is_empty(&self) -> (empty: bool)
        ensures
            empty <==> self@.len() == 0,
    {
        self.entries.len() == 0
    }

    /// Hands every waiting message to the owning actor, oldest first, and
    /// leaves the inbox empty.
    pub fn drain(&mut self) -> (taken: Vec<M>)
        ensures
            taken@ == old(self)@,
            final(self)@ == Seq::<M>::empty(),
    {
        let mut taken: Vec<M> = Vec::new();
        taken.append(&mut self.entries);
        taken
    }
}

/// What the router needs of a locally hosted actor: its id and its inbox.
#[derive(Debug)]
pub struct ActorHandle<M> {
    pub id: usize,
    pub mailbox: Mailbox<M>,
}

impl<M> ActorHandle<M> {
    /// A handle on the actor `id`, with an empty inbox.
    pub fn new(id: usize) -> (handle: Self)
        ensures
            handle.id == id,
            handle.mailbox@ == Seq::<M>::empty(),
    {
        ActorHandle { id, mailbox: Mailbox::new() }
    }
}

} // verus!
