//! The router: local deposits, and the decision between the local and the
//! remote path.

use crate::dispatch::{remote_call, send_remote, RemoteCall};
use crate::mailbox::ActorHandle;
use crate::path::ActorPath;
use crate::registry::{
    deposited, distinct_ids, first_repeat, lemma_registered_keeps_inboxes, registered, Registry,
    RegistryError,
};
use vstd::prelude::*;

verus! {

/// The envelope that routers exchange: an acknowledgment, or a message on
/// its way to an actor of the receiving process.
#[derive(Debug, PartialEq, Eq)]
pub enum RoutingMessage<M> {
    /// The acknowledgment.
    Ack,
    /// A message for the actor `recipient` of the receiving process.
    Message { sender: ActorPath, recipient: usize, message: M },
}

impl<M: View> View for RoutingMessage<M> {
    type V = RoutingMessage<M::V>;

    open spec fn view(&self) -> RoutingMessage<M::V> {
        match *self {
            RoutingMessage::Ack => RoutingMessage::Ack,
            RoutingMessage::Message { sender, recipient, message } => RoutingMessage::Message {
                sender,
                recipient,
                message: message@,
            },
        }
    }
}

/// What a send amounts to once the router has looked at the recipient.
#[derive(Debug, PartialEq, Eq)]
pub enum Delivery<M> {
    /// The recipient is local: the send is over, with this acknowledgment.
    Done(RoutingMessage<M>),
    /// The recipient is remote: this request has to make its round trip.
    Remote(RemoteCall<M>),
}

/// The inboxes after a router has dispatched the inbound envelope `request`.
pub open spec fn received<M>(mailboxes: Map<usize, Seq<M>>, request: RoutingMessage<M>) -> Map<
    usize,
    Seq<M>,
> {
    match request {
        RoutingMessage::Ack => mailboxes,
        RoutingMessage::Message { recipient, message, .. } => deposited(
            mailboxes,
            recipient,
            message,
        ),
    }
}

/// The inboxes after a router has been asked to send `message` to
/// `recipient`.
pub open spec fn sent<M>(mailboxes: Map<usize, Seq<M>>, message: M, recipient: ActorPath) -> Map<
    usize,
    Seq<M>,
> {
    match recipient {
        ActorPath::Local { id } => deposited(mailboxes, id, message),
        ActorPath::Remote { .. } => mailboxes,
    }
}

/// What the caller of a send is handed back.
pub open spec fn delivery<M>(message: M, sender: ActorPath, recipient: ActorPath) -> Delivery<M> {
    match recipient {
        ActorPath::Local { .. } => Delivery::Done(RoutingMessage::Ack),
        ActorPath::Remote { addr, id } => Delivery::Remote(remote_call(addr, sender, id, message)),
    }
}

/// Delivers messages to actors, wherever they live.
///
/// Its view maps the id of each locally hosted actor to the messages waiting
/// in its inbox, oldest first.
pub struct Router<M> {
    registry: Registry<M>,
}

impl<M> View for Router<M> {
    type V = Map<usize, Seq<M>>;

    closed spec fn view(&self) -> Map<usize, Seq<M>> {
        self.registry@
    }
}

impl<M> Router<M> {
    /// A router for the full set of locally hosted actors.
    ///
    /// Fails if two actors share an id, naming the id of the first actor whose
    /// id was already taken by an earlier one.
    pub fn new(actors: Vec<ActorHandle<M>>) -> (r: Result<Self, RegistryError>)
        ensures
            match r {
                Ok(router) => distinct_ids(actors@) && router@ == registered(actors@),
                Err(e) => exists|j: int|
                    first_repeat(actors@, j) && e == (RegistryError::DuplicateId {
                        id: actors@[j].id,
                    }),
            },
    {
        match Registry::register_all(actors) {
            Ok(registry) => Ok(Router { registry }),
            Err(e) => Err(e),
        }
    }

    /// Sends `message` on its way to `recipient`.
    ///
    /// For a local recipient the message is appended to its inbox, or dropped
    /// if no such actor is registered, and the send is acknowledged either
    /// way. For a remote recipient no inbox changes, and the request to carry
    /// to the remote host is handed back.
    pub fn send_msg(&mut self, message: M, sender: ActorPath, recipient: ActorPath) -> (d:
        Delivery<M>)
        ensures
            d == delivery(message, sender, recipient),
            final(self)@ == sent(old(self)@, message, recipient),
    {
        match recipient {
            ActorPath::Local { id } => {
                let _ = self.registry.deposit_local(id, message);
                Delivery::Done(RoutingMessage::Ack)
            },
            ActorPath::Remote { addr, id } => Delivery::Remote(
                send_remote(addr, sender, id, message),
            ),
        }
    }

    /// Dispatches one inbound envelope and gives the reply to write back.
    ///
    /// A message is appended to its recipient's inbox, or dropped if no such
    /// actor is registered; an acknowledgment changes nothing. The reply is
    /// an acknowledgment in every case.
    pub fn receive(&mut self, request: RoutingMessage<M>) -> (reply: RoutingMessage<M>)
        ensures
            reply == RoutingMessage::<M>::Ack,
            final(self)@ == received(old(self)@, request),
    {
        match request {
            RoutingMessage::Ack => {},
            RoutingMessage::Message { sender: _, recipient, message } => {
                let _ = self.registry.deposit_local(recipient, message);
            },
        }
        RoutingMessage::Ack
    }

    /// Whether an actor with the id `id` is hosted here.
    pub fn hosts(&self, id: usize) -> (found: bool)
        ensures
            found == self@.contains_key(id),
    {
        self.registry.contains(id)
    }

    /// How many messages wait for the actor `id`, if it is hosted here.
    pub fn pending(&self, id: usize) -> (n: Option<usize>)
        ensures
            match n {
                Some(n) => self@.contains_key(id) && n == self@[id].len(),
                None => !self@.contains_key(id),
            },
    {
        self.registry.pending(id)
    }

    /// Hands the actor `id` everything waiting in its inbox, oldest first,
    /// and leaves that inbox empty. Other inboxes are untouched.
    pub fn drain(&mut self, id: usize) -> (taken: Option<Vec<M>>)
        ensures
            match taken {
                Some(messages) => {
                    &&& old(self)@.contains_key(id)
                    &&& messages@ == old(self)@[id]
                    &&& final(self)@ == old(self)@.insert(id, Seq::<M>::empty())
                },
                None => !old(self)@.contains_key(id) && final(self)@ == old(self)@,
            },
    {
        self.registry.drain(id)
    }
}

/// A send to a locally hosted actor, through a router built for actors with
/// distinct ids, is acknowledged and appends the message to that actor's
/// inbox, once; every other inbox stays as its handle brought it.
pub proof fn lemma_local_send_appends_once<M>(
    actors: Seq<ActorHandle<M>>,
    k: int,
    message: M,
    sender: ActorPath,
)
    requires
        distinct_ids(actors),
        0 <= k < actors.len(),
    ensures
        delivery(message, sender, ActorPath::Local { id: actors[k].id }) == Delivery::Done(
            RoutingMessage::<M>::Ack,
        ),
        sent(registered(actors), message, ActorPath::Local { id: actors[k].id }).dom()
            == registered(actors).dom(),
        sent(registered(actors), message, ActorPath::Local { id: actors[k].id })[actors[k].id]
            == actors[k].mailbox@.push(message),
        forall|i: int|
            0 <= i < actors.len() && i != k ==> sent(
                registered(actors),
                message,
                ActorPath::Local { id: actors[k].id },
            )[#[trigger] actors[i].id] == actors[i].mailbox@,
{
    let before = registered(actors);
    let after = sent(before, message, ActorPath::Local { id: actors[k].id });
    lemma_registered_keeps_inboxes(actors, k);
    assert(after.dom() =~= before.dom());
    assert forall|i: int| 0 <= i < actors.len() && i != k implies after[#[trigger] actors[i].id]
        == actors[i].mailbox@ by {
        lemma_registered_keeps_inboxes(actors, i);
        if i < k {
            assert(actors[i].id != actors[k].id);
        } else {
            assert(actors[k].id != actors[i].id);
        }
    }
}

/// A send to a local id that no actor has is acknowledged all the same, and
/// changes no inbox.
pub proof fn lemma_send_to_stranger_is_acknowledged<M>(
    mailboxes: Map<usize, Seq<M>>,
    message: M,
    sender: ActorPath,
    id: usize,
)
    requires
        !mailboxes.contains_key(id),
    ensures
        delivery(message, sender, ActorPath::Local { id }) == Delivery::Done(
            RoutingMessage::<M>::Ack,
        ),
        sent(mailboxes, message, ActorPath::Local { id }) == mailboxes,
{
}

} // verus!
