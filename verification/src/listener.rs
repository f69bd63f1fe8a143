//! The inbound side: the life of one accepted connection.
//!
//! A connection moves `Accepted → Decoding → Dispatching → Replying` and
//! from there back to `Decoding`, until its stream ends or a transfer fails.
//! The owner of the socket performs each [`ConnectionAction`] and reports
//! what happened as a [`ConnectionEvent`]; the decisions are made here.

use crate::router::{received, Router, RoutingMessage};
use vstd::prelude::*;

verus! {

/// Where a connection stands.
#[derive(Debug, PartialEq, Eq)]
pub enum Connection<M> {
    /// Accepted, not yet split into a read side and a write side.
    Accepted,
    /// Waiting for the next envelope from the read side.
    Decoding,
    /// Holding a decoded envelope that has yet to be dispatched.
    Dispatching { request: RoutingMessage<M> },
    /// Waiting for the reply to be written to the write side.
    Replying,
    /// Over: nothing more is read or written.
    Closed,
}

/// What the owner of the socket reports.
#[derive(Debug, PartialEq, Eq)]
pub enum ConnectionEvent<M> {
    /// The connection was split into its read side and its write side.
    Split,
    /// The next envelope was decoded from the read side.
    Decoded(RoutingMessage<M>),
    /// The stream ended, or what arrived was no envelope.
    DecodeFailed,
    /// The reply was written.
    Replied,
    /// The reply could not be written.
    WriteFailed,
}

/// What the owner of the socket is to do next.
#[derive(Debug, PartialEq, Eq)]
pub enum ConnectionAction<M> {
    /// Split the connection into its read side and its write side.
    Split,
    /// Decode the next envelope from the read side.
    Decode,
    /// Call [`Connection::dispatch`] with the router.
    Dispatch,
    /// Write this envelope to the write side.
    Reply(RoutingMessage<M>),
    /// Drop the connection.
    Close,
}

impl<M> Connection<M> {
    /// The state that `event` leads to. An event that the state does not
    /// wait for closes the connection.
    pub open spec fn after(self, event: ConnectionEvent<M>) -> Connection<M> {
        match (self, event) {
            (Connection::Accepted, ConnectionEvent::Split) => Connection::Decoding,
            (Connection::Decoding, ConnectionEvent::Decoded(request)) => Connection::Dispatching {
                request,
            },
            (Connection::Replying, ConnectionEvent::Replied) => Connection::Decoding,
            _ => Connection::Closed,
        }
    }

    /// The state that dispatching leads to.
    pub open spec fn after_dispatch(self) -> Connection<M> {
        match self {
            Connection::Dispatching { .. } => Connection::Replying,
            _ => Connection::Closed,
        }
    }

    /// What a state asks of the owner of the socket.
    pub open spec fn wants(self) -> ConnectionAction<M> {
        match self {
            Connection::Accepted => ConnectionAction::Split,
            Connection::Decoding => ConnectionAction::Decode,
            Connection::Dispatching { .. } => ConnectionAction::Dispatch,
            Connection::Replying => ConnectionAction::Reply(RoutingMessage::Ack),
            Connection::Closed => ConnectionAction::Close,
        }
    }

    /// The inboxes after this connection has dispatched what it holds.
    pub open spec fn dispatched(self, mailboxes: Map<usize, Seq<M>>) -> Map<usize, Seq<M>> {
        match self {
            Connection::Dispatching { request } => received(mailboxes, request),
            _ => mailboxes,
        }
    }

    /// A connection that has just been accepted.
    pub fn accept() -> (connection: Self)
        ensures
            connection == Connection::<M>::Accepted,
            connection.wants() == ConnectionAction::<M>::Split,
    {
        Connection::Accepted
    }

    /// Whether the connection is over.
    pub fn is_closed(&self) -> (closed: bool)
        ensures
            closed <==> *self == Connection::<M>::Closed,
    {
        match self {
            Connection::Closed => true,
            _ => false,
        }
    }

    /// Takes in what happened on the socket and says what to do next.
    pub fn step(&mut self, event: ConnectionEvent<M>) -> (action: ConnectionAction<M>)
        ensures
            *final(self) == old(self).after(event),
            action == final(self).wants(),
    {
        let mut state = Connection::Closed;
        core::mem::swap(self, &mut state);
        match (state, event) {
            (Connection::Accepted, ConnectionEvent::Split) => {
                *self = Connection::Decoding;
                ConnectionAction::Decode
            },
            (Connection::Decoding, ConnectionEvent::Decoded(request)) => {
                *self = Connection::Dispatching { request };
                ConnectionAction::Dispatch
            },
            (Connection::Replying, ConnectionEvent::Replied) => {
                *self = Connection::Decoding;
                ConnectionAction::Decode
            },
            _ => ConnectionAction::Close,
        }
    }

    /// Dispatches the envelope that the connection holds: a message goes to
    /// its recipient's inbox, or is dropped if `router` hosts no such actor,
    /// and an acknowledgment changes nothing. Either way the next action is
    /// to reply with an acknowledgment.
    ///
    /// On a connection that holds no envelope this closes the connection and
    /// leaves the router alone.
    pub fn dispatch(&mut self, router: &mut Router<M>) -> (action: ConnectionAction<M>)
        ensures
            *final(self) == old(self).after_dispatch(),
            action == final(self).wants(),
            final(router)@ == old(self).dispatched(old(router)@),
    {
        let mut state = Connection::Closed;
        core::mem::swap(self, &mut state);
        match state {
            Connection::Dispatching { request } => {
                let reply = router.receive(request);
                *self = Connection::Replying;
                ConnectionAction::Reply(reply)
            },
            _ => ConnectionAction::Close,
        }
    }
}

/// Every decoded envelope is answered with one acknowledgment before the
/// next one is decoded: from `Decoding` the only way back leads through the
/// dispatch of that envelope and the reply to it, and a reply that cannot be
/// written ends the connection.
pub proof fn lemma_request_is_acknowledged<M>(request: RoutingMessage<M>, mailboxes: Map<usize, Seq<M>>)
    ensures
        ({
            let holding = Connection::<M>::Decoding.after(ConnectionEvent::Decoded(request));
            let replying = holding.after_dispatch();
            &&& holding == Connection::Dispatching { request }
            &&& holding.wants() == ConnectionAction::<M>::Dispatch
            &&& holding.dispatched(mailboxes) == received(mailboxes, request)
            &&& replying.wants() == ConnectionAction::Reply(RoutingMessage::<M>::Ack)
            &&& replying.after(ConnectionEvent::Replied) == Connection::<M>::Decoding
            &&& replying.after(ConnectionEvent::WriteFailed) == Connection::<M>::Closed
        }),
{
}

/// A closed connection stays closed, whatever is reported to it.
pub proof fn lemma_closed_is_final<M>(event: ConnectionEvent<M>)
    ensures
        Connection::<M>::Closed.after(event) == Connection::<M>::Closed,
        Connection::<M>::Closed.after_dispatch() == Connection::<M>::Closed,
        Connection::<M>::Closed.wants() == ConnectionAction::<M>::Close,
{
}

} // verus!
