//! The outbound side: one request to a remote router, and what its round
//! trip amounts to.

use crate::path::{ActorPath, HostAddr};
use crate::router::RoutingMessage;
use vstd::prelude::*;

verus! {

/// One outbound request: the endpoint to open a fresh connection to, and the
/// single envelope to write on it.
#[derive(Debug, PartialEq, Eq)]
pub struct RemoteCall<M> {
    pub addr: HostAddr,
    pub request: RoutingMessage<M>,
}

/// How the round trip of a [`RemoteCall`] ended. `E` is the transport's own
/// error, carried through untouched.
#[derive(Debug, PartialEq, Eq)]
pub enum CallOutcome<M, E> {
    /// No connection could be established.
    ConnectFailed(E),
    /// The request could not be encoded or written.
    WriteFailed(E),
    /// The connection ended, or what arrived was no envelope, before a reply
    /// was decoded.
    DecodeFailed(E),
    /// A reply envelope arrived.
    Replied(RoutingMessage<M>),
}

/// Why a message for a remote actor was not handed over.
#[derive(Debug, PartialEq, Eq)]
pub enum DispatchError<E> {
    /// The remote host could not be reached.
    Connect(E),
    /// The request could not be encoded and written, or no reply could be
    /// read and decoded.
    Codec(E),
}

/// The request that delivers `message` from `sender` to the actor `recipient`
/// hosted at `addr`.
pub open spec fn remote_call<M>(
    addr: HostAddr,
    sender: ActorPath,
    recipient: usize,
    message: M,
) -> RemoteCall<M> {
    RemoteCall { addr, request: RoutingMessage::Message { sender, recipient, message } }
}

/// What the caller of a remote send is told for each way the round trip can
/// end: any reply counts as an acknowledgment, and each failure is passed on
/// with its cause.
pub open spec fn conclusion<M, E>(outcome: CallOutcome<M, E>) -> Result<
    RoutingMessage<M>,
    DispatchError<E>,
> {
    match outcome {
        CallOutcome::ConnectFailed(cause) => Err(DispatchError::Connect(cause)),
        CallOutcome::WriteFailed(cause) => Err(DispatchError::Codec(cause)),
        CallOutcome::DecodeFailed(cause) => Err(DispatchError::Codec(cause)),
        CallOutcome::Replied(_) => Ok(RoutingMessage::Ack),
    }
}

/// Prepares the delivery of `message` to the actor `recipient` hosted at
/// `addr`: one connection, one envelope.
pub fn send_remote<M>(addr: HostAddr, sender: ActorPath, recipient: usize, message: M) -> (call:
    RemoteCall<M>)
    ensures
        call == remote_call(addr, sender, recipient, message),
{
    RemoteCall { addr, request: RoutingMessage::Message { sender, recipient, message } }
}

/// Turns the end of a round trip into the result of the send. Nothing is
/// retried.
pub fn complete<M, E>(outcome: CallOutcome<M, E>) -> (r: Result<
    RoutingMessage<M>,
    DispatchError<E>,
>)
    ensures
        r == conclusion(outcome),
{
    match outcome {
        CallOutcome::ConnectFailed(cause) => Err(DispatchError::Connect(cause)),
        CallOutcome::WriteFailed(cause) => Err(DispatchError::Codec(cause)),
        CallOutcome::DecodeFailed(cause) => Err(DispatchError::Codec(cause)),
        CallOutcome::Replied(_) => Ok(RoutingMessage::Ack),
    }
}

} // verus!
