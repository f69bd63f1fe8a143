use actor_router::dispatch::RemoteCall;
use actor_router::mailbox::ActorHandle;
use actor_router::path::{ActorPath, HostAddr};
use actor_router::registry::RegistryError;
use actor_router::router::{Delivery, Router, RoutingMessage};

fn router_for(ids: &[usize]) -> Router<u32> {
    Router::new(ids.iter().map(|id| ActorHandle::new(*id)).collect()).unwrap()
}

#[test]
fn path_id_is_the_actor_id() {
    assert_eq!(ActorPath::Local { id: 3 }.id(), 3);
    let addr = HostAddr::V6 { ip: 1, port: 80, flowinfo: 0, scope_id: 0 };
    assert_eq!(ActorPath::Remote { addr, id: 12 }.id(), 12);
}

#[test]
fn new_rejects_a_shared_id() {
    let r: Result<Router<u32>, RegistryError> =
        Router::new(vec![ActorHandle::new(1), ActorHandle::new(2), ActorHandle::new(2)]);
    assert_eq!(r.err(), Some(RegistryError::DuplicateId { id: 2 }));
}

#[test]
fn new_hosts_exactly_the_given_actors() {
    let router = router_for(&[1, 2]);
    assert!(router.hosts(1));
    assert!(router.hosts(2));
    assert!(!router.hosts(3));
    assert_eq!(router.pending(1), Some(0));
    assert_eq!(router.pending(3), None);
}

#[test]
fn local_send_reaches_the_inbox() {
    let mut router = router_for(&[1, 2, 3]);
    let d = router.send_msg(9, ActorPath::Local { id: 5 }, ActorPath::Local { id: 2 });
    assert_eq!(d, Delivery::Done(RoutingMessage::Ack));
    assert_eq!(router.pending(1), Some(0));
    assert_eq!(router.pending(2), Some(1));
    assert_eq!(router.pending(3), Some(0));
    assert_eq!(router.drain(2), Some(vec![9]));
}

#[test]
fn local_send_from_a_remote_sender_reaches_the_inbox() {
    let mut router = router_for(&[4]);
    let sender = ActorPath::Remote { addr: HostAddr::V4 { ip: 0x0A00_0001, port: 7000 }, id: 1 };
    let d = router.send_msg(77, sender, ActorPath::Local { id: 4 });
    assert_eq!(d, Delivery::Done(RoutingMessage::Ack));
    assert_eq!(router.drain(4), Some(vec![77]));
}

#[test]
fn local_sends_queue_up_in_order() {
    let mut router = router_for(&[1]);
    for m in [5u32, 6, 7] {
        router.send_msg(m, ActorPath::Local { id: 1 }, ActorPath::Local { id: 1 });
    }
    assert_eq!(router.pending(1), Some(3));
    assert_eq!(router.drain(1), Some(vec![5, 6, 7]));
    assert_eq!(router.pending(1), Some(0));
}

#[test]
fn send_to_a_missing_local_actor_is_acknowledged() {
    let mut router = router_for(&[1, 2]);
    let d = router.send_msg(9, ActorPath::Local { id: 1 }, ActorPath::Local { id: 40 });
    assert_eq!(d, Delivery::Done(RoutingMessage::Ack));
    assert_eq!(router.pending(1), Some(0));
    assert_eq!(router.pending(2), Some(0));
    assert!(!router.hosts(40));
}

#[test]
fn remote_send_hands_back_the_request() {
    let mut router = router_for(&[1, 7]);
    let addr = HostAddr::V4 { ip: 0x7F00_0001, port: 9000 };
    let sender = ActorPath::Local { id: 1 };
    // The remote id 7 is also a local id: nothing may land in the local inbox.
    let d = router.send_msg(55, sender, ActorPath::Remote { addr, id: 7 });
    assert_eq!(
        d,
        Delivery::Remote(RemoteCall {
            addr,
            request: RoutingMessage::Message { sender, recipient: 7, message: 55 },
        })
    );
    assert_eq!(router.pending(1), Some(0));
    assert_eq!(router.pending(7), Some(0));
}

#[test]
fn receive_deposits_a_message_and_acknowledges() {
    let mut router = router_for(&[7]);
    let sender = ActorPath::Remote { addr: HostAddr::V4 { ip: 1, port: 2 }, id: 3 };
    let reply = router.receive(RoutingMessage::Message { sender, recipient: 7, message: 21 });
    assert_eq!(reply, RoutingMessage::Ack);
    assert_eq!(router.drain(7), Some(vec![21]));
}

#[test]
fn receive_acknowledges_a_message_for_a_missing_actor() {
    let mut router = router_for(&[7]);
    let sender = ActorPath::Local { id: 0 };
    let reply = router.receive(RoutingMessage::Message { sender, recipient: 8, message: 21 });
    assert_eq!(reply, RoutingMessage::Ack);
    assert_eq!(router.pending(7), Some(0));
    assert!(!router.hosts(8));
}

#[test]
fn receive_answers_an_acknowledgment_with_an_acknowledgment() {
    let mut router = router_for(&[7]);
    assert_eq!(router.receive(RoutingMessage::Ack), RoutingMessage::Ack);
    assert_eq!(router.pending(7), Some(0));
}

#[test]
fn drain_of_a_missing_actor_is_none() {
    let mut router = router_for(&[7]);
    assert_eq!(router.drain(1), None);
    assert_eq!(router.drain(7), Some(Vec::new()));
}
