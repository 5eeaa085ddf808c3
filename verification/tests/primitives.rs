//! Tests of the publish/subscribe primitives, the task primitive, and
//! the plain data types.

use p2p_core::CancellableTask;
use p2p_core::Message;
use p2p_core::MessageRouter;
use p2p_core::NetError;
use p2p_core::Notifier;
use p2p_core::PeerAddress;
use p2p_core::Settings;
use p2p_core::task::TaskState;

#[test]
fn notifier_delivers_to_live_subscriber_exactly_once() {
    let mut n: Notifier<u64> = Notifier::new();
    let sub = n.subscribe();
    n.notify(42);
    assert_eq!(n.receive(&sub), Some(42));
    assert_eq!(n.receive(&sub), None);
}

#[test]
fn notifier_late_subscriber_misses_earlier_value() {
    let mut n: Notifier<u64> = Notifier::new();
    let early = n.subscribe();
    n.notify(7);
    let late = n.subscribe();
    assert_eq!(n.receive(&late), None);
    assert_eq!(n.receive(&early), Some(7));
}

#[test]
fn notifier_unsubscribed_sink_gets_nothing() {
    let mut n: Notifier<u64> = Notifier::new();
    let a = n.subscribe();
    let b = n.subscribe();
    n.unsubscribe(a);
    assert_eq!(n.subscriber_count(), 1);
    n.notify(5);
    assert_eq!(n.receive(&a), None);
    assert_eq!(n.receive(&b), Some(5));
}

#[test]
fn notifier_fans_out_to_every_subscriber() {
    let mut n: Notifier<u64> = Notifier::new();
    let a = n.subscribe();
    let b = n.subscribe();
    let c = n.subscribe();
    n.notify(9);
    assert_eq!(n.receive(&a), Some(9));
    assert_eq!(n.receive(&b), Some(9));
    assert_eq!(n.receive(&c), Some(9));
}

#[test]
fn router_narrowcasts_by_kind() {
    let mut r = MessageRouter::new();
    let on_ping = r.subscribe(7);
    let on_addr = r.subscribe(9);
    let msg = Message::new(7, vec![1, 2, 3]);
    r.notify(&Ok(msg));
    let got = r.receive(&on_ping).expect("subscriber of kind 7 must receive");
    let got = got.expect("a decoded message is delivered as Ok");
    assert_eq!(got.packet_type(), 7);
    assert_eq!(got.payload(), &vec![1, 2, 3]);
    assert!(r.receive(&on_addr).is_none());
}

#[test]
fn router_broadcasts_errors_to_every_kind() {
    let mut r = MessageRouter::new();
    let on_ping = r.subscribe(7);
    let on_addr = r.subscribe(9);
    let never_used = r.subscribe(1000);
    r.notify(&Err(NetError::ChannelStopped));
    assert!(matches!(r.receive(&on_ping), Some(Err(NetError::ChannelStopped))));
    assert!(matches!(r.receive(&on_addr), Some(Err(NetError::ChannelStopped))));
    assert!(matches!(r.receive(&never_used), Some(Err(NetError::ChannelStopped))));
    assert!(r.receive(&on_ping).is_none());
}

#[test]
fn router_unsubscribed_sink_gets_nothing() {
    let mut r = MessageRouter::new();
    let a = r.subscribe(7);
    let b = r.subscribe(7);
    r.unsubscribe(a);
    assert_eq!(r.subscriber_count(), 1);
    r.notify(&Ok(Message::new(7, vec![8])));
    assert!(r.receive(&a).is_none());
    let got = r.receive(&b).unwrap().unwrap();
    assert_eq!(got.payload(), &vec![8]);
}

#[test]
fn unknown_handles_are_harmless() {
    let mut n: Notifier<u64> = Notifier::new();
    let sub = n.subscribe();
    n.unsubscribe(sub);
    // a handle that was already removed changes nothing when used again
    n.unsubscribe(sub);
    assert_eq!(n.receive(&sub), None);
    assert_eq!(n.subscriber_count(), 0);
}

#[test]
fn task_lifecycle_and_single_completion() {
    let mut t = CancellableTask::new();
    assert_eq!(t.state(), TaskState::Created);
    assert!(t.start(NetError::ServiceStopped).is_ok());
    assert_eq!(t.state(), TaskState::Started);
    // a second start is an explicit error, never a duplicate schedule
    assert_eq!(t.start(NetError::ServiceStopped), Err(NetError::OperationFailed));
    // only the first stop wins
    assert!(t.stop());
    assert!(!t.stop());
    assert_eq!(t.state(), TaskState::Stopped);
    // a cancelled operation settles with the synthetic stop value
    assert!(!t.is_completed());
    assert_eq!(t.complete(None), Err(NetError::ServiceStopped));
    assert!(t.is_completed());
}

#[test]
fn task_completion_passes_own_outcome_through() {
    let mut t = CancellableTask::new();
    assert!(t.start(NetError::ServiceStopped).is_ok());
    assert_eq!(
        t.complete(Some(Err(NetError::ChannelStopped))),
        Err(NetError::ChannelStopped)
    );
}

#[test]
fn message_carries_kind_and_payload() {
    let m = Message::new(11, vec![0xde, 0xad]);
    assert_eq!(m.packet_type(), 11);
    assert_eq!(m.payload(), &vec![0xde, 0xad]);
    let d = m.dup();
    assert_eq!(d.packet_type(), 11);
    assert_eq!(d.payload(), &vec![0xde, 0xad]);
}

#[test]
fn settings_duplicate_is_equal() {
    let s = Settings::new(
        vec![PeerAddress { host: 1, port: 2 }, PeerAddress { host: 3, port: 4 }],
        true,
    );
    let d = s.duplicate();
    assert_eq!(d.seeds, s.seeds);
    assert_eq!(d.skip_seed_sync, s.skip_seed_sync);
}
