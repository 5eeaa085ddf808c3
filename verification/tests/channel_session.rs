//! Tests of the channel lifecycle and the seed-bootstrap session.

use p2p_core::Channel;
use p2p_core::CodecError;
use p2p_core::Message;
use p2p_core::NetError;
use p2p_core::P2p;
use p2p_core::PeerAddress;
use p2p_core::SeedEvent;
use p2p_core::SeedSession;
use p2p_core::Settings;
use p2p_core::WeakP2p;
use p2p_core::task::TaskState;

fn some_peer() -> PeerAddress {
    PeerAddress { host: 0x7f000001, port: 8333 }
}

fn bare_settings() -> Settings {
    Settings::new(vec![], false)
}

#[test]
fn send_after_stop_is_rejected_without_io() {
    let mut c = Channel::new(some_peer(), bare_settings());
    let on_stop = c.subscribe_stop();
    c.stop();
    // the stop notifier fired for the subscriber registered before stop
    assert_eq!(c.receive_stop(&on_stop), Some(NetError::ChannelStopped));
    assert_eq!(c.receive_stop(&on_stop), None);
    // a later send is rejected, whatever the write half would have said
    let m = Message::new(7, vec![1]);
    assert_eq!(c.send(&m, Ok(())), Err(NetError::ChannelStopped));
    assert_eq!(c.send(&m, Err(CodecError::Io)), Err(NetError::ChannelStopped));
    assert_eq!(c.sent_messages().len(), 0);
}

#[test]
fn stop_is_effective_only_once() {
    let mut c = Channel::new(some_peer(), bare_settings());
    c.stop();
    let late = c.subscribe_stop();
    c.stop();
    // the second stop does not notify again
    assert_eq!(c.receive_stop(&late), None);
    assert!(c.is_stopped());
}

#[test]
fn successful_send_reaches_the_write_half() {
    let mut c = Channel::new(some_peer(), bare_settings());
    let m = Message::new(7, vec![1, 2]);
    assert_eq!(c.send(&m, Ok(())), Ok(()));
    assert_eq!(c.sent_messages().len(), 1);
    assert_eq!(c.sent_messages()[0].packet_type(), 7);
    assert_eq!(c.sent_messages()[0].payload(), &vec![1, 2]);
}

#[test]
fn failed_write_stops_the_channel() {
    let mut c = Channel::new(some_peer(), bare_settings());
    let on_stop = c.subscribe_stop();
    let m = Message::new(7, vec![]);
    assert_eq!(c.send(&m, Err(CodecError::Io)), Err(NetError::ChannelStopped));
    assert!(c.is_stopped());
    assert_eq!(c.sent_messages().len(), 0);
    assert_eq!(c.receive_stop(&on_stop), Some(NetError::ChannelStopped));
}

#[test]
fn receive_loop_routes_by_kind_until_clean_eof() {
    let mut c = Channel::new(some_peer(), bare_settings());
    assert!(c.start().is_ok());
    let on_ping = c.subscribe_msg(7);
    let on_addr = c.subscribe_msg(9);
    let reads = vec![
        Ok(Message::new(7, vec![1])),
        Ok(Message::new(9, vec![2])),
        Ok(Message::new(7, vec![3])),
        Err(CodecError::UnexpectedEof),
        Ok(Message::new(9, vec![99])),
    ];
    let outcome = c.receive_loop(&reads);
    assert_eq!(outcome, Some(NetError::ChannelStopped));
    assert!(c.is_stopped());
    // the completion handler broadcasts the terminal error, exactly once
    c.handle_stop(Some(Err(NetError::ChannelStopped)));
    // kind 7 saw its two messages, then the terminal error
    let first = c.receive_msg(&on_ping).unwrap().unwrap();
    assert_eq!(first.payload(), &vec![1]);
    let second = c.receive_msg(&on_ping).unwrap().unwrap();
    assert_eq!(second.payload(), &vec![3]);
    assert!(matches!(c.receive_msg(&on_ping), Some(Err(NetError::ChannelStopped))));
    assert!(c.receive_msg(&on_ping).is_none());
    // kind 9 saw only its own message before the failure, then the error;
    // the message after the failure was never read
    let only = c.receive_msg(&on_addr).unwrap().unwrap();
    assert_eq!(only.payload(), &vec![2]);
    assert!(matches!(c.receive_msg(&on_addr), Some(Err(NetError::ChannelStopped))));
    assert!(c.receive_msg(&on_addr).is_none());
}

#[test]
fn receive_loop_without_failure_is_pending() {
    let mut c = Channel::new(some_peer(), bare_settings());
    assert!(c.start().is_ok());
    let on_ping = c.subscribe_msg(7);
    let reads = vec![Ok(Message::new(7, vec![4]))];
    assert_eq!(c.receive_loop(&reads), None);
    assert!(!c.is_stopped());
    let got = c.receive_msg(&on_ping).unwrap().unwrap();
    assert_eq!(got.payload(), &vec![4]);
}

#[test]
fn cancelled_receive_task_broadcasts_service_stopped() {
    let mut c = Channel::new(some_peer(), bare_settings());
    assert!(c.start().is_ok());
    let on_ping = c.subscribe_msg(7);
    // an external stop cancels the loop before it produced an outcome
    c.stop();
    c.handle_stop(None);
    assert!(matches!(c.receive_msg(&on_ping), Some(Err(NetError::ServiceStopped))));
}

#[test]
fn double_start_is_an_error() {
    let mut c = Channel::new(some_peer(), bare_settings());
    assert!(c.start().is_ok());
    assert_eq!(c.start(), Err(NetError::OperationFailed));
}

#[test]
fn eof_classification() {
    assert!(Channel::is_eof_error(&CodecError::UnexpectedEof));
    assert!(!Channel::is_eof_error(&CodecError::Io));
    assert!(!Channel::is_eof_error(&CodecError::Malformed));
}

fn three_seed_session() -> SeedSession {
    let seeds = vec![
        PeerAddress { host: 1, port: 1001 },
        PeerAddress { host: 2, port: 1002 },
        PeerAddress { host: 3, port: 1003 },
    ];
    let p2p = P2p::new(Settings::new(seeds, false));
    SeedSession::new(WeakP2p { target: Some(p2p) })
}

#[test]
fn seed_bootstrap_tolerates_one_unreachable_seed() {
    let mut session = three_seed_session();
    let events = vec![
        SeedEvent::Connected { seed_exchange: Ok(()) },
        SeedEvent::Unreachable(NetError::OperationFailed),
        SeedEvent::Connected { seed_exchange: Ok(()) },
    ];
    // the run succeeds although seed #1 failed
    assert!(session.start(&events).is_ok());
    let channels = session.p2p().channels();
    assert_eq!(channels.len(), 2);
    assert_eq!(channels[0].address(), PeerAddress { host: 1, port: 1001 });
    assert_eq!(channels[1].address(), PeerAddress { host: 3, port: 1003 });
    for c in channels {
        // each reachable seed's channel was started and, after the
        // exchange, stopped again
        assert_eq!(c.receive_task_state(), TaskState::Stopped);
        assert!(c.is_stopped());
    }
}

#[test]
fn seed_bootstrap_skipped_by_configuration() {
    let seeds = vec![PeerAddress { host: 1, port: 1 }];
    let p2p = P2p::new(Settings::new(seeds, true));
    let mut session = SeedSession::new(WeakP2p { target: Some(p2p) });
    let events = vec![SeedEvent::Unreachable(NetError::OperationFailed)];
    // success at once, no dial attempted
    assert!(session.start(&events).is_ok());
    assert_eq!(session.p2p().channels().len(), 0);
}

#[test]
fn seed_bootstrap_with_no_seeds_fails_fatally() {
    let p2p = P2p::new(Settings::new(vec![], false));
    let mut session = SeedSession::new(WeakP2p { target: Some(p2p) });
    let events: Vec<SeedEvent> = vec![];
    assert_eq!(session.start(&events), Err(NetError::OperationFailed));
    assert_eq!(session.p2p().channels().len(), 0);
}

#[test]
fn failed_exchange_leaves_channel_running() {
    let seeds = vec![PeerAddress { host: 5, port: 5005 }];
    let p2p = P2p::new(Settings::new(seeds, false));
    let mut session = SeedSession::new(WeakP2p { target: Some(p2p) });
    let events = vec![
        SeedEvent::Connected { seed_exchange: Err(NetError::ChannelStopped) },
    ];
    // the per-seed failure is tolerated by the run as a whole
    assert!(session.start(&events).is_ok());
    let channels = session.p2p().channels();
    assert_eq!(channels.len(), 1);
    // registered and started, but not stopped: a failed exchange leaves
    // the channel to unwind through its own failure path
    assert_eq!(channels[0].receive_task_state(), TaskState::Started);
    assert!(!channels[0].is_stopped());
}

#[test]
fn unreachable_seed_reports_its_error() {
    let mut session = three_seed_session();
    let event = SeedEvent::Unreachable(NetError::OperationFailed);
    let r = session.start_seed(1, PeerAddress { host: 2, port: 1002 }, &event);
    assert_eq!(r, Err(NetError::OperationFailed));
    assert_eq!(session.p2p().channels().len(), 0);
}
