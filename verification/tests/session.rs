use solar::actors::muxrpc::handler::{Action, BodyType, EbtReplicate, RecvMsg, RpcBody, RpcType};
use solar::actors::replication::ebt::replicator::{EbtSession, SessionInput, SessionState};
use solar::actors::replication::ebt::{EbtEvent, SessionRole};
use solar::broker::BrokerMessage;
use solar::error::SolarError;

fn replicate_request(version: u32) -> RecvMsg {
    RecvMsg::RpcRequest(RpcBody {
        name: vec!["ebt".to_string(), "replicate".to_string()],
        rpc_type: RpcType::Duplex,
        ebt_args: Ok(vec![EbtReplicate { version, format: "classic".to_string() }]),
    })
}

fn is_concluded(a: &Action) -> bool {
    matches!(
        a,
        Action::Broadcast(BrokerMessage::Ebt(EbtEvent::SessionConcluded(7, peer))) if peer == "@peer"
    )
}

#[test]
fn requester_opens_with_the_default_options() {
    let mut s = EbtSession::new(7, "@peer".to_string(), SessionRole::Requester, 5);
    assert_eq!(s.state(), SessionState::Opening);
    assert_eq!(s.active_req_no(), None);
    let actions = s.start();
    assert!(matches!(
        &actions[..],
        [Action::RequestSession(o)] if o.version == 3 && o.format == "classic"
    ));
    s.request_sent(1);
    assert_eq!(s.state(), SessionState::Active);
    assert_eq!(s.active_req_no(), Some(1));
    assert!(!s.is_finished());
}

#[test]
fn responder_waits() {
    let s = EbtSession::new(7, "@peer".to_string(), SessionRole::Responder, 5);
    assert!(s.start().is_empty());
    assert_eq!(s.state(), SessionState::Opening);
}

#[test]
fn ebt_responder_timeout() {
    let mut s = EbtSession::new(7, "@peer".to_string(), SessionRole::Responder, 1);
    // Before the time is up nothing happens.
    let step = s.step(SessionInput::Broker(None), 0);
    assert!(!step.done);
    assert!(step.closing.is_empty());
    assert!(step.handled.actions.is_empty());
    assert_eq!(s.state(), SessionState::Opening);

    let step = s.step(SessionInput::Broker(None), 1);
    assert!(step.done);
    assert!(step.handled.actions.is_empty());
    assert_eq!(step.closing.len(), 2);
    assert!(matches!(
        &step.closing[0],
        Action::Broadcast(BrokerMessage::Ebt(EbtEvent::SessionTimeout(7, peer))) if peer == "@peer"
    ));
    assert!(is_concluded(&step.closing[1]));
    assert_eq!(s.state(), SessionState::TimedOut);
    assert!(s.is_finished());
    s.acknowledge();
    assert_eq!(s.state(), SessionState::TimedOut);

    // A session that is over does nothing more.
    let step = s.step(SessionInput::Terminate, 2);
    assert!(step.done);
    assert!(step.closing.is_empty());
    assert!(step.handled.actions.is_empty());
    assert_eq!(s.state(), SessionState::TimedOut);
}

#[test]
fn requester_does_not_time_out() {
    let mut s = EbtSession::new(7, "@peer".to_string(), SessionRole::Requester, 1);
    s.request_sent(1);
    let step = s.step(SessionInput::Broker(None), 100);
    assert!(!step.done);
    assert_eq!(s.state(), SessionState::Active);
}

#[test]
fn ebt_version_rejection_ends_the_session() {
    let mut s = EbtSession::new(7, "@peer".to_string(), SessionRole::Responder, 5);
    let step = s.step(SessionInput::Packet(3, replicate_request(2)), 0);
    assert!(step.done);
    assert!(matches!(
        &step.handled.actions[..],
        [Action::SendError(3, RpcType::Duplex, text)] if text == "ebt version != 3"
    ));
    assert!(matches!(&step.handled.result, Err(SolarError::EbtReplicate((3, _)))));
    assert_eq!(step.closing.len(), 2);
    assert!(matches!(
        &step.closing[0],
        Action::Broadcast(BrokerMessage::Ebt(EbtEvent::Error(7, peer, text)))
            if peer == "@peer" && text == "ebt version != 3"
    ));
    assert!(is_concluded(&step.closing[1]));
    assert_eq!(s.state(), SessionState::Closing);
    assert!(s.is_finished());
    s.acknowledge();
    assert_eq!(s.state(), SessionState::Closed);
    assert!(s.is_finished());
}

#[test]
fn responder_session_is_initiated_and_keeps_its_request_number() {
    let mut s = EbtSession::new(7, "@peer".to_string(), SessionRole::Responder, 1);
    let step = s.step(SessionInput::Packet(3, replicate_request(3)), 0);
    assert!(!step.done);
    // The session is active as soon as the request is accepted.
    assert_eq!(s.active_req_no(), Some(3));
    assert_eq!(s.state(), SessionState::Active);
    let announced = match step.handled.actions.into_iter().next() {
        Some(Action::Broadcast(msg)) => msg,
        other => panic!("unexpected action {:?}", other),
    };
    // The announcement comes back through the broker and changes nothing.
    let step = s.step(SessionInput::Broker(Some(announced)), 0);
    assert!(!step.done);
    assert_eq!(s.active_req_no(), Some(3));
    assert_eq!(s.state(), SessionState::Active);

    // Clocks, idle ticks and events of other connections leave it alone,
    // and the wait is over.
    let clock = RecvMsg::RpcResponse(BodyType::JSON, b"{\"@a\":1}".to_vec());
    let step = s.step(SessionInput::Packet(-3, clock), 10);
    assert!(!step.done);
    assert_eq!(step.handled.actions.len(), 1);
    assert_eq!(s.active_req_no(), Some(3));
    let other = BrokerMessage::Ebt(EbtEvent::SessionConcluded(8, "@other".to_string()));
    let step = s.step(SessionInput::Broker(Some(other)), 10);
    assert!(!step.done);
    let step = s.step(SessionInput::Broker(None), 10);
    assert!(!step.done);
    assert_eq!(s.active_req_no(), Some(3));
    assert_eq!(s.state(), SessionState::Active);

    // An initiation for another peer is not ours.
    let foreign = BrokerMessage::Ebt(EbtEvent::SessionInitiated(
        9,
        5,
        "@other".to_string(),
        SessionRole::Responder,
    ));
    let step = s.step(SessionInput::Broker(Some(foreign)), 10);
    assert!(!step.done);
    assert_eq!(s.active_req_no(), Some(3));
}

#[test]
fn terminate_signal_cancels_the_stream() {
    let mut s = EbtSession::new(7, "@peer".to_string(), SessionRole::Requester, 5);
    s.request_sent(2);
    let step = s.step(SessionInput::Terminate, 0);
    assert!(step.done);
    assert!(matches!(step.handled.actions[..], [Action::SendStreamEof(-2)]));
    assert!(matches!(step.handled.result, Ok(true)));
    assert_eq!(step.closing.len(), 1);
    assert!(is_concluded(&step.closing[0]));
    assert_eq!(s.state(), SessionState::Closing);
    s.acknowledge();
    assert_eq!(s.state(), SessionState::Closed);
    // A request number that arrives now changes nothing.
    s.request_sent(9);
    assert_eq!(s.active_req_no(), Some(2));
    assert_eq!(s.state(), SessionState::Closed);
}

#[test]
fn concluded_event_for_this_connection_ends_the_session() {
    let mut s = EbtSession::new(7, "@peer".to_string(), SessionRole::Requester, 5);
    s.request_sent(2);
    let event = BrokerMessage::Ebt(EbtEvent::SessionConcluded(7, "@peer".to_string()));
    let step = s.step(SessionInput::Broker(Some(event)), 0);
    assert!(step.done);
    assert!(step.handled.actions.is_empty());
    assert_eq!(step.closing.len(), 1);
    assert!(is_concluded(&step.closing[0]));
    assert_eq!(s.state(), SessionState::Closing);
}

#[test]
fn peer_cancelling_the_stream_ends_the_session() {
    let mut s = EbtSession::new(7, "@peer".to_string(), SessionRole::Requester, 5);
    s.request_sent(2);
    let step = s.step(SessionInput::Packet(2, RecvMsg::CancelStreamResponse), 0);
    assert!(step.done);
    assert!(matches!(step.handled.actions[..], [Action::SendStreamEof(-2)]));
    assert!(is_concluded(&step.closing[0]));
}

#[test]
fn request_that_arrives_late_is_still_accepted() {
    let mut s = EbtSession::new(7, "@peer".to_string(), SessionRole::Responder, 1);
    let step = s.step(SessionInput::Packet(3, replicate_request(3)), 5);
    assert!(!step.done);
    assert!(step.closing.is_empty());
    assert_eq!(s.state(), SessionState::Active);
    let step = s.step(SessionInput::Broker(None), 50);
    assert!(!step.done);
}

#[test]
fn announcement_of_an_accepted_request_opens_the_session() {
    // The announcement of the handler of this peer reaches the session
    // through the broker.
    let mut s = EbtSession::new(7, "@peer".to_string(), SessionRole::Responder, 1);
    let announced = BrokerMessage::Ebt(EbtEvent::SessionInitiated(
        7,
        4,
        "@peer".to_string(),
        SessionRole::Responder,
    ));
    let step = s.step(SessionInput::Broker(Some(announced)), 0);
    assert!(!step.done);
    assert_eq!(s.active_req_no(), Some(4));
    assert_eq!(s.state(), SessionState::Active);
    // An announcement of a requester's session is not one.
    let mut s = EbtSession::new(7, "@peer".to_string(), SessionRole::Responder, 1);
    let announced = BrokerMessage::Ebt(EbtEvent::SessionInitiated(
        7,
        4,
        "@peer".to_string(),
        SessionRole::Requester,
    ));
    let step = s.step(SessionInput::Broker(Some(announced)), 0);
    assert!(!step.done);
    assert_eq!(s.active_req_no(), None);
    assert_eq!(s.state(), SessionState::Opening);
}

#[test]
fn silent_peer_times_out_on_a_tick() {
    let mut s = EbtSession::new(7, "@peer".to_string(), SessionRole::Responder, 2);
    let step = s.step(SessionInput::Tick, 1);
    assert!(!step.done);
    assert!(step.handled.actions.is_empty());
    assert!(step.closing.is_empty());
    let step = s.step(SessionInput::Tick, 2);
    assert!(step.done);
    assert!(step.handled.actions.is_empty());
    assert_eq!(step.closing.len(), 2);
    assert!(matches!(
        &step.closing[0],
        Action::Broadcast(BrokerMessage::Ebt(EbtEvent::SessionTimeout(7, peer))) if peer == "@peer"
    ));
    assert!(is_concluded(&step.closing[1]));
    assert_eq!(s.state(), SessionState::TimedOut);
}

#[test]
fn bad_request_ends_an_active_session() {
    let mut s = EbtSession::new(7, "@peer".to_string(), SessionRole::Responder, 5);
    let step = s.step(SessionInput::Packet(5, replicate_request(3)), 0);
    assert!(!step.done);
    assert_eq!(s.state(), SessionState::Active);

    let step = s.step(SessionInput::Packet(6, replicate_request(2)), 1);
    assert!(step.done);
    assert!(matches!(
        &step.handled.actions[..],
        [Action::SendError(6, RpcType::Duplex, text)] if text == "ebt version != 3"
    ));
    assert!(matches!(
        &step.handled.result,
        Err(SolarError::EbtReplicate((6, text))) if text == "ebt version != 3"
    ));
    assert_eq!(step.closing.len(), 2);
    assert!(matches!(
        &step.closing[0],
        Action::Broadcast(BrokerMessage::Ebt(EbtEvent::Error(7, peer, text)))
            if peer == "@peer" && text == "ebt version != 3"
    ));
    assert!(is_concluded(&step.closing[1]));
    assert_eq!(s.active_req_no(), Some(5));
    assert_eq!(s.state(), SessionState::Closing);
}

#[test]
fn action_that_cannot_be_carried_out_fails_the_session() {
    let mut s = EbtSession::new(7, "@peer".to_string(), SessionRole::Responder, 5);
    let step = s.step(SessionInput::Packet(3, replicate_request(3)), 0);
    assert!(!step.done);
    assert_eq!(s.state(), SessionState::Active);

    let closing = s.action_failed("broken pipe".to_string());
    assert_eq!(closing.len(), 2);
    assert!(matches!(
        &closing[0],
        Action::Broadcast(BrokerMessage::Ebt(EbtEvent::Error(7, peer, text)))
            if peer == "@peer" && text == "broken pipe"
    ));
    assert!(is_concluded(&closing[1]));
    assert_eq!(s.state(), SessionState::Closing);
    assert_eq!(s.active_req_no(), Some(3));
    assert!(s.is_finished());

    // The fault takes the place of a timeout that the same step found.
    let mut s = EbtSession::new(7, "@peer".to_string(), SessionRole::Responder, 2);
    let step = s.step(SessionInput::Tick, 2);
    assert!(step.done);
    assert_eq!(s.state(), SessionState::TimedOut);
    let closing = s.action_failed("queue closed".to_string());
    assert_eq!(closing.len(), 2);
    assert!(matches!(
        &closing[0],
        Action::Broadcast(BrokerMessage::Ebt(EbtEvent::Error(7, _, text))) if text == "queue closed"
    ));
    assert!(is_concluded(&closing[1]));
    assert_eq!(s.state(), SessionState::Closing);

    // An acknowledged session stays closed and publishes nothing.
    s.acknowledge();
    assert_eq!(s.state(), SessionState::Closed);
    assert!(s.action_failed("late".to_string()).is_empty());
    assert_eq!(s.state(), SessionState::Closed);
}

#[test]
fn second_request_does_not_replace_the_session() {
    let mut s = EbtSession::new(7, "@peer".to_string(), SessionRole::Responder, 5);
    let step = s.step(SessionInput::Packet(3, replicate_request(3)), 0);
    assert!(!step.done);
    assert_eq!(s.active_req_no(), Some(3));

    let step = s.step(SessionInput::Packet(8, replicate_request(3)), 1);
    assert!(!step.done);
    assert!(matches!(
        &step.handled.actions[..],
        [Action::SendError(8, RpcType::Duplex, text)] if text == "ebt session already active"
    ));
    assert!(step.closing.is_empty());
    assert_eq!(s.active_req_no(), Some(3));
    assert_eq!(s.state(), SessionState::Active);

    // Nor does an announcement for the same peer from elsewhere.
    let elsewhere = BrokerMessage::Ebt(EbtEvent::SessionInitiated(
        9,
        4,
        "@peer".to_string(),
        SessionRole::Responder,
    ));
    let step = s.step(SessionInput::Broker(Some(elsewhere)), 1);
    assert!(!step.done);
    assert_eq!(s.active_req_no(), Some(3));

    // A requester keeps the number of its own request.
    let mut s = EbtSession::new(7, "@peer".to_string(), SessionRole::Requester, 5);
    s.request_sent(1);
    let step = s.step(SessionInput::Packet(8, replicate_request(3)), 1);
    assert!(!step.done);
    assert!(matches!(&step.handled.actions[..], [Action::SendError(8, _, _)]));
    assert_eq!(s.active_req_no(), Some(1));
}
