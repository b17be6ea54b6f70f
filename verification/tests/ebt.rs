use std::collections::HashMap;

use kuska_ssb::feed::{Feed, Message};
use kuska_ssb::keystore::OwnedIdentity;
use solar::actors::muxrpc::ebt::{
    clock_response, options_fault_of, received_message, session_req_no, EbtReplicateHandler,
};
use solar::actors::muxrpc::handler::{
    Action, BodyType, EbtReplicate, Handled, RecvMsg, RpcBody, RpcInput, RpcType,
};
use solar::actors::replication::ebt::{encode_clock, parse_clock, EbtEvent, SessionRole};
use solar::broker::BrokerMessage;
use solar::error::SolarError;
use solar::feed::MessageValue;

fn replicate_request(version: u32, format: &str) -> RecvMsg {
    RecvMsg::RpcRequest(RpcBody {
        name: vec!["ebt".to_string(), "replicate".to_string()],
        rpc_type: RpcType::Duplex,
        ebt_args: Ok(vec![EbtReplicate { version, format: format.to_string() }]),
    })
}

fn handle(h: &mut EbtReplicateHandler, op: RpcInput, active: Option<i32>) -> Handled {
    h.handle(&op, "@peer".to_string(), 7, active)
}

fn as_map(clock: &[(String, i32)]) -> HashMap<String, i32> {
    clock.iter().cloned().collect()
}

#[test]
fn sign_convention_of_session_frames() {
    assert_eq!(session_req_no(SessionRole::Requester, 5), -5);
    assert_eq!(session_req_no(SessionRole::Responder, 5), 5);
    assert_eq!(session_req_no(SessionRole::Requester, -5), 5);
    assert_eq!(session_req_no(SessionRole::Requester, i32::MIN), i32::MIN);
}

#[test]
fn ebt_version_rejection() {
    let mut h = EbtReplicateHandler::new();
    let out = handle(&mut h, RpcInput::Network(3, replicate_request(2, "classic")), None);
    assert_eq!(out.actions.len(), 1);
    assert!(matches!(
        &out.actions[0],
        Action::SendError(3, RpcType::Duplex, text) if text == "ebt version != 3"
    ));
    assert!(matches!(
        &out.result,
        Err(SolarError::EbtReplicate((3, text))) if text == "ebt version != 3"
    ));
    assert_eq!(h.active_request(), 0);
    assert_eq!(out.result.unwrap_err().describe(), "ebt version != 3");
}

#[test]
fn ebt_format_rejection() {
    let mut h = EbtReplicateHandler::new();
    let out = handle(&mut h, RpcInput::Network(3, replicate_request(3, "modern")), None);
    assert_eq!(out.actions.len(), 1);
    assert!(matches!(
        &out.actions[0],
        Action::SendError(3, RpcType::Duplex, text) if text == "ebt format != classic"
    ));
    assert!(matches!(
        &out.result,
        Err(SolarError::EbtReplicate((3, text))) if text == "ebt format != classic"
    ));
    assert_eq!(h.active_request(), 0);
}

#[test]
fn ebt_request_accepted() {
    let mut h = EbtReplicateHandler::new();
    let out = handle(&mut h, RpcInput::Network(3, replicate_request(3, "classic")), None);
    assert!(matches!(out.result, Ok(false)));
    assert_eq!(out.actions.len(), 1);
    assert!(matches!(
        &out.actions[0],
        Action::Broadcast(BrokerMessage::Ebt(EbtEvent::SessionInitiated(
            7,
            3,
            peer,
            SessionRole::Responder
        ))) if peer == "@peer"
    ));
    assert_eq!(h.active_request(), 3);
}

#[test]
fn ebt_request_options_are_the_last_argument() {
    let mut h = EbtReplicateHandler::new();
    let body = RpcBody {
        name: vec!["ebt".to_string(), "replicate".to_string()],
        rpc_type: RpcType::Duplex,
        ebt_args: Ok(vec![
            EbtReplicate { version: 2, format: "x".to_string() },
            EbtReplicate::default(),
        ]),
    };
    let out = handle(&mut h, RpcInput::Network(9, RecvMsg::RpcRequest(body)), None);
    assert!(matches!(out.result, Ok(false)));
    assert_eq!(h.active_request(), 9);
}

#[test]
fn ebt_request_with_unusable_arguments() {
    let mut h = EbtReplicateHandler::new();
    let empty = RpcBody {
        name: vec!["ebt".to_string(), "replicate".to_string()],
        rpc_type: RpcType::Duplex,
        ebt_args: Ok(vec![]),
    };
    let out = handle(&mut h, RpcInput::Network(3, RecvMsg::RpcRequest(empty)), None);
    assert!(matches!(
        &out.actions[..],
        [Action::SendError(3, RpcType::Duplex, text)] if text == "ebt replicate without options"
    ));
    assert!(matches!(
        &out.result,
        Err(SolarError::EbtReplicate((3, text))) if text == "ebt replicate without options"
    ));

    let bad = || RpcBody {
        name: vec!["ebt".to_string(), "replicate".to_string()],
        rpc_type: RpcType::Duplex,
        ebt_args: Err("expected a list".to_string()),
    };
    let out = handle(&mut h, RpcInput::Network(3, RecvMsg::RpcRequest(bad())), None);
    assert!(matches!(
        &out.actions[..],
        [Action::SendError(3, RpcType::Duplex, text)] if text == "expected a list"
    ));
    assert!(matches!(
        &out.result,
        Err(SolarError::EbtReplicate((3, text))) if text == "expected a list"
    ));
    assert_eq!(h.active_request(), 0);

    // The same while a session is active, which keeps its number.
    let out = handle(&mut h, RpcInput::Network(8, RecvMsg::RpcRequest(bad())), Some(5));
    assert!(matches!(
        &out.actions[..],
        [Action::SendError(8, RpcType::Duplex, text)] if text == "expected a list"
    ));
    assert!(matches!(
        &out.result,
        Err(SolarError::EbtReplicate((8, text))) if text == "expected a list"
    ));
    assert_eq!(h.active_request(), 5);
}

#[test]
fn options_are_judged_by_the_last_element() {
    assert_eq!(options_fault_of(&Ok(vec![EbtReplicate::default()])), None);
    assert_eq!(
        options_fault_of(&Ok(vec![
            EbtReplicate { version: 2, format: "x".to_string() },
            EbtReplicate::default(),
        ])),
        None
    );
    assert_eq!(
        options_fault_of(&Ok(vec![
            EbtReplicate::default(),
            EbtReplicate { version: 2, format: "x".to_string() },
        ])),
        Some("ebt version != 3".to_string())
    );
    assert_eq!(
        options_fault_of(&Ok(vec![EbtReplicate { version: 3, format: "Classic".to_string() }])),
        Some("ebt format != classic".to_string())
    );
    assert_eq!(
        options_fault_of(&Ok(vec![])),
        Some("ebt replicate without options".to_string())
    );
    assert_eq!(
        options_fault_of(&Err("not a list".to_string())),
        Some("not a list".to_string())
    );
}

#[test]
fn bad_options_fail_an_active_session_too() {
    let mut h = EbtReplicateHandler::new();
    let out = handle(&mut h, RpcInput::Network(5, replicate_request(3, "classic")), None);
    assert!(matches!(out.result, Ok(false)));
    assert_eq!(h.active_request(), 5);

    let out = handle(&mut h, RpcInput::Network(7, replicate_request(3, "modern")), None);
    assert!(matches!(
        &out.actions[..],
        [Action::SendError(7, RpcType::Duplex, text)] if text == "ebt format != classic"
    ));
    assert!(matches!(
        &out.result,
        Err(SolarError::EbtReplicate((7, text))) if text == "ebt format != classic"
    ));
    assert_eq!(h.active_request(), 5);

    let out = handle(&mut h, RpcInput::Network(6, replicate_request(2, "classic")), None);
    assert!(matches!(
        &out.actions[..],
        [Action::SendError(6, RpcType::Duplex, text)] if text == "ebt version != 3"
    ));
    assert!(matches!(
        &out.result,
        Err(SolarError::EbtReplicate((6, text))) if text == "ebt version != 3"
    ));
    assert_eq!(h.active_request(), 5);
}

#[test]
fn other_methods_are_passed_on() {
    let mut h = EbtReplicateHandler::new();
    let body = RpcBody {
        name: vec!["blobs".to_string(), "createWants".to_string()],
        rpc_type: RpcType::Source,
        ebt_args: Err("no list".to_string()),
    };
    let out = handle(&mut h, RpcInput::Network(3, RecvMsg::RpcRequest(body)), None);
    assert!(out.actions.is_empty());
    assert!(matches!(out.result, Ok(false)));
    let out = handle(&mut h, RpcInput::Timer, None);
    assert!(out.actions.is_empty());
    assert!(matches!(out.result, Ok(false)));
    let out = handle(&mut h, RpcInput::Idle, None);
    assert!(out.actions.is_empty());
    assert!(matches!(out.result, Ok(false)));
}

#[test]
fn clock_round_trip() {
    let clock = vec![
        ("@a.ed25519".to_string(), 3),
        ("@b.ed25519".to_string(), -1),
        ("@c.ed25519".to_string(), i32::MAX),
    ];
    let text = encode_clock(&clock).unwrap();
    let back = parse_clock(&text).unwrap();
    assert_eq!(as_map(&back), as_map(&clock));
    assert_eq!(back.len(), 3);
}

#[test]
fn clock_parsing() {
    let clock = parse_clock(b"{\"@a\": 5, \"@b\": -2147483648}").unwrap();
    let map = as_map(&clock);
    assert_eq!(map.len(), 2);
    assert_eq!(map["@a"], 5);
    assert_eq!(map["@b"], i32::MIN);
    assert_eq!(parse_clock(b"{}").unwrap().len(), 0);
    // A value beyond 32 bits, a value that is no integer, and no object.
    assert!(parse_clock(b"{\"@a\": 2147483648}").is_none());
    assert!(parse_clock(b"{\"@a\": 1.5}").is_none());
    assert!(parse_clock(b"[1, 2]").is_none());
    assert!(parse_clock(b"{\"@a\": 5").is_none());
}

#[test]
fn frames_of_the_peers_side_of_the_session() {
    let mut h = EbtReplicateHandler::new();
    // Before a session there is nothing to take frames for.
    let op = RpcInput::Network(4, RecvMsg::OtherRequest(BodyType::JSON, b"{\"@a\":5}".to_vec()));
    let out = handle(&mut h, op, None);
    assert!(out.actions.is_empty());
    assert!(matches!(out.result, Ok(false)));

    let op = RpcInput::Network(4, RecvMsg::OtherRequest(BodyType::JSON, b"{\"@a\":5}".to_vec()));
    let out = handle(&mut h, op, Some(4));
    assert!(matches!(out.result, Ok(false)));
    assert_eq!(out.actions.len(), 1);
    assert!(matches!(
        &out.actions[0],
        Action::Broadcast(BrokerMessage::Ebt(EbtEvent::ReceivedClock(7, 4, peer, clock)))
            if peer == "@peer" && clock == &vec![("@a".to_string(), 5)]
    ));

    let id = OwnedIdentity::create();
    let msg = Message::sign(None, &id, serde_json::Value::String("hi".to_string())).unwrap();
    let op = RpcInput::Network(
        4,
        RecvMsg::OtherRequest(BodyType::JSON, msg.to_string().into_bytes()),
    );
    let out = handle(&mut h, op, None);
    assert!(matches!(
        &out.actions[..],
        [Action::Broadcast(BrokerMessage::Ebt(EbtEvent::ReceivedMessage(m)))]
            if *m.json() == msg.to_string()
    ));

    let op = RpcInput::Network(4, RecvMsg::OtherRequest(BodyType::JSON, b"{\"x\":true}".to_vec()));
    let out = handle(&mut h, op, None);
    assert!(out.actions.is_empty());
    assert!(matches!(out.result, Err(SolarError::KuskaFeed(_))));
    // What is no object is in no shape to be a message in an envelope.
    let op = RpcInput::Network(4, RecvMsg::OtherRequest(BodyType::JSON, b"true".to_vec()));
    let out = handle(&mut h, op, None);
    assert!(out.actions.is_empty());
    assert!(matches!(out.result, Err(SolarError::MalformedMessage)));

    // A frame of another request is not for the session.
    let op = RpcInput::Network(5, RecvMsg::OtherRequest(BodyType::JSON, b"true".to_vec()));
    let out = handle(&mut h, op, None);
    assert!(out.actions.is_empty());
    assert!(matches!(out.result, Ok(false)));
}

#[test]
fn responses_on_the_session() {
    let mut h = EbtReplicateHandler::new();
    // A clock, on the negated request number.
    let op = RpcInput::Network(-4, RecvMsg::RpcResponse(BodyType::JSON, b"{\"@a\":5}".to_vec()));
    let out = handle(&mut h, op, Some(4));
    assert_eq!(h.active_request(), 4);
    assert!(matches!(
        &out.actions[0],
        Action::Broadcast(BrokerMessage::Ebt(EbtEvent::ReceivedClock(7, -4, _, clock)))
            if clock.len() == 1
    ));

    // A signed message.
    let id = OwnedIdentity::create();
    let msg = Message::sign(None, &id, serde_json::Value::String("hi".to_string())).unwrap();
    let op = RpcInput::Network(
        4,
        RecvMsg::RpcResponse(BodyType::JSON, msg.to_string().into_bytes()),
    );
    let out = handle(&mut h, op, None);
    assert!(matches!(out.result, Ok(false)));
    assert_eq!(out.actions.len(), 1);
    assert!(matches!(
        &out.actions[0],
        Action::Broadcast(BrokerMessage::Ebt(EbtEvent::ReceivedMessage(m)))
            if *m.json() == msg.to_string() && m.sequence() == 1 && *m.author() == id.id
                && *m.id() == msg.id().to_string()
    ));

    // The same message in an envelope.
    let envelope = Feed::new(msg.clone()).to_string();
    let op = RpcInput::Network(4, RecvMsg::RpcResponse(BodyType::JSON, envelope.into_bytes()));
    let out = handle(&mut h, op, None);
    assert!(matches!(
        &out.actions[0],
        Action::Broadcast(BrokerMessage::Ebt(EbtEvent::ReceivedMessage(m)))
            if *m.json() == msg.to_string()
    ));

    // Neither a clock nor a message.
    let op = RpcInput::Network(4, RecvMsg::RpcResponse(BodyType::JSON, b"{\"hello\":\"x\"}".to_vec()));
    let out = handle(&mut h, op, None);
    assert!(out.actions.is_empty());
    assert!(matches!(out.result, Err(SolarError::KuskaFeed(_))));
    assert!(!out.result.unwrap_err().describe().is_empty());

    // A text that nests too deep to be a message.
    let deep = format!("{}1{}", "[".repeat(22), "]".repeat(22));
    let op = RpcInput::Network(4, RecvMsg::RpcResponse(BodyType::JSON, deep.into_bytes()));
    let out = handle(&mut h, op, None);
    assert!(out.actions.is_empty());
    assert!(matches!(out.result, Err(SolarError::MalformedMessage)));

    // A frame of another request.
    let op = RpcInput::Network(5, RecvMsg::RpcResponse(BodyType::JSON, b"{\"@a\":5}".to_vec()));
    let out = handle(&mut h, op, None);
    assert!(out.actions.is_empty());
    assert!(matches!(out.result, Ok(false)));
}

#[test]
fn tampered_message_is_refused() {
    let id = OwnedIdentity::create();
    let msg = Message::sign(None, &id, serde_json::Value::String("hi".to_string())).unwrap();
    let text = msg.to_string().replace("\"hi\"", "\"ho\"");
    assert!(matches!(
        MessageValue::from_slice(text.as_bytes()),
        Err(SolarError::KuskaFeed(_))
    ));
    let out = received_message(MessageValue::from_slice(text.as_bytes()));
    assert!(out.actions.is_empty());
    assert!(matches!(out.result, Err(SolarError::KuskaFeed(_))));
}

#[test]
fn cancel_and_error_frames() {
    let mut h = EbtReplicateHandler::new();
    let out = handle(&mut h, RpcInput::Network(4, RecvMsg::CancelStreamResponse), None);
    assert!(matches!(out.result, Ok(true)));
    assert!(matches!(out.actions[..], [Action::SendStreamEof(-4)]));

    let op = RpcInput::Network(4, RecvMsg::ErrorResponse("boom".to_string()));
    let out = handle(&mut h, op, None);
    assert!(out.actions.is_empty());
    assert!(matches!(&out.result, Err(SolarError::EbtReplicate((4, text))) if text == "boom"));
}

#[test]
fn terminate_session_ends_the_stream() {
    let mut h = EbtReplicateHandler::new();
    let event = |conn, role| RpcInput::Message(BrokerMessage::Ebt(EbtEvent::TerminateSession(conn, role)));
    let out = handle(&mut h, event(7, SessionRole::Requester), Some(4));
    assert!(matches!(out.result, Ok(true)));
    assert!(matches!(out.actions[..], [Action::SendStreamEof(-4)]));
    let out = handle(&mut h, event(7, SessionRole::Responder), Some(4));
    assert!(matches!(out.result, Ok(true)));
    assert!(matches!(out.actions[..], [Action::SendStreamEof(4)]));
    // Another connection's session.
    let out = handle(&mut h, event(8, SessionRole::Responder), Some(4));
    assert!(matches!(out.result, Ok(false)));
    assert!(out.actions.is_empty());
}

#[test]
fn send_clock_and_message_events() {
    let mut h = EbtReplicateHandler::new();
    let clock = vec![("@a".to_string(), 5), ("@b".to_string(), 6)];
    let event = |conn, role| {
        RpcInput::Message(BrokerMessage::Ebt(EbtEvent::SendClock(conn, 4, clock.clone(), role)))
    };
    let out = handle(&mut h, event(7, SessionRole::Requester), Some(4));
    assert!(matches!(out.result, Ok(false)));
    assert_eq!(out.actions.len(), 1);
    match &out.actions[0] {
        Action::SendResponse(req_no, RpcType::Duplex, BodyType::JSON, body) => {
            assert_eq!(*req_no, -4);
            assert_eq!(as_map(&parse_clock(body).unwrap()), as_map(&clock));
        }
        other => panic!("unexpected action {:?}", other),
    }
    let out = handle(&mut h, event(7, SessionRole::Responder), Some(4));
    assert!(matches!(&out.actions[0], Action::SendResponse(4, RpcType::Duplex, BodyType::JSON, _)));
    let out = handle(&mut h, event(8, SessionRole::Responder), Some(4));
    assert!(out.actions.is_empty());
    assert!(matches!(out.result, Ok(false)));

    let send = |conn, role| {
        RpcInput::Message(BrokerMessage::Ebt(EbtEvent::SendMessage(
            conn,
            4,
            "@a".to_string(),
            "{\"x\":1}".to_string(),
            role,
        )))
    };
    let out = handle(&mut h, send(7, SessionRole::Requester), Some(4));
    assert!(matches!(out.result, Ok(false)));
    assert!(matches!(
        &out.actions[..],
        [Action::SendResponse(-4, RpcType::Duplex, BodyType::JSON, body)] if body == b"{\"x\":1}"
    ));
    let out = handle(&mut h, send(7, SessionRole::Responder), Some(4));
    assert!(matches!(&out.actions[..], [Action::SendResponse(4, _, _, _)]));
    let out = handle(&mut h, send(9, SessionRole::Responder), Some(4));
    assert!(out.actions.is_empty());
}

#[test]
fn clock_response_for_each_outcome_of_writing() {
    let out = clock_response(-4, Ok(b"{}".to_vec()));
    assert!(matches!(out.result, Ok(false)));
    assert!(matches!(
        &out.actions[..],
        [Action::SendResponse(-4, RpcType::Duplex, BodyType::JSON, body)] if body == b"{}"
    ));
    let failure = serde_json::from_slice::<u8>(b"x").unwrap_err();
    let out = clock_response(-4, Err(failure));
    assert!(out.actions.is_empty());
    assert!(matches!(out.result, Err(SolarError::SerdeJson(_))));
    assert!(out.result.unwrap_err().describe().contains("line 1"));
}

#[test]
fn message_without_unsigned_sequence_is_refused() {
    let id = OwnedIdentity::create();
    let mut value = serde_json::Map::new();
    value.insert("previous".to_string(), serde_json::Value::Null);
    value.insert(
        "sequence".to_string(),
        serde_json::Value::Number(serde_json::Number::from_f64(1.5).unwrap()),
    );
    value.insert("author".to_string(), serde_json::Value::String(id.id.clone()));
    value.insert("timestamp".to_string(), serde_json::Value::Number(serde_json::Number::from(1u64)));
    value.insert("hash".to_string(), serde_json::Value::String("sha256".to_string()));
    value.insert("content".to_string(), serde_json::Value::String("x".to_string()));
    let text = kuska_ssb::feed::stringify_json(&serde_json::Value::Object(value.clone())).unwrap();
    let signature = kuska_ssb::crypto::ed25519::sign_detached(text.as_bytes(), &id.sk);
    value.insert(
        "signature".to_string(),
        serde_json::Value::String(format!("{}.sig.ed25519", base64::encode(&signature))),
    );
    let signed = serde_json::to_string(&serde_json::Value::Object(value)).unwrap();
    // The signature holds, so the feed primitive takes the message.
    assert!(Message::from_slice(signed.as_bytes()).is_ok());
    let res = MessageValue::from_slice(signed.as_bytes());
    assert!(matches!(res, Err(SolarError::InvalidSequence)));
    assert_eq!(res.unwrap_err().describe(), "invalid sequence number");
}

#[test]
fn one_session_for_each_connection() {
    let mut h = EbtReplicateHandler::new();
    let out = handle(&mut h, RpcInput::Network(3, replicate_request(3, "classic")), None);
    assert!(matches!(out.result, Ok(false)));
    assert_eq!(h.active_request(), 3);

    // A further request in order is turned away; the session stays.
    for req_no in [5, 3] {
        let out = handle(&mut h, RpcInput::Network(req_no, replicate_request(3, "classic")), None);
        assert!(matches!(out.result, Ok(false)));
        assert_eq!(out.actions.len(), 1);
        assert!(matches!(
            &out.actions[0],
            Action::SendError(r, RpcType::Duplex, text)
                if *r == req_no && text == "ebt session already active"
        ));
        assert_eq!(h.active_request(), 3);
    }

    // So it is for the requester, whose own request opened the session.
    let mut h = EbtReplicateHandler::new();
    let out = handle(&mut h, RpcInput::Network(9, replicate_request(3, "classic")), Some(1));
    assert!(matches!(&out.actions[..], [Action::SendError(9, _, _)]));
    assert!(matches!(out.result, Ok(false)));
    assert_eq!(h.active_request(), 1);
}

#[test]
fn request_without_a_positive_number_is_none() {
    let mut h = EbtReplicateHandler::new();
    for req_no in [0, -4] {
        let out = handle(&mut h, RpcInput::Network(req_no, replicate_request(3, "classic")), None);
        assert!(out.actions.is_empty());
        assert!(matches!(out.result, Ok(false)));
        assert_eq!(h.active_request(), 0);
    }
    // Options that are not in order are refused whatever the number.
    let out = handle(&mut h, RpcInput::Network(0, replicate_request(2, "classic")), None);
    assert!(matches!(
        &out.actions[..],
        [Action::SendError(0, RpcType::Duplex, text)] if text == "ebt version != 3"
    ));
    assert!(matches!(
        &out.result,
        Err(SolarError::EbtReplicate((0, text))) if text == "ebt version != 3"
    ));
    assert_eq!(h.active_request(), 0);
}
