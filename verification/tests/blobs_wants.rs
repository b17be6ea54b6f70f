use std::collections::HashMap;

use solar::actors::muxrpc::blobs_wants::{
    json_chunk, BlobsWantsHandler, RpcBlobsWantsEvent, Wants,
};
use solar::actors::muxrpc::handler::{
    Action, BodyType, Handled, RecvMsg, RpcBody, RpcHandler, RpcInput, RpcType,
};
use solar::broker::BrokerMessage;
use solar::error::SolarError;
use solar::storage::blob::{blob_hash_id, StoreBlobEvent};

fn create_wants() -> RecvMsg {
    RecvMsg::RpcRequest(RpcBody {
        name: vec!["blobs".to_string(), "createWants".to_string()],
        rpc_type: RpcType::Source,
        ebt_args: Err("no list".to_string()),
    })
}

fn json(text: &str) -> RecvMsg {
    RecvMsg::RpcResponse(BodyType::JSON, text.as_bytes().to_vec())
}

/// A handler whose own stream has request number 1 and whose peer's has 2.
fn connected() -> BlobsWantsHandler {
    let mut h = BlobsWantsHandler::default();
    let out = h.handle(&RpcInput::Timer);
    assert!(matches!(out.actions[..], [Action::OpenWants]));
    assert!(matches!(out.result, Ok(false)));
    h.wants_opened(1);
    let out = h.handle(&RpcInput::Network(2, create_wants()));
    assert!(out.actions.is_empty());
    assert!(matches!(out.result, Ok(true)));
    h
}

fn body_of(out: &Handled, at: usize, req_no: i32) -> HashMap<String, i64> {
    match &out.actions[at] {
        Action::SendResponse(r, RpcType::Source, BodyType::JSON, body) => {
            assert_eq!(*r, req_no);
            serde_json::from_slice(body).unwrap()
        }
        other => panic!("unexpected action {:?}", other),
    }
}

#[test]
fn opens_its_stream_once() {
    let mut h = BlobsWantsHandler::default();
    assert_eq!(h.name(), "BlobsWantsHandler");
    let out = h.handle(&RpcInput::Timer);
    assert!(matches!(out.actions[..], [Action::OpenWants]));
    h.wants_opened(1);
    let out = h.handle(&RpcInput::Timer);
    assert!(out.actions.is_empty());
    assert!(matches!(out.result, Ok(false)));
}

#[test]
fn first_create_wants_of_the_peer_counts() {
    let mut h = connected();
    // A second request does not replace the first.
    let out = h.handle(&RpcInput::Network(9, create_wants()));
    assert!(matches!(out.result, Ok(true)));
    let out = h.handle(&RpcInput::Network(9, RecvMsg::ErrorResponse("x".to_string())));
    assert!(matches!(out.result, Ok(false)));
    let out = h.handle(&RpcInput::Network(2, RecvMsg::ErrorResponse("x".to_string())));
    assert!(matches!(out.result, Ok(true)));
    let out = h.handle(&RpcInput::Network(1, RecvMsg::ErrorResponse("x".to_string())));
    assert!(matches!(out.result, Ok(true)));
}

#[test]
fn wants_forwarding() {
    // Connection A receives {b1: 0} from peer1 and does not hold b1.
    let mut a = connected();
    let out = a.handle(&RpcInput::Network(1, json("{\"b1\":0}")));
    assert!(matches!(out.result, Ok(true)));
    let asked = match &out.actions[..] {
        [Action::QuerySizes(wants)] => wants.clone(),
        other => panic!("unexpected actions {:?}", other),
    };
    assert_eq!(asked, vec![("b1".to_string(), 0)]);

    let out = a.sizes_found(&vec![("b1".to_string(), 0, None)]);
    assert!(matches!(out.result, Ok(true)));
    assert_eq!(out.actions.len(), 2);
    assert!(body_of(&out, 0, 2).is_empty());
    let event = match &out.actions[1] {
        Action::Broadcast(BrokerMessage::RpcBlobsWants(RpcBlobsWantsEvent(ids))) => ids.clone(),
        other => panic!("unexpected action {:?}", other),
    };
    assert_eq!(event, vec![("b1".to_string(), 1)]);
    assert_eq!(a.wants(&"b1".to_string()), Some(Wants::Pending));

    // Connection B observes the broadcast and writes {b1: 1} on its own stream.
    let mut b = connected();
    let out = b.handle(&RpcInput::Message(BrokerMessage::RpcBlobsWants(RpcBlobsWantsEvent(event))));
    assert!(matches!(out.result, Ok(true)));
    assert_eq!(out.actions.len(), 1);
    let wants = body_of(&out, 0, 1);
    assert_eq!(wants.len(), 1);
    assert_eq!(wants["b1"], 1);

    // A does not hand its own unsatisfied want on to its peer again.
    let again = RpcBlobsWantsEvent(vec![("b1".to_string(), 1), ("b2".to_string(), 4)]);
    let out = a.handle(&RpcInput::Message(BrokerMessage::RpcBlobsWants(again)));
    let wants = body_of(&out, 0, 1);
    assert_eq!(wants.len(), 1);
    assert_eq!(wants["b2"], 4);
}

#[test]
fn wants_that_the_store_holds_are_answered_with_their_size() {
    let mut h = connected();
    let answers = vec![
        ("b1".to_string(), 0, Some(5u64)),
        ("b2".to_string(), 3, None),
        ("b3".to_string(), i64::MAX, None),
        ("b4".to_string(), -1, Some(u64::MAX)),
    ];
    let out = h.sizes_found(&answers);
    assert!(matches!(out.result, Ok(true)));
    let haves: HashMap<String, u64> = match &out.actions[0] {
        Action::SendResponse(2, RpcType::Source, BodyType::JSON, body) => {
            serde_json::from_slice(body).unwrap()
        }
        other => panic!("unexpected action {:?}", other),
    };
    assert_eq!(haves.len(), 2);
    assert_eq!(haves["b1"], 5);
    assert_eq!(haves["b4"], u64::MAX);
    assert!(matches!(
        &out.actions[1],
        Action::Broadcast(BrokerMessage::RpcBlobsWants(RpcBlobsWantsEvent(ids)))
            if ids == &vec![("b2".to_string(), 4), ("b3".to_string(), i64::MIN)]
    ));
    assert_eq!(h.wants(&"b1".to_string()), None);
    assert_eq!(h.wants(&"b2".to_string()), Some(Wants::Pending));
    assert_eq!(h.wants(&"b3".to_string()), Some(Wants::Pending));
}

#[test]
fn have_triggered_by_store() {
    let mut h = connected();
    h.sizes_found(&vec![("b1".to_string(), 0, None)]);
    let added = |id: &str| RpcInput::Message(BrokerMessage::StoreBlob(StoreBlobEvent(id.to_string())));
    let out = h.handle(&added("b1"));
    assert!(matches!(out.result, Ok(true)));
    assert_eq!(out.actions.len(), 1);
    let haves = body_of(&out, 0, 2);
    assert_eq!(haves.len(), 1);
    assert_eq!(haves["b1"], 1);
    // A blob that the peer did not ask for is not announced.
    let out = h.handle(&added("b9"));
    assert!(matches!(out.result, Ok(true)));
    assert!(out.actions.is_empty());
}

#[test]
fn haves_are_fetched_and_stored() {
    let data = b"hello".to_vec();
    let id = blob_hash_id(&data);
    let mut h = connected();
    h.sizes_found(&vec![(id.clone(), 0, None), ("other".to_string(), 0, None)]);

    // The peer has the first blob and one that nobody asked for.
    let haves = format!("{{\"{}\": 5, \"stranger\": 1}}", id);
    let out = h.handle(&RpcInput::Network(2, json(&haves)));
    assert!(matches!(out.result, Ok(true)));
    assert!(matches!(&out.actions[..], [Action::RequestBlob(key)] if *key == id));
    assert_eq!(h.wants(&id), Some(Wants::Pending));
    h.blob_requested(&id, 11);
    assert_eq!(h.wants(&id), Some(Wants::Requested(11)));
    h.blob_requested(&"stranger".to_string(), 12);
    assert_eq!(h.wants(&"stranger".to_string()), None);

    // A blob that is already on its way is not asked for again.
    let out = h.handle(&RpcInput::Network(2, json(&haves)));
    assert!(out.actions.is_empty());

    // The bytes arrive on the request number of the fetch.
    let out = h.handle(&RpcInput::Network(11, RecvMsg::RpcResponse(BodyType::Binary, data.clone())));
    assert!(matches!(out.result, Ok(true)));
    assert!(matches!(
        &out.actions[..],
        [Action::StoreBlob(11, bytes, true)] if *bytes == data
    ));
    assert_eq!(h.wants(&id), Some(Wants::Requested(11)));
    h.blob_stored(11);
    assert_eq!(h.wants(&id), Some(Wants::Available));
    assert_eq!(h.wants(&"other".to_string()), Some(Wants::Pending));

    // Nothing waits on that request number any more.
    let out = h.handle(&RpcInput::Network(11, RecvMsg::RpcResponse(BodyType::Binary, data)));
    assert!(out.actions.is_empty());
    assert!(matches!(out.result, Ok(false)));
    h.blob_stored(11);
    assert_eq!(h.wants(&id), Some(Wants::Available));
}

#[test]
fn bytes_with_another_hash_are_stored_and_marked() {
    let mut h = connected();
    h.sizes_found(&vec![("&wanted.sha256".to_string(), 0, None)]);
    h.blob_requested(&"&wanted.sha256".to_string(), 11);
    let out = h.handle(&RpcInput::Network(
        11,
        RecvMsg::RpcResponse(BodyType::Binary, b"something else".to_vec()),
    ));
    assert!(matches!(out.actions[..], [Action::StoreBlob(11, _, false)]));
}

#[test]
fn unreadable_announcements_are_errors() {
    let mut h = connected();
    let out = h.handle(&RpcInput::Network(1, json("[1, 2]")));
    assert!(out.actions.is_empty());
    assert!(matches!(out.result, Err(SolarError::SerdeJson(_))));
    let out = h.handle(&RpcInput::Network(2, json("{\"b1\": \"x\"}")));
    assert!(out.actions.is_empty());
    assert!(matches!(out.result, Err(SolarError::SerdeJson(_))));
}

#[test]
fn streams_that_are_not_open_yet_are_missed() {
    // No stream of our own to forward wants on.
    let mut h = BlobsWantsHandler::default();
    let event = RpcBlobsWantsEvent(vec![("b1".to_string(), 1)]);
    let out = h.handle(&RpcInput::Message(BrokerMessage::RpcBlobsWants(event)));
    assert!(out.actions.is_empty());
    assert!(matches!(out.result, Err(SolarError::OptionIsNone)));
    assert_eq!(
        SolarError::OptionIsNone.describe(),
        "a required value is missing"
    );

    // No stream of the peer to answer wants on.
    h.wants_opened(1);
    let out = h.handle(&RpcInput::Network(1, json("{\"b1\":0}")));
    assert!(out.actions.is_empty());
    assert!(matches!(out.result, Err(SolarError::OptionIsNone)));
    let out = h.sizes_found(&vec![("b1".to_string(), 0, None)]);
    assert!(matches!(out.result, Err(SolarError::OptionIsNone)));
    assert_eq!(h.wants(&"b1".to_string()), None);
}

#[test]
fn json_chunk_for_each_outcome_of_writing() {
    let out = json_chunk(2, Ok(b"{}".to_vec()));
    assert!(matches!(out.result, Ok(true)));
    assert!(matches!(
        &out.actions[..],
        [Action::SendResponse(2, RpcType::Source, BodyType::JSON, body)] if body == b"{}"
    ));
    let failure = serde_json::from_slice::<u8>(b"x").unwrap_err();
    let out = json_chunk(2, Err(failure));
    assert!(out.actions.is_empty());
    assert!(matches!(out.result, Err(SolarError::SerdeJson(_))));
}

#[test]
fn announcements_that_were_read() {
    let mut h = connected();
    h.sizes_found(&vec![("b1".to_string(), 0, None), ("b2".to_string(), 0, None)]);
    h.blob_requested(&"b2".to_string(), 11);

    let out = h.haves_parsed(&vec![
        ("b2".to_string(), 1),
        ("b9".to_string(), 1),
        ("b1".to_string(), 1),
    ]);
    assert!(matches!(out.result, Ok(true)));
    assert!(matches!(&out.actions[..], [Action::RequestBlob(id)] if id == "b1"));

    let out = h.wants_parsed(Ok(vec![("b3".to_string(), 2)]));
    assert!(matches!(out.result, Ok(true)));
    assert!(matches!(
        &out.actions[..],
        [Action::QuerySizes(wants)] if wants == &vec![("b3".to_string(), 2)]
    ));
    let failure = serde_json::from_slice::<u8>(b"x").unwrap_err();
    let out = h.wants_parsed(Err(failure));
    assert!(out.actions.is_empty());
    assert!(matches!(out.result, Err(SolarError::SerdeJson(_))));
}
