//! Epidemic broadcast tree (EBT) replication: events and session roles.

pub mod replicator;

use vstd::prelude::*;
use crate::feed::MessageValue;
use crate::json::{
    distinct_keys, encode_int_object, json_int_object, lemma_pairs_map_value,
    pairs_map, pairs_of_i32, pairs_of_i64, parse_int_object, values_within,
};

verus! {

/// Identifier of one peer connection, unique within the process.
pub type ConnectionId = usize;

/// MUXRPC request number. Positive for a request, negated for its responses.
pub type ReqNo = i32;

/// Canonical string form of a peer's public key.
pub type SsbId = String;

/// A vector clock: for each feed identity the encoded clock value.
/// No identity occurs twice in a clock that was decoded from the wire.
pub type VectorClock = Vec<(String, i32)>;

/// Which side opened the EBT session.
#[derive(Clone, Copy, Debug, PartialEq, Eq, Structural)]
pub enum SessionRole {
    Requester,
    Responder,
}

/// Events exchanged between EBT sessions and the replication manager.
#[derive(Clone, Debug)]
pub enum EbtEvent {
    SessionInitiated(ConnectionId, ReqNo, SsbId, SessionRole),
    SendClock(ConnectionId, ReqNo, VectorClock, SessionRole),
    /// Connection, request number, feed identity, message as JSON text, role.
    SendMessage(ConnectionId, ReqNo, SsbId, String, SessionRole),
    ReceivedClock(ConnectionId, ReqNo, SsbId, VectorClock),
    ReceivedMessage(MessageValue),
    SessionConcluded(ConnectionId, SsbId),
    SessionTimeout(ConnectionId, SsbId),
    Error(ConnectionId, SsbId, String),
    TerminateSession(ConnectionId, SessionRole),
}

/// The vector clock that a JSON text denotes: an object of integers that
/// all fit in 32 signed bits. `None` for every other text.
pub open spec fn json_clock(text: Seq<u8>) -> Option<Map<Seq<char>, int>> {
    match json_int_object(text) {
        Some(m) => if values_within(m, i32::MIN as int, i32::MAX as int) {
            Some(m)
        } else {
            None
        },
        None => None,
    }
}

/// The mapping of a vector clock.
pub open spec fn clock_map(clock: Seq<(String, i32)>) -> Map<Seq<char>, int> {
    pairs_map(pairs_of_i32(clock))
}

/// No identity occurs twice in the clock.
pub open spec fn clock_wf(clock: Seq<(String, i32)>) -> bool {
    distinct_keys(pairs_of_i32(clock))
}

/// Every value of a clock's mapping fits in 32 signed bits.
pub proof fn lemma_clock_map_within(clock: Seq<(String, i32)>)
    ensures
        values_within(clock_map(clock), i32::MIN as int, i32::MAX as int),
    decreases clock.len(),
{
    let s = pairs_of_i32(clock);
    if clock.len() > 0 {
        lemma_clock_map_within(clock.drop_last());
        assert(pairs_of_i32(clock.drop_last()) =~= s.drop_last());
    }
}

/// Reads a vector clock from JSON text.
///
/// Succeeds exactly on the texts that denote a clock; the clock that comes
/// back holds each identity once and has the denoted mapping.
pub fn parse_clock(data: &[u8]) -> (res: Option<VectorClock>)
    ensures
        res is Some <==> json_clock(data@) is Some,
        res matches Some(c) ==> clock_wf(c@) && clock_map(c@) == json_clock(data@).unwrap(),
{
    match parse_int_object(data) {
        Err(_) => None,
        Ok(members) => {
            let ghost pairs = pairs_of_i64(members@);
            let mut clock: VectorClock = Vec::new();
            let mut i: usize = 0;
            while i < members.len()
                invariant
                    0 <= i <= members.len(),
                    pairs == pairs_of_i64(members@),
                    distinct_keys(pairs),
                    json_int_object(data@) == Some(pairs_map(pairs)),
                    clock@.len() == i,
                    forall|j: int|
                        0 <= j < i ==> (#[trigger] clock@[j]).0@ == members@[j].0@ && clock@[j].1
                            == members@[j].1,
                decreases members.len() - i,
            {
                let value: i64 = members[i].1;
                if value < -2147483648 || value > 2147483647 {
                    proof {
                        lemma_pairs_map_value(pairs, i as int);
                        assert(pairs_map(pairs)[pairs[i as int].0] == value);
                    }
                    return None;
                }
                clock.push((members[i].0.clone(), value as i32));
                i += 1;
            }
            proof {
                assert(pairs_of_i32(clock@) =~= pairs);
                lemma_clock_map_within(clock@);
            }
            Some(clock)
        },
    }
}

/// Writes a vector clock as JSON text.
///
/// The text that comes back denotes the clock's own mapping, so reading it
/// with `parse_clock` gives a clock with that mapping again.
pub fn encode_clock(clock: &VectorClock) -> (res: Result<Vec<u8>, serde_json::Error>)
    ensures
        res is Ok,
        res matches Ok(text) ==> json_clock(text@) == Some(clock_map(clock@)),
{
    let mut members: Vec<(String, i64)> = Vec::new();
    let mut i: usize = 0;
    while i < clock.len()
        invariant
            0 <= i <= clock.len(),
            members@.len() == i,
            forall|j: int|
                0 <= j < i ==> (#[trigger] members@[j]).0@ == clock@[j].0@ && members@[j].1
                    == clock@[j].1,
        decreases clock.len() - i,
    {
        members.push((clock[i].0.clone(), clock[i].1 as i64));
        i += 1;
    }
    proof {
        assert(pairs_of_i64(members@) =~= pairs_of_i32(clock@));
        lemma_clock_map_within(clock@);
    }
    encode_int_object(&members)
}

} // verus!
