//! The blob want/have/get handler of one connection.
//!
//! Each side opens a `blobs.createWants` stream. On ours the peer tells us
//! what it wants; on the peer's it tells us what it has. What the peer wants
//! and we lack is remembered in the wants table and handed on to the other
//! connections; what the peer has and we want is fetched with `blobs.get`.
//!
//! ```text
//! peer1        actor_peer1          storage        actor_peer2        peer2
//!   | createWants  |                   |                |               |
//!   |------------->|                   |                |               |
//!   | wants        |                   |                |               |
//!   |------------->| wants broadcast   |                |               |
//!   |              |----------------------------------->| wants         |
//!   |              |                   |                |-------------->|
//!   |              |                   |                |         haves |
//!   |              |                   |                |<--------------|
//!   |              |                   |                | blobs.get     |
//!   |              |                   |                |-------------->|
//!   |              |                   |                |         bytes |
//!   |              |                   |     store blob |<--------------|
//!   |              |                   |<---------------|               |
//!   |              |        blob added |                |               |
//!   |        haves |<------------------|                |               |
//!   |<-------------|                   |                |               |
//! ```

use vstd::prelude::*;
use crate::actors::muxrpc::handler::{
    name_view, selected_method, Action, ApiMethod, BodyType, Handled, RecvMsg, RpcHandler, RpcInput, RpcType,
};
use crate::broker::BrokerMessage;
use crate::error::SolarError;
use crate::json::{
    distinct_keys, encode_int_object, encode_size_object, json_int_object, pairs_map,
    pairs_of_i64, pairs_of_u64, parse_int_object, values_within,
};
use crate::storage::blob::{blob_hash_id, blob_id_of, StoreBlobEvent};

verus! {

/// Blobs that a peer wants and this node lacks, each with its hop distance.
#[derive(Debug, Clone)]
pub struct RpcBlobsWantsEvent(pub Vec<(String, i64)>);

/// Where the fetch of a wanted blob stands.
#[derive(Clone, Copy, Debug, PartialEq, Eq, Structural)]
pub enum Wants {
    /// The peer wants it and the local store lacks it.
    Pending,
    /// A `blobs.get` with this request number is under way.
    Requested(i32),
    /// It was fetched and handed to the local store.
    Available,
}

/// The want/have/get handler of one connection.
pub struct BlobsWantsHandler {
    initialized: bool,
    peer_wants_req_no: Option<i32>,
    my_wants_req_no: Option<i32>,
    /// The wants table. No identifier occurs twice.
    peer_wants: Vec<(String, Wants)>,
}

/// The handler as contracts see it.
pub struct WantsView {
    /// The local `blobs.createWants` stream was opened.
    pub initialized: bool,
    /// Request number of the peer's `blobs.createWants` stream.
    pub peer_wants_req_no: Option<i32>,
    /// Request number of the local `blobs.createWants` stream.
    pub my_wants_req_no: Option<i32>,
    /// The wants table, in the order in which identifiers entered it.
    pub table: Seq<(Seq<char>, Wants)>,
}

/// One answer of the local blob store: identifier, hop distance as the
/// peer gave it, and the size of the blob where the store holds it.
pub type SizeAnswer = (String, i64, Option<u64>);

/// A wants table as contracts see it.
pub open spec fn table_of(v: Seq<(String, Wants)>) -> Seq<(Seq<char>, Wants)> {
    Seq::new(v.len(), |i: int| (v[i].0@, v[i].1))
}

/// The answers of the blob store as contracts see them.
pub open spec fn answers_of(v: Seq<SizeAnswer>) -> Seq<(Seq<char>, i64, Option<u64>)> {
    Seq::new(v.len(), |i: int| (v[i].0@, v[i].1, v[i].2))
}

/// No identifier occurs twice in the table.
pub open spec fn table_wf(t: Seq<(Seq<char>, Wants)>) -> bool {
    forall|i: int, j: int| 0 <= i < j < t.len() ==> t[i].0 != t[j].0
}

/// The table has an entry for this identifier.
pub open spec fn table_has(t: Seq<(Seq<char>, Wants)>, id: Seq<char>) -> bool {
    exists|i: int| 0 <= i < t.len() && #[trigger] t[i].0 == id
}

/// The place of an identifier in the table.
pub open spec fn table_index(t: Seq<(Seq<char>, Wants)>, id: Seq<char>) -> int {
    choose|i: int| 0 <= i < t.len() && #[trigger] t[i].0 == id
}

/// The state of an identifier's entry, if it has one.
pub open spec fn table_get(t: Seq<(Seq<char>, Wants)>, id: Seq<char>) -> Option<Wants> {
    if table_has(t, id) {
        Some(t[table_index(t, id)].1)
    } else {
        None
    }
}

/// The table with this identifier's entry set: in place where it has one,
/// at the end where it has none.
pub open spec fn table_put(t: Seq<(Seq<char>, Wants)>, id: Seq<char>, w: Wants) -> Seq<
    (Seq<char>, Wants),
> {
    if table_has(t, id) {
        t.update(table_index(t, id), (id, w))
    } else {
        t.push((id, w))
    }
}

/// Some entry waits for the bytes of this request.
pub open spec fn has_requested(t: Seq<(Seq<char>, Wants)>, req_no: i32) -> bool {
    exists|i: int| 0 <= i < t.len() && (#[trigger] t[i]).1 == Wants::Requested(req_no)
}

/// The place of the first entry that waits for the bytes of this request.
pub open spec fn first_requested(t: Seq<(Seq<char>, Wants)>, req_no: i32) -> int {
    choose|i: int|
        0 <= i < t.len() && (#[trigger] t[i]).1 == Wants::Requested(req_no) && forall|j: int|
            0 <= j < i ==> (#[trigger] t[j]).1 != Wants::Requested(req_no)
}

/// The hop distance with which an unsatisfied want is handed on: one more
/// than it came with, wrapping at the top of the type.
pub open spec fn next_distance(d: i64) -> i64 {
    if d == i64::MAX {
        i64::MIN
    } else {
        (d + 1) as i64
    }
}

/// The haves among the answers: each blob that the store holds, with its
/// size.
pub open spec fn haves_of(a: Seq<(Seq<char>, i64, Option<u64>)>) -> Seq<(Seq<char>, int)>
    decreases a.len(),
{
    if a.len() == 0 {
        Seq::empty()
    } else {
        match a.last().2 {
            Some(size) => haves_of(a.drop_last()).push((a.last().0, size as int)),
            None => haves_of(a.drop_last()),
        }
    }
}

/// The unsatisfied wants among the answers: each blob that the store
/// lacks, one hop further away.
pub open spec fn unsatisfied_of(a: Seq<(Seq<char>, i64, Option<u64>)>) -> Seq<(Seq<char>, int)>
    decreases a.len(),
{
    if a.len() == 0 {
        Seq::empty()
    } else {
        match a.last().2 {
            Some(_) => unsatisfied_of(a.drop_last()),
            None => unsatisfied_of(a.drop_last()).push(
                (a.last().0, next_distance(a.last().1) as int),
            ),
        }
    }
}

/// The table after every blob that the store lacks was entered as pending.
pub open spec fn with_pending(t: Seq<(Seq<char>, Wants)>, a: Seq<(Seq<char>, i64, Option<u64>)>) -> Seq<
    (Seq<char>, Wants),
>
    decreases a.len(),
{
    if a.len() == 0 {
        t
    } else {
        match a.last().2 {
            Some(_) => with_pending(t, a.drop_last()),
            None => table_put(with_pending(t, a.drop_last()), a.last().0, Wants::Pending),
        }
    }
}

/// The wants of a broadcast that the table does not hold yet.
pub open spec fn unwanted(t: Seq<(Seq<char>, Wants)>, ids: Seq<(Seq<char>, int)>) -> Seq<
    (Seq<char>, int),
>
    decreases ids.len(),
{
    if ids.len() == 0 {
        Seq::empty()
    } else if table_has(t, ids.last().0) {
        unwanted(t, ids.drop_last())
    } else {
        unwanted(t, ids.drop_last()).push(ids.last())
    }
}

/// The input was not for this handler: nothing to do, not consumed.
pub open spec fn passes(out: Handled) -> bool {
    out.actions@.len() == 0 && out.ended(false)
}

/// Nothing was done, for want of a stream that is not open yet.
pub open spec fn fails_for_missing(out: Handled) -> bool {
    out.actions@.len() == 0 && out.result is Err && out.result->Err_0 is OptionIsNone
}

/// Nothing was done, because a JSON text could not be read or written.
pub open spec fn fails_for_json(out: Handled) -> bool {
    out.actions@.len() == 0 && out.result is Err && out.result->Err_0 is SerdeJson
}

/// A JSON chunk on a wants stream that denotes this mapping.
pub open spec fn is_json_chunk(a: Action, req_no: i32, m: Map<Seq<char>, int>) -> bool {
    a matches Action::SendResponse(r, t, b, d) && r == req_no && t == RpcType::Source && b
        == BodyType::JSON && json_int_object(d@) == Some(m)
}

/// One JSON chunk went out that denotes this mapping.
pub open spec fn chunk_sent(out: Handled, req_no: i32, m: Map<Seq<char>, int>) -> bool {
    out.actions@.len() == 1 && is_json_chunk(out.actions@[0], req_no, m) && out.ended(true)
}

/// The wants that a frame body denotes: an object of integers that fit in
/// 64 signed bits.
pub open spec fn json_wants(data: Seq<u8>) -> Option<Map<Seq<char>, int>> {
    match json_int_object(data) {
        Some(m) => if values_within(m, i64::MIN as int, i64::MAX as int) {
            Some(m)
        } else {
            None
        },
        None => None,
    }
}

/// What the handler makes of a wants announcement.
pub open spec fn wants_outcome(pre: WantsView, data: Seq<u8>, out: Handled) -> bool {
    if pre.peer_wants_req_no is None {
        fails_for_missing(out)
    } else {
        match json_wants(data) {
            Some(m) => out.actions@.len() == 1 && (out.actions@[0] matches Action::QuerySizes(w)
                && distinct_keys(pairs_of_i64(w@)) && pairs_map(pairs_of_i64(w@)) == m)
                && out.ended(true),
            None => fails_for_json(out),
        }
    }
}

/// What becomes of the wants that were read from an announcement: the
/// question for their sizes, or the error with which reading failed.
pub open spec fn wants_asked(
    parsed: Result<Vec<(String, i64)>, serde_json::Error>,
    out: Handled,
) -> bool {
    match parsed {
        Ok(wants) => out.asks_only(Action::QuerySizes(wants)) && out.ended(true),
        Err(e) => out.actions@.len() == 0 && out.failed_with(SolarError::SerdeJson(e)),
    }
}

/// The announced blobs to fetch: those whose entry is pending, in the
/// order of the announcement.
pub open spec fn fetches(t: Seq<(Seq<char>, Wants)>, haves: Seq<(Seq<char>, int)>) -> Seq<Seq<char>>
    decreases haves.len(),
{
    if haves.len() == 0 {
        Seq::empty()
    } else if table_get(t, haves.last().0) == Some(Wants::Pending) {
        fetches(t, haves.drop_last()).push(haves.last().0)
    } else {
        fetches(t, haves.drop_last())
    }
}

/// The blobs that a list of actions asks for.
pub open spec fn requested(actions: Seq<Action>) -> Seq<Seq<char>> {
    Seq::new(
        actions.len(),
        |i: int|
            match actions[i] {
                Action::RequestBlob(id) => id@,
                _ => Seq::empty(),
            },
    )
}

/// The action asks for this blob.
pub open spec fn requests(a: Action, id: Seq<char>) -> bool {
    a matches Action::RequestBlob(k) && k@ == id
}

/// What the handler makes of a haves announcement: one `blobs.get` for each
/// announced blob whose entry is pending, and for no other.
pub open spec fn haves_outcome(pre: WantsView, data: Seq<u8>, out: Handled) -> bool {
    match json_wants(data) {
        Some(m) => {
            &&& out.ended(true)
            &&& forall|i: int|
                0 <= i < out.actions@.len() ==> (#[trigger] out.actions@[i] matches Action::RequestBlob(
                    k,
                ) && m.dom().contains(k@) && table_get(pre.table, k@) == Some(Wants::Pending))
            &&& forall|i: int, j: int|
                0 <= i < j < out.actions@.len() ==> !requests(
                    out.actions@[j],
                    out.actions@[i]->RequestBlob_0@,
                )
            &&& forall|id: Seq<char>|
                m.dom().contains(id) && table_get(pre.table, id) == Some(Wants::Pending)
                    ==> exists|i: int|
                    0 <= i < out.actions@.len() && requests(#[trigger] out.actions@[i], id)
        },
        None => fails_for_json(out),
    }
}

/// What the handler makes of the bytes of a requested blob.
pub open spec fn blob_outcome(pre: WantsView, req_no: i32, data: Seq<u8>, out: Handled) -> bool {
    out.actions@.len() == 1 && (out.actions@[0] matches Action::StoreBlob(r, d, same) && r
        == req_no && d@ == data && same == (blob_id_of(data) == pre.table[first_requested(
        pre.table,
        req_no,
    )].0)) && out.ended(true)
}

/// The whole of `handle`.
pub open spec fn wants_handled(pre: WantsView, op: RpcInput, out: Handled, post: WantsView) -> bool {
    match op {
        RpcInput::Network(req_no, RecvMsg::RpcRequest(body)) => if selected_method(
            name_view(body.name@),
        ) == Some(ApiMethod::BlobsCreateWants) {
            &&& post == (WantsView {
                peer_wants_req_no: if pre.peer_wants_req_no is None {
                    Some(req_no)
                } else {
                    pre.peer_wants_req_no
                },
                ..pre
            })
            &&& out.actions@.len() == 0
            &&& out.ended(true)
        } else {
            post == pre && passes(out)
        },
        RpcInput::Network(req_no, RecvMsg::RpcResponse(_, data)) => post == pre && (
        if pre.my_wants_req_no == Some(req_no) {
            wants_outcome(pre, data@, out)
        } else if pre.peer_wants_req_no == Some(req_no) {
            haves_outcome(pre, data@, out)
        } else if has_requested(pre.table, req_no) {
            blob_outcome(pre, req_no, data@, out)
        } else {
            passes(out)
        }),
        RpcInput::Network(req_no, RecvMsg::ErrorResponse(_)) => post == pre && out.actions@.len()
            == 0 && out.ended(pre.my_wants_req_no == Some(req_no) || pre.peer_wants_req_no == Some(req_no)),
        RpcInput::Message(BrokerMessage::RpcBlobsWants(ev)) => post == pre && (
        match pre.my_wants_req_no {
            Some(mine) => chunk_sent(
                out,
                mine,
                pairs_map(unwanted(pre.table, pairs_of_i64(ev.0@))),
            ),
            None => fails_for_missing(out),
        }),
        RpcInput::Message(BrokerMessage::StoreBlob(ev)) => post == pre && stored_outcome(
            pre,
            ev.0@,
            out,
        ),
        RpcInput::Timer => post == pre && (if !pre.initialized {
            out.actions@ == seq![Action::OpenWants] && out.ended(false)
        } else {
            passes(out)
        }),
        _ => post == pre && passes(out),
    }
}

/// The whole of `sizes_found`.
pub open spec fn sizes_handled(
    pre: WantsView,
    answers: Seq<(Seq<char>, i64, Option<u64>)>,
    out: Handled,
    post: WantsView,
) -> bool {
    match pre.peer_wants_req_no {
        None => post == pre && fails_for_missing(out),
        Some(theirs) => {
            &&& post == (WantsView { table: with_pending(pre.table, answers), ..pre })
            &&& out.actions@.len() == 2
            &&& is_json_chunk(out.actions@[0], theirs, pairs_map(haves_of(answers)))
            &&& (out.actions@[1] matches Action::Broadcast(BrokerMessage::RpcBlobsWants(ev))
                && pairs_of_i64(ev.0@) == unsatisfied_of(answers))
            &&& out.ended(true)
        },
    }
}

/// Every blob that the table calls available is in the store.
pub open spec fn available_stored(t: Seq<(Seq<char>, Wants)>, stored: Set<Seq<char>>) -> bool {
    forall|i: int| 0 <= i < t.len() && (#[trigger] t[i]).1 == Wants::Available ==> stored.contains(
        t[i].0,
    )
}

/// Setting an entry to a state other than available keeps every available
/// blob in the store.
pub proof fn lemma_put_keeps_available(
    t: Seq<(Seq<char>, Wants)>,
    id: Seq<char>,
    w: Wants,
    stored: Set<Seq<char>>,
)
    requires
        available_stored(t, stored),
        w != Wants::Available,
    ensures
        available_stored(table_put(t, id, w), stored),
{
    let after = table_put(t, id, w);
    assert forall|i: int| 0 <= i < after.len() && (#[trigger] after[i]).1
        == Wants::Available implies stored.contains(after[i].0) by {
        if table_has(t, id) {
            if i != table_index(t, id) {
                assert(after[i] == t[i]);
            }
        } else {
            if i < t.len() {
                assert(after[i] == t[i]);
            }
        }
    }
}

/// Entering unsatisfied wants as pending keeps every available blob in the
/// store.
pub proof fn lemma_pending_keeps_available(
    t: Seq<(Seq<char>, Wants)>,
    a: Seq<(Seq<char>, i64, Option<u64>)>,
    stored: Set<Seq<char>>,
)
    requires
        available_stored(t, stored),
    ensures
        available_stored(with_pending(t, a), stored),
    decreases a.len(),
{
    if a.len() > 0 {
        lemma_pending_keeps_available(t, a.drop_last(), stored);
        if a.last().2 is None {
            lemma_put_keeps_available(
                with_pending(t, a.drop_last()),
                a.last().0,
                Wants::Pending,
                stored,
            );
        }
    }
}

/// What is in the store stays there when more is stored.
pub proof fn lemma_store_grows(t: Seq<(Seq<char>, Wants)>, stored: Set<Seq<char>>, id: Seq<char>)
    requires
        available_stored(t, stored),
    ensures
        available_stored(t, stored.insert(id)),
{
}

/// Where some entry waits for the bytes of a request, one of them is the
/// first.
pub proof fn lemma_first_requested(t: Seq<(Seq<char>, Wants)>, req_no: i32, from: int)
    requires
        has_requested(t, req_no),
        0 <= from <= t.len(),
        forall|j: int| 0 <= j < from ==> (#[trigger] t[j]).1 != Wants::Requested(req_no),
    ensures
        0 <= first_requested(t, req_no) < t.len(),
        t[first_requested(t, req_no)].1 == Wants::Requested(req_no),
        forall|j: int|
            0 <= j < first_requested(t, req_no) ==> (#[trigger] t[j]).1 != Wants::Requested(
                req_no,
            ),
    decreases t.len() - from,
{
    if from < t.len() && t[from].1 != Wants::Requested(req_no) {
        lemma_first_requested(t, req_no, from + 1);
    } else if from < t.len() {
        assert(0 <= from < t.len() && (#[trigger] t[from]).1 == Wants::Requested(req_no)
            && forall|j: int| 0 <= j < from ==> (#[trigger] t[j]).1 != Wants::Requested(req_no));
    } else {
        let i = choose|i: int| 0 <= i < t.len() && (#[trigger] t[i]).1 == Wants::Requested(req_no);
        assert(t[i].1 != Wants::Requested(req_no));
    }
}

/// When the bytes that arrived for a request hash to the identifier that
/// was asked for, and the store has taken them, the entry that becomes
/// available names a blob of the store.
pub proof fn lemma_stored_blob_available(
    t: Seq<(Seq<char>, Wants)>,
    stored: Set<Seq<char>>,
    req_no: i32,
    data: Seq<u8>,
)
    requires
        available_stored(t, stored),
        has_requested(t, req_no),
        blob_id_of(data) == t[first_requested(t, req_no)].0,
    ensures
        available_stored(
            t.update(
                first_requested(t, req_no),
                (t[first_requested(t, req_no)].0, Wants::Available),
            ),
            stored.insert(blob_id_of(data)),
        ),
{
    lemma_first_requested(t, req_no, 0);
    let at = first_requested(t, req_no);
    let after = t.update(at, (t[at].0, Wants::Available));
    assert forall|i: int| 0 <= i < after.len() && (#[trigger] after[i]).1
        == Wants::Available implies stored.insert(blob_id_of(data)).contains(after[i].0) by {
        if i != at {
            assert(after[i] == t[i]);
        }
    }
}

/// What becomes of a mapping that was written as JSON: the frame that
/// carries the text, or the error with which writing it failed.
pub open spec fn chunk_made(
    req_no: i32,
    encoded: Result<Vec<u8>, serde_json::Error>,
    out: Handled,
) -> bool {
    match encoded {
        Ok(text) => out.asks_only(
            Action::SendResponse(req_no, RpcType::Source, BodyType::JSON, text),
        ) && out.ended(true),
        Err(e) => out.actions@.len() == 0 && out.failed_with(SolarError::SerdeJson(e)),
    }
}

/// What the handler makes of the news that a blob was stored: a have for
/// the peer that wants it.
pub open spec fn stored_outcome(pre: WantsView, blob_id: Seq<char>, out: Handled) -> bool {
    if table_has(pre.table, blob_id) {
        match pre.peer_wants_req_no {
            Some(theirs) => chunk_sent(out, theirs, map![blob_id => 1int]),
            None => fails_for_missing(out),
        }
    } else {
        out.actions@.len() == 0 && out.ended(true)
    }
}

/// The frame for a mapping that was written as JSON, or the error with
/// which writing it failed.
pub fn json_chunk(req_no: i32, encoded: Result<Vec<u8>, serde_json::Error>) -> (out: Handled)
    ensures
        chunk_made(req_no, encoded, out),
{
    match encoded {
        Ok(text) => Handled::one(
            Action::SendResponse(req_no, RpcType::Source, BodyType::JSON, text),
            Ok(true),
        ),
        Err(e) => Handled::done(Err(SolarError::SerdeJson(e))),
    }
}

/// The place of an identifier in a wants table.
fn position(table: &Vec<(String, Wants)>, id: &String) -> (at: Option<usize>)
    requires
        table_wf(table_of(table@)),
    ensures
        at is Some <==> table_has(table_of(table@), id@),
        at matches Some(i) ==> i < table@.len() && table@[i as int].0@ == id@ && i
            == table_index(table_of(table@), id@),
{
    let ghost t = table_of(table@);
    let mut i: usize = 0;
    while i < table.len()
        invariant
            0 <= i <= table.len(),
            t == table_of(table@),
            table_wf(t),
            forall|j: int| 0 <= j < i ==> (#[trigger] t[j]).0 != id@,
        decreases table.len() - i,
    {
        if table[i].0 == *id {
            assert(t[i as int].0 == id@);
            return Some(i);
        }
        i += 1;
    }
    None
}

/// The place of the first entry that waits for the bytes of a request.
fn position_requested(table: &Vec<(String, Wants)>, req_no: i32) -> (at: Option<usize>)
    ensures
        at is Some <==> has_requested(table_of(table@), req_no),
        at matches Some(i) ==> i < table@.len() && i == first_requested(table_of(table@), req_no),
{
    let ghost t = table_of(table@);
    let mut i: usize = 0;
    while i < table.len()
        invariant
            0 <= i <= table.len(),
            t == table_of(table@),
            forall|j: int| 0 <= j < i ==> (#[trigger] t[j]).1 != Wants::Requested(req_no),
        decreases table.len() - i,
    {
        if table[i].1 == Wants::Requested(req_no) {
            assert(t[i as int].1 == Wants::Requested(req_no));
            let ghost f = first_requested(t, req_no);
            assert(f == i) by {
                if f < i {
                    assert(t[f].1 != Wants::Requested(req_no));
                }
                if f > i {
                    assert(t[i as int].1 != Wants::Requested(req_no));
                }
            }
            return Some(i);
        }
        i += 1;
    }
    None
}

/// Sets an identifier's entry: in place where it has one, at the end where
/// it has none.
fn put(table: &mut Vec<(String, Wants)>, id: String, w: Wants)
    requires
        table_wf(table_of(old(table)@)),
    ensures
        table_of(final(table)@) == table_put(table_of(old(table)@), id@, w),
        table_wf(table_of(final(table)@)),
{
    let ghost t = table_of(table@);
    match position(table, &id) {
        Some(i) => {
            table.set(i, (id, w));
            assert(table_of(table@) =~= t.update(i as int, (id@, w)));
        },
        None => {
            table.push((id, w));
            assert(table_of(table@) =~= t.push((id@, w)));
        },
    }
}

impl BlobsWantsHandler {
    /// The handler as contracts see it.
    pub closed spec fn view(&self) -> WantsView {
        WantsView {
            initialized: self.initialized,
            peer_wants_req_no: self.peer_wants_req_no,
            my_wants_req_no: self.my_wants_req_no,
            table: table_of(self.peer_wants@),
        }
    }


    /// The state of a blob's entry in the wants table, if it has one.
    pub fn wants(&self, blob_id: &String) -> (w: Option<Wants>)
        requires
            self.wf(),
        ensures
            w == table_get(self@.table, blob_id@),
    {
        match position(&self.peer_wants, blob_id) {
            Some(i) => Some(self.peer_wants[i].1),
            None => None,
        }
    }

    /// Records the request number of the local `blobs.createWants` stream,
    /// once the request has gone out.
    pub fn wants_opened(&mut self, req_no: i32)
        requires
            old(self).wf(),
        ensures
            final(self).wf(),
            final(self)@ == (WantsView {
                my_wants_req_no: Some(req_no),
                initialized: true,
                ..old(self)@
            }),
    {
        self.my_wants_req_no = Some(req_no);
        self.initialized = true;
    }

    fn recv_create_wants(&mut self, req_no: i32) -> (out: Handled)
        requires
            old(self).wf(),
        ensures
            final(self).wf(),
            final(self)@ == (WantsView {
                peer_wants_req_no: if old(self)@.peer_wants_req_no is None {
                    Some(req_no)
                } else {
                    old(self)@.peer_wants_req_no
                },
                ..old(self)@
            }),
            out.actions@.len() == 0,
            out.ended(true),
    {
        if self.peer_wants_req_no.is_none() {
            self.peer_wants_req_no = Some(req_no);
        }
        Handled::done(Ok(true))
    }

    fn event_wants_broadcast(&self, broadcast: &Vec<(String, i64)>) -> (out: Handled)
        requires
            self.wf(),
        ensures
            match self@.my_wants_req_no {
                Some(mine) => chunk_sent(
                    out,
                    mine,
                    pairs_map(unwanted(self@.table, pairs_of_i64(broadcast@))),
                ),
                None => fails_for_missing(out),
            },
    {
        let mine = match self.my_wants_req_no {
            Some(mine) => mine,
            None => {
                return Handled::done(Err(SolarError::OptionIsNone));
            },
        };
        let ghost ids = pairs_of_i64(broadcast@);
        let mut wants: Vec<(String, i64)> = Vec::new();
        let mut i: usize = 0;
        while i < broadcast.len()
            invariant
                0 <= i <= broadcast.len(),
                self.wf(),
                ids == pairs_of_i64(broadcast@),
                pairs_of_i64(wants@) == unwanted(self@.table, ids.take(i as int)),
            decreases broadcast.len() - i,
        {
            let ghost before = pairs_of_i64(wants@);
            let found = position(&self.peer_wants, &broadcast[i].0);
            if found.is_none() {
                wants.push((broadcast[i].0.clone(), broadcast[i].1));
                assert(pairs_of_i64(wants@) =~= before.push(ids[i as int]));
            }
            assert(ids.take(i + 1).drop_last() =~= ids.take(i as int));
            i += 1;
        }
        assert(ids.take(broadcast.len() as int) =~= ids);
        json_chunk(mine, encode_int_object(&wants))
    }

    fn event_stoblob_added(&self, blob_id: &String) -> (out: Handled)
        requires
            self.wf(),
        ensures
            stored_outcome(self@, blob_id@, out),
    {
        if position(&self.peer_wants, blob_id).is_some() {
            let theirs = match self.peer_wants_req_no {
                Some(theirs) => theirs,
                None => {
                    return Handled::done(Err(SolarError::OptionIsNone));
                },
            };
            let mut haves: Vec<(String, i64)> = Vec::new();
            haves.push((blob_id.clone(), 1));
            proof {
                let p = pairs_of_i64(haves@);
                assert(p.drop_last() =~= Seq::<(Seq<char>, int)>::empty());
                assert(pairs_map(p.drop_last()) =~= Map::<Seq<char>, int>::empty());
                assert(pairs_map(p) =~= map![blob_id@ => 1int]);
            }
            json_chunk(theirs, encode_int_object(&haves))
        } else {
            Handled::done(Ok(true))
        }
    }

    fn recv_wants(&self, data: &[u8]) -> (out: Handled)
        ensures
            wants_outcome(self@, data@, out),
    {
        if self.peer_wants_req_no.is_none() {
            return Handled::done(Err(SolarError::OptionIsNone));
        }
        self.wants_parsed(parse_int_object(data))
    }

    /// Takes the wants that were read from an announcement of the peer, or
    /// the error with which reading them failed: the local blob store is
    /// asked for the size of each.
    pub fn wants_parsed(&self, parsed: Result<Vec<(String, i64)>, serde_json::Error>) -> (out:
        Handled)
        ensures
            wants_asked(parsed, out),
    {
        match parsed {
            Ok(wants) => Handled::one(Action::QuerySizes(wants), Ok(true)),
            Err(e) => Handled::done(Err(SolarError::SerdeJson(e))),
        }
    }

    /// Takes the answers of the local blob store to a `QuerySizes` action.
    ///
    /// What the store holds is announced to the peer as haves; what it
    /// lacks is entered in the wants table as pending and handed on to the
    /// other connections, one hop further away.
    pub fn sizes_found(&mut self, answers: &Vec<SizeAnswer>) -> (out: Handled)
        requires
            old(self).wf(),
        ensures
            final(self).wf(),
            sizes_handled(old(self)@, answers_of(answers@), out, final(self)@),
    {
        let theirs = match self.peer_wants_req_no {
            Some(theirs) => theirs,
            None => {
                return Handled::done(Err(SolarError::OptionIsNone));
            },
        };
        let ghost a = answers_of(answers@);
        let ghost t0 = self@.table;
        let mut haves: Vec<(String, u64)> = Vec::new();
        let mut broadcast: Vec<(String, i64)> = Vec::new();
        let mut i: usize = 0;
        while i < answers.len()
            invariant
                0 <= i <= answers.len(),
                a == answers_of(answers@),
                self.wf(),
                self@ == (WantsView { table: with_pending(t0, a.take(i as int)), ..old(self)@ }),
                pairs_of_u64(haves@) == haves_of(a.take(i as int)),
                pairs_of_i64(broadcast@) == unsatisfied_of(a.take(i as int)),
            decreases answers.len() - i,
        {
            let ghost haves_before = pairs_of_u64(haves@);
            let ghost broadcast_before = pairs_of_i64(broadcast@);
            assert(a.take(i + 1).drop_last() =~= a.take(i as int));
            assert(a.take(i + 1).last() == a[i as int]);
            match answers[i].2 {
                Some(size) => {
                    haves.push((answers[i].0.clone(), size));
                    assert(pairs_of_u64(haves@) =~= haves_before.push((a[i as int].0, size as int)));
                },
                None => {
                    put(&mut self.peer_wants, answers[i].0.clone(), Wants::Pending);
                    let distance: i64 = if answers[i].1 == i64::MAX {
                        i64::MIN
                    } else {
                        answers[i].1 + 1
                    };
                    broadcast.push((answers[i].0.clone(), distance));
                    assert(pairs_of_i64(broadcast@) =~= broadcast_before.push(
                        (a[i as int].0, distance as int),
                    ));
                },
            }
            i += 1;
        }
        assert(a.take(answers.len() as int) =~= a);
        // respond with the blobs that I have
        match encode_size_object(&haves) {
            Err(e) => Handled::done(Err(SolarError::SerdeJson(e))),
            Ok(text) => {
                let mut actions: Vec<Action> = Vec::new();
                actions.push(Action::SendResponse(theirs, RpcType::Source, BodyType::JSON, text));
                // broadcast other peers with the blobs I don't have
                actions.push(
                    Action::Broadcast(BrokerMessage::RpcBlobsWants(RpcBlobsWantsEvent(broadcast))),
                );
                Handled { actions, result: Ok(true) }
            },
        }
    }

    fn recv_haves(&self, data: &[u8]) -> (out: Handled)
        requires
            self.wf(),
        ensures
            haves_outcome(self@, data@, out),
    {
        match parse_int_object(data) {
            Err(e) => Handled::done(Err(SolarError::SerdeJson(e))),
            Ok(haves) => self.haves_parsed(&haves),
        }
    }

    /// Takes the haves that were read from an announcement of the peer:
    /// one `blobs.get` for each announced blob whose entry is pending, in
    /// the order of the list.
    pub fn haves_parsed(&self, haves: &Vec<(String, i64)>) -> (out: Handled)
        requires
            self.wf(),
            distinct_keys(pairs_of_i64(haves@)),
        ensures
            out.ended(true),
            requested(out.actions@) == fetches(self@.table, pairs_of_i64(haves@)),
            forall|i: int|
                0 <= i < out.actions@.len() ==> (#[trigger] out.actions@[i] matches Action::RequestBlob(
                    k,
                ) && pairs_map(pairs_of_i64(haves@)).dom().contains(k@) && table_get(
                    self@.table,
                    k@,
                ) == Some(Wants::Pending)),
            forall|i: int, j: int|
                0 <= i < j < out.actions@.len() ==> !requests(
                    out.actions@[j],
                    out.actions@[i]->RequestBlob_0@,
                ),
            forall|id: Seq<char>|
                pairs_map(pairs_of_i64(haves@)).dom().contains(id) && table_get(self@.table, id)
                    == Some(Wants::Pending) ==> exists|i: int|
                    0 <= i < out.actions@.len() && requests(#[trigger] out.actions@[i], id),
    {
        let ghost p = pairs_of_i64(haves@);
        let ghost t = self@.table;
        let mut actions: Vec<Action> = Vec::new();
        let mut i: usize = 0;
        while i < haves.len()
            invariant
                0 <= i <= haves.len(),
                self.wf(),
                p == pairs_of_i64(haves@),
                t == self@.table,
                distinct_keys(p),
                requested(actions@) == fetches(t, p.take(i as int)),
                forall|n: int|
                    0 <= n < actions@.len() ==> (#[trigger] actions@[n] matches Action::RequestBlob(
                        k,
                    ) && table_get(t, k@) == Some(Wants::Pending) && exists|j: int|
                        0 <= j < i && #[trigger] p[j].0 == k@),
                forall|n: int, m: int|
                    0 <= n < m < actions@.len() ==> !requests(
                        actions@[m],
                        actions@[n]->RequestBlob_0@,
                    ),
                forall|j: int|
                    0 <= j < i && table_get(t, (#[trigger] p[j]).0) == Some(Wants::Pending)
                        ==> exists|n: int|
                        0 <= n < actions@.len() && requests(#[trigger] actions@[n], p[j].0),
            decreases haves.len() - i,
        {
            let ghost before = actions@;
            assert(p.take(i + 1).drop_last() =~= p.take(i as int));
            assert(p.take(i + 1).last() == p[i as int]);
            if let Some(at) = position(&self.peer_wants, &haves[i].0) {
                if self.peer_wants[at].1 == Wants::Pending {
                    actions.push(Action::RequestBlob(haves[i].0.clone()));
                    assert(requested(actions@) =~= requested(before).push(p[i as int].0));
                    proof {
                        let last = actions@.len() - 1;
                        assert(requests(actions@[last], p[i as int].0));
                        assert forall|n: int| 0 <= n < last implies !requests(
                            actions@[last],
                            (#[trigger] actions@[n])->RequestBlob_0@,
                        ) by {
                            assert(actions@[n] == before[n]);
                            let j = choose|j: int|
                                0 <= j < i && #[trigger] p[j].0 == before[n]->RequestBlob_0@;
                            assert(p[j].0 != p[i as int].0);
                        }
                        assert forall|j: int|
                            0 <= j < i + 1 && table_get(t, (#[trigger] p[j]).0) == Some(
                                Wants::Pending,
                            ) implies exists|n: int|
                            0 <= n < actions@.len() && requests(#[trigger] actions@[n], p[j].0) by {
                            if j < i {
                                let n = choose|n: int|
                                    0 <= n < before.len() && requests(#[trigger] before[n], p[j].0);
                                assert(actions@[n] == before[n]);
                                assert(requests(actions@[n], p[j].0));
                            } else {
                                assert(requests(actions@[last], p[j].0));
                            }
                        }
                        assert forall|n: int| 0 <= n < actions@.len() implies (
                        #[trigger] actions@[n] matches Action::RequestBlob(k) && table_get(t, k@)
                            == Some(Wants::Pending) && exists|j: int|
                            0 <= j < i + 1 && #[trigger] p[j].0 == k@) by {
                            if n < last {
                                assert(actions@[n] == before[n]);
                                let j = choose|j: int|
                                    0 <= j < i && #[trigger] p[j].0 == before[n]->RequestBlob_0@;
                                assert(p[j].0 == actions@[n]->RequestBlob_0@);
                            } else {
                                assert(p[i as int].0 == actions@[n]->RequestBlob_0@);
                            }
                        }
                    }
                }
            }
            i += 1;
        }
        assert(p.take(haves@.len() as int) =~= p);
        proof {
            assert forall|n: int| 0 <= n < actions@.len() implies (
            #[trigger] actions@[n] matches Action::RequestBlob(k) && pairs_map(p).dom().contains(k@)
                && table_get(t, k@) == Some(Wants::Pending)) by {
                crate::json::lemma_pairs_map_dom(p, actions@[n]->RequestBlob_0@);
            }
            assert forall|id: Seq<char>|
                pairs_map(p).dom().contains(id) && table_get(t, id) == Some(
                    Wants::Pending,
                ) implies exists|n: int|
                0 <= n < actions@.len() && requests(#[trigger] actions@[n], id) by {
                crate::json::lemma_pairs_map_dom(p, id);
                let j = choose|j: int| 0 <= j < p.len() && #[trigger] p[j].0 == id;
                assert(table_get(t, p[j].0) == Some(Wants::Pending));
            }
        }
        Handled { actions, result: Ok(true) }
    }

    /// Records the request number of the `blobs.get` that went out for a
    /// blob. A pending entry becomes requested; any other stays as it is.
    pub fn blob_requested(&mut self, blob_id: &String, req_no: i32)
        requires
            old(self).wf(),
        ensures
            final(self).wf(),
            final(self)@ == (WantsView {
                table: if table_get(old(self)@.table, blob_id@) == Some(Wants::Pending) {
                    table_put(old(self)@.table, blob_id@, Wants::Requested(req_no))
                } else {
                    old(self)@.table
                },
                ..old(self)@
            }),
    {
        if let Some(at) = position(&self.peer_wants, blob_id) {
            if self.peer_wants[at].1 == Wants::Pending {
                put(&mut self.peer_wants, blob_id.clone(), Wants::Requested(req_no));
            }
        }
    }

    fn recv_blobs_get(&self, req_no: i32, at: usize, data: &Vec<u8>) -> (out: Handled)
        requires
            at < self@.table.len(),
            at == first_requested(self@.table, req_no),
        ensures
            blob_outcome(self@, req_no, data@, out),
    {
        let current_blob_id = blob_hash_id(data.as_slice());
        let same = current_blob_id == self.peer_wants[at].0;
        Handled::one(Action::StoreBlob(req_no, data.clone(), same), Ok(true))
    }

    /// Records that the bytes which arrived on a request were handed to the
    /// local blob store. The first entry that waits for them becomes
    /// available.
    pub fn blob_stored(&mut self, req_no: i32)
        requires
            old(self).wf(),
        ensures
            final(self).wf(),
            final(self)@ == (WantsView {
                table: if has_requested(old(self)@.table, req_no) {
                    let at = first_requested(old(self)@.table, req_no);
                    old(self)@.table.update(at, (old(self)@.table[at].0, Wants::Available))
                } else {
                    old(self)@.table
                },
                ..old(self)@
            }),
    {
        let ghost t = self@.table;
        if let Some(at) = position_requested(&self.peer_wants, req_no) {
            let id = self.peer_wants[at].0.clone();
            self.peer_wants.set(at, (id, Wants::Available));
            assert(table_of(self.peer_wants@) =~= t.update(at as int, (t[at as int].0, Wants::Available)));
        }
    }
}

impl RpcHandler for BlobsWantsHandler {
    /// No identifier occurs twice in the wants table. Every handler that
    /// this module hands out is well-formed, and every method keeps it so.
    closed spec fn wf(&self) -> bool {
        table_wf(table_of(self.peer_wants@))
    }

    fn name(&self) -> (name: &'static str)
        ensures
            name@ == "BlobsWantsHandler"@,
    {
        "BlobsWantsHandler"
    }

    /// Handle an RPC event.
    fn handle(&mut self, op: &RpcInput) -> (out: Handled)
        ensures
            wants_handled(old(self)@, *op, out, final(self)@),
    {
        match op {
            RpcInput::Network(req_no, RecvMsg::RpcRequest(req)) => {
                match ApiMethod::from_selector(&req.name) {
                    Some(ApiMethod::BlobsCreateWants) => self.recv_create_wants(*req_no),
                    _ => Handled::pass(),
                }
            },
            RpcInput::Network(req_no, RecvMsg::RpcResponse(_xtype, data)) => {
                if self.my_wants_req_no == Some(*req_no) {
                    self.recv_wants(data.as_slice())
                } else if self.peer_wants_req_no == Some(*req_no) {
                    self.recv_haves(data.as_slice())
                } else {
                    match position_requested(&self.peer_wants, *req_no) {
                        Some(at) => self.recv_blobs_get(*req_no, at, data),
                        None => Handled::pass(),
                    }
                }
            },
            RpcInput::Network(req_no, RecvMsg::ErrorResponse(_err)) => {
                Handled::done(
                    Ok(
                        Some(*req_no) == self.my_wants_req_no || Some(*req_no)
                            == self.peer_wants_req_no,
                    ),
                )
            },
            RpcInput::Message(msg) => match msg {
                BrokerMessage::RpcBlobsWants(RpcBlobsWantsEvent(ids)) => {
                    self.event_wants_broadcast(ids)
                },
                BrokerMessage::StoreBlob(StoreBlobEvent(blob_id)) => {
                    self.event_stoblob_added(blob_id)
                },
                _ => Handled::pass(),
            },
            RpcInput::Timer => {
                if !self.initialized {
                    Handled::one(Action::OpenWants, Ok(false))
                } else {
                    Handled::pass()
                }
            },
            _ => Handled::pass(),
        }
    }
}

impl Default for BlobsWantsHandler {
    /// A handler that has opened no stream and wants no blob.
    fn default() -> (h: Self)
        ensures
            h.wf(),
            h@ == (WantsView {
                initialized: false,
                peer_wants_req_no: None,
                my_wants_req_no: None,
                table: Seq::empty(),
            }),
    {
        let h = Self {
            initialized: false,
            my_wants_req_no: None,
            peer_wants_req_no: None,
            peer_wants: Vec::new(),
        };
        assert(table_of(h.peer_wants@) =~= Seq::empty());
        h
    }
}

} // verus!
