//! The key-value store of feeds, blob statuses and peers, on top of `sled`.
//!
//! The key space is partitioned by the first byte of a key:
//!
//! | prefix | rest of the key            | value                          |
//! |--------|----------------------------|--------------------------------|
//! | `0`    | author                     | latest sequence number         |
//! | `1`    | sequence number, author    | message envelope, as JSON text |
//! | `2`    | message identifier         | author and sequence number     |
//! | `3`    | blob identifier            | blob status                    |
//! | `4`    | author                     | latest sequence number         |
//!
//! Integers are written big-endian, so that a range scan walks a partition
//! in the order of its keys.

use vstd::prelude::*;
use vstd::slice::slice_subrange;
use vstd::utf8::{decode_utf8, encode_utf8, valid_utf8};
use crate::error::SolarError;
use crate::feed::{
    envelope_reading, envelope_shaped, envelopes, MessageFields, MessageValue, Reading,
};
use crate::storage::codec::{
    be_bytes, be_value, blob_status_item, blob_status_of, decode_blob_status, decode_msg_ref, encode_blob_status,
    encode_msg_ref, msg_ref_of, texts_of, u64_to_be_bytes, uint_from_be_bytes,
};

verus! {

#[verifier::external_type_specification]
#[verifier::external_body]
pub struct ExSledDb(sled::Db);

#[verifier::external_type_specification]
#[verifier::external_body]
pub struct ExSledConfig(sled::Config);

#[verifier::external_type_specification]
#[verifier::external_body]
pub struct ExSledError(sled::Error);

#[verifier::external_type_specification]
#[verifier::external_body]
pub struct ExSledBatch(sled::Batch);

/// Prefix for a key to the latest sequence number for a stored feed.
pub const PREFIX_LATEST_SEQ: u8 = 0u8;

/// Prefix for a key to a message KVT (Key Value Timestamp).
pub const PREFIX_MSG_KVT: u8 = 1u8;

/// Prefix for a key to a message value (the 'V' in KVT).
pub const PREFIX_MSG_VAL: u8 = 2u8;

/// Prefix for a key to a blob.
pub const PREFIX_BLOB: u8 = 3u8;

/// Prefix for a key to a peer.
pub const PREFIX_PEER: u8 = 4u8;

/// What a database holds: the value under each key.
pub uninterp spec fn db_contents(db: sled::Db) -> Map<Seq<u8>, Seq<u8>>;

/// What a batch holds: the value to write under each key.
pub uninterp spec fn batch_writes(batch: sled::Batch) -> Map<Seq<u8>, Seq<u8>>;

/// The text that std's lossy UTF-8 conversion makes of bytes.
pub uninterp spec fn lossy_text(bytes: Seq<u8>) -> Seq<char>;

/// The contents of a store, as contracts see them.
pub type Contents = Map<Seq<u8>, Seq<u8>>;

/// The feed of this author changed in the key-value store.
#[derive(Debug, Clone)]
pub enum StoKvEvent {
    IdChanged(String),
}

/// Whether a blob has been fetched, and who mentioned it.
#[derive(Debug, Clone)]
pub struct BlobStatus {
    pub retrieved: bool,
    pub users: Vec<String>,
}

/// The public key (ID) of a peer and a message sequence number.
#[derive(Debug)]
pub struct PubKeyAndSeqNum {
    pub pub_key: String,
    pub seq_num: u64,
}

/// Why an operation of the store failed.
#[derive(Debug)]
pub enum KvError {
    /// The message is not the next of its author's feed.
    InvalidSequence,
    /// The database failed.
    Sled(sled::Error),
    /// A stored message envelope was rejected.
    Feed(kuska_ssb::feed::Error),
    /// A stored value is not in binary object form.
    Cbor,
    /// What the store holds, or is asked to hold, does not read back: a
    /// sequence number that is not eight bytes long, an entry that points
    /// at a message that the store does not hold, an envelope in no shape
    /// to be read.
    Corrupt,
}

/// A message envelope as the store holds it: the JSON text, and the
/// checked message inside.
#[derive(Debug)]
pub struct MessageKvt {
    pub text: Vec<u8>,
    pub value: MessageValue,
}

/// What a lookup finds, before anything is said of the database failing.
pub enum Lookup<T> {
    /// The store holds nothing under the key.
    Absent,
    /// The store holds this.
    Found(T),
    /// The value under the key is not in binary object form.
    BadObject,
    /// The entry points at a message that the store does not hold, a
    /// sequence number is not eight bytes long, or an envelope is in no
    /// shape to be read.
    Broken,
    /// The stored envelope is rejected.
    BadEnvelope,
}

/// `a` comes before `b` in the order of keys: byte by byte, a prefix first.
pub open spec fn bytes_lt(a: Seq<u8>, b: Seq<u8>) -> bool
    decreases a.len(),
{
    if b.len() == 0 {
        false
    } else if a.len() == 0 {
        true
    } else if a[0] != b[0] {
        a[0] < b[0]
    } else {
        bytes_lt(a.drop_first(), b.drop_first())
    }
}

/// The entries of a walk as contracts see them.
pub open spec fn entries_of(v: Seq<(Vec<u8>, Vec<u8>)>) -> Seq<(Seq<u8>, Seq<u8>)> {
    Seq::new(v.len(), |i: int| (v[i].0@, v[i].1@))
}

/// `s` lists the entries of `m` whose keys are not before `start` and
/// before `end`: each once, in the order of their keys.
pub open spec fn is_listing(
    s: Seq<(Seq<u8>, Seq<u8>)>,
    m: Contents,
    start: Seq<u8>,
    end: Seq<u8>,
) -> bool {
    &&& forall|i: int|
        0 <= i < s.len() ==> m.dom().contains((#[trigger] s[i]).0) && m[s[i].0] == s[i].1
            && !bytes_lt(s[i].0, start) && bytes_lt(s[i].0, end)
    &&& forall|i: int, j: int| 0 <= i < j < s.len() ==> bytes_lt(#[trigger] s[i].0, #[trigger] s[j].0)
    &&& forall|k: Seq<u8>|
        m.dom().contains(k) && !bytes_lt(k, start) && bytes_lt(k, end) ==> exists|i: int|
            0 <= i < s.len() && #[trigger] s[i].0 == k
}

/// The key lies in the partition of this prefix.
pub open spec fn in_partition(key: Seq<u8>, prefix: u8) -> bool {
    key.len() > 0 && key[0] == prefix
}

/// `s` lists the entries of one partition of `m`: each once, in the order
/// of their keys.
pub open spec fn is_partition_listing(s: Seq<(Seq<u8>, Seq<u8>)>, m: Contents, prefix: u8) -> bool {
    &&& forall|i: int|
        0 <= i < s.len() ==> m.dom().contains((#[trigger] s[i]).0) && m[s[i].0] == s[i].1
            && in_partition(s[i].0, prefix)
    &&& forall|i: int, j: int| 0 <= i < j < s.len() ==> bytes_lt(#[trigger] s[i].0, #[trigger] s[j].0)
    &&& forall|k: Seq<u8>|
        m.dom().contains(k) && in_partition(k, prefix) ==> exists|i: int|
            0 <= i < s.len() && #[trigger] s[i].0 == k
}

/// The entries of one partition, in the order of their keys.
pub open spec fn partition_listing(m: Contents, prefix: u8) -> Seq<(Seq<u8>, Seq<u8>)> {
    choose|s: Seq<(Seq<u8>, Seq<u8>)>| is_partition_listing(s, m, prefix)
}

/// No key comes before itself.
pub proof fn lemma_bytes_lt_irreflexive(a: Seq<u8>)
    ensures
        !bytes_lt(a, a),
    decreases a.len(),
{
    if a.len() > 0 {
        lemma_bytes_lt_irreflexive(a.drop_first());
    }
}

/// The order of keys is transitive.
pub proof fn lemma_bytes_lt_transitive(a: Seq<u8>, b: Seq<u8>, c: Seq<u8>)
    requires
        bytes_lt(a, b),
        bytes_lt(b, c),
    ensures
        bytes_lt(a, c),
    decreases a.len(),
{
    if a.len() > 0 && a[0] == b[0] && b[0] == c[0] {
        lemma_bytes_lt_transitive(a.drop_first(), b.drop_first(), c.drop_first());
    }
}

/// Two listings of one partition agree up to the length of the shorter.
proof fn lemma_listings_agree(
    s1: Seq<(Seq<u8>, Seq<u8>)>,
    s2: Seq<(Seq<u8>, Seq<u8>)>,
    m: Contents,
    prefix: u8,
    i: int,
)
    requires
        is_partition_listing(s1, m, prefix),
        is_partition_listing(s2, m, prefix),
        0 <= i < s1.len(),
    ensures
        i < s2.len(),
        s1[i] == s2[i],
    decreases i,
{
    if i > 0 {
        lemma_listings_agree(s1, s2, m, prefix, i - 1);
    }
    assert forall|n: int| 0 <= n < i implies n < s2.len() && s1[n] == s2[n] by {
        lemma_listings_agree(s1, s2, m, prefix, n);
    }
    let key = s1[i].0;
    let j = choose|j: int| 0 <= j < s2.len() && #[trigger] s2[j].0 == key;
    if j < i {
        assert(s1[j].0 == key);
        assert(bytes_lt(s1[j].0, s1[i].0));
        lemma_bytes_lt_irreflexive(key);
    } else if j > i {
        let other = s2[i].0;
        assert(bytes_lt(s2[i].0, s2[j].0));
        let k = choose|k: int| 0 <= k < s1.len() && #[trigger] s1[k].0 == other;
        if k < i {
            assert(s2[k].0 == other);
            assert(bytes_lt(s2[k].0, s2[i].0));
            lemma_bytes_lt_irreflexive(other);
        } else if k == i {
            lemma_bytes_lt_irreflexive(key);
        } else {
            assert(bytes_lt(s1[i].0, s1[k].0));
            lemma_bytes_lt_transitive(key, other, key);
            lemma_bytes_lt_irreflexive(key);
        }
    } else {
        assert(s2[i].0 == key);
    }
}

/// A partition has one listing.
pub proof fn lemma_listing_unique(s: Seq<(Seq<u8>, Seq<u8>)>, m: Contents, prefix: u8)
    requires
        is_partition_listing(s, m, prefix),
    ensures
        partition_listing(m, prefix) == s,
{
    let p = partition_listing(m, prefix);
    assert(is_partition_listing(p, m, prefix));
    if s.len() > 0 {
        lemma_listings_agree(s, p, m, prefix, s.len() - 1);
    }
    if p.len() > 0 {
        lemma_listings_agree(p, s, m, prefix, p.len() - 1);
    }
    assert forall|i: int| 0 <= i < s.len() implies s[i] == p[i] by {
        lemma_listings_agree(s, p, m, prefix, i);
    }
    assert(s =~= p);
}

/// The keys of a partition are those from its prefix up to the next.
pub proof fn lemma_partition_bounds(key: Seq<u8>, prefix: u8)
    requires
        prefix < 255,
    ensures
        in_partition(key, prefix) <==> (!bytes_lt(key, seq![prefix]) && bytes_lt(
            key,
            seq![(prefix + 1) as u8],
        )),
{
    let from = seq![prefix];
    let to = seq![(prefix + 1) as u8];
    if key.len() > 0 {
        assert(!bytes_lt(key.drop_first(), from.drop_first()));
        assert(!bytes_lt(key.drop_first(), to.drop_first()));
    }
}

/// A walk from the prefix of a partition up to the next is the listing of
/// the partition.
proof fn lemma_partition_walk(s: Seq<(Seq<u8>, Seq<u8>)>, m: Contents, prefix: u8)
    requires
        prefix < 255,
        is_listing(s, m, seq![prefix], seq![(prefix + 1) as u8]),
    ensures
        is_partition_listing(s, m, prefix),
        partition_listing(m, prefix) == s,
{
    assert forall|k: Seq<u8>| m.dom().contains(k) && in_partition(k, prefix) implies exists|i: int|
        0 <= i < s.len() && #[trigger] s[i].0 == k by {
        lemma_partition_bounds(k, prefix);
    }
    assert forall|i: int| 0 <= i < s.len() implies in_partition((#[trigger] s[i]).0, prefix) by {
        lemma_partition_bounds(s[i].0, prefix);
    }
    lemma_listing_unique(s, m, prefix);
}

/// The value under a key is this one, or there is none.
pub open spec fn is_value_at(found: Option<Vec<u8>>, m: Contents, key: Seq<u8>) -> bool {
    match found {
        Some(value) => m.dom().contains(key) && m[key] == value@,
        None => !m.dom().contains(key),
    }
}

/// Opens a database with `sled::Config::open`. Nothing is claimed of what
/// it holds.
#[verifier::external_body]
fn db_open(config: &sled::Config) -> Result<sled::Db, sled::Error> {
    config.open()
}

/// Reads the value under a key with `sled::Tree::get`.
///
/// Trusted: a value that comes back is the one that the database holds
/// under the key, and none comes back exactly when it holds none.
#[verifier::external_body]
fn db_get(db: &sled::Db, key: &[u8]) -> (res: Result<Option<Vec<u8>>, sled::Error>)
    ensures
        res matches Ok(found) ==> is_value_at(found, db_contents(*db), key@),
{
    Ok(db.get(key)?.map(|value| value.to_vec()))
}

/// Sets the value under a key with `sled::Tree::insert`.
///
/// Trusted: after a success the database holds the value under the key and
/// is otherwise as before. Nothing is claimed after a failure.
#[verifier::external_body]
fn db_insert(db: &mut sled::Db, key: &[u8], value: &[u8]) -> (res: Result<(), sled::Error>)
    ensures
        res is Ok ==> db_contents(*final(db)) == db_contents(*old(db)).insert(key@, value@),
{
    db.insert(key, value)?;
    Ok(())
}

/// The writes of an empty batch.
pub open spec fn no_writes() -> Contents {
    Map::empty()
}

/// An empty batch, from `sled::Batch::default`.
///
/// Trusted: the batch holds no write.
#[verifier::external_body]
fn batch_new() -> (batch: sled::Batch)
    ensures
        batch_writes(batch) == no_writes(),
{
    sled::Batch::default()
}

/// Adds a write to a batch with `sled::Batch::insert`.
///
/// Trusted: the batch then holds the value for the key, in place of an
/// earlier one for the same key, and is otherwise as before.
#[verifier::external_body]
fn batch_insert(batch: &mut sled::Batch, key: &[u8], value: &[u8])
    ensures
        batch_writes(*final(batch)) == batch_writes(*old(batch)).insert(key@, value@),
{
    batch.insert(key, value);
}

/// Applies a batch with `sled::Tree::apply_batch`: all of its writes or,
/// should the process end in between, none.
///
/// Trusted: after a success the database holds the value of each write
/// under its key and is otherwise as before. Nothing is claimed after a
/// failure.
#[verifier::external_body]
fn db_apply_batch(db: &mut sled::Db, batch: sled::Batch) -> (res: Result<(), sled::Error>)
    ensures
        res is Ok ==> db_contents(*final(db)) == db_contents(*old(db)).union_prefer_right(
            batch_writes(batch),
        ),
{
    db.apply_batch(batch)
}

/// Walks the database from one key up to another with `sled::Tree::range`
/// and collects what the walk yields.
///
/// Trusted: a list that comes back holds every entry whose key is not
/// before the start and before the end, once, in the order of the keys.
#[verifier::external_body]
fn db_range(db: &sled::Db, start: &[u8], end: &[u8]) -> (res: Result<
    Vec<(Vec<u8>, Vec<u8>)>,
    sled::Error,
>)
    ensures
        res matches Ok(items) ==> is_listing(entries_of(items@), db_contents(*db), start@, end@),
{
    db.range(start..end).map(|item| item.map(|(k, v)| (k.to_vec(), v.to_vec()))).collect()
}

/// Writes what is buffered to disk with `sled::Tree::flush`. The contents
/// of the database stay as they are.
#[verifier::external_body]
fn db_flush(db: &sled::Db) -> (res: Result<(), sled::Error>) {
    db.flush()?;
    Ok(())
}

/// Reads bytes as text with std's `String::from_utf8_lossy`, which puts a
/// replacement character in place of what is not UTF-8.
///
/// Trusted: well-formed UTF-8 is read as the characters it encodes.
#[verifier::external_body]
fn string_from_utf8_lossy(bytes: &[u8]) -> (text: String)
    ensures
        text@ == lossy_text(bytes@),
        valid_utf8(bytes@) ==> text@ == decode_utf8(bytes@),
{
    String::from_utf8_lossy(bytes).to_string()
}

/// Key of the latest sequence number of an author's feed.
pub open spec fn latest_seq_key(user_id: Seq<char>) -> Seq<u8> {
    seq![PREFIX_LATEST_SEQ] + encode_utf8(user_id)
}

/// Key of the message envelope at a place in an author's feed.
pub open spec fn msg_kvt_key(user_id: Seq<char>, msg_seq: u64) -> Seq<u8> {
    seq![PREFIX_MSG_KVT] + be_bytes(msg_seq as nat, 8) + encode_utf8(user_id)
}

/// Key of the reference from a message identifier to its place in a feed.
pub open spec fn msg_val_key(msg_id: Seq<char>) -> Seq<u8> {
    seq![PREFIX_MSG_VAL] + encode_utf8(msg_id)
}

/// Key of the status of a blob.
pub open spec fn blob_key(blob_id: Seq<char>) -> Seq<u8> {
    seq![PREFIX_BLOB] + encode_utf8(blob_id)
}

/// Key of a peer.
pub open spec fn peer_key(user_id: Seq<char>) -> Seq<u8> {
    seq![PREFIX_PEER] + encode_utf8(user_id)
}

/// What the store holds as the latest sequence number of an author.
pub open spec fn latest_seq_entry(m: Contents, user_id: Seq<char>) -> Lookup<u64> {
    if !m.dom().contains(latest_seq_key(user_id)) {
        Lookup::Absent
    } else if m[latest_seq_key(user_id)].len() == 8 {
        Lookup::Found(be_value(m[latest_seq_key(user_id)]) as u64)
    } else {
        Lookup::Broken
    }
}

/// What the store holds as the status of a blob.
pub open spec fn blob_entry(m: Contents, blob_id: Seq<char>) -> Lookup<(bool, Seq<Seq<char>>)> {
    if !m.dom().contains(blob_key(blob_id)) {
        Lookup::Absent
    } else {
        match blob_status_of(m[blob_key(blob_id)]) {
            Some(status) => Lookup::Found(status),
            None => Lookup::BadObject,
        }
    }
}

/// What an envelope text holds.
pub open spec fn envelope_entry(text: Seq<u8>) -> Lookup<MessageFields> {
    match envelope_reading(text) {
        Reading::Message(fields) => Lookup::Found(fields),
        Reading::Refused => Lookup::BadEnvelope,
        _ => Lookup::Broken,
    }
}

/// What the store holds at a place in an author's feed.
pub open spec fn kvt_entry(m: Contents, user_id: Seq<char>, msg_seq: u64) -> Lookup<MessageFields> {
    if !m.dom().contains(msg_kvt_key(user_id, msg_seq)) {
        Lookup::Absent
    } else {
        envelope_entry(m[msg_kvt_key(user_id, msg_seq)])
    }
}

/// What the store holds for a message identifier.
pub open spec fn msg_val_entry(m: Contents, msg_id: Seq<char>) -> Lookup<MessageFields> {
    if !m.dom().contains(msg_val_key(msg_id)) {
        Lookup::Absent
    } else {
        match msg_ref_of(m[msg_val_key(msg_id)]) {
            None => Lookup::BadObject,
            Some((pub_key, seq_num)) => match kvt_entry(m, pub_key, seq_num) {
                Lookup::Absent => Lookup::Broken,
                entry => entry,
            },
        }
    }
}

/// What the store holds as the latest message of an author.
pub open spec fn latest_msg_entry(m: Contents, user_id: Seq<char>) -> Lookup<MessageFields> {
    match latest_seq_entry(m, user_id) {
        Lookup::Found(seq) => match kvt_entry(m, user_id, seq) {
            Lookup::Absent => Lookup::Broken,
            entry => entry,
        },
        Lookup::Absent => Lookup::Absent,
        _ => Lookup::Broken,
    }
}

/// The identifier in a key: what follows the prefix byte, read as text.
/// Well-formed UTF-8 is read as the characters it encodes; anything else
/// as what std's lossy conversion makes of it.
pub open spec fn key_text(key: Seq<u8>) -> Seq<char> {
    if valid_utf8(key.skip(1)) {
        decode_utf8(key.skip(1))
    } else {
        lossy_text(key.skip(1))
    }
}

/// The identifier in the key that was made of a text is that text.
pub proof fn lemma_key_text_of_key(prefix: u8, id: Seq<char>)
    ensures
        valid_utf8((seq![prefix] + encode_utf8(id)).skip(1)),
        key_text(seq![prefix] + encode_utf8(id)) == id,
{
    broadcast use vstd::utf8::encode_utf8_valid_utf8, vstd::utf8::encode_utf8_decode_utf8;

    assert((seq![prefix] + encode_utf8(id)).skip(1) =~= encode_utf8(id));
}

/// A key of a partition whose rest is well-formed UTF-8 is the key that is
/// made of the identifier in it.
pub proof fn lemma_key_of_key_text(key: Seq<u8>, prefix: u8)
    requires
        in_partition(key, prefix),
        valid_utf8(key.skip(1)),
    ensures
        key == seq![prefix] + encode_utf8(key_text(key)),
{
    broadcast use vstd::utf8::decode_utf8_encode_utf8;

    assert(key =~= seq![prefix] + key.skip(1));
}

/// The blobs of a listing that have not been retrieved, in the order of
/// the listing; `None` where a status cannot be read.
pub open spec fn pending_ids(s: Seq<(Seq<u8>, Seq<u8>)>) -> Option<Seq<Seq<char>>>
    decreases s.len(),
{
    if s.len() == 0 {
        Some(Seq::empty())
    } else {
        match (pending_ids(s.drop_last()), blob_status_of(s.last().1)) {
            (Some(ids), Some((retrieved, _))) => if retrieved {
                Some(ids)
            } else {
                Some(ids.push(key_text(s.last().0)))
            },
            _ => None,
        }
    }
}

/// The sequence number that the next message of an author's feed must
/// carry: one more than the latest, one where the store holds none.
/// `None` where the store holds no readable latest number, or the highest.
pub open spec fn next_seq(m: Contents, user_id: Seq<char>) -> Option<u64> {
    match latest_seq_entry(m, user_id) {
        Lookup::Absent => Some(1),
        Lookup::Found(n) => if n < u64::MAX {
            Some((n + 1) as u64)
        } else {
            None
        },
        _ => None,
    }
}

/// The peers of a listing, each with the sequence number that its next
/// message must carry; `None` where there is no such number for one of them.
pub open spec fn peers_of(s: Seq<(Seq<u8>, Seq<u8>)>, m: Contents) -> Option<Seq<(Seq<char>, u64)>>
    decreases s.len(),
{
    if s.len() == 0 {
        Some(Seq::empty())
    } else {
        match (peers_of(s.drop_last(), m), next_seq(m, key_text(s.last().0))) {
            (Some(peers), Some(seq)) => Some(peers.push((key_text(s.last().0), seq))),
            _ => None,
        }
    }
}

/// What does not read for a part of a listing does not read for the whole.
pub proof fn lemma_pending_ids_fail(s: Seq<(Seq<u8>, Seq<u8>)>, n: int)
    requires
        0 <= n <= s.len(),
        pending_ids(s.take(n)) is None,
    ensures
        pending_ids(s) is None,
    decreases s.len() - n,
{
    if n < s.len() {
        assert(s.take(n + 1).drop_last() =~= s.take(n));
        lemma_pending_ids_fail(s, n + 1);
    } else {
        assert(s.take(n) =~= s);
    }
}

/// What does not read for a part of a listing does not read for the whole.
pub proof fn lemma_peers_of_fail(s: Seq<(Seq<u8>, Seq<u8>)>, m: Contents, n: int)
    requires
        0 <= n <= s.len(),
        peers_of(s.take(n), m) is None,
    ensures
        peers_of(s, m) is None,
    decreases s.len() - n,
{
    if n < s.len() {
        assert(s.take(n + 1).drop_last() =~= s.take(n));
        lemma_peers_of_fail(s, m, n + 1);
    } else {
        assert(s.take(n) =~= s);
    }
}

/// A list of peers as contracts see it.
pub open spec fn peers_view(v: Seq<PubKeyAndSeqNum>) -> Seq<(Seq<char>, u64)> {
    Seq::new(v.len(), |i: int| (v[i].pub_key@, v[i].seq_num))
}

/// The store after a message was appended: the reference from its
/// identifier, its envelope, the latest sequence number of its author, and
/// the author's entry among the peers.
pub open spec fn appended(m: Contents, author: Seq<char>, seq: u64, id: Seq<char>, kvt: Seq<u8>) -> Contents {
    m.insert(msg_val_key(id), crate::storage::codec::msg_ref_item(author, seq)).insert(
        msg_kvt_key(author, seq),
        kvt,
    ).insert(latest_seq_key(author), be_bytes(seq as nat, 8)).insert(
        peer_key(author),
        be_bytes(seq as nat, 8),
    )
}

/// The feed primitive wrote an envelope of the message that is in no
/// shape to be read back.
pub open spec fn envelope_unusable(fields: MessageFields) -> bool {
    exists|written: Seq<char>| #[trigger]
        envelopes(written, fields) && !envelope_shaped(encode_utf8(written))
}

/// The whole of `append_feed`: what it returns for a message with these
/// fields on a store that holds `pre`, and what the store holds afterwards.
///
/// - The message is stored exactly when it is the next of its author's
///   feed, unless the database fails or the envelope is unusable.
/// - `InvalidSequence` comes exactly for a message that is not the next,
///   on a store whose latest sequence number for the author reads.
/// - `Corrupt` comes where that number does not read, and where the
///   message is the next but its envelope is unusable.
/// - But for a failure of the database, an error leaves the store as it
///   was.
pub open spec fn append_made(
    pre: Contents,
    fields: MessageFields,
    res: Result<Appended, KvError>,
    post: Contents,
) -> bool {
    match res {
        Ok(out) => {
            &&& next_seq(pre, fields.author) == fields.sequence
            &&& Some(out.seq_num) == fields.sequence
            &&& (out.event matches StoKvEvent::IdChanged(id) && id@ == fields.author)
            &&& envelope_reading(encode_utf8(out.kvt@)) == Reading::Message(fields)
            &&& post == appended(pre, fields.author, out.seq_num, fields.id, encode_utf8(out.kvt@))
        },
        Err(KvError::InvalidSequence) => {
            &&& !(latest_seq_entry(pre, fields.author) is Broken)
            &&& next_seq(pre, fields.author) != fields.sequence
            &&& post == pre
        },
        Err(KvError::Corrupt) => {
            &&& post == pre
            &&& latest_seq_entry(pre, fields.author) is Broken || (next_seq(pre, fields.author)
                == fields.sequence && envelope_unusable(fields))
        },
        Err(KvError::Sled(_)) => true,
        Err(_) => false,
    }
}

/// What `append_feed` hands back.
#[derive(Debug)]
pub struct Appended {
    /// The sequence number of the appended message.
    pub seq_num: u64,
    /// The envelope under which the message was stored, as JSON text.
    pub kvt: String,
    /// The event to publish.
    pub event: StoKvEvent,
}

/// The error of a lookup that found no readable value, unless the
/// database itself failed.
pub open spec fn explains<T>(e: KvError, found: Lookup<T>) -> bool {
    match e {
        KvError::Sled(_) => true,
        KvError::Cbor => found is BadObject,
        KvError::Corrupt => found is Broken,
        KvError::Feed(_) => found is BadEnvelope,
        KvError::InvalidSequence => false,
    }
}

/// A message that came back is the one that the lookup finds.
pub open spec fn is_message(r: Option<MessageValue>, found: Lookup<MessageFields>) -> bool {
    match r {
        Some(msg) => found == Lookup::Found(msg.fields()),
        None => found is Absent,
    }
}

/// A key made of a prefix byte and a text.
fn prefixed_key(prefix: u8, text: &str) -> (key: Vec<u8>)
    ensures
        key@ == seq![prefix] + encode_utf8(text@),
{
    let mut key: Vec<u8> = Vec::new();
    key.push(prefix);
    key.extend_from_slice(text.as_bytes());
    key
}

/// Reads a stored sequence number: eight big-endian bytes.
pub fn decode_latest_seq(value: &[u8]) -> (seq: Option<u64>)
    ensures
        seq == (if value@.len() == 8 {
            Some(be_value(value@) as u64)
        } else {
            None
        }),
{
    if value.len() == 8 {
        proof {
            crate::storage::codec::lemma_be_value_bound(value@);
            crate::storage::codec::lemma_pow256_values();
        }
        Some(uint_from_be_bytes(value))
    } else {
        None
    }
}

/// The sequence number that follows the latest of a feed: one where there
/// is none yet, `None` where the latest is the highest there is.
pub fn next_sequence(latest: Option<u64>) -> (next: Option<u64>)
    ensures
        next == (match latest {
            None => Some(1u64),
            Some(n) => if n < u64::MAX {
                Some((n + 1) as u64)
            } else {
                None
            },
        }),
{
    match latest {
        None => Some(1),
        Some(n) => if n == u64::MAX {
            None
        } else {
            Some(n + 1)
        },
    }
}

/// The blobs among the entries of the blob partition that have not been
/// retrieved, in the order of the entries. `Cbor` where a status does not
/// read.
pub fn pending_blobs(items: &Vec<(Vec<u8>, Vec<u8>)>) -> (res: Result<Vec<String>, KvError>)
    requires
        forall|i: int| 0 <= i < items@.len() ==> (#[trigger] items@[i]).0@.len() > 0,
    ensures
        match pending_ids(entries_of(items@)) {
            Some(ids) => res matches Ok(list) && texts_of(list@) == ids,
            None => res is Err && res->Err_0 is Cbor,
        },
{
    let ghost s = entries_of(items@);
    let mut list: Vec<String> = Vec::new();
    let mut i: usize = 0;
    while i < items.len()
        invariant
            0 <= i <= items@.len(),
            s == entries_of(items@),
            forall|j: int| 0 <= j < items@.len() ==> (#[trigger] items@[j]).0@.len() > 0,
            pending_ids(s.take(i as int)) == Some(texts_of(list@)),
        decreases items.len() - i,
    {
        let ghost before = texts_of(list@);
        assert(s.take(i + 1).drop_last() =~= s.take(i as int));
        assert(s.take(i + 1).last() == s[i as int]);
        match decode_blob_status(items[i].1.as_slice()) {
            None => {
                proof {
                    lemma_pending_ids_fail(s, i + 1);
                }
                return Err(KvError::Cbor);
            },
            Some((retrieved, _users)) => {
                if !retrieved {
                    let key = items[i].0.as_slice();
                    let id = string_from_utf8_lossy(slice_subrange(key, 1, key.len()));
                    assert(key@.subrange(1, key@.len() as int) =~= key@.skip(1));
                    list.push(id);
                    assert(texts_of(list@) =~= before.push(key_text(s[i as int].0)));
                }
            },
        }
        i += 1;
    }
    assert(s.take(items@.len() as int) =~= s);
    Ok(list)
}

/// The key-value store. It is closed until `open` succeeds.
pub struct KvStorage {
    db: Option<sled::Db>,
}

impl Default for KvStorage {
    /// A closed store.
    fn default() -> (kv: Self)
        ensures
            !kv.is_open(),
    {
        KvStorage { db: None }
    }
}

impl KvStorage {
    /// The store has a database.
    pub closed spec fn is_open(&self) -> bool {
        self.db is Some
    }

    /// What the store holds.
    pub closed spec fn contents(&self) -> Contents
        recommends
            self.is_open(),
    {
        db_contents(self.db->Some_0)
    }

    /// Whether the store has a database.
    pub fn opened(&self) -> (b: bool)
        ensures
            b == self.is_open(),
    {
        self.db.is_some()
    }

    /// Open the key-value database using the given configuration.
    ///
    /// On a failure the store is left as it was.
    pub fn open(&mut self, config: sled::Config) -> (res: Result<(), KvError>)
        ensures
            res is Ok ==> final(self).is_open(),
            res matches Err(e) ==> e is Sled && *final(self) == *old(self),
    {
        match db_open(&config) {
            Ok(db) => {
                self.db = Some(db);
                Ok(())
            },
            Err(e) => Err(KvError::Sled(e)),
        }
    }

    /// Reads the value under a key.
    fn get(&self, key: &[u8]) -> (res: Result<Option<Vec<u8>>, KvError>)
        requires
            self.is_open(),
        ensures
            res matches Ok(found) ==> is_value_at(found, self.contents(), key@),
            res matches Err(e) ==> e is Sled,
    {
        match db_get(self.db.as_ref().unwrap(), key) {
            Ok(found) => Ok(found),
            Err(e) => Err(KvError::Sled(e)),
        }
    }

    /// Sets the value under a key.
    fn put(&mut self, key: &[u8], value: &[u8]) -> (res: Result<(), KvError>)
        requires
            old(self).is_open(),
        ensures
            final(self).is_open(),
            res is Ok ==> final(self).contents() == old(self).contents().insert(key@, value@),
            res matches Err(e) ==> e is Sled,
    {
        match db_insert(self.db.as_mut().unwrap(), key, value) {
            Ok(()) => Ok(()),
            Err(e) => Err(KvError::Sled(e)),
        }
    }

    /// Generate a key for the latest sequence number of the feed authored by
    /// the given public key.
    pub fn key_latest_seq(user_id: &str) -> (key: Vec<u8>)
        ensures
            key@ == latest_seq_key(user_id@),
    {
        prefixed_key(PREFIX_LATEST_SEQ, user_id)
    }

    /// Generate a key for a message KVT authored by the given public key and
    /// with the given message sequence number.
    pub fn key_msg_kvt(user_id: &str, msg_seq: u64) -> (key: Vec<u8>)
        ensures
            key@ == msg_kvt_key(user_id@, msg_seq),
    {
        let mut key: Vec<u8> = Vec::new();
        key.push(PREFIX_MSG_KVT);
        let mut digits = u64_to_be_bytes(msg_seq);
        key.append(&mut digits);
        key.extend_from_slice(user_id.as_bytes());
        key
    }

    /// Generate a key for a message value with the given ID (reference).
    pub fn key_msg_val(msg_id: &str) -> (key: Vec<u8>)
        ensures
            key@ == msg_val_key(msg_id@),
    {
        prefixed_key(PREFIX_MSG_VAL, msg_id)
    }

    /// Generate a key for a blob with the given ID (reference).
    pub fn key_blob(blob_id: &str) -> (key: Vec<u8>)
        ensures
            key@ == blob_key(blob_id@),
    {
        prefixed_key(PREFIX_BLOB, blob_id)
    }

    /// Generate a key for a peer with the given public key.
    pub fn key_peer(user_id: &str) -> (key: Vec<u8>)
        ensures
            key@ == peer_key(user_id@),
    {
        prefixed_key(PREFIX_PEER, user_id)
    }
}

impl KvStorage {
    /// Get the status of a blob with the given ID.
    pub fn get_blob(&self, blob_id: &str) -> (res: Result<Option<BlobStatus>, KvError>)
        requires
            self.is_open(),
        ensures
            res matches Ok(r) ==> (match r {
                Some(b) => blob_entry(self.contents(), blob_id@) == Lookup::Found(
                    (b.retrieved, texts_of(b.users@)),
                ),
                None => blob_entry(self.contents(), blob_id@) is Absent,
            }),
            res matches Err(e) ==> explains(e, blob_entry(self.contents(), blob_id@)),
    {
        let key = KvStorage::key_blob(blob_id);
        match self.get(key.as_slice())? {
            Some(raw) => match decode_blob_status(raw.as_slice()) {
                Some((retrieved, users)) => Ok(Some(BlobStatus { retrieved, users })),
                None => Err(KvError::Cbor),
            },
            None => Ok(None),
        }
    }

    /// Set the status of a blob with the given ID: the status is written
    /// under the blob's key in binary object form.
    ///
    /// After a success `get_blob` finds this status under the ID.
    pub fn set_blob(&mut self, blob_id: &str, blob: &BlobStatus) -> (res: Result<(), KvError>)
        requires
            old(self).is_open(),
        ensures
            final(self).is_open(),
            res is Ok ==> final(self).contents() == old(self).contents().insert(
                blob_key(blob_id@),
                blob_status_item(blob.retrieved, texts_of(blob.users@)),
            ),
            res is Ok ==> blob_entry(final(self).contents(), blob_id@) == Lookup::Found(
                (blob.retrieved, texts_of(blob.users@)),
            ),
            res matches Err(e) ==> e is Sled,
    {
        let raw = encode_blob_status(blob.retrieved, &blob.users);
        let key = KvStorage::key_blob(blob_id);
        self.put(key.as_slice(), raw.as_slice())
    }

    /// Get the sequence number of the latest message in the feed authored by
    /// the peer with the given public key.
    pub fn get_latest_seq(&self, user_id: &str) -> (res: Result<Option<u64>, KvError>)
        requires
            self.is_open(),
        ensures
            res matches Ok(r) ==> (match r {
                Some(seq) => latest_seq_entry(self.contents(), user_id@) == Lookup::Found(seq),
                None => latest_seq_entry(self.contents(), user_id@) is Absent,
            }),
            res matches Err(e) ==> explains(e, latest_seq_entry(self.contents(), user_id@)),
    {
        let key = KvStorage::key_latest_seq(user_id);
        match self.get(key.as_slice())? {
            Some(value) => match decode_latest_seq(value.as_slice()) {
                Some(seq) => Ok(Some(seq)),
                None => Err(KvError::Corrupt),
            },
            None => Ok(None),
        }
    }

    /// Get the message KVT (Key Value Timestamp) at the given place of the
    /// feed authored by the given public key.
    pub fn get_msg_kvt(&self, user_id: &str, msg_seq: u64) -> (res: Result<
        Option<MessageKvt>,
        KvError,
    >)
        requires
            self.is_open(),
        ensures
            res matches Ok(r) ==> (match r {
                Some(kvt) => kvt_entry(self.contents(), user_id@, msg_seq) == Lookup::Found(
                    kvt.value.fields(),
                ) && self.contents()[msg_kvt_key(user_id@, msg_seq)] == kvt.text@,
                None => kvt_entry(self.contents(), user_id@, msg_seq) is Absent,
            }),
            res matches Err(e) ==> explains(e, kvt_entry(self.contents(), user_id@, msg_seq)),
    {
        let key = KvStorage::key_msg_kvt(user_id, msg_seq);
        match self.get(key.as_slice())? {
            Some(text) => match MessageValue::from_envelope_slice(text.as_slice()) {
                Ok(value) => Ok(Some(MessageKvt { text, value })),
                Err(SolarError::KuskaFeed(e)) => Err(KvError::Feed(e)),
                Err(_) => Err(KvError::Corrupt),
            },
            None => Ok(None),
        }
    }

    /// The message at a place of a feed, which an entry of the store says is
    /// there.
    fn referred_msg(&self, user_id: &str, msg_seq: u64) -> (res: Result<MessageValue, KvError>)
        requires
            self.is_open(),
        ensures
            res matches Ok(msg) ==> kvt_entry(self.contents(), user_id@, msg_seq) == Lookup::Found(
                msg.fields(),
            ),
            res matches Err(e) ==> e is Sled || (match kvt_entry(
                self.contents(),
                user_id@,
                msg_seq,
            ) {
                Lookup::Absent => e is Corrupt,
                entry => explains(e, entry),
            }),
    {
        match self.get_msg_kvt(user_id, msg_seq)? {
            Some(kvt) => Ok(kvt.value),
            None => Err(KvError::Corrupt),
        }
    }

    /// Get the message value for the given message ID (key).
    pub fn get_msg_val(&self, msg_id: &str) -> (res: Result<Option<MessageValue>, KvError>)
        requires
            self.is_open(),
        ensures
            res matches Ok(r) ==> is_message(r, msg_val_entry(self.contents(), msg_id@)),
            res matches Err(e) ==> explains(e, msg_val_entry(self.contents(), msg_id@)),
    {
        let key = KvStorage::key_msg_val(msg_id);
        match self.get(key.as_slice())? {
            Some(raw) => match decode_msg_ref(raw.as_slice()) {
                Some((pub_key, seq_num)) => {
                    let msg = self.referred_msg(pub_key.as_str(), seq_num)?;
                    Ok(Some(msg))
                },
                None => Err(KvError::Cbor),
            },
            None => Ok(None),
        }
    }

    /// Get the latest message value authored by the given public key.
    pub fn get_latest_msg_val(&self, user_id: &str) -> (res: Result<Option<MessageValue>, KvError>)
        requires
            self.is_open(),
        ensures
            res matches Ok(r) ==> is_message(r, latest_msg_entry(self.contents(), user_id@)),
            res matches Err(e) ==> explains(e, latest_msg_entry(self.contents(), user_id@)),
    {
        match self.get_latest_seq(user_id)? {
            Some(last_id) => {
                let msg = self.referred_msg(user_id, last_id)?;
                Ok(Some(msg))
            },
            None => Ok(None),
        }
    }

    /// Walks one partition of the store in the order of its keys.
    fn scan(&self, prefix: u8) -> (res: Result<Vec<(Vec<u8>, Vec<u8>)>, KvError>)
        requires
            self.is_open(),
            prefix < 255,
        ensures
            res matches Ok(items) ==> entries_of(items@) == partition_listing(
                self.contents(),
                prefix,
            ) && is_partition_listing(entries_of(items@), self.contents(), prefix),
            res matches Err(e) ==> e is Sled,
    {
        let mut start: Vec<u8> = Vec::new();
        start.push(prefix);
        let mut end: Vec<u8> = Vec::new();
        end.push(prefix + 1);
        assert(start@ =~= seq![prefix]);
        assert(end@ =~= seq![(prefix + 1) as u8]);
        match db_range(self.db.as_ref().unwrap(), start.as_slice(), end.as_slice()) {
            Err(e) => Err(KvError::Sled(e)),
            Ok(items) => {
                proof {
                    lemma_partition_walk(entries_of(items@), self.contents(), prefix);
                }
                Ok(items)
            },
        }
    }

    /// Get a list of IDs for all blobs which have not yet been retrieved,
    /// in the order of their keys.
    pub fn get_pending_blobs(&self) -> (res: Result<Vec<String>, KvError>)
        requires
            self.is_open(),
        ensures
            res matches Ok(list) ==> pending_ids(
                partition_listing(self.contents(), PREFIX_BLOB),
            ) == Some(texts_of(list@)),
            res is Ok ==> is_partition_listing(
                partition_listing(self.contents(), PREFIX_BLOB),
                self.contents(),
                PREFIX_BLOB,
            ),
            res matches Err(e) ==> e is Sled || (e is Cbor && pending_ids(
                partition_listing(self.contents(), PREFIX_BLOB),
            ) is None),
    {
        let items = self.scan(PREFIX_BLOB)?;
        proof {
            let s = entries_of(items@);
            assert forall|i: int| 0 <= i < items@.len() implies (#[trigger] items@[i]).0@.len()
                > 0 by {
                assert(in_partition(s[i].0, PREFIX_BLOB));
            }
        }
        pending_blobs(&items)
    }

    /// Return the public key of every peer in the database, in the order of
    /// the keys, each with the sequence number that the next message of its
    /// feed must carry.
    pub fn get_peers(&self) -> (res: Result<Vec<PubKeyAndSeqNum>, KvError>)
        requires
            self.is_open(),
        ensures
            res matches Ok(peers) ==> peers_of(
                partition_listing(self.contents(), PREFIX_PEER),
                self.contents(),
            ) == Some(peers_view(peers@)),
            res is Ok ==> is_partition_listing(
                partition_listing(self.contents(), PREFIX_PEER),
                self.contents(),
                PREFIX_PEER,
            ),
            res matches Err(e) ==> e is Sled || ((e is Corrupt || e is InvalidSequence)
                && peers_of(partition_listing(self.contents(), PREFIX_PEER), self.contents())
                is None),
    {
        let items = self.scan(PREFIX_PEER)?;
        let ghost s = entries_of(items@);
        let mut peers: Vec<PubKeyAndSeqNum> = Vec::new();
        let mut i: usize = 0;
        while i < items.len()
            invariant
                0 <= i <= items@.len(),
                self.is_open(),
                s == entries_of(items@),
                s == partition_listing(self.contents(), PREFIX_PEER),
                is_partition_listing(s, self.contents(), PREFIX_PEER),
                peers_of(s.take(i as int), self.contents()) == Some(peers_view(peers@)),
            decreases items.len() - i,
        {
            let ghost before = peers_view(peers@);
            assert(s.take(i + 1).drop_last() =~= s.take(i as int));
            assert(s.take(i + 1).last() == s[i as int]);
            // Drop the prefix byte and convert the remaining bytes to
            // a string.
            let key = items[i].0.as_slice();
            let pub_key = string_from_utf8_lossy(slice_subrange(key, 1, key.len()));
            assert(key@.subrange(1, key@.len() as int) =~= key@.skip(1));
            // Get the latest sequence number for the peer.
            let seq_num: u64 = match self.get_latest_seq(pub_key.as_str()) {
                Ok(latest) => match next_sequence(latest) {
                    Some(next) => next,
                    None => {
                        proof {
                            assert(next_seq(self.contents(), key_text(s[i as int].0)) is None);
                            assert(peers_of(s.take(i + 1), self.contents()) is None);
                            lemma_peers_of_fail(s, self.contents(), i + 1);
                        }
                        return Err(KvError::InvalidSequence);
                    },
                },
                Err(e) => {
                    proof {
                        if !(e is Sled) {
                            assert(next_seq(self.contents(), key_text(s[i as int].0)) is None);
                            assert(peers_of(s.take(i + 1), self.contents()) is None);
                            lemma_peers_of_fail(s, self.contents(), i + 1);
                        }
                    }
                    return Err(e);
                },
            };
            peers.push(PubKeyAndSeqNum { pub_key, seq_num });
            assert(peers_view(peers@) =~= before.push((key_text(s[i as int].0), seq_num)));
            i += 1;
        }
        assert(s.take(items@.len() as int) =~= s);
        Ok(peers)
    }

    /// Append a message value to a feed.
    ///
    /// The message must be the next of its author's feed. If it is not,
    /// the store is left as it was. Otherwise the message is stored in one
    /// batch, what was written is flushed, and the event to publish is
    /// handed back.
    ///
    /// `Corrupt` says that the latest sequence number of the author does
    /// not read, or that the message was due and the envelope that the
    /// feed primitive wrote for it is in no shape to be read back; the
    /// store is then as it was. After a failure of the database nothing is
    /// known of the store.
    pub fn append_feed(&mut self, msg_val: &MessageValue) -> (res: Result<Appended, KvError>)
        requires
            old(self).is_open(),
        ensures
            final(self).is_open(),
            append_made(old(self).contents(), msg_val.fields(), res, final(self).contents()),
    {
        let author = msg_val.author();
        let wanted = msg_val.sequence();
        let seq_num: u64 = match next_sequence(self.get_latest_seq(author.as_str())?) {
            Some(next) => next,
            None => {
                return Err(KvError::InvalidSequence);
            },
        };
        if wanted != seq_num {
            return Err(KvError::InvalidSequence);
        }
        let kvt = match msg_val.to_envelope() {
            Some(kvt) => kvt,
            None => {
                return Err(KvError::Corrupt);
            },
        };

        // The reference from the identifier, the envelope, the latest
        // sequence number and the entry among the peers are written as one.
        let mut batch = batch_new();
        let msg_ref = encode_msg_ref(author.as_str(), seq_num);
        let key = KvStorage::key_msg_val(msg_val.id().as_str());
        batch_insert(&mut batch, key.as_slice(), msg_ref.as_slice());

        let key = KvStorage::key_msg_kvt(author.as_str(), seq_num);
        batch_insert(&mut batch, key.as_slice(), kvt.as_str().as_bytes());

        let digits = u64_to_be_bytes(seq_num);
        let key = KvStorage::key_latest_seq(author.as_str());
        batch_insert(&mut batch, key.as_slice(), digits.as_slice());

        let key = KvStorage::key_peer(author.as_str());
        batch_insert(&mut batch, key.as_slice(), digits.as_slice());

        let ghost before = self.contents();
        match db_apply_batch(self.db.as_mut().unwrap(), batch) {
            Ok(()) => {},
            Err(e) => {
                return Err(KvError::Sled(e));
            },
        }
        assert(self.contents() =~= appended(
            before,
            msg_val.fields().author,
            seq_num,
            msg_val.fields().id,
            encode_utf8(kvt@),
        ));

        match db_flush(self.db.as_ref().unwrap()) {
            Ok(()) => {},
            Err(e) => {
                return Err(KvError::Sled(e));
            },
        }
        Ok(Appended { seq_num, kvt, event: StoKvEvent::IdChanged(author.clone()) })
    }

    /// Add the public key and latest sequence number of a peer to the list of
    /// peers.
    pub fn set_peer(&mut self, user_id: &str, latest_seq: u64) -> (res: Result<(), KvError>)
        requires
            old(self).is_open(),
        ensures
            final(self).is_open(),
            res is Ok ==> final(self).contents() == old(self).contents().insert(
                peer_key(user_id@),
                be_bytes(latest_seq as nat, 8),
            ),
            res matches Err(e) ==> e is Sled,
    {
        let key = KvStorage::key_peer(user_id);
        let value = u64_to_be_bytes(latest_seq);
        self.put(key.as_slice(), value.as_slice())
    }
}

} // verus!
