//! What holds of the feeds in the store, whatever is appended to them.
//!
//! The statements are over the contents of a store as a mapping from keys
//! to values, and over `appended`, the contents after `append_feed`
//! succeeded.

use vstd::prelude::*;
use vstd::set_lib::{lemma_int_range, set_int_range};
use vstd::utf8::encode_utf8;
use crate::feed::{envelope_reading, MessageFields, Reading};
use crate::storage::codec::{
    be_bytes, lemma_be_bytes_len, lemma_be_value_of_bytes, lemma_msg_ref_round_trip,
    lemma_pow256_values, msg_ref_item, text_fits,
};
use crate::storage::kv::{
    append_made, appended, blob_key, envelope_unusable, kvt_entry, latest_msg_entry,
    latest_seq_entry, latest_seq_key, msg_kvt_key, msg_val_entry, msg_val_key, next_seq,
    peer_key, Appended, Contents, KvError, Lookup,
};

verus! {

/// The latest sequence number of an author's feed, zero where the store
/// holds none.
pub open spec fn latest_or_zero(m: Contents, author: Seq<char>) -> u64 {
    match latest_seq_entry(m, author) {
        Lookup::Found(n) => n,
        _ => 0,
    }
}

/// The feed of an author is dense: the store holds an envelope at exactly
/// the places from one up to the latest sequence number.
pub open spec fn feed_dense(m: Contents, author: Seq<char>) -> bool {
    &&& !(latest_seq_entry(m, author) is Broken)
    &&& forall|s: u64| #[trigger]
        m.dom().contains(msg_kvt_key(author, s)) <==> 1 <= s <= latest_or_zero(m, author)
}

/// The places of an author's feed at which the store holds an envelope.
pub open spec fn stored_places(m: Contents, author: Seq<char>) -> Set<int> {
    Set::new(|s: int| 0 <= s <= u64::MAX && m.dom().contains(msg_kvt_key(author, s as u64)))
}

/// Texts with the same UTF-8 bytes are the same text.
pub proof fn lemma_utf8_injective(a: Seq<char>, b: Seq<char>)
    requires
        encode_utf8(a) == encode_utf8(b),
    ensures
        a == b,
{
    broadcast use vstd::utf8::encode_utf8_decode_utf8;

    assert(vstd::utf8::decode_utf8(encode_utf8(a)) == a);
    assert(vstd::utf8::decode_utf8(encode_utf8(b)) == b);
}

/// Keys of one prefix and different texts differ.
pub proof fn lemma_text_key_injective(prefix: u8, a: Seq<char>, b: Seq<char>)
    requires
        seq![prefix] + encode_utf8(a) == seq![prefix] + encode_utf8(b),
    ensures
        a == b,
{
    let ka = seq![prefix] + encode_utf8(a);
    let kb = seq![prefix] + encode_utf8(b);
    assert(ka.skip(1) =~= encode_utf8(a));
    assert(kb.skip(1) =~= encode_utf8(b));
    lemma_utf8_injective(a, b);
}

/// Envelope keys of different places or different authors differ.
pub proof fn lemma_msg_kvt_key_injective(a: Seq<char>, s: u64, b: Seq<char>, t: u64)
    requires
        msg_kvt_key(a, s) == msg_kvt_key(b, t),
    ensures
        a == b,
        s == t,
{
    let ka = msg_kvt_key(a, s);
    let kb = msg_kvt_key(b, t);
    lemma_be_bytes_len(s as nat, 8);
    lemma_be_bytes_len(t as nat, 8);
    lemma_pow256_values();
    lemma_be_value_of_bytes(s as nat, 8);
    lemma_be_value_of_bytes(t as nat, 8);
    assert(ka.subrange(1, 9) =~= be_bytes(s as nat, 8));
    assert(kb.subrange(1, 9) =~= be_bytes(t as nat, 8));
    assert(ka.skip(9) =~= encode_utf8(a));
    assert(kb.skip(9) =~= encode_utf8(b));
    lemma_utf8_injective(a, b);
}

/// The first byte of a key tells its partition.
pub proof fn lemma_key_prefixes(a: Seq<char>, s: u64)
    ensures
        latest_seq_key(a)[0] == 0,
        msg_kvt_key(a, s)[0] == 1,
        msg_val_key(a)[0] == 2,
        blob_key(a)[0] == 3,
        peer_key(a)[0] == 4,
{
    lemma_be_bytes_len(s as nat, 8);
}

/// An append leaves the latest sequence number of every other author as it
/// was, and sets that of the message's author to the message's.
pub proof fn lemma_append_sets_latest(
    m: Contents,
    author: Seq<char>,
    seq: u64,
    id: Seq<char>,
    kvt: Seq<u8>,
    other: Seq<char>,
)
    ensures
        latest_seq_entry(appended(m, author, seq, id, kvt), author) == Lookup::Found(seq),
        other != author ==> latest_seq_entry(appended(m, author, seq, id, kvt), other)
            == latest_seq_entry(m, other),
{
    lemma_key_prefixes(author, seq);
    lemma_key_prefixes(id, seq);
    lemma_key_prefixes(other, seq);
    lemma_be_bytes_len(seq as nat, 8);
    lemma_pow256_values();
    lemma_be_value_of_bytes(seq as nat, 8);
    if other != author && latest_seq_key(other) == latest_seq_key(author) {
        lemma_text_key_injective(0, other, author);
    }
}

/// An append keeps every feed dense: for every author the store holds an
/// envelope at each place from one up to the latest sequence number, and at
/// no other.
pub proof fn lemma_append_keeps_feeds_dense(
    m: Contents,
    author: Seq<char>,
    seq: u64,
    id: Seq<char>,
    kvt: Seq<u8>,
    other: Seq<char>,
)
    requires
        feed_dense(m, other),
        next_seq(m, author) == Some(seq),
    ensures
        feed_dense(appended(m, author, seq, id, kvt), other),
{
    let after = appended(m, author, seq, id, kvt);
    lemma_append_sets_latest(m, author, seq, id, kvt, other);
    assert forall|s: u64| #[trigger]
        after.dom().contains(msg_kvt_key(other, s)) <==> 1 <= s <= latest_or_zero(
            after,
            other,
        ) by {
        lemma_key_prefixes(other, s);
        lemma_key_prefixes(author, seq);
        lemma_key_prefixes(id, seq);
        if msg_kvt_key(other, s) == msg_kvt_key(author, seq) {
            lemma_msg_kvt_key_injective(other, s, author, seq);
        }
        assert(m.dom().contains(msg_kvt_key(other, s)) <==> 1 <= s <= latest_or_zero(m, other));
    }
}

/// In a dense feed the latest sequence number is the number of stored
/// messages.
pub proof fn lemma_dense_feed_count(m: Contents, author: Seq<char>)
    requires
        feed_dense(m, author),
    ensures
        stored_places(m, author).finite(),
        stored_places(m, author).len() == latest_or_zero(m, author),
{
    let latest = latest_or_zero(m, author) as int;
    lemma_int_range(1, latest + 1);
    assert forall|s: int| stored_places(m, author).contains(s) <==> set_int_range(
        1,
        latest + 1,
    ).contains(s) by {
        if 0 <= s <= u64::MAX {
            assert(m.dom().contains(msg_kvt_key(author, s as u64)) <==> 1 <= s as u64 <= latest);
        }
    }
    assert(stored_places(m, author) =~= set_int_range(1, latest + 1));
}

/// After an append the store finds the message under its identifier, at
/// its place in the feed, and as the latest of its author.
pub proof fn lemma_appended_message_found(m: Contents, f: MessageFields, seq: u64, kvt: Seq<u8>)
    requires
        envelope_reading(kvt) == Reading::Message(f),
        f.sequence == Some(seq),
        text_fits(f.author),
    ensures
        msg_val_entry(appended(m, f.author, seq, f.id, kvt), f.id) == Lookup::Found(f),
        kvt_entry(appended(m, f.author, seq, f.id, kvt), f.author, seq) == Lookup::Found(f),
        latest_msg_entry(appended(m, f.author, seq, f.id, kvt), f.author) == Lookup::Found(f),
{
    let after = appended(m, f.author, seq, f.id, kvt);
    lemma_key_prefixes(f.author, seq);
    lemma_key_prefixes(f.id, seq);
    lemma_msg_ref_round_trip(f.author, seq);
    lemma_append_sets_latest(m, f.author, seq, f.id, kvt, f.author);
    assert(after[msg_val_key(f.id)] == msg_ref_item(f.author, seq));
    assert(after[msg_kvt_key(f.author, seq)] == kvt);
}

/// An append to a dense feed leaves every message that the store found
/// before under the identifier it had.
pub proof fn lemma_append_keeps_messages(
    m: Contents,
    author: Seq<char>,
    seq: u64,
    id: Seq<char>,
    kvt: Seq<u8>,
    other_id: Seq<char>,
    found: MessageFields,
)
    requires
        feed_dense(m, author),
        next_seq(m, author) == Some(seq),
        other_id != id,
        msg_val_entry(m, other_id) == Lookup::Found(found),
    ensures
        msg_val_entry(appended(m, author, seq, id, kvt), other_id) == Lookup::Found(found),
{
    let after = appended(m, author, seq, id, kvt);
    lemma_key_prefixes(author, seq);
    lemma_key_prefixes(id, seq);
    lemma_key_prefixes(other_id, seq);
    if msg_val_key(other_id) == msg_val_key(id) {
        lemma_text_key_injective(2, other_id, id);
    }
    assert(after[msg_val_key(other_id)] == m[msg_val_key(other_id)]);
    let place = crate::storage::codec::msg_ref_of(m[msg_val_key(other_id)]).unwrap();
    lemma_key_prefixes(place.0, place.1);
    assert(m.dom().contains(msg_kvt_key(place.0, place.1)));
    if msg_kvt_key(place.0, place.1) == msg_kvt_key(author, seq) {
        lemma_msg_kvt_key_injective(place.0, place.1, author, seq);
        assert(m.dom().contains(msg_kvt_key(author, seq)));
    }
    assert(after[msg_kvt_key(place.0, place.1)] == m[msg_kvt_key(place.0, place.1)]);
}

/// The store finds a checked message at every place of an author's feed,
/// from one up to the latest sequence number, and the message found at a
/// place names that author and that place.
pub open spec fn feed_readable(m: Contents, author: Seq<char>) -> bool {
    forall|s: u64|
        1 <= s <= latest_or_zero(m, author) ==> (#[trigger] kvt_entry(m, author, s) matches Lookup::Found(
            found,
        ) && found.author == author && found.sequence == Some(s))
}

/// An append keeps every feed readable: after it the store still finds, at
/// every place of every author's feed, a checked message of that author
/// and that place.
pub proof fn lemma_append_keeps_feeds_readable(
    m: Contents,
    f: MessageFields,
    seq: u64,
    kvt: Seq<u8>,
    other: Seq<char>,
)
    requires
        feed_readable(m, other),
        next_seq(m, f.author) == Some(seq),
        envelope_reading(kvt) == Reading::Message(f),
        f.sequence == Some(seq),
    ensures
        feed_readable(appended(m, f.author, seq, f.id, kvt), other),
{
    let after = appended(m, f.author, seq, f.id, kvt);
    lemma_append_sets_latest(m, f.author, seq, f.id, kvt, other);
    lemma_key_prefixes(f.author, seq);
    lemma_key_prefixes(f.id, seq);
    assert(after[msg_kvt_key(f.author, seq)] == kvt);
    assert forall|s: u64| 1 <= s <= latest_or_zero(after, other) implies (#[trigger] kvt_entry(
        after,
        other,
        s,
    ) matches Lookup::Found(found) && found.author == other && found.sequence == Some(s)) by {
        lemma_key_prefixes(other, s);
        if msg_kvt_key(other, s) == msg_kvt_key(f.author, seq) {
            lemma_msg_kvt_key_injective(other, s, f.author, seq);
        } else {
            assert(after[msg_kvt_key(other, s)] == m[msg_kvt_key(other, s)]);
            assert(kvt_entry(m, other, s) is Found);
        }
    }
}

/// An append leaves an identifier that the store does not know unknown,
/// unless it is the identifier of the appended message.
pub proof fn lemma_append_keeps_unknown(
    m: Contents,
    author: Seq<char>,
    seq: u64,
    id: Seq<char>,
    kvt: Seq<u8>,
    other_id: Seq<char>,
)
    requires
        msg_val_entry(m, other_id) is Absent,
        other_id != id,
    ensures
        msg_val_entry(appended(m, author, seq, id, kvt), other_id) is Absent,
{
    lemma_key_prefixes(author, seq);
    lemma_key_prefixes(id, seq);
    lemma_key_prefixes(other_id, seq);
    if msg_val_key(other_id) == msg_val_key(id) {
        lemma_text_key_injective(2, other_id, id);
    }
}

/// A message that is not the next of its author's feed is refused: the
/// call fails, with `InvalidSequence` where the latest sequence number of
/// the author reads and the database does not fail, and the store is as it
/// was unless the database failed.
pub proof fn lemma_out_of_order_is_refused(
    pre: Contents,
    f: MessageFields,
    res: Result<Appended, KvError>,
    post: Contents,
)
    requires
        append_made(pre, f, res, post),
        next_seq(pre, f.author) != f.sequence,
    ensures
        res is Err,
        res->Err_0 is InvalidSequence || res->Err_0 is Corrupt || res->Err_0 is Sled,
        !(res->Err_0 is Sled) ==> post == pre,
        !(latest_seq_entry(pre, f.author) is Broken) ==> res->Err_0 is InvalidSequence
            || res->Err_0 is Sled,
{
}

/// On an empty store the first message of a feed must carry the sequence
/// number one: a message with any other is refused with `InvalidSequence`,
/// unless the database fails, and the store stays empty.
pub proof fn lemma_first_message_must_be_one(
    f: MessageFields,
    res: Result<Appended, KvError>,
    post: Contents,
)
    requires
        append_made(empty_store(), f, res, post),
        f.sequence != Some(1u64),
    ensures
        res is Err,
        res->Err_0 is InvalidSequence || res->Err_0 is Sled,
        res->Err_0 is InvalidSequence ==> post == empty_store(),
{
    lemma_empty_store_dense(f.author);
}

/// A message that is the next of its author's feed is appended, unless
/// the database fails or the feed primitive writes an envelope that is in
/// no shape to be read back. After the append the latest sequence number
/// of the author is that of the message, one more than before, and the
/// store finds the message at that place and as the latest of the author.
pub proof fn lemma_next_message_is_appended(
    pre: Contents,
    f: MessageFields,
    res: Result<Appended, KvError>,
    post: Contents,
)
    requires
        append_made(pre, f, res, post),
        next_seq(pre, f.author) == f.sequence,
        f.sequence is Some,
    ensures
        res is Err ==> res->Err_0 is Sled || (res->Err_0 is Corrupt && envelope_unusable(f)),
        res matches Ok(out) ==> {
            &&& out.seq_num == latest_or_zero(pre, f.author) + 1
            &&& latest_seq_entry(post, f.author) == Lookup::Found(out.seq_num)
            &&& kvt_entry(post, f.author, out.seq_num) == Lookup::Found(f)
            &&& post[msg_kvt_key(f.author, out.seq_num)] == encode_utf8(out.kvt@)
        },
{
    if res is Ok {
        let out = res->Ok_0;
        let kvt = encode_utf8(out.kvt@);
        lemma_append_sets_latest(pre, f.author, out.seq_num, f.id, kvt, f.author);
        lemma_key_prefixes(f.author, out.seq_num);
        lemma_key_prefixes(f.id, out.seq_num);
        assert(post[msg_kvt_key(f.author, out.seq_num)] == kvt);
    }
}

/// Whatever `append_feed` returns, short of a failure of the database,
/// every feed is afterwards as dense and as readable as before: for every
/// author the store holds a checked message of that author at each place
/// from one up to the latest sequence number, and at no other place.
pub proof fn lemma_append_keeps_feeds(
    pre: Contents,
    f: MessageFields,
    res: Result<Appended, KvError>,
    post: Contents,
    other: Seq<char>,
)
    requires
        append_made(pre, f, res, post),
        !(res is Err && res->Err_0 is Sled),
        feed_dense(pre, other),
        feed_readable(pre, other),
    ensures
        feed_dense(post, other),
        feed_readable(post, other),
        stored_places(post, other).len() == latest_or_zero(post, other),
{
    if res is Ok {
        let out = res->Ok_0;
        let kvt = encode_utf8(out.kvt@);
        lemma_append_keeps_feeds_dense(pre, f.author, out.seq_num, f.id, kvt, other);
        lemma_append_keeps_feeds_readable(pre, f, out.seq_num, kvt, other);
    }
    lemma_dense_feed_count(post, other);
}

/// A store that holds nothing.
pub open spec fn empty_store() -> Contents {
    Map::empty()
}

/// The store after a run of appends to an empty store, each given by the
/// fields of its message and the envelope under which it was stored.
pub open spec fn after_appends(run: Seq<(MessageFields, Seq<u8>)>) -> Contents
    decreases run.len(),
{
    if run.len() == 0 {
        empty_store()
    } else {
        appended(
            after_appends(run.drop_last()),
            run.last().0.author,
            run.last().0.sequence.unwrap(),
            run.last().0.id,
            run.last().1,
        )
    }
}

/// Each append of the run was one that `append_feed` makes: the message
/// was the next of its author's feed and its envelope reads back as it.
pub open spec fn appends_in_order(run: Seq<(MessageFields, Seq<u8>)>) -> bool
    decreases run.len(),
{
    run.len() == 0 || {
        &&& appends_in_order(run.drop_last())
        &&& run.last().0.sequence is Some
        &&& next_seq(after_appends(run.drop_last()), run.last().0.author) == run.last().0.sequence
        &&& envelope_reading(run.last().1) == Reading::Message(run.last().0)
    }
}

/// The number of messages of an author in a run of appends.
pub open spec fn messages_of(run: Seq<(MessageFields, Seq<u8>)>, author: Seq<char>) -> nat
    decreases run.len(),
{
    if run.len() == 0 {
        0
    } else {
        messages_of(run.drop_last(), author) + (if run.last().0.author == author {
            1nat
        } else {
            0nat
        })
    }
}

/// After any run of successful appends to an empty store, with any number
/// of refused ones in between, the latest sequence number of every author
/// is the number of that author's messages that were appended; there is
/// none for an author without messages. Every feed is dense and readable.
pub proof fn lemma_latest_counts_appends(run: Seq<(MessageFields, Seq<u8>)>, author: Seq<char>)
    requires
        appends_in_order(run),
    ensures
        feed_dense(after_appends(run), author),
        feed_readable(after_appends(run), author),
        latest_or_zero(after_appends(run), author) == messages_of(run, author),
        latest_seq_entry(after_appends(run), author) == (if messages_of(run, author) == 0 {
            Lookup::<u64>::Absent
        } else {
            Lookup::Found(messages_of(run, author) as u64)
        }),
    decreases run.len(),
{
    if run.len() == 0 {
        lemma_empty_store_dense(author);
    } else {
        let before = after_appends(run.drop_last());
        let f = run.last().0;
        let seq = f.sequence.unwrap();
        lemma_latest_counts_appends(run.drop_last(), author);
        lemma_latest_counts_appends(run.drop_last(), f.author);
        lemma_append_sets_latest(before, f.author, seq, f.id, run.last().1, author);
        lemma_append_keeps_feeds_dense(before, f.author, seq, f.id, run.last().1, author);
        lemma_append_keeps_feeds_readable(before, f, seq, run.last().1, author);
    }
}

/// An empty store holds a dense feed for every author, with no message.
pub proof fn lemma_empty_store_dense(author: Seq<char>)
    ensures
        feed_dense(empty_store(), author),
        feed_readable(empty_store(), author),
        latest_or_zero(empty_store(), author) == 0,
        latest_seq_entry(empty_store(), author) is Absent,
        next_seq(empty_store(), author) == Some(1u64),
{
}

} // verus!
