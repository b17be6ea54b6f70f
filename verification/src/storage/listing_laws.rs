//! What holds of the lists that the store hands out: the pending blobs and
//! the peers.
//!
//! A store that was filled through `set_blob`, `set_peer` and `append_feed`
//! holds, in the partitions of the blobs and of the peers, only keys that
//! were made of texts. Of such a store the lists name exactly what the
//! lookups find, in the order of the keys.

use vstd::prelude::*;
use vstd::utf8::{encode_utf8, valid_utf8};
use crate::storage::codec::blob_status_of;
use crate::storage::kv::{
    appended, blob_entry, blob_key, bytes_lt, in_partition, is_partition_listing, key_text,
    lemma_bytes_lt_irreflexive, lemma_key_of_key_text, lemma_key_text_of_key, next_seq,
    peer_key, peers_of, pending_ids, Contents, Lookup, PREFIX_BLOB, PREFIX_PEER,
};
use crate::storage::feed_laws::lemma_key_prefixes;

verus! {

/// Every key of the partition was made of a text: what follows the prefix
/// is well-formed UTF-8.
pub open spec fn holds_texts(m: Contents, prefix: u8) -> bool {
    forall|k: Seq<u8>| #[trigger]
        m.dom().contains(k) && in_partition(k, prefix) ==> valid_utf8(k.skip(1))
}

/// Entries of one partition, in the order of their keys, each key made of
/// a text.
pub open spec fn text_sorted(s: Seq<(Seq<u8>, Seq<u8>)>, prefix: u8) -> bool {
    &&& forall|i: int|
        0 <= i < s.len() ==> in_partition((#[trigger] s[i]).0, prefix) && valid_utf8(s[i].0.skip(1))
    &&& forall|i: int, j: int| 0 <= i < j < s.len() ==> bytes_lt(#[trigger] s[i].0, #[trigger] s[j].0)
}

/// The stored status reads, and says that the blob has not been retrieved.
pub open spec fn unretrieved(raw: Seq<u8>) -> bool {
    blob_status_of(raw) matches Some(status) && !status.0
}

/// The pending blobs of sorted entries are the identifiers of the entries
/// whose status is not retrieved, in the order of the entries.
proof fn lemma_pending_ids_of_sorted(s: Seq<(Seq<u8>, Seq<u8>)>)
    requires
        text_sorted(s, PREFIX_BLOB),
        pending_ids(s) is Some,
    ensures
        forall|a: int|
            0 <= a < pending_ids(s).unwrap().len() ==> exists|i: int|
                0 <= i < s.len() && (#[trigger] s[i]).0 == blob_key(
                    #[trigger] pending_ids(s).unwrap()[a],
                ) && unretrieved(s[i].1),
        forall|a: int, b: int|
            0 <= a < b < pending_ids(s).unwrap().len() ==> bytes_lt(
                blob_key(#[trigger] pending_ids(s).unwrap()[a]),
                blob_key(#[trigger] pending_ids(s).unwrap()[b]),
            ),
        forall|i: int|
            0 <= i < s.len() && unretrieved((#[trigger] s[i]).1) ==> exists|a: int|
                0 <= a < pending_ids(s).unwrap().len() && #[trigger] pending_ids(s).unwrap()[a]
                    == key_text(s[i].0),
    decreases s.len(),
{
    let ids = pending_ids(s).unwrap();
    if s.len() > 0 {
        let rest = s.drop_last();
        let before = pending_ids(rest).unwrap();
        let last = s.len() - 1;
        assert(text_sorted(rest, PREFIX_BLOB)) by {
            assert forall|i: int| 0 <= i < rest.len() implies in_partition(
                (#[trigger] rest[i]).0,
                PREFIX_BLOB,
            ) && valid_utf8(rest[i].0.skip(1)) by {
                assert(rest[i] == s[i]);
            }
            assert forall|i: int, j: int| 0 <= i < j < rest.len() implies bytes_lt(
                #[trigger] rest[i].0,
                #[trigger] rest[j].0,
            ) by {
                assert(rest[i] == s[i] && rest[j] == s[j]);
            }
        }
        lemma_pending_ids_of_sorted(rest);
        lemma_key_of_key_text(s[last].0, PREFIX_BLOB);
        assert forall|a: int| 0 <= a < ids.len() implies exists|i: int|
            0 <= i < s.len() && (#[trigger] s[i]).0 == blob_key(#[trigger] ids[a]) && unretrieved(
                s[i].1,
            ) by {
            if a < before.len() {
                assert(ids[a] == before[a]);
                let i = choose|i: int|
                    0 <= i < rest.len() && (#[trigger] rest[i]).0 == blob_key(before[a])
                        && unretrieved(rest[i].1);
                assert(s[i] == rest[i]);
            } else {
                assert(s[last].0 == blob_key(ids[a]));
            }
        }
        assert forall|a: int, b: int| 0 <= a < b < ids.len() implies bytes_lt(
            blob_key(#[trigger] ids[a]),
            blob_key(#[trigger] ids[b]),
        ) by {
            assert(ids[a] == before[a]);
            if b < before.len() {
                assert(ids[b] == before[b]);
            } else {
                let i = choose|i: int|
                    0 <= i < rest.len() && (#[trigger] rest[i]).0 == blob_key(before[a])
                        && unretrieved(rest[i].1);
                assert(s[i] == rest[i]);
                assert(bytes_lt(s[i].0, s[last].0));
            }
        }
        assert forall|i: int| 0 <= i < s.len() && unretrieved((#[trigger] s[i]).1) implies exists|
            a: int,
        | 0 <= a < ids.len() && #[trigger] ids[a] == key_text(s[i].0) by {
            if i < last {
                assert(rest[i] == s[i]);
                let a = choose|a: int|
                    0 <= a < before.len() && #[trigger] before[a] == key_text(rest[i].0);
                assert(ids[a] == before[a]);
            } else {
                assert(ids[ids.len() - 1] == key_text(s[i].0));
            }
        }
    }
}

/// Of a store whose blob keys were made of texts, the list of pending
/// blobs names a blob exactly when the store finds its status and the
/// status says that it has not been retrieved. The list follows the order
/// of the keys, so it names no blob twice.
pub proof fn lemma_pending_blobs_listed(m: Contents, s: Seq<(Seq<u8>, Seq<u8>)>, id: Seq<char>)
    requires
        is_partition_listing(s, m, PREFIX_BLOB),
        holds_texts(m, PREFIX_BLOB),
        pending_ids(s) is Some,
    ensures
        pending_ids(s).unwrap().contains(id) <==> (blob_entry(m, id) matches Lookup::Found(status)
            && !status.0),
        forall|a: int, b: int|
            0 <= a < b < pending_ids(s).unwrap().len() ==> bytes_lt(
                blob_key(#[trigger] pending_ids(s).unwrap()[a]),
                blob_key(#[trigger] pending_ids(s).unwrap()[b]),
            ),
        forall|a: int, b: int|
            0 <= a < b < pending_ids(s).unwrap().len() ==> #[trigger] pending_ids(s).unwrap()[a]
                != #[trigger] pending_ids(s).unwrap()[b],
{
    let ids = pending_ids(s).unwrap();
    assert(text_sorted(s, PREFIX_BLOB));
    lemma_pending_ids_of_sorted(s);
    lemma_key_prefixes(id, 0);
    lemma_key_text_of_key(PREFIX_BLOB, id);
    if ids.contains(id) {
        let a = choose|a: int| 0 <= a < ids.len() && ids[a] == id;
        let i = choose|i: int|
            0 <= i < s.len() && (#[trigger] s[i]).0 == blob_key(ids[a]) && unretrieved(s[i].1);
        assert(m[s[i].0] == s[i].1);
    }
    if blob_entry(m, id) matches Lookup::Found(status) && !status.0 {
        assert(in_partition(blob_key(id), PREFIX_BLOB));
        let i = choose|i: int| 0 <= i < s.len() && #[trigger] s[i].0 == blob_key(id);
        assert(m[s[i].0] == s[i].1);
        assert(unretrieved(s[i].1));
        let a = choose|a: int| 0 <= a < ids.len() && #[trigger] ids[a] == key_text(s[i].0);
        assert(ids[a] == id);
    }
    assert forall|a: int, b: int| 0 <= a < b < ids.len() implies #[trigger] ids[a]
        != #[trigger] ids[b] by {
        lemma_bytes_lt_irreflexive(blob_key(ids[a]));
    }
}

/// The peers of a listing stand one for each entry, in the order of the
/// entries, each under the identifier in its key.
proof fn lemma_peers_of_entries(s: Seq<(Seq<u8>, Seq<u8>)>, m: Contents)
    requires
        peers_of(s, m) is Some,
    ensures
        peers_of(s, m).unwrap().len() == s.len(),
        forall|i: int|
            0 <= i < s.len() ==> (#[trigger] peers_of(s, m).unwrap()[i]).0 == key_text(s[i].0)
                && Some(peers_of(s, m).unwrap()[i].1) == next_seq(m, key_text(s[i].0)),
    decreases s.len(),
{
    if s.len() > 0 {
        let rest = s.drop_last();
        lemma_peers_of_entries(rest, m);
        let peers = peers_of(s, m).unwrap();
        let before = peers_of(rest, m).unwrap();
        assert forall|i: int| 0 <= i < s.len() implies (#[trigger] peers[i]).0 == key_text(s[i].0)
            && Some(peers[i].1) == next_seq(m, key_text(s[i].0)) by {
            if i < rest.len() {
                assert(peers[i] == before[i]);
                assert(rest[i] == s[i]);
            }
        }
    }
}

/// Of a store whose peer keys were made of texts, the list of peers names
/// an author exactly when the store holds the author's entry among the
/// peers. It names each once, in the order of the keys, with the sequence
/// number that the next message of the author's feed must carry.
pub proof fn lemma_peers_listed(m: Contents, s: Seq<(Seq<u8>, Seq<u8>)>, author: Seq<char>)
    requires
        is_partition_listing(s, m, PREFIX_PEER),
        holds_texts(m, PREFIX_PEER),
        peers_of(s, m) is Some,
    ensures
        (exists|i: int|
            0 <= i < peers_of(s, m).unwrap().len() && (#[trigger] peers_of(s, m).unwrap()[i]).0
                == author) <==> m.dom().contains(peer_key(author)),
        forall|i: int|
            0 <= i < peers_of(s, m).unwrap().len() ==> Some(
                (#[trigger] peers_of(s, m).unwrap()[i]).1,
            ) == next_seq(m, peers_of(s, m).unwrap()[i].0),
        forall|i: int, j: int|
            0 <= i < j < peers_of(s, m).unwrap().len() ==> bytes_lt(
                peer_key((#[trigger] peers_of(s, m).unwrap()[i]).0),
                peer_key((#[trigger] peers_of(s, m).unwrap()[j]).0),
            ),
{
    let peers = peers_of(s, m).unwrap();
    lemma_peers_of_entries(s, m);
    lemma_key_prefixes(author, 0);
    lemma_key_text_of_key(PREFIX_PEER, author);
    assert forall|i: int| 0 <= i < s.len() implies #[trigger] s[i].0 == peer_key(peers[i].0) by {
        lemma_key_of_key_text(s[i].0, PREFIX_PEER);
    }
    if exists|i: int| 0 <= i < peers.len() && (#[trigger] peers[i]).0 == author {
        let i = choose|i: int| 0 <= i < peers.len() && (#[trigger] peers[i]).0 == author;
        assert(s[i].0 == peer_key(author));
        assert(m.dom().contains(s[i].0));
    }
    if m.dom().contains(peer_key(author)) {
        assert(in_partition(peer_key(author), PREFIX_PEER));
        let i = choose|i: int| 0 <= i < s.len() && #[trigger] s[i].0 == peer_key(author);
        assert(peers[i].0 == key_text(s[i].0));
    }
    assert forall|i: int, j: int| 0 <= i < j < peers.len() implies bytes_lt(
        peer_key((#[trigger] peers[i]).0),
        peer_key((#[trigger] peers[j]).0),
    ) by {
        assert(s[i].0 == peer_key(peers[i].0));
        assert(s[j].0 == peer_key(peers[j].0));
        assert(bytes_lt(s[i].0, s[j].0));
    }
}

/// An empty store holds only keys that were made of texts.
pub proof fn lemma_empty_store_holds_texts(prefix: u8)
    ensures
        holds_texts(Map::empty(), prefix),
{
}

/// Writing under a key that was made of a text leaves every key of the
/// partition made of a text. So `set_blob` and `set_peer` do.
pub proof fn lemma_text_key_keeps_texts(
    m: Contents,
    prefix: u8,
    at: u8,
    id: Seq<char>,
    value: Seq<u8>,
)
    requires
        holds_texts(m, prefix),
    ensures
        holds_texts(m.insert(seq![at] + encode_utf8(id), value), prefix),
{
    lemma_key_text_of_key(at, id);
}

/// An append leaves every key of the blobs and of the peers made of a
/// text.
pub proof fn lemma_append_keeps_texts(
    m: Contents,
    author: Seq<char>,
    seq: u64,
    id: Seq<char>,
    kvt: Seq<u8>,
)
    requires
        holds_texts(m, PREFIX_BLOB),
        holds_texts(m, PREFIX_PEER),
    ensures
        holds_texts(appended(m, author, seq, id, kvt), PREFIX_BLOB),
        holds_texts(appended(m, author, seq, id, kvt), PREFIX_PEER),
{
    lemma_key_prefixes(author, seq);
    lemma_key_prefixes(id, seq);
    lemma_key_text_of_key(PREFIX_PEER, author);
}

} // verus!
