//! Content addressing of blobs.
//!
//! A blob is named by the SHA-256 digest of its bytes. The bytes themselves
//! live in files that the node's blob store keeps; this module computes the
//! name under which they are kept and states what holds of a store that
//! keeps every blob under its own name.

use vstd::prelude::*;
use vstd::string::StringExecFns;

verus! {

/// A blob with this identifier was added to the blob store.
#[derive(Clone, Debug)]
pub struct StoreBlobEvent(pub String);

/// The SHA-256 digest of a byte string.
pub uninterp spec fn sha256_digest(data: Seq<u8>) -> Seq<u8>;

/// The base64 text of a byte string, in the standard alphabet with padding.
pub uninterp spec fn base64_text(data: Seq<u8>) -> Seq<char>;

/// The identifier of a blob: `&`, the base64 of the digest, `.sha256`.
pub open spec fn blob_id_of(data: Seq<u8>) -> Seq<char> {
    "&"@ + base64_text(sha256_digest(data)) + ".sha256"@
}

/// Hashes bytes with `kuska_ssb::crypto::sha256::hash`.
///
/// Trusted: the result is the SHA-256 digest of the bytes, 32 bytes long.
#[verifier::external_body]
fn sha256_hash(data: &[u8]) -> (digest: Vec<u8>)
    ensures
        digest@ == sha256_digest(data@),
        digest@.len() == 32,
{
    kuska_ssb::crypto::sha256::hash(data).0.to_vec()
}

/// Writes bytes as base64 with `base64::encode`.
///
/// Trusted: the result is the standard base64 text of the bytes.
#[verifier::external_body]
fn base64_encode(data: &[u8]) -> (text: String)
    ensures
        text@ == base64_text(data@),
{
    base64::encode(data)
}

/// The identifier under which the blob store keeps these bytes.
pub fn blob_hash_id(data: &[u8]) -> (id: String)
    ensures
        id@ == blob_id_of(data@),
{
    let digest = sha256_hash(data);
    let text = base64_encode(digest.as_slice());
    let id = String::from_str("&").concat(text.as_str()).concat(".sha256");
    id
}

/// A blob store: the bytes kept under each identifier.
pub type BlobStore = Map<Seq<char>, Seq<u8>>;

/// Every blob is kept under the identifier of its own bytes.
pub open spec fn blobs_wf(store: BlobStore) -> bool {
    forall|id: Seq<char>| store.dom().contains(id) ==> blob_id_of(#[trigger] store[id]) == id
}

/// The store after these bytes were inserted.
pub open spec fn blobs_insert(store: BlobStore, data: Seq<u8>) -> BlobStore {
    store.insert(blob_id_of(data), data)
}

/// The size of a blob, where the store holds it.
pub open spec fn blobs_size_of(store: BlobStore, id: Seq<char>) -> Option<nat> {
    if store.dom().contains(id) {
        Some(store[id].len())
    } else {
        None
    }
}

/// An insert keeps every blob under its own identifier, and the inserted
/// bytes are found under theirs with their length.
pub proof fn lemma_insert_keeps_blobs_wf(store: BlobStore, data: Seq<u8>)
    requires
        blobs_wf(store),
    ensures
        blobs_wf(blobs_insert(store, data)),
        blobs_size_of(blobs_insert(store, data), blob_id_of(data)) == Some(data.len()),
{
}

/// Where a store that keeps every blob under its own identifier reports a
/// size for an identifier, the bytes it holds there hash to that identifier
/// and have that length.
pub proof fn lemma_size_of_names_content(store: BlobStore, id: Seq<char>, n: nat)
    requires
        blobs_wf(store),
        blobs_size_of(store, id) == Some(n),
    ensures
        store.dom().contains(id),
        blob_id_of(store[id]) == id,
        store[id].len() == n,
{
}

} // verus!
