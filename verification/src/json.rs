//! JSON objects with integer members, as the wire carries them: blob wants,
//! blob haves and vector clocks. The text itself is read and written by
//! `serde_json`; this module names what a text denotes and relates lists of
//! pairs to that meaning.

use vstd::prelude::*;
use std::collections::HashMap;

verus! {

#[verifier::external_type_specification]
#[verifier::external_body]
pub struct ExJsonError(serde_json::Error);

/// The mapping that a JSON text denotes when it is one object whose members
/// are all integers; `None` for every other text. Where a key is repeated,
/// the last member counts. It is what `serde_json::from_slice` reads from
/// the text; of a text that `serde_json::to_vec` wrote, the contracts say
/// what is read back from it.
pub uninterp spec fn json_int_object(text: Seq<u8>) -> Option<Map<Seq<char>, int>>;

/// The mapping that a list of pairs stands for. A later pair replaces an
/// earlier one with the same key.
pub open spec fn pairs_map(s: Seq<(Seq<char>, int)>) -> Map<Seq<char>, int>
    decreases s.len(),
{
    if s.len() == 0 {
        Map::empty()
    } else {
        pairs_map(s.drop_last()).insert(s.last().0, s.last().1)
    }
}

/// No key occurs twice.
pub open spec fn distinct_keys(s: Seq<(Seq<char>, int)>) -> bool {
    forall|i: int, j: int| 0 <= i < j < s.len() ==> s[i].0 != s[j].0
}

/// Every value of the mapping lies between `lo` and `hi`.
pub open spec fn values_within(m: Map<Seq<char>, int>, lo: int, hi: int) -> bool {
    forall|k: Seq<char>| m.dom().contains(k) ==> lo <= #[trigger] m[k] <= hi
}

/// A list of pairs with 64-bit signed values, as contracts see it.
pub open spec fn pairs_of_i64(v: Seq<(String, i64)>) -> Seq<(Seq<char>, int)> {
    Seq::new(v.len(), |i: int| (v[i].0@, v[i].1 as int))
}

/// A list of pairs with 64-bit unsigned values, as contracts see it.
pub open spec fn pairs_of_u64(v: Seq<(String, u64)>) -> Seq<(Seq<char>, int)> {
    Seq::new(v.len(), |i: int| (v[i].0@, v[i].1 as int))
}

/// A list of pairs with 32-bit signed values, as contracts see it.
pub open spec fn pairs_of_i32(v: Seq<(String, i32)>) -> Seq<(Seq<char>, int)> {
    Seq::new(v.len(), |i: int| (v[i].0@, v[i].1 as int))
}

/// A key is in the mapping of a list exactly when some pair carries it.
pub proof fn lemma_pairs_map_dom(s: Seq<(Seq<char>, int)>, k: Seq<char>)
    ensures
        pairs_map(s).dom().contains(k) <==> exists|i: int| 0 <= i < s.len() && #[trigger] s[i].0 == k,
    decreases s.len(),
{
    if s.len() > 0 {
        let t = s.drop_last();
        lemma_pairs_map_dom(t, k);
        if pairs_map(s).dom().contains(k) {
            if s.last().0 == k {
                assert(s[s.len() - 1].0 == k);
            } else {
                let i = choose|i: int| 0 <= i < t.len() && #[trigger] t[i].0 == k;
                assert(s[i].0 == k);
            }
        }
        if exists|i: int| 0 <= i < s.len() && #[trigger] s[i].0 == k {
            let i = choose|i: int| 0 <= i < s.len() && #[trigger] s[i].0 == k;
            if i < t.len() {
                assert(t[i].0 == k);
            }
        }
    }
}

/// With distinct keys, every pair of the list is a member of its mapping.
pub proof fn lemma_pairs_map_value(s: Seq<(Seq<char>, int)>, i: int)
    requires
        distinct_keys(s),
        0 <= i < s.len(),
    ensures
        pairs_map(s).dom().contains(s[i].0),
        pairs_map(s)[s[i].0] == s[i].1,
    decreases s.len(),
{
    let t = s.drop_last();
    if i < s.len() - 1 {
        assert(distinct_keys(t)) by {
            assert forall|a: int, b: int| 0 <= a < b < t.len() implies t[a].0 != t[b].0 by {
                assert(s[a].0 != s[b].0);
            }
        }
        lemma_pairs_map_value(t, i);
        assert(t[i] == s[i]);
        assert(s[i].0 != s[s.len() - 1].0);
    }
}

/// Reads a JSON text as an object of integers, through
/// `serde_json::from_slice` at the type `HashMap<String, i64>`, and hands the
/// members out as a list.
///
/// Trusted: the call succeeds exactly on the texts that denote an object of
/// integers that all fit in 64 signed bits; the list then holds each key
/// once and stands for the denoted mapping. The order of the list is that
/// of a hash map's walk, and nothing is claimed of it.
#[verifier::external_body]
pub(crate) fn parse_int_object(data: &[u8]) -> (res: Result<Vec<(String, i64)>, serde_json::Error>)
    ensures
        res is Ok <==> (json_int_object(data@) is Some && values_within(
            json_int_object(data@).unwrap(),
            i64::MIN as int,
            i64::MAX as int,
        )),
        res matches Ok(v) ==> distinct_keys(pairs_of_i64(v@)) && pairs_map(pairs_of_i64(v@))
            == json_int_object(data@).unwrap(),
{
    let members: HashMap<String, i64> = serde_json::from_slice(data)?;
    Ok(members.into_iter().collect())
}

/// Writes a list of pairs as a JSON object of signed integers, through
/// `serde_json::to_vec` on a `HashMap<String, i64>`.
///
/// Trusted: the call succeeds, and the text denotes the mapping of the
/// list. Writing fails only where a value refuses to be written, a key
/// of a map is no string, or the sink fails; strings, integers and a
/// vector of bytes do none of these. The order of the members in the text
/// is that of a hash map's walk, so the text itself is not fixed.
#[verifier::external_body]
pub(crate) fn encode_int_object(entries: &Vec<(String, i64)>) -> (res: Result<Vec<u8>, serde_json::Error>)
    ensures
        res is Ok,
        res matches Ok(text) ==> json_int_object(text@) == Some(pairs_map(pairs_of_i64(entries@))),
{
    let members: HashMap<String, i64> = entries.iter().cloned().collect();
    serde_json::to_vec(&members)
}

/// Writes a list of pairs as a JSON object of unsigned integers, through
/// `serde_json::to_vec` on a `HashMap<String, u64>`.
///
/// Trusted: the call succeeds, for the reasons given above, and the text
/// denotes the mapping of the list.
#[verifier::external_body]
pub(crate) fn encode_size_object(entries: &Vec<(String, u64)>) -> (res: Result<Vec<u8>, serde_json::Error>)
    ensures
        res is Ok,
        res matches Ok(text) ==> json_int_object(text@) == Some(pairs_map(pairs_of_u64(entries@))),
{
    let members: HashMap<String, u64> = entries.iter().cloned().collect();
    serde_json::to_vec(&members)
}

} // verus!
