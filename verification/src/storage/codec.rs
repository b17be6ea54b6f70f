//! Byte encodings of what the key-value store holds: big-endian integers,
//! and the two structured values in their binary object form.
//!
//! A structured value is a map of two text keys in the order of its fields.
//! Each item starts with a head that gives its kind and a count: the length
//! of a text, the number of items of a list, the value of an integer.
//! Writing always picks the shortest head; reading takes every width.

use vstd::prelude::*;
use vstd::slice::{slice_subrange, slice_to_vec};
use vstd::string::StrSliceExecFns;
use vstd::string::StringExecFns;
use vstd::utf8::{decode_utf8, encode_utf8, valid_utf8};

verus! {

/// 256 to the power of `n`.
pub open spec fn pow256(n: nat) -> nat
    decreases n,
{
    if n == 0 {
        1
    } else {
        256 * pow256((n - 1) as nat)
    }
}

/// The big-endian digits of `n` in base 256, `len` of them.
pub open spec fn be_bytes(n: nat, len: nat) -> Seq<u8>
    decreases len,
{
    if len == 0 {
        Seq::empty()
    } else {
        be_bytes(n / 256, (len - 1) as nat).push((n % 256) as u8)
    }
}

/// The number that big-endian digits in base 256 stand for.
pub open spec fn be_value(s: Seq<u8>) -> nat
    decreases s.len(),
{
    if s.len() == 0 {
        0
    } else {
        be_value(s.drop_last()) * 256 + s.last() as nat
    }
}

/// The powers of 256 at the widths of a count.
pub proof fn lemma_pow256_values()
    ensures
        pow256(0) == 1,
        pow256(1) == 0x100,
        pow256(2) == 0x1_0000,
        pow256(4) == 0x1_0000_0000,
        pow256(8) == 0x1_0000_0000_0000_0000,
{
    reveal_with_fuel(pow256, 9);
}

/// A number is written with as many digits as asked for.
pub proof fn lemma_be_bytes_len(n: nat, len: nat)
    ensures
        be_bytes(n, len).len() == len,
    decreases len,
{
    if len > 0 {
        lemma_be_bytes_len(n / 256, (len - 1) as nat);
    }
}

/// Digits stand for a number below 256 to the power of their count.
pub proof fn lemma_be_value_bound(s: Seq<u8>)
    ensures
        be_value(s) < pow256(s.len()),
    decreases s.len(),
{
    if s.len() > 0 {
        lemma_be_value_bound(s.drop_last());
    }
}

/// Reading the digits of a number gives the number back, where the digits
/// have room for it.
pub proof fn lemma_be_value_of_bytes(n: nat, len: nat)
    requires
        n < pow256(len),
    ensures
        be_value(be_bytes(n, len)) == n,
    decreases len,
{
    if len > 0 {
        let rest = be_bytes(n / 256, (len - 1) as nat);
        lemma_be_value_of_bytes(n / 256, (len - 1) as nat);
        assert(be_bytes(n, len).drop_last() =~= rest);
    }
}

/// Writing the number that digits stand for gives the digits back.
pub proof fn lemma_be_bytes_of_value(s: Seq<u8>)
    ensures
        be_bytes(be_value(s), s.len()) == s,
    decreases s.len(),
{
    if s.len() > 0 {
        lemma_be_bytes_of_value(s.drop_last());
        let v = be_value(s);
        assert(v / 256 == be_value(s.drop_last()));
        assert(v % 256 == s.last() as nat);
        assert(be_bytes(v, s.len()) =~= s);
    }
}

/// Writes the `len` lowest base-256 digits of a number, highest first.
pub fn uint_to_be_bytes(x: u64, len: usize) -> (b: Vec<u8>)
    requires
        len <= 8,
    ensures
        b@ == be_bytes(x as nat, len as nat),
    decreases len,
{
    if len == 0 {
        Vec::new()
    } else {
        let mut b = uint_to_be_bytes(x / 256, len - 1);
        b.push((x % 256) as u8);
        b
    }
}

/// Writes a 64-bit number as eight big-endian bytes.
pub fn u64_to_be_bytes(x: u64) -> (b: Vec<u8>)
    ensures
        b@ == be_bytes(x as nat, 8),
        b@.len() == 8,
{
    proof {
        lemma_be_bytes_len(x as nat, 8);
    }
    uint_to_be_bytes(x, 8)
}

/// Reads up to eight big-endian bytes as a number.
pub fn uint_from_be_bytes(s: &[u8]) -> (x: u64)
    requires
        s@.len() <= 8,
    ensures
        x == be_value(s@),
{
    let mut x: u64 = 0;
    let mut i: usize = 0;
    while i < s.len()
        invariant
            0 <= i <= s@.len() <= 8,
            x == be_value(s@.take(i as int)),
        decreases s.len() - i,
    {
        proof {
            lemma_be_value_bound(s@.take(i as int));
            lemma_be_value_bound(s@.take(i + 1));
            assert(s@.take(i + 1).drop_last() =~= s@.take(i as int));
            lemma_pow256_monotonic((i + 1) as nat, 8);
            lemma_pow256_values();
        }
        x = x * 256 + s[i] as u64;
        i += 1;
    }
    assert(s@.take(s@.len() as int) =~= s@);
    x
}

/// The powers of 256 grow with the exponent.
pub proof fn lemma_pow256_monotonic(a: nat, b: nat)
    requires
        a <= b,
    ensures
        pow256(a) <= pow256(b),
    decreases b,
{
    if a < b {
        lemma_pow256_monotonic(a, (b - 1) as nat);
    }
}

/// Kind of an item: an unsigned integer, whose count is its value.
pub const KIND_UINT: u8 = 0;

/// Kind of an item: a text, whose count is its length in bytes.
pub const KIND_TEXT: u8 = 3;

/// Kind of an item: a list, whose count is the number of its items.
pub const KIND_LIST: u8 = 4;

/// Kind of an item: a map, whose count is the number of its pairs.
pub const KIND_MAP: u8 = 5;

/// The head of an item: its kind and count, in the shortest form.
pub open spec fn head(kind: u8, n: u64) -> Seq<u8>
    recommends
        kind < 8,
{
    let base = kind as int * 32;
    if n < 24 {
        seq![(base + n) as u8]
    } else if n < 0x100 {
        seq![(base + 24) as u8] + be_bytes(n as nat, 1)
    } else if n < 0x1_0000 {
        seq![(base + 25) as u8] + be_bytes(n as nat, 2)
    } else if n < 0x1_0000_0000 {
        seq![(base + 26) as u8] + be_bytes(n as nat, 4)
    } else {
        seq![(base + 27) as u8] + be_bytes(n as nat, 8)
    }
}

/// The number of bytes that carry the count, for the low five bits of the
/// first byte of a head.
pub open spec fn count_width(info: u8) -> int {
    if info == 24 {
        1
    } else if info == 25 {
        2
    } else if info == 26 {
        4
    } else {
        8
    }
}

/// The bytes of `item` stand in `s` from position `at` on.
pub open spec fn holds_at(s: Seq<u8>, at: int, item: Seq<u8>) -> bool {
    0 <= at && at + item.len() <= s.len() && s.subrange(at, at + item.len()) == item
}

/// The head that starts at a position: kind, count, and the position
/// behind it. `None` where no head starts there.
pub open spec fn head_at(s: Seq<u8>, at: int) -> Option<(u8, u64, int)> {
    if !(0 <= at < s.len()) {
        None
    } else {
        let kind = s[at] / 32;
        let info = s[at] % 32;
        if info < 24 {
            Some((kind, info as u64, at + 1))
        } else if info <= 27 {
            let w = count_width(info);
            if at + 1 + w > s.len() {
                None
            } else {
                Some((kind, be_value(s.subrange(at + 1, at + 1 + w)) as u64, at + 1 + w))
            }
        } else {
            None
        }
    }
}

/// A text item: its head, then its UTF-8 bytes.
pub open spec fn text_item(chars: Seq<char>) -> Seq<u8> {
    head(KIND_TEXT, encode_utf8(chars).len() as u64) + encode_utf8(chars)
}

/// The text item that starts at a position, and the position behind it.
pub open spec fn text_at(s: Seq<u8>, at: int) -> Option<(Seq<char>, int)> {
    match head_at(s, at) {
        Some((kind, n, from)) => if kind == KIND_TEXT && from + n <= s.len() && valid_utf8(
            s.subrange(from, from + n),
        ) {
            Some((decode_utf8(s.subrange(from, from + n)), from + n))
        } else {
            None
        },
        None => None,
    }
}

/// A truth value: one byte.
pub open spec fn bool_item(b: bool) -> Seq<u8> {
    if b {
        seq![0xf5u8]
    } else {
        seq![0xf4u8]
    }
}

/// The truth value that stands at a position, and the position behind it.
pub open spec fn bool_at(s: Seq<u8>, at: int) -> Option<(bool, int)> {
    if !(0 <= at < s.len()) {
        None
    } else if s[at] == 0xf5 {
        Some((true, at + 1))
    } else if s[at] == 0xf4 {
        Some((false, at + 1))
    } else {
        None
    }
}

/// The unsigned integer that starts at a position, and the position behind
/// it.
pub open spec fn uint_at(s: Seq<u8>, at: int) -> Option<(u64, int)> {
    match head_at(s, at) {
        Some((kind, n, next)) => if kind == KIND_UINT {
            Some((n, next))
        } else {
            None
        },
        None => None,
    }
}

/// Text items, one after the other.
pub open spec fn text_items(list: Seq<Seq<char>>) -> Seq<u8>
    decreases list.len(),
{
    if list.len() == 0 {
        Seq::empty()
    } else {
        text_item(list[0]) + text_items(list.drop_first())
    }
}

/// The `count` text items that start at a position, and the position
/// behind the last.
pub open spec fn texts_at(s: Seq<u8>, at: int, count: nat) -> Option<(Seq<Seq<char>>, int)>
    decreases count,
{
    if count == 0 {
        Some((Seq::empty(), at))
    } else {
        match text_at(s, at) {
            Some((t, next)) => match texts_at(s, next, (count - 1) as nat) {
                Some((ts, end)) => Some((seq![t] + ts, end)),
                None => None,
            },
            None => None,
        }
    }
}

/// Every text fits a head: its UTF-8 form is shorter than 2^64 bytes.
pub open spec fn text_fits(chars: Seq<char>) -> bool {
    encode_utf8(chars).len() <= u64::MAX
}

/// The list fits a head, and so does each of its texts.
pub open spec fn texts_fit(list: Seq<Seq<char>>) -> bool {
    list.len() <= u64::MAX && forall|i: int| 0 <= i < list.len() ==> text_fits(#[trigger] list[i])
}

/// Where two items stand one after the other, each stands at its place.
pub proof fn lemma_holds_at_concat(s: Seq<u8>, at: int, a: Seq<u8>, b: Seq<u8>)
    requires
        holds_at(s, at, a + b),
    ensures
        holds_at(s, at, a),
        holds_at(s, at + a.len(), b),
{
    let ab = s.subrange(at, at + (a + b).len());
    assert(s.subrange(at, at + a.len()) =~= ab.subrange(0, a.len() as int));
    assert(ab.subrange(0, a.len() as int) =~= a);
    assert(s.subrange(at + a.len(), at + a.len() + b.len()) =~= ab.subrange(
        a.len() as int,
        (a + b).len() as int,
    ));
    assert(ab.subrange(a.len() as int, (a + b).len() as int) =~= b);
}

/// A head is between one and nine bytes long.
pub proof fn lemma_head_len(kind: u8, n: u64)
    ensures
        1 <= head(kind, n).len() <= 9,
{
    lemma_be_bytes_len(n as nat, 1);
    lemma_be_bytes_len(n as nat, 2);
    lemma_be_bytes_len(n as nat, 4);
    lemma_be_bytes_len(n as nat, 8);
}

/// A head that was written is read back as it was.
pub proof fn lemma_head_at(s: Seq<u8>, at: int, kind: u8, n: u64)
    requires
        kind < 8,
        holds_at(s, at, head(kind, n)),
    ensures
        head_at(s, at) == Some((kind, n, at + head(kind, n).len())),
{
    let h = head(kind, n);
    lemma_head_len(kind, n);
    lemma_pow256_values();
    assert(s[at] == s.subrange(at, at + h.len())[0]);
    let base = kind as int * 32;
    if n < 24 {
        assert(h[0] == (base + n) as u8);
    } else {
        let w: nat = if n < 0x100 {
            1
        } else if n < 0x1_0000 {
            2
        } else if n < 0x1_0000_0000 {
            4
        } else {
            8
        };
        let digits = be_bytes(n as nat, w);
        lemma_be_bytes_len(n as nat, w);
        lemma_be_value_of_bytes(n as nat, w);
        assert(h.len() == 1 + w);
        assert(s.subrange(at + 1, at + 1 + w) =~= h.subrange(1, 1 + w as int));
        assert(h.subrange(1, 1 + w as int) =~= digits);
    }
}

/// A text that was written is read back as it was.
pub proof fn lemma_text_at(s: Seq<u8>, at: int, chars: Seq<char>)
    requires
        text_fits(chars),
        holds_at(s, at, text_item(chars)),
    ensures
        text_at(s, at) == Some((chars, at + text_item(chars).len())),
{
    broadcast use vstd::utf8::encode_utf8_valid_utf8, vstd::utf8::encode_utf8_decode_utf8;

    let bytes = encode_utf8(chars);
    let h = head(KIND_TEXT, bytes.len() as u64);
    lemma_holds_at_concat(s, at, h, bytes);
    lemma_head_at(s, at, KIND_TEXT, bytes.len() as u64);
}

/// A truth value that was written is read back as it was.
pub proof fn lemma_bool_at(s: Seq<u8>, at: int, b: bool)
    requires
        holds_at(s, at, bool_item(b)),
    ensures
        bool_at(s, at) == Some((b, at + 1)),
{
    assert(s[at] == s.subrange(at, at + 1)[0]);
}

/// Texts that were written one after the other are read back as they were.
pub proof fn lemma_texts_at(s: Seq<u8>, at: int, list: Seq<Seq<char>>)
    requires
        texts_fit(list),
        holds_at(s, at, text_items(list)),
    ensures
        texts_at(s, at, list.len()) == Some((list, at + text_items(list).len())),
    decreases list.len(),
{
    if list.len() > 0 {
        let first = text_item(list[0]);
        let rest = list.drop_first();
        lemma_holds_at_concat(s, at, first, text_items(rest));
        lemma_text_at(s, at, list[0]);
        assert(texts_fit(rest)) by {
            assert forall|i: int| 0 <= i < rest.len() implies text_fits(#[trigger] rest[i]) by {
                assert(rest[i] == list[i + 1]);
            }
        }
        lemma_texts_at(s, at + first.len(), rest);
        assert(seq![list[0]] + rest =~= list);
    }
}

/// Reads bytes as UTF-8 text with std's `String::from_utf8`.
///
/// Trusted: the call succeeds exactly on well-formed UTF-8, and the text
/// then holds the characters that the bytes encode.
#[verifier::external_body]
fn string_from_utf8(bytes: Vec<u8>) -> (res: Option<String>)
    ensures
        res is Some <==> valid_utf8(bytes@),
        res matches Some(text) ==> text@ == decode_utf8(bytes@),
{
    String::from_utf8(bytes).ok()
}

/// Writes the head of an item.
pub fn encode_head(kind: u8, n: u64) -> (b: Vec<u8>)
    requires
        kind < 8,
    ensures
        b@ == head(kind, n),
{
    let base: u8 = kind * 32;
    let mut b: Vec<u8> = Vec::new();
    if n < 24 {
        b.push(base + n as u8);
        assert(b@ =~= head(kind, n));
    } else {
        let info: u8 = if n < 0x100 {
            24
        } else if n < 0x1_0000 {
            25
        } else if n < 0x1_0000_0000 {
            26
        } else {
            27
        };
        let width: usize = if n < 0x100 {
            1
        } else if n < 0x1_0000 {
            2
        } else if n < 0x1_0000_0000 {
            4
        } else {
            8
        };
        b.push(base + info);
        let mut digits = uint_to_be_bytes(n, width);
        b.append(&mut digits);
        assert(b@ =~= head(kind, n));
    }
    b
}

/// Reads the head that starts at a position.
pub fn read_head(s: &[u8], at: usize) -> (r: Option<(u8, u64, usize)>)
    ensures
        match head_at(s@, at as int) {
            Some((kind, n, next)) => (r matches Some(h) && h.0 == kind && h.1 == n && h.2 == next)
                && at < next <= s@.len(),
            None => r is None,
        },
{
    if at >= s.len() {
        return None;
    }
    let first: u8 = s[at];
    let kind: u8 = first / 32;
    let info: u8 = first % 32;
    if info < 24 {
        Some((kind, info as u64, at + 1))
    } else if info <= 27 {
        let width: usize = if info == 24 {
            1
        } else if info == 25 {
            2
        } else if info == 26 {
            4
        } else {
            8
        };
        if width > s.len() - at - 1 {
            None
        } else {
            let digits = slice_subrange(s, at + 1, at + 1 + width);
            let n: u64 = uint_from_be_bytes(digits);
            Some((kind, n, at + 1 + width))
        }
    } else {
        None
    }
}

/// Writes a text item.
pub fn encode_text(text: &str) -> (b: Vec<u8>)
    ensures
        b@ == text_item(text@),
        text_fits(text@),
{
    let mut bytes = text.as_bytes_vec();
    let mut b = encode_head(KIND_TEXT, bytes.len() as u64);
    b.append(&mut bytes);
    b
}

/// Reads the text item that starts at a position.
pub fn read_text(s: &[u8], at: usize) -> (r: Option<(String, usize)>)
    ensures
        match text_at(s@, at as int) {
            Some((chars, next)) => (r matches Some(p) && p.0@ == chars && p.1 == next) && at
                < next <= s@.len(),
            None => r is None,
        },
{
    match read_head(s, at) {
        Some((kind, n, from)) => {
            if kind == KIND_TEXT && n <= (s.len() - from) as u64 {
                let bytes = slice_to_vec(slice_subrange(s, from, from + n as usize));
                match string_from_utf8(bytes) {
                    Some(text) => Some((text, from + n as usize)),
                    None => None,
                }
            } else {
                None
            }
        },
        None => None,
    }
}

/// Reads the truth value that stands at a position.
pub fn read_bool(s: &[u8], at: usize) -> (r: Option<(bool, usize)>)
    ensures
        match bool_at(s@, at as int) {
            Some((b, next)) => (r matches Some(p) && p.0 == b && p.1 == next) && at < next
                <= s@.len(),
            None => r is None,
        },
{
    if at >= s.len() {
        None
    } else if s[at] == 0xf5 {
        Some((true, at + 1))
    } else if s[at] == 0xf4 {
        Some((false, at + 1))
    } else {
        None
    }
}

/// The texts of a list of strings.
pub open spec fn texts_of(v: Seq<String>) -> Seq<Seq<char>> {
    Seq::new(v.len(), |i: int| v[i]@)
}

/// Writes text items one after the other.
pub fn encode_texts(list: &Vec<String>) -> (b: Vec<u8>)
    ensures
        b@ == text_items(texts_of(list@)),
        texts_fit(texts_of(list@)),
{
    let ghost texts = texts_of(list@);
    let mut b: Vec<u8> = Vec::new();
    let mut i: usize = list.len();
    assert(texts.skip(i as int) =~= Seq::<Seq<char>>::empty());
    while i > 0
        invariant
            0 <= i <= list.len(),
            texts == texts_of(list@),
            b@ == text_items(texts.skip(i as int)),
            forall|j: int| i <= j < texts.len() ==> text_fits(#[trigger] texts[j]),
        decreases i,
    {
        i -= 1;
        let mut item = encode_text(list[i].as_str());
        item.append(&mut b);
        b = item;
        proof {
            let from = texts.skip(i as int);
            assert(from[0] == texts[i as int]);
            assert(from.drop_first() =~= texts.skip(i + 1));
        }
    }
    assert(texts.skip(0) =~= texts);
    b
}

/// Reads the `count` text items that start at a position.
pub fn read_texts(s: &[u8], at: usize, count: u64) -> (r: Option<(Vec<String>, usize)>)
    requires
        at <= s@.len(),
    ensures
        match texts_at(s@, at as int, count as nat) {
            Some((texts, next)) => (r matches Some(p) && texts_of(p.0@) == texts && p.1 == next)
                && at <= next <= s@.len(),
            None => r is None,
        },
{
    let mut list: Vec<String> = Vec::new();
    let mut pos: usize = at;
    let mut i: u64 = 0;
    while i < count
        invariant
            0 <= i <= count,
            at <= pos <= s@.len(),
            texts_at(s@, at as int, count as nat) == (match texts_at(
                s@,
                pos as int,
                (count - i) as nat,
            ) {
                Some((texts, next)) => Some((texts_of(list@) + texts, next)),
                None => None,
            }),
        decreases count - i,
    {
        let ghost before = texts_of(list@);
        match read_text(s, pos) {
            None => {
                return None;
            },
            Some((text, next)) => {
                proof {
                    let rest = texts_at(s@, next as int, (count - i - 1) as nat);
                    if rest is Some {
                        assert(before.push(text@) + rest.unwrap().0 =~= before + (seq![text@]
                            + rest.unwrap().0));
                    }
                }
                list.push(text);
                assert(texts_of(list@) =~= before.push(text@));
                pos = next;
                i += 1;
            },
        }
    }
    assert(texts_of(list@) + Seq::<Seq<char>>::empty() =~= texts_of(list@));
    Some((list, pos))
}

/// The status of a blob in binary object form: a map of `retrieved`, a
/// truth value, and `users`, a list of texts.
pub open spec fn blob_status_item(retrieved: bool, users: Seq<Seq<char>>) -> Seq<u8> {
    head(KIND_MAP, 2) + text_item("retrieved"@) + bool_item(retrieved) + text_item("users"@)
        + head(KIND_LIST, users.len() as u64) + text_items(users)
}

/// The blob status that bytes hold, where they are one in binary object
/// form and nothing else.
pub open spec fn blob_status_of(s: Seq<u8>) -> Option<(bool, Seq<Seq<char>>)> {
    match head_at(s, 0) {
        Some((map_kind, pairs, p1)) => match text_at(s, p1) {
            Some((k1, p2)) => match bool_at(s, p2) {
                Some((retrieved, p3)) => match text_at(s, p3) {
                    Some((k2, p4)) => match head_at(s, p4) {
                        Some((list_kind, n, p5)) => match texts_at(s, p5, n as nat) {
                            Some((users, p6)) => if map_kind == KIND_MAP && pairs == 2 && k1
                                == "retrieved"@ && k2 == "users"@ && list_kind == KIND_LIST && p6
                                == s.len() {
                                Some((retrieved, users))
                            } else {
                                None
                            },
                            None => None,
                        },
                        None => None,
                    },
                    None => None,
                },
                None => None,
            },
            None => None,
        },
        None => None,
    }
}

/// The reference from a message identifier to its place in a feed, in
/// binary object form: a map of `pub_key`, a text, and `seq_num`, an
/// unsigned integer.
pub open spec fn msg_ref_item(pub_key: Seq<char>, seq_num: u64) -> Seq<u8> {
    head(KIND_MAP, 2) + text_item("pub_key"@) + text_item(pub_key) + text_item("seq_num"@) + head(
        KIND_UINT,
        seq_num,
    )
}

/// The message reference that bytes hold, where they are one in binary
/// object form and nothing else.
pub open spec fn msg_ref_of(s: Seq<u8>) -> Option<(Seq<char>, u64)> {
    match head_at(s, 0) {
        Some((map_kind, pairs, p1)) => match text_at(s, p1) {
            Some((k1, p2)) => match text_at(s, p2) {
                Some((pub_key, p3)) => match text_at(s, p3) {
                    Some((k2, p4)) => match uint_at(s, p4) {
                        Some((seq_num, p5)) => if map_kind == KIND_MAP && pairs == 2 && k1
                            == "pub_key"@ && k2 == "seq_num"@ && p5 == s.len() {
                            Some((pub_key, seq_num))
                        } else {
                            None
                        },
                        None => None,
                    },
                    None => None,
                },
                None => None,
            },
            None => None,
        },
        None => None,
    }
}

/// A character takes at most four bytes in UTF-8.
pub proof fn lemma_utf8_len_bound(chars: Seq<char>)
    ensures
        encode_utf8(chars).len() <= 4 * chars.len(),
    decreases chars.len(),
{
    if chars.len() > 0 {
        lemma_utf8_len_bound(chars.drop_first());
    }
}

/// The names of the fields are texts that fit a head.
proof fn lemma_field_names_fit()
    ensures
        text_fits("retrieved"@),
        text_fits("users"@),
        text_fits("pub_key"@),
        text_fits("seq_num"@),
{
    reveal_strlit("retrieved");
    reveal_strlit("users");
    reveal_strlit("pub_key");
    reveal_strlit("seq_num");
    lemma_utf8_len_bound("retrieved"@);
    lemma_utf8_len_bound("users"@);
    lemma_utf8_len_bound("pub_key"@);
    lemma_utf8_len_bound("seq_num"@);
}

/// A blob status that was written is read back as it was.
pub proof fn lemma_blob_status_round_trip(retrieved: bool, users: Seq<Seq<char>>)
    requires
        texts_fit(users),
    ensures
        blob_status_of(blob_status_item(retrieved, users)) == Some((retrieved, users)),
{
    let s = blob_status_item(retrieved, users);
    let a = head(KIND_MAP, 2);
    let b = text_item("retrieved"@);
    let c = bool_item(retrieved);
    let d = text_item("users"@);
    let e = head(KIND_LIST, users.len() as u64);
    let f = text_items(users);
    lemma_field_names_fit();
    assert(s.subrange(0, s.len() as int) =~= s);
    assert(holds_at(s, 0, a + b + c + d + e + f));
    lemma_holds_at_concat(s, 0, a + b + c + d + e, f);
    lemma_holds_at_concat(s, 0, a + b + c + d, e);
    lemma_holds_at_concat(s, 0, a + b + c, d);
    lemma_holds_at_concat(s, 0, a + b, c);
    lemma_holds_at_concat(s, 0, a, b);
    let p1 = a.len() as int;
    let p2 = p1 + b.len();
    let p3 = p2 + c.len();
    let p4 = p3 + d.len();
    let p5 = p4 + e.len();
    lemma_head_at(s, 0, KIND_MAP, 2);
    lemma_text_at(s, p1, "retrieved"@);
    lemma_bool_at(s, p2, retrieved);
    lemma_text_at(s, p3, "users"@);
    lemma_head_at(s, p4, KIND_LIST, users.len() as u64);
    lemma_texts_at(s, p5, users);
}

/// A message reference that was written is read back as it was.
pub proof fn lemma_msg_ref_round_trip(pub_key: Seq<char>, seq_num: u64)
    requires
        text_fits(pub_key),
    ensures
        msg_ref_of(msg_ref_item(pub_key, seq_num)) == Some((pub_key, seq_num)),
{
    let s = msg_ref_item(pub_key, seq_num);
    let a = head(KIND_MAP, 2);
    let b = text_item("pub_key"@);
    let c = text_item(pub_key);
    let d = text_item("seq_num"@);
    let e = head(KIND_UINT, seq_num);
    lemma_field_names_fit();
    assert(s.subrange(0, s.len() as int) =~= s);
    assert(holds_at(s, 0, a + b + c + d + e));
    lemma_holds_at_concat(s, 0, a + b + c + d, e);
    lemma_holds_at_concat(s, 0, a + b + c, d);
    lemma_holds_at_concat(s, 0, a + b, c);
    lemma_holds_at_concat(s, 0, a, b);
    let p1 = a.len() as int;
    let p2 = p1 + b.len();
    let p3 = p2 + c.len();
    let p4 = p3 + d.len();
    lemma_head_at(s, 0, KIND_MAP, 2);
    lemma_text_at(s, p1, "pub_key"@);
    lemma_text_at(s, p2, pub_key);
    lemma_text_at(s, p3, "seq_num"@);
    lemma_head_at(s, p4, KIND_UINT, seq_num);
}

/// Writes a blob status in binary object form.
pub fn encode_blob_status(retrieved: bool, users: &Vec<String>) -> (b: Vec<u8>)
    ensures
        b@ == blob_status_item(retrieved, texts_of(users@)),
        blob_status_of(b@) == Some((retrieved, texts_of(users@))),
{
    let mut b = encode_head(KIND_MAP, 2);
    let mut k1 = encode_text("retrieved");
    b.append(&mut k1);
    b.push(if retrieved { 0xf5 } else { 0xf4 });
    let mut k2 = encode_text("users");
    b.append(&mut k2);
    let mut n = encode_head(KIND_LIST, users.len() as u64);
    b.append(&mut n);
    let mut list = encode_texts(users);
    b.append(&mut list);
    proof {
        assert(b@ =~= blob_status_item(retrieved, texts_of(users@)));
        lemma_blob_status_round_trip(retrieved, texts_of(users@));
    }
    b
}

/// Reads a blob status from its binary object form.
pub fn decode_blob_status(s: &[u8]) -> (r: Option<(bool, Vec<String>)>)
    ensures
        match blob_status_of(s@) {
            Some((retrieved, users)) => r matches Some(p) && p.0 == retrieved && texts_of(p.1@)
                == users,
            None => r is None,
        },
{
    let (kind, pairs, p1) = match read_head(s, 0) {
        Some(h) => h,
        None => {
            return None;
        },
    };
    if kind != KIND_MAP || pairs != 2 {
        return None;
    }
    let (k1, p2) = match read_text(s, p1) {
        Some(t) => t,
        None => {
            return None;
        },
    };
    let (retrieved, p3) = match read_bool(s, p2) {
        Some(t) => t,
        None => {
            return None;
        },
    };
    let (k2, p4) = match read_text(s, p3) {
        Some(t) => t,
        None => {
            return None;
        },
    };
    let (kind, n, p5) = match read_head(s, p4) {
        Some(h) => h,
        None => {
            return None;
        },
    };
    if kind != KIND_LIST {
        return None;
    }
    let (users, p6) = match read_texts(s, p5, n) {
        Some(t) => t,
        None => {
            return None;
        },
    };
    if k1 == String::from_str("retrieved") && k2 == String::from_str("users") && p6 == s.len() {
        Some((retrieved, users))
    } else {
        None
    }
}

/// Writes a message reference in binary object form.
pub fn encode_msg_ref(pub_key: &str, seq_num: u64) -> (b: Vec<u8>)
    ensures
        b@ == msg_ref_item(pub_key@, seq_num),
        msg_ref_of(b@) == Some((pub_key@, seq_num)),
{
    let mut b = encode_head(KIND_MAP, 2);
    let mut k1 = encode_text("pub_key");
    b.append(&mut k1);
    let mut v1 = encode_text(pub_key);
    b.append(&mut v1);
    let mut k2 = encode_text("seq_num");
    b.append(&mut k2);
    let mut v2 = encode_head(KIND_UINT, seq_num);
    b.append(&mut v2);
    proof {
        assert(b@ =~= msg_ref_item(pub_key@, seq_num));
        lemma_msg_ref_round_trip(pub_key@, seq_num);
    }
    b
}

/// Reads a message reference from its binary object form.
pub fn decode_msg_ref(s: &[u8]) -> (r: Option<(String, u64)>)
    ensures
        match msg_ref_of(s@) {
            Some((pub_key, seq_num)) => r matches Some(p) && p.0@ == pub_key && p.1 == seq_num,
            None => r is None,
        },
{
    let (kind, pairs, p1) = match read_head(s, 0) {
        Some(h) => h,
        None => {
            return None;
        },
    };
    if kind != KIND_MAP || pairs != 2 {
        return None;
    }
    let (k1, p2) = match read_text(s, p1) {
        Some(t) => t,
        None => {
            return None;
        },
    };
    let (pub_key, p3) = match read_text(s, p2) {
        Some(t) => t,
        None => {
            return None;
        },
    };
    let (k2, p4) = match read_text(s, p3) {
        Some(t) => t,
        None => {
            return None;
        },
    };
    let (kind, seq_num, p5) = match read_head(s, p4) {
        Some(h) => h,
        None => {
            return None;
        },
    };
    if kind != KIND_UINT {
        return None;
    }
    if k1 == String::from_str("pub_key") && k2 == String::from_str("seq_num") && p5 == s.len() {
        Some((pub_key, seq_num))
    } else {
        None
    }
}

} // verus!
