//! Signed feed messages. Parsing, signature checks and hashing are done by
//! `kuska_ssb`; this module keeps, beside the checked message, the plain
//! fields that the store and the replication session read.
//!
//! The feed primitive is only handed texts of a shape that it can take: it
//! indents nested values from a fixed supply of spaces, and it cuts the
//! first byte off the author's identity. A text that nests too deep, or
//! whose author cannot be cut there, is refused here as malformed.

use vstd::prelude::*;
use vstd::utf8::{encode_utf8, is_char_boundary};
use crate::error::SolarError;

verus! {

#[verifier::external_type_specification]
#[verifier::external_body]
pub struct ExKuskaMessage(kuska_ssb::feed::Message);

#[verifier::external_type_specification]
#[verifier::external_body]
pub struct ExKuskaFeedError(kuska_ssb::feed::Error);

/// `Clone` of a checked message. Nothing is claimed of the copy: the library
/// reads a message through the fields it keeps beside it.
pub assume_specification[ <kuska_ssb::feed::Message as Clone>::clone ](
    m: &kuska_ssb::feed::Message,
) -> kuska_ssb::feed::Message;

/// How deep a message value may nest.
pub const VALUE_DEPTH_LIMIT: usize = 20;

/// How deep an envelope may nest: one level more than the value inside.
pub const ENVELOPE_DEPTH_LIMIT: usize = 21;

/// Where a walk over JSON text stands.
pub struct Scan {
    /// Objects and lists that are open.
    pub depth: nat,
    /// The most that were ever open at once with something in them.
    pub deepest: nat,
    /// The innermost open object or list has nothing in it yet.
    pub fresh: bool,
    /// Inside a string.
    pub in_string: bool,
    /// Behind a backslash inside a string.
    pub escaped: bool,
}

/// The walk once the innermost open object or list has something in it:
/// it counts, with all around it, towards the depth.
pub open spec fn filled(s: Scan) -> Scan {
    if s.fresh {
        Scan {
            deepest: if s.depth > s.deepest {
                s.depth
            } else {
                s.deepest
            },
            fresh: false,
            ..s
        }
    } else {
        s
    }
}

/// The walk after one more byte. Brackets and braces count outside of
/// strings only; inside a string a backslash hides the byte behind it. An
/// object or a list counts from its first member on, so one that is closed
/// empty does not count.
pub open spec fn scan_step(s: Scan, b: u8) -> Scan {
    if s.in_string {
        if s.escaped {
            Scan { escaped: false, ..s }
        } else if b == 0x5c {
            Scan { escaped: true, ..s }
        } else if b == 0x22 {
            Scan { in_string: false, ..s }
        } else {
            s
        }
    } else if is_blank(b) {
        s
    } else if b == 0x22 {
        Scan { in_string: true, ..filled(s) }
    } else if b == 0x7b || b == 0x5b {
        Scan { depth: s.depth + 1, fresh: true, ..filled(s) }
    } else if b == 0x7d || b == 0x5d {
        Scan {
            depth: if s.depth > 0 {
                (s.depth - 1) as nat
            } else {
                0
            },
            fresh: false,
            ..s
        }
    } else {
        filled(s)
    }
}

/// The walk over a whole text.
pub open spec fn scan(text: Seq<u8>) -> Scan
    decreases text.len(),
{
    if text.len() == 0 {
        Scan { depth: 0, deepest: 0, fresh: false, in_string: false, escaped: false }
    } else {
        scan_step(scan(text.drop_last()), text.last())
    }
}

/// How deep the objects and lists of a JSON text that have members nest.
pub open spec fn nesting_depth(text: Seq<u8>) -> nat {
    scan(text).deepest
}

/// What the text of a message value says, as plain values.
pub struct MessageFields {
    /// Identity of the author.
    pub author: Seq<char>,
    /// Sequence number, where the message states one as an unsigned integer
    /// of at most 64 bits.
    pub sequence: Option<u64>,
    /// Identifier of the message: the hash of its value in canonical form.
    pub id: Seq<char>,
    /// The message value as compact JSON text.
    pub json: Seq<char>,
}

/// The member of this name of a JSON object, where the text is one and
/// the member is a string.
pub uninterp spec fn json_text_member(text: Seq<u8>, name: Seq<char>) -> Option<Seq<char>>;

/// The member of this name inside the member `outer` of a JSON object,
/// where the text is one and the inner member is a string.
pub uninterp spec fn json_inner_text_member(
    text: Seq<u8>,
    outer: Seq<char>,
    name: Seq<char>,
) -> Option<Seq<char>>;

/// The author that a message value names.
pub open spec fn json_author(text: Seq<u8>) -> Option<Seq<char>> {
    json_text_member(text, "author"@)
}

/// The author that the message value inside an envelope names.
pub open spec fn json_value_author(text: Seq<u8>) -> Option<Seq<char>> {
    json_inner_text_member(text, "value"@, "author"@)
}

/// The fields of the message value that a JSON text holds, where the text is
/// a well-formed message value whose signature its author's key confirms;
/// `None` for every other text.
pub uninterp spec fn signed_message(text: Seq<u8>) -> Option<MessageFields>;

/// The fields of the message value inside a key-value-timestamp envelope,
/// where the text is such an envelope, its key is the hash of the value, and
/// the value is a validly signed message; `None` for every other text.
pub uninterp spec fn enveloped_message(text: Seq<u8>) -> Option<MessageFields>;

/// The author's identity can be cut behind its first byte: it is not empty
/// and starts with a character of one byte.
pub open spec fn author_sliceable(author: Option<Seq<char>>) -> bool {
    match author {
        Some(chars) => is_char_boundary(encode_utf8(chars), 1),
        None => true,
    }
}

/// The text has a shape in which the feed primitive can take a message
/// value.
pub open spec fn value_shaped(text: Seq<u8>) -> bool {
    nesting_depth(text) <= VALUE_DEPTH_LIMIT && author_sliceable(json_author(text))
}

/// A byte that JSON skips between its tokens: space, tab, line feed,
/// carriage return.
pub open spec fn is_blank(b: u8) -> bool {
    b == 0x20 || b == 0x09 || b == 0x0a || b == 0x0d
}

/// The first byte of the text that is not blank opens an object.
pub open spec fn starts_object(text: Seq<u8>) -> bool
    decreases text.len(),
{
    if text.len() == 0 {
        false
    } else if is_blank(text[0]) {
        starts_object(text.drop_first())
    } else {
        text[0] == 0x7b
    }
}

/// The text has a shape in which the feed primitive can take an envelope:
/// it starts as an object, so that the envelope's members are read by
/// their names, it nests no deeper than the limit, and the author of its
/// value can be cut.
pub open spec fn envelope_shaped(text: Seq<u8>) -> bool {
    starts_object(text) && nesting_depth(text) <= ENVELOPE_DEPTH_LIMIT && author_sliceable(
        json_value_author(text),
    )
}

/// What reading a text as a message comes to.
pub enum Reading {
    /// A checked message with these fields.
    Message(MessageFields),
    /// The text has no shape that the feed primitive can take.
    Malformed,
    /// The message is signed, but its sequence number is no unsigned
    /// integer.
    NoSequence,
    /// The feed primitive refuses the text: it is no message, or its
    /// signature or digest does not match.
    Refused,
}

/// What a read comes to, given whether the text has the shape and what the
/// feed primitive makes of it.
pub open spec fn reading_of(shaped: bool, checked: Option<MessageFields>) -> Reading {
    if !shaped {
        Reading::Malformed
    } else {
        match checked {
            None => Reading::Refused,
            Some(fields) => if fields.sequence is Some {
                Reading::Message(fields)
            } else {
                Reading::NoSequence
            },
        }
    }
}

/// What reading a text as a bare message value comes to.
pub open spec fn value_reading(text: Seq<u8>) -> Reading {
    reading_of(value_shaped(text), signed_message(text))
}

/// What reading a text as an envelope comes to.
pub open spec fn envelope_reading(text: Seq<u8>) -> Reading {
    reading_of(envelope_shaped(text), enveloped_message(text))
}

/// A message as it comes out of `kuska_ssb`, with its fields read off.
pub struct CheckedMessage {
    inner: kuska_ssb::feed::Message,
    author: String,
    sequence: Option<u64>,
    id: String,
    json: String,
}

impl CheckedMessage {
    /// The fields that were read off.
    pub closed spec fn fields(&self) -> MessageFields {
        MessageFields {
            author: self.author@,
            sequence: self.sequence,
            id: self.id@,
            json: self.json@,
        }
    }
}

/// A feed message whose signature has been checked and whose sequence
/// number is an unsigned integer. It is only ever built from a text that
/// has the shape of a message value or of an envelope.
#[derive(Clone, Debug)]
pub struct MessageValue {
    inner: kuska_ssb::feed::Message,
    author: String,
    sequence: u64,
    id: String,
    json: String,
}

/// Reads a text as JSON with `serde_json::from_slice` and looks up, with
/// `Value::get` and `Value::as_str`, the member `name` of the object and
/// the member `name` of its member `outer`.
///
/// Trusted: each of the two comes back where the text is an object that
/// has it as a string, and not otherwise.
#[verifier::external_body]
fn read_text_members(data: &[u8], outer: &str, name: &str) -> (found: (
    Option<String>,
    Option<String>,
))
    ensures
        match found.0 {
            Some(a) => json_text_member(data@, name@) == Some(a@),
            None => json_text_member(data@, name@) is None,
        },
        match found.1 {
            Some(a) => json_inner_text_member(data@, outer@, name@) == Some(a@),
            None => json_inner_text_member(data@, outer@, name@) is None,
        },
{
    let object: Option<serde_json::Value> = serde_json::from_slice(data).ok();
    let direct = object.as_ref().and_then(|o| o.get(name));
    let inner = object.as_ref().and_then(|o| o.get(outer)).and_then(|v| v.get(name));
    (
        direct.and_then(serde_json::Value::as_str).map(str::to_string),
        inner.and_then(serde_json::Value::as_str).map(str::to_string),
    )
}

/// Checks a message value with `kuska_ssb::feed::Message::from_slice` and
/// reads its fields with `author`, `id`, `to_string` and, for the sequence
/// number, `serde_json::Value::get` and `as_u64`.
///
/// Trusted: on a text with the shape of a message value the call returns;
/// it succeeds exactly on the texts that hold a validly signed message
/// value, and the fields that come back are those of that text.
#[verifier::external_body]
fn check_message_value(data: &[u8]) -> (res: Result<CheckedMessage, kuska_ssb::feed::Error>)
    requires
        value_shaped(data@),
    ensures
        res is Ok <==> signed_message(data@) is Some,
        res matches Ok(m) ==> m.fields() == signed_message(data@).unwrap(),
{
    let inner = kuska_ssb::feed::Message::from_slice(data)?;
    let author = inner.author().clone();
    let sequence = inner.value.get("sequence").and_then(serde_json::Value::as_u64);
    let id = inner.id().to_string();
    let json = inner.to_string();
    Ok(CheckedMessage { inner, author, sequence, id, json })
}

/// Checks a key-value-timestamp envelope with
/// `kuska_ssb::feed::Feed::from_slice`, takes the message value out of it
/// with `into_message`, and reads the fields as for a bare message value.
///
/// Trusted: on a text with the shape of an envelope the calls return: the
/// text starts as an object, so its members are read by their names and
/// the value whose author is cut is the `value` member. They succeed
/// exactly on the texts that hold an envelope whose key matches its value
/// and whose value is validly signed, and the fields that come back are
/// those of the enveloped value.
#[verifier::external_body]
fn check_message_envelope(data: &[u8]) -> (res: Result<CheckedMessage, kuska_ssb::feed::Error>)
    requires
        envelope_shaped(data@),
    ensures
        res is Ok <==> enveloped_message(data@) is Some,
        res matches Ok(m) ==> m.fields() == enveloped_message(data@).unwrap(),
{
    let inner = kuska_ssb::feed::Feed::from_slice(data)?.into_message()?;
    let author = inner.author().clone();
    let sequence = inner.value.get("sequence").and_then(serde_json::Value::as_u64);
    let id = inner.id().to_string();
    let json = inner.to_string();
    Ok(CheckedMessage { inner, author, sequence, id, json })
}

/// Wraps a message value in a key-value-timestamp envelope with
/// `kuska_ssb::feed::Feed::new` and writes the envelope as JSON text with
/// `to_string`.
///
/// Trusted: the envelope holds the same message value, so reading it back
/// gives the fields of this message. The text carries the time of the call
/// and is not fixed by the message.
#[verifier::external_body]
fn envelope_text(msg: &MessageValue) -> (text: String)
    ensures
        enveloped_message(encode_utf8(text@)) == Some(msg.fields()),
{
    kuska_ssb::feed::Feed::new(msg.inner.clone()).to_string()
}

/// Walks a text and says whether its objects and lists that have members
/// nest no deeper than a limit.
pub fn nests_within(data: &[u8], limit: usize) -> (b: bool)
    ensures
        b == (nesting_depth(data@) <= limit),
{
    let mut depth: usize = 0;
    let mut deepest: usize = 0;
    let mut fresh = false;
    let mut in_string = false;
    let mut escaped = false;
    let mut i: usize = 0;
    while i < data.len()
        invariant
            0 <= i <= data@.len(),
            depth <= i,
            deepest <= i,
            scan(data@.take(i as int)) == (Scan {
                depth: depth as nat,
                deepest: deepest as nat,
                fresh,
                in_string,
                escaped,
            }),
        decreases data.len() - i,
    {
        assert(data@.take(i + 1).drop_last() =~= data@.take(i as int));
        let b: u8 = data[i];
        if in_string {
            if escaped {
                escaped = false;
            } else if b == 0x5c {
                escaped = true;
            } else if b == 0x22 {
                in_string = false;
            }
        } else if b == 0x20 || b == 0x09 || b == 0x0a || b == 0x0d {
        } else if b == 0x7d || b == 0x5d {
            if depth > 0 {
                depth = depth - 1;
            }
            fresh = false;
        } else {
            // Anything else is something in the innermost open object or
            // list.
            if fresh {
                if depth > deepest {
                    deepest = depth;
                }
                fresh = false;
            }
            if b == 0x22 {
                in_string = true;
            } else if b == 0x7b || b == 0x5b {
                depth = depth + 1;
                fresh = true;
            }
        }
        i += 1;
    }
    assert(data@.take(data@.len() as int) =~= data@);
    deepest <= limit
}

/// Says whether the first byte of a text that is not blank opens an object.
pub fn opens_object(data: &[u8]) -> (b: bool)
    ensures
        b == starts_object(data@),
{
    let mut i: usize = 0;
    assert(data@.skip(0) =~= data@);
    while i < data.len() && (data[i] == 0x20 || data[i] == 0x09 || data[i] == 0x0a || data[i]
        == 0x0d)
        invariant
            0 <= i <= data@.len(),
            starts_object(data@) == starts_object(data@.skip(i as int)),
        decreases data.len() - i,
    {
        assert(data@.skip(i as int).drop_first() =~= data@.skip(i + 1));
        i += 1;
    }
    if i < data.len() {
        assert(data@.skip(i as int)[0] == data@[i as int]);
        data[i] == 0x7b
    } else {
        assert(data@.skip(i as int).len() == 0);
        false
    }
}

/// Whether an author's identity can be cut behind its first byte.
fn sliceable(author: &Option<String>) -> (b: bool)
    ensures
        b == author_sliceable(
            match author {
                Some(a) => Some(a@),
                None => None,
            },
        ),
{
    match author {
        Some(a) => a.as_str().is_char_boundary(1),
        None => true,
    }
}

/// Whether a text has the shape of a message value.
pub fn is_value_shaped(data: &[u8]) -> (b: bool)
    ensures
        b == value_shaped(data@),
{
    nests_within(data, VALUE_DEPTH_LIMIT) && sliceable(&read_text_members(data, "value", "author").0)
}

/// Whether a text has the shape of an envelope.
pub fn is_envelope_shaped(data: &[u8]) -> (b: bool)
    ensures
        b == envelope_shaped(data@),
{
    opens_object(data) && nests_within(data, ENVELOPE_DEPTH_LIMIT) && sliceable(
        &read_text_members(data, "value", "author").1,
    )
}

/// The result of a read is what the reading says.
pub open spec fn is_reading(res: Result<MessageValue, SolarError>, reading: Reading) -> bool {
    match reading {
        Reading::Message(fields) => res matches Ok(m) && m.fields() == fields,
        Reading::Malformed => res is Err && res->Err_0 is MalformedMessage,
        Reading::NoSequence => res is Err && res->Err_0 is InvalidSequence,
        Reading::Refused => res is Err && res->Err_0 is KuskaFeed,
    }
}

impl MessageValue {
    /// The plain fields of the message.
    pub closed spec fn fields(&self) -> MessageFields {
        MessageFields {
            author: self.author@,
            sequence: Some(self.sequence),
            id: self.id@,
            json: self.json@,
        }
    }

    /// Finishes a check: keeps a message that states its sequence number as
    /// an unsigned integer, and maps a refusal to the library's error.
    fn admit_checked(checked: Result<CheckedMessage, kuska_ssb::feed::Error>) -> (res: Result<
        MessageValue,
        SolarError,
    >)
        ensures
            is_reading(
                res,
                reading_of(
                    true,
                    match checked {
                        Ok(c) => Some(c.fields()),
                        Err(_) => None,
                    },
                ),
            ),
    {
        match checked {
            Ok(c) => match c.sequence {
                Some(sequence) => Ok(
                    MessageValue {
                        inner: c.inner,
                        author: c.author,
                        sequence,
                        id: c.id,
                        json: c.json,
                    },
                ),
                None => Err(SolarError::InvalidSequence),
            },
            Err(e) => Err(SolarError::KuskaFeed(e)),
        }
    }

    /// Reads and checks a message value from JSON text.
    ///
    /// Succeeds exactly when the text has the shape of a message value and
    /// is validly signed, with an unsigned sequence number.
    pub fn from_slice(data: &[u8]) -> (res: Result<MessageValue, SolarError>)
        ensures
            is_reading(res, value_reading(data@)),
    {
        if !is_value_shaped(data) {
            return Err(SolarError::MalformedMessage);
        }
        MessageValue::admit_checked(check_message_value(data))
    }

    /// Reads and checks a message value from the JSON text of a
    /// key-value-timestamp envelope.
    ///
    /// Succeeds exactly when the text has the shape of an envelope, its
    /// key is the hash of its value, and the value is validly signed, with
    /// an unsigned sequence number.
    pub fn from_envelope_slice(data: &[u8]) -> (res: Result<MessageValue, SolarError>)
        ensures
            is_reading(res, envelope_reading(data@)),
    {
        if !is_envelope_shaped(data) {
            return Err(SolarError::MalformedMessage);
        }
        MessageValue::admit_checked(check_message_envelope(data))
    }

    /// Identity of the author.
    pub fn author(&self) -> (a: &String)
        ensures
            a@ == self.fields().author,
    {
        &self.author
    }

    /// Position of the message in its author's feed, counted from one.
    pub fn sequence(&self) -> (s: u64)
        ensures
            Some(s) == self.fields().sequence,
    {
        self.sequence
    }

    /// Identifier of the message.
    pub fn id(&self) -> (i: &String)
        ensures
            i@ == self.fields().id,
    {
        &self.id
    }

    /// The message value as compact JSON text.
    pub fn json(&self) -> (j: &String)
        ensures
            j@ == self.fields().json,
    {
        &self.json
    }

    /// The message wrapped in a key-value-timestamp envelope, as JSON text,
    /// stamped with the current time. Reading the envelope back gives this
    /// message. The text that the feed primitive writes is handed out where
    /// it has the shape of an envelope; `None` exactly where it has not.
    pub fn to_envelope(&self) -> (envelope: Option<String>)
        ensures
            envelope matches Some(text) ==> envelope_reading(encode_utf8(text@))
                == Reading::Message(self.fields()),
            exists|written: Seq<char>| #[trigger]
                envelopes(written, self.fields()) && is_kept(envelope, written),
    {
        let text = envelope_text(self);
        let ghost written = text@;
        let envelope = keep_shaped(text);
        assert(envelopes(written, self.fields()) && is_kept(envelope, written));
        envelope
    }

    /// A copy of the message.
    pub fn duplicate(&self) -> (m: MessageValue)
        ensures
            m.fields() == self.fields(),
    {
        MessageValue {
            inner: self.inner.clone(),
            author: self.author.clone(),
            sequence: self.sequence,
            id: self.id.clone(),
            json: self.json.clone(),
        }
    }
}

/// The text holds a message with these fields in an envelope whose key
/// matches and whose signature its author's key confirms.
pub open spec fn envelopes(text: Seq<char>, fields: MessageFields) -> bool {
    enveloped_message(encode_utf8(text)) == Some(fields)
}

/// What becomes of an envelope text that was written: it is handed out
/// where it has the shape of an envelope, and dropped where it has not.
pub open spec fn is_kept(envelope: Option<String>, written: Seq<char>) -> bool {
    match envelope {
        Some(text) => text@ == written && envelope_shaped(encode_utf8(written)),
        None => !envelope_shaped(encode_utf8(written)),
    }
}

/// Hands an envelope text out where it has the shape of an envelope, so
/// that it can be read back, and drops it where it has not.
pub fn keep_shaped(text: String) -> (envelope: Option<String>)
    ensures
        is_kept(envelope, text@),
{
    if is_envelope_shaped(text.as_str().as_bytes()) {
        Some(text)
    } else {
        None
    }
}

} // verus!
