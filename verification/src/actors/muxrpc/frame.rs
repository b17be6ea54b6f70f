//! The MUXRPC frame: a header of nine bytes, then the body.
//!
//! ```text
//! [flags u8][body length u32, big-endian][request number i32, big-endian][body]
//! ```
//!
//! In the flags, bit 3 says that the frame belongs to a stream, bit 2 that
//! it ends the stream or reports an error, and bits 0 and 1 give the type
//! of the body. A request carries a positive request number; the frames
//! that answer it carry the negated one.

use vstd::prelude::*;
use vstd::slice::{slice_subrange, slice_to_vec};
use crate::actors::muxrpc::handler::{negate, negated, BodyType, RecvMsg, RpcBody, RpcType};
use crate::storage::codec::{
    be_bytes, be_value, lemma_be_bytes_len, lemma_be_value_bound, lemma_be_value_of_bytes,
    lemma_pow256_values, uint_from_be_bytes, uint_to_be_bytes,
};

verus! {

/// Length of a header in bytes.
pub const HEADER_SIZE: usize = 9;

/// The header of a frame.
#[derive(Clone, Copy, Debug, PartialEq, Eq, Structural)]
pub struct Header {
    pub req_no: i32,
    pub is_stream: bool,
    pub is_end_or_error: bool,
    pub body_type: BodyType,
    pub body_len: u32,
}

/// Why bytes are not a header or a frame.
#[derive(Clone, Copy, Debug, PartialEq, Eq, Structural)]
pub enum FrameError {
    /// Fewer than nine bytes.
    HeaderSizeTooSmall,
    /// The two lowest bits of the flags name no body type.
    InvalidBodyType(u8),
    /// The body is shorter than the header says.
    BodyTooShort,
}

/// The number of a body type in the flags.
pub open spec fn body_type_code(t: BodyType) -> u8 {
    match t {
        BodyType::Binary => 0,
        BodyType::UTF8 => 1,
        BodyType::JSON => 2,
    }
}

/// The flags byte of a header.
pub open spec fn flags_of(h: Header) -> u8 {
    ((if h.is_stream {
        8int
    } else {
        0int
    }) + (if h.is_end_or_error {
        4int
    } else {
        0int
    }) + body_type_code(h.body_type)) as u8
}

/// A signed 32-bit number as the unsigned one with the same bits.
pub open spec fn as_unsigned(n: i32) -> u32 {
    if n >= 0 {
        n as u32
    } else {
        (n + 0x1_0000_0000) as u32
    }
}

/// An unsigned 32-bit number as the signed one with the same bits.
pub open spec fn as_signed(n: u32) -> i32 {
    if n < 0x8000_0000 {
        n as i32
    } else {
        (n - 0x1_0000_0000) as i32
    }
}

/// The nine bytes of a header.
pub open spec fn header_bytes(h: Header) -> Seq<u8> {
    seq![flags_of(h)] + be_bytes(h.body_len as nat, 4) + be_bytes(as_unsigned(h.req_no) as nat, 4)
}

/// The header that bytes start with.
pub open spec fn header_of(s: Seq<u8>) -> Result<Header, FrameError> {
    if s.len() < 9 {
        Err(FrameError::HeaderSizeTooSmall)
    } else if s[0] % 4 == 3 {
        Err(FrameError::InvalidBodyType(3))
    } else {
        Ok(
            Header {
                req_no: as_signed(be_value(s.subrange(5, 9)) as u32),
                is_stream: (s[0] / 8) % 2 == 1,
                is_end_or_error: (s[0] / 4) % 2 == 1,
                body_type: if s[0] % 4 == 0 {
                    BodyType::Binary
                } else if s[0] % 4 == 1 {
                    BodyType::UTF8
                } else {
                    BodyType::JSON
                },
                body_len: be_value(s.subrange(1, 5)) as u32,
            },
        )
    }
}

/// A frame: the header, then the body.
pub open spec fn frame_bytes(h: Header, body: Seq<u8>) -> Seq<u8> {
    header_bytes(h) + body
}

/// The frame that bytes start with: its header and its body.
pub open spec fn frame_of(s: Seq<u8>) -> Result<(Header, Seq<u8>), FrameError> {
    match header_of(s) {
        Err(e) => Err(e),
        Ok(h) => if s.len() < 9 + h.body_len {
            Err(FrameError::BodyTooShort)
        } else {
            Ok((h, s.subrange(9, 9 + h.body_len)))
        },
    }
}

/// The header with these flags and this request number for a body of
/// this length.
pub open spec fn header_for(
    req_no: i32,
    is_stream: bool,
    is_end_or_error: bool,
    body_type: BodyType,
    body_len: nat,
) -> Header {
    Header { req_no, is_stream, is_end_or_error, body_type, body_len: body_len as u32 }
}

/// Bytes start with this header.
pub open spec fn starts_with_header(s: Seq<u8>, h: Header) -> bool {
    header_of(s) matches Ok(d) && d == h
}

/// Bytes start with the frame of this header and body.
pub open spec fn starts_with_frame(s: Seq<u8>, h: Header, body: Seq<u8>) -> bool {
    frame_of(s) matches Ok(f) && f.0 == h && f.1 == body
}

/// What decoding returns is what the bytes start with.
pub open spec fn is_frame_of(res: Result<(Header, Vec<u8>), FrameError>, s: Seq<u8>) -> bool {
    match frame_of(s) {
        Ok((h, body)) => res matches Ok(f) && f.0 == h && f.1@ == body,
        Err(e) => res matches Err(x) && x == e,
    }
}

/// Decoding the bytes of a header gives the header back, whatever follows
/// them.
pub proof fn lemma_header_round_trip(h: Header, rest: Seq<u8>)
    ensures
        header_bytes(h).len() == 9,
        starts_with_header(header_bytes(h) + rest, h),
{
    let len = be_bytes(h.body_len as nat, 4);
    let req = be_bytes(as_unsigned(h.req_no) as nat, 4);
    let s = header_bytes(h) + rest;
    lemma_be_bytes_len(h.body_len as nat, 4);
    lemma_be_bytes_len(as_unsigned(h.req_no) as nat, 4);
    lemma_pow256_values();
    lemma_be_value_of_bytes(h.body_len as nat, 4);
    lemma_be_value_of_bytes(as_unsigned(h.req_no) as nat, 4);
    assert(s[0] == flags_of(h));
    assert(s.subrange(1, 5) =~= len);
    assert(s.subrange(5, 9) =~= req);
}

/// Encoding then decoding a frame yields the flags, the request number and
/// the body that went in.
pub proof fn lemma_frame_round_trip(h: Header, body: Seq<u8>)
    requires
        h.body_len == body.len(),
    ensures
        starts_with_frame(frame_bytes(h, body), h, body),
{
    lemma_header_round_trip(h, body);
    let s = frame_bytes(h, body);
    assert(s.subrange(9, 9 + h.body_len) =~= body);
}

impl Header {
    /// Decodes the header at the start of the bytes.
    pub fn from_slice(bytes: &[u8]) -> (res: Result<Header, FrameError>)
        ensures
            res == header_of(bytes@),
    {
        if bytes.len() < HEADER_SIZE {
            return Err(FrameError::HeaderSizeTooSmall);
        }
        let flags: u8 = bytes[0];
        let is_stream = (flags / 8) % 2 == 1;
        let is_end_or_error = (flags / 4) % 2 == 1;
        let body_type_value: u8 = flags % 4;
        let body_type = if body_type_value == 0 {
            BodyType::Binary
        } else if body_type_value == 1 {
            BodyType::UTF8
        } else if body_type_value == 2 {
            BodyType::JSON
        } else {
            return Err(FrameError::InvalidBodyType(body_type_value));
        };
        let len_digits = slice_subrange(bytes, 1, 5);
        let req_digits = slice_subrange(bytes, 5, 9);
        proof {
            lemma_be_value_bound(len_digits@);
            lemma_be_value_bound(req_digits@);
            lemma_pow256_values();
        }
        let body_len: u64 = uint_from_be_bytes(len_digits);
        let unsigned: u64 = uint_from_be_bytes(req_digits);
        let req_no: i32 = if unsigned < 0x8000_0000 {
            unsigned as i32
        } else {
            (unsigned as i64 - 0x1_0000_0000) as i32
        };
        Ok(Header { req_no, is_stream, is_end_or_error, body_type, body_len: body_len as u32 })
    }

    /// Encodes the header.
    pub fn to_vec(&self) -> (bytes: Vec<u8>)
        ensures
            bytes@ == header_bytes(*self),
            bytes@.len() == 9,
    {
        let mut flags: u8 = 0;
        if self.is_end_or_error {
            flags = flags + 4;
        }
        if self.is_stream {
            flags = flags + 8;
        }
        flags = flags + match self.body_type {
            BodyType::Binary => 0,
            BodyType::UTF8 => 1,
            BodyType::JSON => 2,
        };
        let unsigned: u64 = if self.req_no >= 0 {
            self.req_no as u64
        } else {
            (self.req_no as i64 + 0x1_0000_0000) as u64
        };
        let mut bytes: Vec<u8> = Vec::new();
        bytes.push(flags);
        let mut len_digits = uint_to_be_bytes(self.body_len as u64, 4);
        let mut req_digits = uint_to_be_bytes(unsigned, 4);
        bytes.append(&mut len_digits);
        bytes.append(&mut req_digits);
        proof {
            lemma_be_bytes_len(self.body_len as nat, 4);
            lemma_be_bytes_len(as_unsigned(self.req_no) as nat, 4);
        }
        bytes
    }

    /// The header of a response frame, as the framing layer writes it for
    /// the request number that a handler hands over: the number is negated,
    /// and the frame is marked as part of a stream for a source call.
    pub fn response(req_no: i32, rpc_type: RpcType, body_type: BodyType, body_len: u32) -> (h: Header)
        ensures
            h == (Header {
                req_no: negated(req_no),
                is_stream: rpc_type == RpcType::Source,
                is_end_or_error: false,
                body_type,
                body_len,
            }),
    {
        Header {
            req_no: negate(req_no),
            is_stream: rpc_type == RpcType::Source,
            is_end_or_error: false,
            body_type,
            body_len,
        }
    }

    /// The header of the frame that ends a stream.
    pub fn stream_eof(req_no: i32, body_len: u32) -> (h: Header)
        ensures
            h == (Header {
                req_no: negated(req_no),
                is_stream: true,
                is_end_or_error: true,
                body_type: BodyType::JSON,
                body_len,
            }),
    {
        Header {
            req_no: negate(req_no),
            is_stream: true,
            is_end_or_error: true,
            body_type: BodyType::JSON,
            body_len,
        }
    }
}

/// Tells a received frame apart by direction and flags, and puts the
/// request number back to the one of the request that the frame belongs to.
///
/// A frame with a positive request number comes from the peer's side of a
/// call: it is a request where its body reads as one (`request`), else a
/// further frame of the peer's stream. Every other frame answers a call of
/// ours: it cancels the stream, reports an error with the message that its
/// body holds (`error_text`), or carries a response. `None` where an error
/// frame holds no message.
pub fn classify(
    h: &Header,
    body: Vec<u8>,
    request: Option<RpcBody>,
    error_text: Option<String>,
) -> (res: Option<(i32, RecvMsg)>)
    ensures
        if h.req_no > 0 {
            res matches Some(p) && p.0 == h.req_no && (match request {
                Some(b) => p.1 == RecvMsg::RpcRequest(b),
                None => p.1 == RecvMsg::OtherRequest(h.body_type, body),
            })
        } else if h.is_end_or_error && h.is_stream {
            res == Some((negated(h.req_no), RecvMsg::CancelStreamResponse))
        } else if h.is_end_or_error {
            match error_text {
                Some(text) => res == Some((negated(h.req_no), RecvMsg::ErrorResponse(text))),
                None => res is None,
            }
        } else {
            res == Some((negated(h.req_no), RecvMsg::RpcResponse(h.body_type, body)))
        },
{
    if h.req_no > 0 {
        match request {
            Some(rpc_body) => Some((h.req_no, RecvMsg::RpcRequest(rpc_body))),
            None => Some((h.req_no, RecvMsg::OtherRequest(h.body_type, body))),
        }
    } else if h.is_end_or_error {
        if h.is_stream {
            Some((negate(h.req_no), RecvMsg::CancelStreamResponse))
        } else {
            match error_text {
                Some(text) => Some((negate(h.req_no), RecvMsg::ErrorResponse(text))),
                None => None,
            }
        }
    } else {
        Some((negate(h.req_no), RecvMsg::RpcResponse(h.body_type, body)))
    }
}

/// Encodes a frame: flags and request number as the header gives them, the
/// length of the body, then the body.
///
/// Decoding what comes back yields the same flags, request number and body.
/// `None` where the body is too long for a frame.
pub fn encode_frame(
    req_no: i32,
    is_stream: bool,
    is_end_or_error: bool,
    body_type: BodyType,
    body: &[u8],
) -> (res: Option<Vec<u8>>)
    ensures
        res is Some <==> body@.len() <= u32::MAX,
        res matches Some(bytes) ==> bytes@ == frame_bytes(
            header_for(req_no, is_stream, is_end_or_error, body_type, body@.len()),
            body@,
        ),
        res matches Some(bytes) ==> starts_with_frame(
            bytes@,
            header_for(req_no, is_stream, is_end_or_error, body_type, body@.len()),
            body@,
        ),
{
    if body.len() > 0xffff_ffff {
        return None;
    }
    let h = Header { req_no, is_stream, is_end_or_error, body_type, body_len: body.len() as u32 };
    let mut bytes = h.to_vec();
    bytes.extend_from_slice(body);
    proof {
        assert(h == header_for(req_no, is_stream, is_end_or_error, body_type, body@.len()));
        assert(bytes@ == frame_bytes(h, body@));
        lemma_frame_round_trip(h, body@);
    }
    Some(bytes)
}

/// Decodes the frame at the start of the bytes: its header and its body.
pub fn decode_frame(bytes: &[u8]) -> (res: Result<(Header, Vec<u8>), FrameError>)
    ensures
        is_frame_of(res, bytes@),
{
    let h = match Header::from_slice(bytes) {
        Ok(h) => h,
        Err(e) => {
            return Err(e);
        },
    };
    if bytes.len() - HEADER_SIZE < h.body_len as usize {
        return Err(FrameError::BodyTooShort);
    }
    let body = slice_to_vec(slice_subrange(bytes, HEADER_SIZE, HEADER_SIZE + h.body_len as usize));
    Ok((h, body))
}

} // verus!
