//! Epidemic broadcast tree (EBT) replication handler.
//!
//! One handler serves one connection. It answers `ebt.replicate` requests,
//! turns frames of the session's stream into `ReceivedClock` and
//! `ReceivedMessage` events, and turns `SendClock`, `SendMessage` and
//! `TerminateSession` events for its own connection into frames.

use vstd::prelude::*;
use vstd::string::StringExecFns;
use vstd::string::StrSliceExecFns;
use vstd::utf8::encode_utf8;
use crate::actors::muxrpc::frame::{
    frame_bytes, header_for, lemma_frame_round_trip, starts_with_frame,
};
use crate::actors::muxrpc::handler::{
    negate, negated, name_view, selected_method, Action, ApiMethod, BodyType, EbtReplicate,
    Handled, RecvMsg, RpcBody, RpcInput, RpcType,
};
use crate::actors::replication::ebt::{
    clock_map, clock_wf, encode_clock, json_clock, parse_clock, ConnectionId, EbtEvent, ReqNo,
    SessionRole, VectorClock,
};
use crate::broker::BrokerMessage;
use crate::error::SolarError;
use crate::feed::{envelope_reading, value_reading, MessageFields, MessageValue, Reading};

verus! {

/// EBT replicate handler. Tracks the request number of the session.
pub struct EbtReplicateHandler {
    /// Request number of the `ebt.replicate` call that opened the session;
    /// zero while there is none.
    active_request: ReqNo,
}

/// The request number to hand to the framing layer for a frame of a session
/// stream. Framing negates what it is given, so the requester, whose frames
/// carry the positive number on the wire, hands over the negated one.
pub open spec fn outbound_req_no(role: SessionRole, req_no: ReqNo) -> ReqNo {
    match role {
        SessionRole::Requester => negated(req_no),
        SessionRole::Responder => req_no,
    }
}

/// The request number that a frame of a session stream carries on the wire.
pub open spec fn wire_req_no(role: SessionRole, req_no: ReqNo) -> ReqNo {
    negated(outbound_req_no(role, req_no))
}

/// A frame with this request number belongs to the session.
pub open spec fn on_session(active: ReqNo, req_no: ReqNo) -> bool {
    active == req_no || active == negated(req_no)
}

/// The request number in force for one input: the one that the session
/// loop passes in, else the one that the handler holds.
pub open spec fn adopted(held: ReqNo, active_req_no: Option<ReqNo>) -> ReqNo {
    match active_req_no {
        Some(req_no) => req_no,
        None => held,
    }
}

/// The input was not for this handler: nothing to do, not consumed.
pub open spec fn passes(out: Handled) -> bool {
    out.actions@.len() == 0 && out.ended(false)
}

/// The result is the failure of the session on this request number, with
/// this reason.
pub open spec fn is_ebt_error(res: Result<bool, SolarError>, req_no: ReqNo, text: Seq<char>) -> bool {
    res matches Err(SolarError::EbtReplicate(p)) && p.0 == req_no && p.1@ == text
}

/// The action writes an error frame with this message.
pub open spec fn is_error_frame(a: Action, req_no: ReqNo, rpc_type: RpcType, text: Seq<char>) -> bool {
    a matches Action::SendError(r, t, m) && r == req_no && t == rpc_type && m@ == text
}

/// The action writes this body as a JSON frame of the session stream.
pub open spec fn is_json_response(a: Action, req_no: ReqNo, body: Seq<u8>) -> bool {
    a matches Action::SendResponse(r, t, b, d) && r == req_no && t == RpcType::Duplex && b
        == BodyType::JSON && d@ == body
}

/// The action writes a JSON frame of the session stream that denotes this
/// clock.
pub open spec fn is_clock_response(a: Action, req_no: ReqNo, clock: Map<Seq<char>, int>) -> bool {
    a matches Action::SendResponse(r, t, b, d) && r == req_no && t == RpcType::Duplex && b
        == BodyType::JSON && json_clock(d@) == Some(clock)
}

/// The action announces that the peer's replicate request was accepted.
pub open spec fn is_session_initiated(
    a: Action,
    conn: ConnectionId,
    req_no: ReqNo,
    peer: Seq<char>,
) -> bool {
    a matches Action::Broadcast(BrokerMessage::Ebt(EbtEvent::SessionInitiated(c, r, p, role)))
        && c == conn && r == req_no && p@ == peer && role == SessionRole::Responder
}

/// The action announces a clock of this mapping, with each identity once.
pub open spec fn is_received_clock(
    a: Action,
    conn: ConnectionId,
    req_no: ReqNo,
    peer: Seq<char>,
    clock: Map<Seq<char>, int>,
) -> bool {
    a matches Action::Broadcast(BrokerMessage::Ebt(EbtEvent::ReceivedClock(c, r, p, v))) && c
        == conn && r == req_no && p@ == peer && clock_wf(v@) && clock_map(v@) == clock
}

/// The action announces a message with these fields.
pub open spec fn is_received_message(a: Action, fields: MessageFields) -> bool {
    a matches Action::Broadcast(BrokerMessage::Ebt(EbtEvent::ReceivedMessage(m))) && m.fields()
        == fields
}

/// What becomes of a message that was read from a frame: the event that
/// announces it, or the error that refuses it.
pub open spec fn message_outcome(parsed: Result<MessageValue, SolarError>, out: Handled) -> bool {
    match parsed {
        Ok(m) => out.actions@.len() == 1 && is_received_message(out.actions@[0], m.fields())
            && out.ended(false),
        Err(e) => out.actions@.len() == 0 && out.failed_with(e),
    }
}

/// What reading a frame body as a message comes to: as a bare message
/// value, or, where the feed primitive refuses that, as an envelope.
pub open spec fn frame_reading(data: Seq<u8>) -> Reading {
    match value_reading(data) {
        Reading::Refused => envelope_reading(data),
        reading => reading,
    }
}

/// What the handler makes of a frame body on the session's stream: a clock
/// where the body denotes one, else a message, else an error.
pub open spec fn response_outcome(
    data: Seq<u8>,
    conn: ConnectionId,
    req_no: ReqNo,
    peer: Seq<char>,
    out: Handled,
) -> bool {
    match json_clock(data) {
        Some(clock) => out.actions@.len() == 1 && is_received_clock(
            out.actions@[0],
            conn,
            req_no,
            peer,
            clock,
        ) && out.ended(false),
        None => match frame_reading(data) {
            Reading::Message(fields) => out.actions@.len() == 1 && is_received_message(
                out.actions@[0],
                fields,
            ) && out.ended(false),
            Reading::Malformed => out.actions@.len() == 0 && out.result is Err
                && out.result->Err_0 is MalformedMessage,
            Reading::NoSequence => out.actions@.len() == 0 && out.result is Err
                && out.result->Err_0 is InvalidSequence,
            Reading::Refused => out.actions@.len() == 0 && out.result is Err
                && out.result->Err_0 is KuskaFeed,
        },
    }
}

/// What is wrong with the options of a replicate request, as the text
/// that the peer is told: the arguments do not read as a list of options
/// (the text says why), the list is empty, or its last element asks for
/// another version or format. `None` where the options are in order.
pub open spec fn options_fault(args: Result<Vec<EbtReplicate>, String>) -> Option<Seq<char>> {
    match args {
        Err(why) => Some(why@),
        Ok(list) => if list@.len() == 0 {
            Some("ebt replicate without options"@)
        } else if list@.last().version != 3 {
            Some("ebt version != 3"@)
        } else if list@.last().format@ != "classic"@ {
            Some("ebt format != classic"@)
        } else {
            None
        },
    }
}

/// What the handler makes of an `ebt.replicate` request, and the request
/// number that it holds afterwards.
///
/// - A request whose options are not in order is refused, whether a
///   session is active or not: the peer gets an error frame with the text
///   of the fault, and the handler fails with that text. The number that
///   the handler holds stays as it is.
/// - A request carries a positive number. One in order that carries no
///   positive number opens nothing: it is passed over.
/// - A request in order that arrives while there is no session is
///   accepted: the handler holds its number and announces the session.
/// - A request in order that arrives while a session is active is turned
///   away, so that there is one session for each connection: the peer gets
///   an error frame that says `ebt session already active`, no session is
///   announced, and the session that is active goes on as it is. The
///   protocol names no reply for this case; the frame and its wording are
///   this crate's own choice.
pub open spec fn replicate_outcome(
    active: ReqNo,
    req_no: ReqNo,
    body: RpcBody,
    conn: ConnectionId,
    peer: Seq<char>,
    out: Handled,
    next: ReqNo,
) -> bool {
    match options_fault(body.ebt_args) {
        Some(text) => next == active && out.actions@.len() == 1 && is_error_frame(
            out.actions@[0],
            req_no,
            body.rpc_type,
            text,
        ) && is_ebt_error(out.result, req_no, text),
        None => if req_no <= 0 {
            next == active && passes(out)
        } else if active != 0 {
            next == active && out.actions@.len() == 1 && is_error_frame(
                out.actions@[0],
                req_no,
                body.rpc_type,
                "ebt session already active"@,
            ) && out.ended(false)
        } else {
            next == req_no && out.actions@.len() == 1 && is_session_initiated(
                out.actions@[0],
                conn,
                req_no,
                peer,
            ) && out.ended(false)
        },
    }
}

/// A replicate request fails the handler exactly where its options are not
/// in order, and then nothing else happens: the peer is told the fault, no
/// session is announced, and the number that the handler holds stays.
pub proof fn lemma_bad_options_fail(
    active: ReqNo,
    req_no: ReqNo,
    body: RpcBody,
    conn: ConnectionId,
    peer: Seq<char>,
    out: Handled,
    next: ReqNo,
)
    requires
        replicate_outcome(active, req_no, body, conn, peer, out, next),
    ensures
        out.result is Err <==> options_fault(body.ebt_args) is Some,
        out.result is Err ==> next == active && announced(out) is None && is_ebt_error(
            out.result,
            req_no,
            options_fault(body.ebt_args).unwrap(),
        ),
{
}

/// The request number of the session that the handler announces with what
/// it made of an input, if it announces one.
pub open spec fn announced(out: Handled) -> Option<ReqNo> {
    if out.actions@.len() == 1 {
        match out.actions@[0] {
            Action::Broadcast(BrokerMessage::Ebt(EbtEvent::SessionInitiated(_, req_no, _, _))) => Some(
                req_no,
            ),
            _ => None,
        }
    } else {
        None
    }
}

/// A connection has one session: once the handler holds the request
/// number of a session, no input changes it, and no input makes the
/// handler announce another session.
pub proof fn lemma_one_session(
    active: ReqNo,
    op: RpcInput,
    peer: Seq<char>,
    conn: ConnectionId,
    out: Handled,
    next: ReqNo,
)
    requires
        handled(active, op, peer, conn, out, next),
        active != 0,
    ensures
        next == active,
        announced(out) is None,
{
}

/// A session that the handler announces is the one whose request number
/// it holds from then on: that of a replicate request with a positive
/// number, accepted while there was no session.
pub proof fn lemma_announced_is_held(
    active: ReqNo,
    op: RpcInput,
    peer: Seq<char>,
    conn: ConnectionId,
    out: Handled,
    next: ReqNo,
)
    requires
        handled(active, op, peer, conn, out, next),
        announced(out) is Some,
    ensures
        active == 0,
        next == announced(out).unwrap(),
        next > 0,
        out.ended(false),
{
}

/// What the handler makes of a `SendClock` event for its own connection:
/// one JSON frame of the session stream that denotes the clock.
pub open spec fn clock_sent(req_no: ReqNo, clock: Seq<(String, i32)>, out: Handled) -> bool {
    out.actions@.len() == 1 && is_clock_response(out.actions@[0], req_no, clock_map(clock))
        && out.ended(false)
}

/// The whole of `handle`: for each input the actions, the result and the
/// request number held afterwards, given the number `active` in force.
pub open spec fn handled(
    active: ReqNo,
    op: RpcInput,
    peer: Seq<char>,
    conn: ConnectionId,
    out: Handled,
    next: ReqNo,
) -> bool {
    match op {
        RpcInput::Network(req_no, RecvMsg::RpcRequest(body)) => if selected_method(
            name_view(body.name@),
        ) == Some(ApiMethod::EbtReplicate) {
            replicate_outcome(active, req_no, body, conn, peer, out, next)
        } else {
            next == active && passes(out)
        },
        RpcInput::Network(req_no, RecvMsg::OtherRequest(_, data)) => next == active && (
        if on_session(active, req_no) {
            response_outcome(data@, conn, req_no, peer, out)
        } else {
            passes(out)
        }),
        RpcInput::Network(req_no, RecvMsg::RpcResponse(_, data)) => next == active && (
        if on_session(active, req_no) {
            response_outcome(data@, conn, req_no, peer, out)
        } else {
            passes(out)
        }),
        RpcInput::Network(req_no, RecvMsg::CancelStreamResponse) => next == active
            && out.actions@ == seq![Action::SendStreamEof(negated(req_no))] && out.ended(true),
        RpcInput::Network(req_no, RecvMsg::ErrorResponse(err)) => next == active
            && out.actions@.len() == 0 && is_ebt_error(out.result, req_no, err@),
        RpcInput::Message(BrokerMessage::Ebt(EbtEvent::TerminateSession(c, role))) => next
            == active && (if c == conn {
            out.actions@ == seq![Action::SendStreamEof(outbound_req_no(role, active))]
                && out.ended(true)
        } else {
            passes(out)
        }),
        RpcInput::Message(BrokerMessage::Ebt(EbtEvent::SendClock(c, req_no, clock, role))) => next
            == active && (if c == conn {
            clock_sent(outbound_req_no(role, req_no), clock@, out)
        } else {
            passes(out)
        }),
        RpcInput::Message(BrokerMessage::Ebt(EbtEvent::SendMessage(c, req_no, _, msg, role))) => next
            == active && (if c == conn {
            out.actions@.len() == 1 && is_json_response(
                out.actions@[0],
                outbound_req_no(role, req_no),
                encode_utf8(msg@),
            ) && out.ended(false)
        } else {
            passes(out)
        }),
        _ => next == active && passes(out),
    }
}

/// On the wire, the frames of a session carry the request number of the
/// replicate call when the requester sends them, and its negation when the
/// responder does.
pub proof fn lemma_wire_req_no(role: SessionRole, req_no: ReqNo)
    requires
        req_no != i32::MIN,
    ensures
        wire_req_no(role, req_no) == (match role {
            SessionRole::Requester => req_no as int,
            SessionRole::Responder => -req_no,
        }),
        on_session(req_no, wire_req_no(role, req_no)),
{
}

/// The frame that carries a JSON response of a session: the framing layer
/// negates the request number that the action hands over and sets the
/// stream flag as it sees fit.
pub open spec fn session_frame(a: Action, is_stream: bool) -> Seq<u8> {
    match a {
        Action::SendResponse(req_no, _, body_type, body) => frame_bytes(
            header_for(negated(req_no), is_stream, false, body_type, body@.len()),
            body@,
        ),
        _ => Seq::empty(),
    }
}

/// A clock or a message that a session sends reads back as it was
/// written. The frame of the action that the handler gives for a
/// `SendClock` or `SendMessage` event decodes to a JSON frame with the same
/// body, and its request number is the one of the replicate call where the
/// requester sends and the negation where the responder does. This holds
/// with either stream flag.
pub proof fn lemma_session_frame_round_trip(
    role: SessionRole,
    req_no: ReqNo,
    a: Action,
    body: Seq<u8>,
    is_stream: bool,
)
    requires
        is_json_response(a, outbound_req_no(role, req_no), body),
        body.len() <= u32::MAX,
        req_no != i32::MIN,
    ensures
        starts_with_frame(
            session_frame(a, is_stream),
            header_for(wire_req_no(role, req_no), is_stream, false, BodyType::JSON, body.len()),
            body,
        ),
        wire_req_no(role, req_no) == (match role {
            SessionRole::Requester => req_no as int,
            SessionRole::Responder => -req_no,
        }),
{
    lemma_frame_round_trip(
        header_for(wire_req_no(role, req_no), is_stream, false, BodyType::JSON, body.len()),
        body,
    );
}

/// Says what is wrong with the options of a replicate request, if
/// anything is. The options are the last element of the argument list.
pub fn options_fault_of(args: &Result<Vec<EbtReplicate>, String>) -> (fault: Option<String>)
    ensures
        match options_fault(*args) {
            Some(text) => fault matches Some(f) && f@ == text,
            None => fault is None,
        },
{
    match args {
        Err(why) => Some(why.clone()),
        Ok(list) => {
            if list.len() == 0 {
                return Some(String::from_str("ebt replicate without options"));
            }
            let options = &list[list.len() - 1];
            if options.version != 3 {
                Some(String::from_str("ebt version != 3"))
            } else if options.format != String::from_str("classic") {
                Some(String::from_str("ebt format != classic"))
            } else {
                None
            }
        },
    }
}

/// Applies the sign convention of a session stream to a request number.
/// Every frame that a session sends goes through here.
pub fn session_req_no(role: SessionRole, req_no: ReqNo) -> (r: ReqNo)
    ensures
        r == outbound_req_no(role, req_no),
{
    match role {
        SessionRole::Requester => negate(req_no),
        SessionRole::Responder => req_no,
    }
}

/// The event for a clock that arrived on a session stream.
pub fn received_clock(
    clock: VectorClock,
    connection_id: ConnectionId,
    req_no: ReqNo,
    peer_ssb_id: String,
) -> (out: Handled)
    requires
        clock_wf(clock@),
    ensures
        out.actions@.len() == 1,
        is_received_clock(out.actions@[0], connection_id, req_no, peer_ssb_id@, clock_map(clock@)),
        out.ended(false),
{
    Handled::one(
        Action::Broadcast(
            BrokerMessage::Ebt(EbtEvent::ReceivedClock(connection_id, req_no, peer_ssb_id, clock)),
        ),
        Ok(false),
    )
}

/// The event for a message that was read from a session stream, or the
/// error with which reading it failed.
pub fn received_message(parsed: Result<MessageValue, SolarError>) -> (out: Handled)
    ensures
        message_outcome(parsed, out),
{
    match parsed {
        Ok(msg) => Handled::one(
            Action::Broadcast(BrokerMessage::Ebt(EbtEvent::ReceivedMessage(msg))),
            Ok(false),
        ),
        Err(e) => Handled::done(Err(e)),
    }
}

/// What becomes of a clock that was written as JSON: the frame that
/// carries the text, or the error with which writing it failed.
pub open spec fn clock_framed(
    req_no: ReqNo,
    encoded: Result<Vec<u8>, serde_json::Error>,
    out: Handled,
) -> bool {
    match encoded {
        Ok(text) => out.asks_only(
            Action::SendResponse(req_no, RpcType::Duplex, BodyType::JSON, text),
        ) && out.ended(false),
        Err(e) => out.actions@.len() == 0 && out.failed_with(SolarError::SerdeJson(e)),
    }
}

/// The frame for a clock that was written as JSON, or the error with which
/// writing it failed.
pub fn clock_response(req_no: ReqNo, encoded: Result<Vec<u8>, serde_json::Error>) -> (out: Handled)
    ensures
        clock_framed(req_no, encoded, out),
{
    match encoded {
        Ok(text) => Handled::one(
            Action::SendResponse(req_no, RpcType::Duplex, BodyType::JSON, text),
            Ok(false),
        ),
        Err(e) => Handled::done(Err(SolarError::SerdeJson(e))),
    }
}

impl EbtReplicateHandler {
    /// The request number that the handler holds.
    pub closed spec fn held(&self) -> ReqNo {
        self.active_request
    }

    /// Instantiate a new instance of `EbtReplicateHandler`.
    pub fn new() -> (h: Self)
        ensures
            h.held() == 0,
    {
        Self { active_request: 0 }
    }

    /// The request number of the session; zero while there is none.
    pub fn active_request(&self) -> (r: ReqNo)
        ensures
            r == self.held(),
    {
        self.active_request
    }

    /// Handle an RPC event.
    ///
    /// `active_req_no` is the request number of the session as the session
    /// loop knows it; where it is given, the handler adopts it before it
    /// looks at the input.
    pub fn handle(
        &mut self,
        op: &RpcInput,
        peer_ssb_id: String,
        connection_id: ConnectionId,
        active_req_no: Option<ReqNo>,
    ) -> (out: Handled)
        ensures
            handled(
                adopted(old(self).held(), active_req_no),
                *op,
                peer_ssb_id@,
                connection_id,
                out,
                final(self).held(),
            ),
    {
        // An outbound EBT replicate request was made before the handler was
        // called.
        if let Some(req_no) = active_req_no {
            self.active_request = req_no;
        }
        match op {
            RpcInput::Network(req_no, RecvMsg::RpcRequest(req)) => {
                self.recv_rpc_request(*req_no, req, peer_ssb_id, connection_id)
            },
            RpcInput::Network(req_no, RecvMsg::OtherRequest(_type, req)) => {
                self.recv_other_request(*req_no, req.as_slice(), peer_ssb_id, connection_id)
            },
            RpcInput::Network(req_no, RecvMsg::RpcResponse(_type, res)) => {
                self.recv_rpc_response(*req_no, res.as_slice(), peer_ssb_id, connection_id)
            },
            RpcInput::Network(req_no, RecvMsg::CancelStreamResponse) => {
                self.recv_cancelstream(*req_no)
            },
            RpcInput::Network(req_no, RecvMsg::ErrorResponse(err)) => {
                self.recv_error_response(*req_no, err)
            },
            RpcInput::Message(msg) => match msg {
                BrokerMessage::Ebt(EbtEvent::TerminateSession(conn_id, session_role)) => {
                    if *conn_id == connection_id {
                        // `send_cancelstream` negates once, framing once more.
                        let req_no = match session_role {
                            SessionRole::Requester => self.active_request,
                            SessionRole::Responder => negate(self.active_request),
                        };
                        self.send_cancelstream(req_no)
                    } else {
                        Handled::pass()
                    }
                },
                BrokerMessage::Ebt(EbtEvent::SendClock(conn_id, req_no, clock, session_role)) => {
                    // Only send the clock if the associated connection is
                    // being handled by this instance of the handler.
                    if *conn_id == connection_id {
                        let out = clock_response(
                            session_req_no(*session_role, *req_no),
                            encode_clock(clock),
                        );
                        out
                    } else {
                        Handled::pass()
                    }
                },
                BrokerMessage::Ebt(
                    EbtEvent::SendMessage(conn_id, req_no, _ssb_id, msg, session_role),
                ) => {
                    if *conn_id == connection_id {
                        Handled::one(
                            Action::SendResponse(
                                session_req_no(*session_role, *req_no),
                                RpcType::Duplex,
                                BodyType::JSON,
                                msg.as_str().as_bytes_vec(),
                            ),
                            Ok(false),
                        )
                    } else {
                        Handled::pass()
                    }
                },
                _ => Handled::pass(),
            },
            _ => Handled::pass(),
        }
    }

    /// Process an incoming MUXRPC request.
    fn recv_rpc_request(
        &mut self,
        req_no: ReqNo,
        req: &RpcBody,
        peer_ssb_id: String,
        connection_id: ConnectionId,
    ) -> (out: Handled)
        ensures
            if selected_method(name_view(req.name@)) == Some(ApiMethod::EbtReplicate) {
                replicate_outcome(
                    old(self).held(),
                    req_no,
                    *req,
                    connection_id,
                    peer_ssb_id@,
                    out,
                    final(self).held(),
                )
            } else {
                final(self).held() == old(self).held() && passes(out)
            },
    {
        match ApiMethod::from_selector(&req.name) {
            Some(ApiMethod::EbtReplicate) => {
                self.recv_ebtreplicate(req_no, req, peer_ssb_id, connection_id)
            },
            _ => Handled::pass(),
        }
    }

    /// Process and respond to an incoming EBT replicate request.
    fn recv_ebtreplicate(
        &mut self,
        req_no: ReqNo,
        req: &RpcBody,
        peer_ssb_id: String,
        connection_id: ConnectionId,
    ) -> (out: Handled)
        ensures
            replicate_outcome(
                old(self).held(),
                req_no,
                *req,
                connection_id,
                peer_ssb_id@,
                out,
                final(self).held(),
            ),
    {
        // Validate the EBT request args (`version` and `format`).
        // Terminate the stream with an error response if expectations are
        // not met.
        if let Some(err_msg) = options_fault_of(&req.ebt_args) {
            return Handled::one(
                Action::SendError(req_no, req.rpc_type, err_msg.clone()),
                Err(SolarError::EbtReplicate((req_no, err_msg))),
            );
        }
        // A request carries a positive number.
        if req_no <= 0 {
            return Handled::pass();
        }
        // There is one session for each connection. While it is active a
        // further request is turned away, and the session goes on.
        if self.active_request != 0 {
            return Handled::one(
                Action::SendError(
                    req_no,
                    req.rpc_type,
                    String::from_str("ebt session already active"),
                ),
                Ok(false),
            );
        }
        // Set the request number for this session.
        self.active_request = req_no;
        Handled::one(
            Action::Broadcast(
                BrokerMessage::Ebt(
                    EbtEvent::SessionInitiated(
                        connection_id,
                        req_no,
                        peer_ssb_id,
                        SessionRole::Responder,
                    ),
                ),
            ),
            Ok(false),
        )
    }

    /// Process a further frame of the peer's side of the session stream.
    /// Like a response, it is expected to contain a vector clock or an SSB
    /// message.
    fn recv_other_request(
        &self,
        req_no: ReqNo,
        req: &[u8],
        peer_ssb_id: String,
        connection_id: ConnectionId,
    ) -> (out: Handled)
        ensures
            if on_session(self.held(), req_no) {
                response_outcome(req@, connection_id, req_no, peer_ssb_id@, out)
            } else {
                passes(out)
            },
    {
        self.recv_rpc_response(req_no, req, peer_ssb_id, connection_id)
    }

    /// Process an incoming MUXRPC response.
    /// The response is expected to contain a vector clock or an SSB message.
    fn recv_rpc_response(
        &self,
        req_no: ReqNo,
        res: &[u8],
        peer_ssb_id: String,
        connection_id: ConnectionId,
    ) -> (out: Handled)
        ensures
            if on_session(self.held(), req_no) {
                response_outcome(res@, connection_id, req_no, peer_ssb_id@, out)
            } else {
                passes(out)
            },
    {
        // Only handle the response if the associated request number is known
        // to us, either because we sent or received the initiating replicate
        // request.
        if self.active_request == req_no || self.active_request == negate(req_no) {
            // The response may be a vector clock (aka. notes) or an SSB message.
            //
            // Since there is no explicit way to determine which was received,
            // we first attempt deserialization of a vector clock and move on
            // to attempting message deserialization if that fails.
            match parse_clock(res) {
                Some(clock) => received_clock(clock, connection_id, req_no, peer_ssb_id),
                None => {
                    // First try to deserialize the response into a message value.
                    // If that fails, try to deserialize into a message KVT and then
                    // convert that into a message value.
                    let parsed = match MessageValue::from_slice(res) {
                        Ok(msg) => Ok(msg),
                        Err(SolarError::KuskaFeed(_)) => MessageValue::from_envelope_slice(res),
                        Err(e) => Err(e),
                    };
                    received_message(parsed)
                },
            }
        } else {
            Handled::pass()
        }
    }

    /// Receive close-stream request.
    fn recv_cancelstream(&self, req_no: ReqNo) -> (out: Handled)
        ensures
            out.actions@ == seq![Action::SendStreamEof(negated(req_no))],
            out.ended(true),
    {
        Handled::one(Action::SendStreamEof(negate(req_no)), Ok(true))
    }

    /// Send close-stream request.
    fn send_cancelstream(&self, req_no: ReqNo) -> (out: Handled)
        ensures
            out.actions@ == seq![Action::SendStreamEof(negated(req_no))],
            out.ended(true),
    {
        Handled::one(Action::SendStreamEof(negate(req_no)), Ok(true))
    }

    /// Report a MUXRPC error.
    fn recv_error_response(&self, req_no: ReqNo, err_msg: &String) -> (out: Handled)
        ensures
            out.actions@.len() == 0,
            is_ebt_error(out.result, req_no, err_msg@),
    {
        Handled::done(Err(SolarError::EbtReplicate((req_no, err_msg.clone()))))
    }
}

} // verus!
