//! The EBT replication session of one connection, as a state machine.
//!
//! The connection actor owns the transport, the broker queue and the clock.
//! It builds a session, carries out what `start` asks for, and then hands
//! every input to `step` together with the seconds elapsed since the session
//! was built, until `step` says that the session is over.

use vstd::prelude::*;
use crate::actors::muxrpc::ebt::{
    adopted, announced, handled, lemma_announced_is_held, lemma_one_session, EbtReplicateHandler,
};
use crate::actors::muxrpc::handler::{Action, EbtReplicate, Handled, RecvMsg, RpcInput};
use crate::actors::replication::ebt::{ConnectionId, EbtEvent, ReqNo, SessionRole};
use crate::broker::BrokerMessage;
use crate::error::SolarError;

verus! {

/// Where a session stands in its life.
#[derive(Clone, Copy, Debug, PartialEq, Eq, Structural)]
pub enum SessionState {
    /// Built; no replicate request has been sent or accepted yet.
    Opening,
    /// The replicate request is out (requester) or in (responder).
    Active,
    /// Over: terminated, failed or concluded. The last events are on their
    /// way and termination is not acknowledged yet.
    Closing,
    /// Over, and termination is acknowledged.
    Closed,
    /// Over: no replicate request arrived in time.
    TimedOut,
}

/// One input of the session loop.
#[derive(Debug)]
pub enum SessionInput {
    /// The external termination signal fired.
    Terminate,
    /// A packet arrived.
    Packet(ReqNo, RecvMsg),
    /// Time has passed and nothing else has happened.
    Tick,
    /// The broker queue produced a message, or `None` when it was closed.
    Broker(Option<BrokerMessage>),
}

/// What the session made of one input.
#[derive(Debug)]
pub struct Step {
    /// What the handler made of the input; its actions come first.
    pub handled: Handled,
    /// The events to publish after the handler's actions.
    pub closing: Vec<Action>,
    /// The session is over: acknowledge termination and stop.
    pub done: bool,
}

/// The replication session of one connection.
pub struct EbtSession {
    connection_id: ConnectionId,
    peer_ssb_id: String,
    session_role: SessionRole,
    session_wait_timeout: u64,
    session_initiated: bool,
    active_req_no: Option<ReqNo>,
    handler: EbtReplicateHandler,
    state: SessionState,
}

/// The session as contracts see it.
pub struct SessionView {
    pub connection_id: ConnectionId,
    pub peer: Seq<char>,
    pub role: SessionRole,
    pub timeout: u64,
    pub initiated: bool,
    pub active_req_no: Option<ReqNo>,
    pub held: ReqNo,
    pub state: SessionState,
}

impl SessionView {
    /// The session is over.
    pub open spec fn finished(self) -> bool {
        self.state == SessionState::Closing || self.state == SessionState::Closed || self.state
            == SessionState::TimedOut
    }

    /// The input is the announcement that the peer's replicate request was
    /// accepted.
    pub open spec fn initiates(self, input: SessionInput) -> bool {
        input matches SessionInput::Broker(
            Some(BrokerMessage::Ebt(EbtEvent::SessionInitiated(_, _, id, role))),
        ) && id@ == self.peer && role == SessionRole::Responder
    }

    /// The input says that this connection's session was concluded.
    pub open spec fn concluded_by(self, input: SessionInput) -> bool {
        input matches SessionInput::Broker(
            Some(BrokerMessage::Ebt(EbtEvent::SessionConcluded(c, _))),
        ) && c == self.connection_id
    }

    /// Whether a replicate request counts as accepted once the input has
    /// been looked at.
    pub open spec fn initiated_after(self, input: SessionInput) -> bool {
        self.initiated || self.initiates(input)
    }

    /// The session's request number once the input has been looked at: the
    /// one it has, or, while it has none, the one of an accepted request
    /// that the input announces.
    pub open spec fn active_after(self, input: SessionInput) -> Option<ReqNo> {
        match input {
            SessionInput::Broker(
                Some(BrokerMessage::Ebt(EbtEvent::SessionInitiated(_, req_no, id, role))),
            ) => if self.active_req_no is None && id@ == self.peer && role
                == SessionRole::Responder {
                Some(req_no)
            } else {
                self.active_req_no
            },
            _ => self.active_req_no,
        }
    }

    /// The wait for a replicate request is over without one.
    pub open spec fn timed_out(self, elapsed_secs: u64) -> bool {
        !self.initiated && self.role == SessionRole::Responder && elapsed_secs >= self.timeout
    }
}

/// What the handler is given for an input of the session loop.
pub open spec fn rpc_input(input: SessionInput, conn: ConnectionId, role: SessionRole) -> RpcInput {
    match input {
        SessionInput::Terminate => RpcInput::Message(
            BrokerMessage::Ebt(EbtEvent::TerminateSession(conn, role)),
        ),
        SessionInput::Packet(req_no, msg) => RpcInput::Network(req_no, msg),
        SessionInput::Tick => RpcInput::Timer,
        SessionInput::Broker(Some(msg)) => RpcInput::Message(msg),
        SessionInput::Broker(None) => RpcInput::Idle,
    }
}

/// The action announces that the session is concluded.
pub open spec fn is_concluded(a: Action, conn: ConnectionId, peer: Seq<char>) -> bool {
    a matches Action::Broadcast(BrokerMessage::Ebt(EbtEvent::SessionConcluded(c, p))) && c == conn
        && p@ == peer
}

/// The action announces that the wait for a replicate request is over.
pub open spec fn is_timeout(a: Action, conn: ConnectionId, peer: Seq<char>) -> bool {
    a matches Action::Broadcast(BrokerMessage::Ebt(EbtEvent::SessionTimeout(c, p))) && c == conn
        && p@ == peer
}

/// The action announces that the session failed, with the text of the
/// error where the library fixes it.
pub open spec fn is_failure(a: Action, conn: ConnectionId, peer: Seq<char>, e: SolarError) -> bool {
    a matches Action::Broadcast(BrokerMessage::Ebt(EbtEvent::Error(c, p, text))) && c == conn
        && p@ == peer && (e.fixed_text() matches Some(t) ==> text@ == t)
}

/// The action announces that the session failed, with this text.
pub open spec fn is_fault(a: Action, conn: ConnectionId, peer: Seq<char>, why: Seq<char>) -> bool {
    a matches Action::Broadcast(BrokerMessage::Ebt(EbtEvent::Error(c, p, text))) && c == conn
        && p@ == peer && text@ == why
}

/// What becomes of a session when an action of the handler could not be
/// carried out. The fault takes the place of the handler's result: the
/// session is closing, whatever the step had made of it, and the events
/// left to publish are the error, with the text of the fault, and the
/// conclusion. A session whose termination is acknowledged stays closed
/// and publishes nothing.
pub open spec fn fails(
    pre: SessionView,
    why: Seq<char>,
    closing: Seq<Action>,
    post: SessionView,
) -> bool {
    if pre.state == SessionState::Closed {
        post == pre && closing.len() == 0
    } else {
        &&& post == (SessionView { state: SessionState::Closing, ..pre })
        &&& closing.len() == 2
        &&& is_fault(closing[0], pre.connection_id, pre.peer, why)
        &&& is_concluded(closing[1], pre.connection_id, pre.peer)
    }
}

/// The events that end a step, and the state it ends in, for each result
/// of the handler. `post` is the session after the step.
pub open spec fn closes(
    pre: SessionView,
    post: SessionView,
    elapsed_secs: u64,
    result: Result<bool, SolarError>,
    closing: Seq<Action>,
    done: bool,
) -> bool {
    let conn = pre.connection_id;
    let peer = pre.peer;
    let state = post.state;
    match result {
        Ok(true) => done && state == SessionState::Closing && closing.len() == 1 && is_concluded(
            closing[0],
            conn,
            peer,
        ),
        Err(e) => done && state == SessionState::Closing && closing.len() == 2 && is_failure(
            closing[0],
            conn,
            peer,
            e,
        ) && is_concluded(closing[1], conn, peer),
        Ok(false) => if post.timed_out(elapsed_secs) {
            done && state == SessionState::TimedOut && closing.len() == 2 && is_timeout(
                closing[0],
                conn,
                peer,
            ) && is_concluded(closing[1], conn, peer)
        } else {
            !done && closing.len() == 0 && state == (if pre.role == SessionRole::Requester
                || post.initiated {
                SessionState::Active
            } else {
                pre.state
            })
        },
    }
}

/// The whole of `step`.
pub open spec fn stepped(
    pre: SessionView,
    input: SessionInput,
    elapsed_secs: u64,
    step: Step,
    post: SessionView,
) -> bool {
    &&& post.connection_id == pre.connection_id
    &&& post.peer == pre.peer
    &&& post.role == pre.role
    &&& post.timeout == pre.timeout
    &&& if pre.finished() {
        &&& post == pre
        &&& step.done
        &&& step.handled.actions@.len() == 0
        &&& step.handled.ended(false)
        &&& step.closing@.len() == 0
    } else if pre.concluded_by(input) {
        &&& post.initiated == pre.initiated
        &&& post.active_req_no == pre.active_req_no
        &&& post.held == pre.held
        &&& post.state == SessionState::Closing
        &&& step.done
        &&& step.handled.actions@.len() == 0
        &&& step.handled.ended(false)
        &&& step.closing@.len() == 1
        &&& is_concluded(step.closing@[0], pre.connection_id, pre.peer)
    } else {
        &&& handled(
            adopted(pre.held, pre.active_after(input)),
            rpc_input(input, pre.connection_id, pre.role),
            pre.peer,
            pre.connection_id,
            step.handled,
            post.held,
        )
        &&& post.initiated == (pre.initiated_after(input) || announced(step.handled) is Some)
        &&& post.active_req_no == (match announced(step.handled) {
            Some(req_no) => Some(req_no),
            None => pre.active_after(input),
        })
        &&& closes(pre, post, elapsed_secs, step.handled.result, step.closing@, step.done)
    }
}

/// Once a session has its request number, the number stays as it is until
/// the session is over, whatever the input: a clock, a message, an error,
/// a tick, a broker event or a further replicate request. The handler
/// holds the same number after every step that it takes part in, and
/// announces no other session.
pub proof fn lemma_active_request_constant(
    pre: SessionView,
    input: SessionInput,
    elapsed_secs: u64,
    step: Step,
    post: SessionView,
    req_no: ReqNo,
)
    requires
        stepped(pre, input, elapsed_secs, step, post),
        pre.active_req_no == Some(req_no),
        req_no != 0,
    ensures
        post.active_req_no == Some(req_no),
        announced(step.handled) is None,
        !pre.finished() && !pre.concluded_by(input) ==> post.held == req_no,
{
    if !pre.finished() && !pre.concluded_by(input) {
        lemma_one_session(
            req_no,
            rpc_input(input, pre.connection_id, pre.role),
            pre.peer,
            pre.connection_id,
            step.handled,
            post.held,
        );
    }
}

/// A session gets its request number in one of two ways: the handler
/// accepts a replicate request of the peer, or the broker brings the
/// announcement that one was accepted. Either way the session is active
/// from then on, and where the handler accepted, it holds that number.
pub proof fn lemma_session_opens(
    pre: SessionView,
    input: SessionInput,
    elapsed_secs: u64,
    step: Step,
    post: SessionView,
)
    requires
        stepped(pre, input, elapsed_secs, step, post),
        pre.active_req_no is None,
        post.active_req_no is Some,
    ensures
        post.initiated,
        announced(step.handled) is Some || pre.initiates(input),
        announced(step.handled) is Some ==> post.held == post.active_req_no.unwrap()
            && post.state == SessionState::Active,
{
    if announced(step.handled) is Some {
        lemma_announced_is_held(
            adopted(pre.held, pre.active_after(input)),
            rpc_input(input, pre.connection_id, pre.role),
            pre.peer,
            pre.connection_id,
            step.handled,
            post.held,
        );
    }
}

/// A responder whose peer stays silent times out: a tick that comes when
/// the wait is over, with no replicate request accepted, makes the session
/// publish the timeout and then the conclusion, and nothing else.
pub proof fn lemma_silent_peer_times_out(
    pre: SessionView,
    elapsed_secs: u64,
    step: Step,
    post: SessionView,
)
    requires
        stepped(pre, SessionInput::Tick, elapsed_secs, step, post),
        !pre.finished(),
        !pre.initiated,
        pre.role == SessionRole::Responder,
        elapsed_secs >= pre.timeout,
    ensures
        step.done,
        post.state == SessionState::TimedOut,
        step.handled.actions@.len() == 0,
        step.closing@.len() == 2,
        is_timeout(step.closing@[0], pre.connection_id, pre.peer),
        is_concluded(step.closing@[1], pre.connection_id, pre.peer),
{
}

/// A session that is over stays over, and does nothing more.
pub proof fn lemma_finished_is_final(
    pre: SessionView,
    input: SessionInput,
    elapsed_secs: u64,
    step: Step,
    post: SessionView,
)
    requires
        stepped(pre, input, elapsed_secs, step, post),
        pre.finished(),
    ensures
        post == pre,
        step.done,
        step.handled.actions@.len() == 0,
        step.closing@.len() == 0,
{
}

/// A responder that has waited its time without a replicate request, and
/// whose handler has nothing to end the session with, publishes the
/// timeout and then the conclusion, in that order, and is over.
pub proof fn lemma_timeout_then_conclusion(
    pre: SessionView,
    input: SessionInput,
    elapsed_secs: u64,
    step: Step,
    post: SessionView,
)
    requires
        stepped(pre, input, elapsed_secs, step, post),
        !pre.finished(),
        !pre.concluded_by(input),
        !pre.initiated_after(input),
        announced(step.handled) is None,
        pre.role == SessionRole::Responder,
        elapsed_secs >= pre.timeout,
        step.handled.ended(false),
    ensures
        step.done,
        post.state == SessionState::TimedOut,
        step.closing@.len() == 2,
        is_timeout(step.closing@[0], pre.connection_id, pre.peer),
        is_concluded(step.closing@[1], pre.connection_id, pre.peer),
{
}

/// Every step that ends a session ends with the conclusion.
pub proof fn lemma_conclusion_is_last(
    pre: SessionView,
    input: SessionInput,
    elapsed_secs: u64,
    step: Step,
    post: SessionView,
)
    requires
        stepped(pre, input, elapsed_secs, step, post),
        !pre.finished(),
    ensures
        step.done <==> post.finished(),
        step.done ==> step.closing@.len() >= 1 && is_concluded(
            step.closing@.last(),
            pre.connection_id,
            pre.peer,
        ),
        !step.done ==> step.closing@.len() == 0,
{
}

/// The request number of the session that the handler announces with what
/// it made of an input, if it announces one.
pub fn session_announced(handled: &Handled) -> (req_no: Option<ReqNo>)
    ensures
        req_no == announced(*handled),
{
    if handled.actions.len() == 1 {
        match &handled.actions[0] {
            Action::Broadcast(BrokerMessage::Ebt(EbtEvent::SessionInitiated(_, req_no, _, _))) => {
                Some(*req_no)
            },
            _ => None,
        }
    } else {
        None
    }
}

impl EbtSession {
    /// The session as contracts see it.
    pub closed spec fn view(&self) -> SessionView {
        SessionView {
            connection_id: self.connection_id,
            peer: self.peer_ssb_id@,
            role: self.session_role,
            timeout: self.session_wait_timeout,
            initiated: self.session_initiated,
            active_req_no: self.active_req_no,
            held: self.handler.held(),
            state: self.state,
        }
    }

    /// A session for this connection and peer, not yet started.
    /// `session_wait_timeout` is in seconds.
    pub fn new(
        connection_id: ConnectionId,
        peer_ssb_id: String,
        session_role: SessionRole,
        session_wait_timeout: u64,
    ) -> (s: Self)
        ensures
            s@ == (SessionView {
                connection_id,
                peer: peer_ssb_id@,
                role: session_role,
                timeout: session_wait_timeout,
                initiated: false,
                active_req_no: None,
                held: 0,
                state: SessionState::Opening,
            }),
    {
        EbtSession {
            connection_id,
            peer_ssb_id,
            session_role,
            session_wait_timeout,
            session_initiated: false,
            active_req_no: None,
            handler: EbtReplicateHandler::new(),
            state: SessionState::Opening,
        }
    }

    /// Where the session stands.
    pub fn state(&self) -> (s: SessionState)
        ensures
            s == self@.state,
    {
        self.state
    }

    /// The request number of the session, once it has one.
    pub fn active_req_no(&self) -> (r: Option<ReqNo>)
        ensures
            r == self@.active_req_no,
    {
        self.active_req_no
    }

    /// The session is over.
    pub fn is_finished(&self) -> (b: bool)
        ensures
            b == self@.finished(),
    {
        self.state == SessionState::Closing || self.state == SessionState::Closed || self.state
            == SessionState::TimedOut
    }

    /// Records that termination was acknowledged: a closing session is
    /// closed. Every other session stays as it is.
    pub fn acknowledge(&mut self)
        ensures
            final(self)@ == (if old(self)@.state == SessionState::Closing {
                SessionView { state: SessionState::Closed, ..old(self)@ }
            } else {
                old(self)@
            }),
    {
        if self.state == SessionState::Closing {
            self.state = SessionState::Closed;
        }
    }

    /// Opens the session. The requester asks for an `ebt.replicate` request
    /// with the default options; the responder waits.
    pub fn start(&self) -> (actions: Vec<Action>)
        ensures
            match self@.role {
                SessionRole::Requester => actions@.len() == 1 && (
                actions@[0] matches Action::RequestSession(o) && o.version == 3 && o.format@
                    == "classic"@),
                SessionRole::Responder => actions@.len() == 0,
            },
    {
        let mut actions: Vec<Action> = Vec::new();
        if self.session_role == SessionRole::Requester {
            actions.push(Action::RequestSession(EbtReplicate::default()));
        }
        actions
    }

    /// Records the request number under which the replicate request went
    /// out. The session is active from here on. A session that is over
    /// stays as it is.
    pub fn request_sent(&mut self, req_no: ReqNo)
        ensures
            final(self)@ == (if old(self)@.finished() {
                old(self)@
            } else {
                SessionView {
                    active_req_no: Some(req_no),
                    state: SessionState::Active,
                    ..old(self)@
                }
            }),
    {
        if !self.is_finished() {
            self.active_req_no = Some(req_no);
            self.state = SessionState::Active;
        }
    }

    /// Takes one input of the session loop.
    ///
    /// `elapsed_secs` is the time since the session was built, in whole
    /// seconds. The caller carries out `handled.actions`, then `closing`,
    /// and stops when `done` is set. Where one of `handled.actions` cannot
    /// be carried out, the caller drops the rest of the step and asks
    /// `action_failed` what to publish instead.
    pub fn step(&mut self, input: SessionInput, elapsed_secs: u64) -> (step: Step)
        ensures
            stepped(old(self)@, input, elapsed_secs, step, final(self)@),
    {
        if self.is_finished() {
            return Step { handled: Handled::pass(), closing: Vec::new(), done: true };
        }
        let op = match input {
            SessionInput::Terminate => RpcInput::Message(
                BrokerMessage::Ebt(
                    EbtEvent::TerminateSession(self.connection_id, self.session_role),
                ),
            ),
            SessionInput::Packet(req_no, packet) => RpcInput::Network(req_no, packet),
            SessionInput::Tick => RpcInput::Timer,
            SessionInput::Broker(msg) => {
                // Listen for a 'session concluded' event and end the session
                // if the connection ID of the event matches the ID of this
                // session.
                if let Some(BrokerMessage::Ebt(EbtEvent::SessionConcluded(conn_id, _))) = &msg {
                    if *conn_id == self.connection_id {
                        self.state = SessionState::Closing;
                        return Step {
                            handled: Handled::pass(),
                            closing: self.conclusion(Vec::new()),
                            done: true,
                        };
                    }
                }
                // Listen for a 'session initiated' event.
                if let Some(
                    BrokerMessage::Ebt(EbtEvent::SessionInitiated(_, req_no, ssb_id, role)),
                ) = &msg {
                    if *ssb_id == self.peer_ssb_id && *role == SessionRole::Responder {
                        self.session_initiated = true;
                        // The session keeps the request number it has.
                        if self.active_req_no.is_none() {
                            self.active_req_no = Some(*req_no);
                        }
                    }
                }
                match msg {
                    Some(msg) => RpcInput::Message(msg),
                    None => RpcInput::Idle,
                }
            },
        };
        let handled = self.handler.handle(
            &op,
            self.peer_ssb_id.clone(),
            self.connection_id,
            self.active_req_no,
        );
        let mut closing: Vec<Action> = Vec::new();
        let mut done = true;
        match &handled.result {
            Ok(true) => {
                self.state = SessionState::Closing;
            },
            Err(err) => {
                closing.push(
                    Action::Broadcast(
                        BrokerMessage::Ebt(
                            EbtEvent::Error(
                                self.connection_id,
                                self.peer_ssb_id.clone(),
                                err.describe(),
                            ),
                        ),
                    ),
                );
                self.state = SessionState::Closing;
            },
            Ok(false) => {
                // The handler announces a session: it has accepted the
                // peer's request, and the session has its request number.
                if let Some(req_no) = session_announced(&handled) {
                    self.session_initiated = true;
                    self.active_req_no = Some(req_no);
                }
                // If no session has been initiated within the waiting time,
                // broadcast a session timeout event (leading to initiation
                // of classic replication).
                if !self.session_initiated && self.session_role == SessionRole::Responder
                    && elapsed_secs >= self.session_wait_timeout {
                    closing.push(
                        Action::Broadcast(
                            BrokerMessage::Ebt(
                                EbtEvent::SessionTimeout(
                                    self.connection_id,
                                    self.peer_ssb_id.clone(),
                                ),
                            ),
                        ),
                    );
                    self.state = SessionState::TimedOut;
                } else {
                    done = false;
                    if self.session_role == SessionRole::Requester || self.session_initiated {
                        self.state = SessionState::Active;
                    }
                }
            },
        }
        if done {
            closing = self.conclusion(closing);
        }
        Step { handled, closing, done }
    }

    /// Records that an action of the handler could not be carried out, for
    /// the reason `why`. The session fails with that reason: it publishes
    /// the error and the conclusion, and is over.
    pub fn action_failed(&mut self, why: String) -> (closing: Vec<Action>)
        ensures
            fails(old(self)@, why@, closing@, final(self)@),
    {
        if self.state == SessionState::Closed {
            return Vec::new();
        }
        self.state = SessionState::Closing;
        let mut closing: Vec<Action> = Vec::new();
        closing.push(
            Action::Broadcast(
                BrokerMessage::Ebt(
                    EbtEvent::Error(self.connection_id, self.peer_ssb_id.clone(), why),
                ),
            ),
        );
        self.conclusion(closing)
    }

    /// Appends the event that ends every session.
    fn conclusion(&self, closing: Vec<Action>) -> (all: Vec<Action>)
        ensures
            all@.len() == closing@.len() + 1,
            forall|i: int| 0 <= i < closing@.len() ==> all@[i] == closing@[i],
            is_concluded(all@[closing@.len() as int], self@.connection_id, self@.peer),
    {
        let mut all = closing;
        all.push(
            Action::Broadcast(
                BrokerMessage::Ebt(
                    EbtEvent::SessionConcluded(self.connection_id, self.peer_ssb_id.clone()),
                ),
            ),
        );
        all
    }
}

} // verus!
