//! Inputs that a connection hands to its MUXRPC handlers, and the actions
//! that the handlers hand back.
//!
//! A handler never touches the transport. It takes one input, changes its own
//! state, and returns the frames to write and the events to publish; the
//! connection actor carries them out in order and stops at the first that
//! fails.

use vstd::prelude::*;
use vstd::string::StringExecFns;
use crate::broker::BrokerMessage;
use crate::error::SolarError;

verus! {

/// How the body of a frame is encoded.
#[derive(Clone, Copy, Debug, PartialEq, Eq, Structural)]
pub enum BodyType {
    Binary,
    UTF8,
    JSON,
}

/// Call style of an RPC method.
#[derive(Clone, Copy, Debug, PartialEq, Eq, Structural)]
pub enum RpcType {
    Async,
    Source,
    Duplex,
}

/// Options of an `ebt.replicate` request.
#[derive(Clone, Debug)]
pub struct EbtReplicate {
    pub version: u32,
    pub format: String,
}

impl Default for EbtReplicate {
    /// The options that this node asks for: version 3, classic format.
    fn default() -> (options: Self)
        ensures
            options.version == 3,
            options.format@ == "classic"@,
    {
        EbtReplicate { version: 3, format: String::from_str("classic") }
    }
}

/// Body of a request: the method's name, its call style and its arguments.
#[derive(Debug)]
pub struct RpcBody {
    pub name: Vec<String>,
    pub rpc_type: RpcType,
    /// The arguments read as a list of `ebt.replicate` options, or the
    /// reason why they do not have that shape.
    pub ebt_args: Result<Vec<EbtReplicate>, String>,
}

/// The methods that the handlers of this crate answer or call.
#[derive(Clone, Copy, Debug, PartialEq, Eq, Structural)]
pub enum ApiMethod {
    BlobsGet,
    BlobsCreateWants,
    EbtReplicate,
}

/// One received packet, told apart by direction and flags.
#[derive(Debug)]
pub enum RecvMsg {
    RpcRequest(RpcBody),
    RpcResponse(BodyType, Vec<u8>),
    OtherRequest(BodyType, Vec<u8>),
    ErrorResponse(String),
    CancelStreamResponse,
}

/// One input to a handler.
#[derive(Debug)]
pub enum RpcInput {
    /// Nothing arrived: the broker queue was closed.
    Idle,
    Timer,
    Network(i32, RecvMsg),
    Message(BrokerMessage),
}

/// One thing that the connection actor does on behalf of a handler.
#[derive(Debug)]
pub enum Action {
    /// Write a response frame: request number as handed to the framing
    /// layer (which negates it), call style, body type, body.
    SendResponse(i32, RpcType, BodyType, Vec<u8>),
    /// Write an error frame with this message.
    SendError(i32, RpcType, String),
    /// Write an end-of-stream frame.
    SendStreamEof(i32),
    /// Publish to every actor.
    Broadcast(BrokerMessage),
    /// Open the local `blobs.createWants` stream and report its request
    /// number.
    OpenWants,
    /// Ask the local blob store for the size of each of these blobs and
    /// report the answers.
    QuerySizes(Vec<(String, i64)>),
    /// Send a `blobs.get` request for this blob and report its request
    /// number.
    RequestBlob(String),
    /// Insert these bytes into the local blob store and report that they
    /// are stored. The fields are the request number on which the bytes
    /// arrived, the bytes, and whether they hash to the identifier that was
    /// asked for.
    StoreBlob(i32, Vec<u8>, bool),
    /// Send an `ebt.replicate` request with these options and report its
    /// request number.
    RequestSession(EbtReplicate),
}

/// What a handler made of one input.
#[derive(Debug)]
pub struct Handled {
    /// What to do, in this order.
    pub actions: Vec<Action>,
    /// `Ok(true)` when the input was consumed and no other handler should
    /// see it.
    pub result: Result<bool, SolarError>,
}

/// What every handler of a connection offers to the dispatcher.
///
/// The dispatcher hands each input to the handlers in turn and stops at the
/// first that consumes it or fails.
pub trait RpcHandler {
    /// The handler is in a state that its own methods left it in.
    spec fn wf(&self) -> bool;

    /// The name of the handler, for logs.
    fn name(&self) -> &'static str;

    /// Handle an RPC event.
    fn handle(&mut self, op: &RpcInput) -> (out: Handled)
        requires
            old(self).wf(),
        ensures
            final(self).wf(),
    ;
}

/// The method that a name selects, if it is one that this crate knows.
pub open spec fn selected_method(name: Seq<Seq<char>>) -> Option<ApiMethod> {
    if name == seq!["blobs"@, "get"@] {
        Some(ApiMethod::BlobsGet)
    } else if name == seq!["blobs"@, "createWants"@] {
        Some(ApiMethod::BlobsCreateWants)
    } else if name == seq!["ebt"@, "replicate"@] {
        Some(ApiMethod::EbtReplicate)
    } else {
        None
    }
}

/// The parts of a method name, as sequences of characters.
pub open spec fn name_view(name: Seq<String>) -> Seq<Seq<char>> {
    Seq::new(name.len(), |i: int| name[i]@)
}

impl ApiMethod {
    /// The method that the name of a request selects.
    pub fn from_selector(name: &Vec<String>) -> (m: Option<ApiMethod>)
        ensures
            m == selected_method(name_view(name@)),
    {
        if name.len() != 2 {
            assert(name_view(name@).len() != 2);
            return None;
        }
        let blobs = String::from_str("blobs");
        let ebt = String::from_str("ebt");
        let first_is_blobs = name[0] == blobs;
        let first_is_ebt = name[0] == ebt;
        let second_is_get = name[1] == String::from_str("get");
        let second_is_wants = name[1] == String::from_str("createWants");
        let second_is_replicate = name[1] == String::from_str("replicate");
        proof {
            let n = name_view(name@);
            assert(n[0] == name[0]@ && n[1] == name[1]@);
            assert forall|a: Seq<char>, b: Seq<char>| (n == seq![a, b]) <==> (n[0] == a && n[1]
                == b) by {
                if n[0] == a && n[1] == b {
                    assert(n =~= seq![a, b]);
                }
                if n == seq![a, b] {
                    assert(seq![a, b][0] == a && seq![a, b][1] == b);
                }
            }
        }
        if first_is_blobs && second_is_get {
            Some(ApiMethod::BlobsGet)
        } else if first_is_blobs && second_is_wants {
            Some(ApiMethod::BlobsCreateWants)
        } else if first_is_ebt && second_is_replicate {
            Some(ApiMethod::EbtReplicate)
        } else {
            None
        }
    }
}

impl Handled {
    /// The handler ended without an error; `consumed` says whether no other
    /// handler should see the input.
    pub open spec fn ended(self, consumed: bool) -> bool {
        self.result matches Ok(c) && c == consumed
    }

    /// The handler failed with this error.
    pub open spec fn failed_with(self, e: SolarError) -> bool {
        self.result matches Err(x) && x == e
    }

    /// The handler asks for this one action.
    pub open spec fn asks_only(self, action: Action) -> bool {
        self.actions@.len() == 1 && self.actions@[0] == action
    }

    /// The input was not for this handler: nothing to do, not consumed.
    pub fn pass() -> (h: Handled)
        ensures
            h.actions@.len() == 0,
            h.ended(false),
    {
        Handled { actions: Vec::new(), result: Ok(false) }
    }

    /// Nothing to do, with this result.
    pub fn done(result: Result<bool, SolarError>) -> (h: Handled)
        ensures
            h.actions@.len() == 0,
            h.result == result,
    {
        Handled { actions: Vec::new(), result }
    }

    /// One action, with this result.
    pub fn one(action: Action, result: Result<bool, SolarError>) -> (h: Handled)
        ensures
            h.actions@ == seq![action],
            h.result == result,
    {
        let mut actions: Vec<Action> = Vec::new();
        actions.push(action);
        Handled { actions, result }
    }
}

/// The negation of a request number, wrapping at the lowest value of the
/// type as the arithmetic of the wire does.
pub open spec fn negated(req_no: i32) -> i32 {
    if req_no == i32::MIN {
        i32::MIN
    } else {
        (-req_no) as i32
    }
}

/// Negates a request number.
pub fn negate(req_no: i32) -> (n: i32)
    ensures
        n == negated(req_no),
{
    if req_no == i32::MIN {
        i32::MIN
    } else {
        -req_no
    }
}

} // verus!
