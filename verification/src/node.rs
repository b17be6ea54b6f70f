//! The node: which actors it runs, in which order it starts them.

use vstd::prelude::*;

verus! {

/// One of the long-running parts of a node.
#[derive(Clone, Copy, Debug, PartialEq, Eq, Structural)]
pub enum Actor {
    /// Listens for the interrupt signal.
    CtrlC,
    /// Accepts peer connections.
    TcpServer,
    /// Answers operator queries.
    JsonRpcServer,
    /// Announces the node on the local network and listens for others.
    LanDiscovery,
    /// Dials the peers that the node replicates.
    ConnectionScheduler,
    /// Keeps track of the connections.
    ConnectionManager,
    /// Routes events between the actors.
    Broker,
}

/// Main runtime managing the solar node process.
pub struct Node;

/// The actors of a node, in the order in which they start.
pub open spec fn startup_order(jsonrpc_server: bool, lan_discovery: bool) -> Seq<Actor> {
    seq![Actor::CtrlC, Actor::TcpServer] + (if jsonrpc_server {
        seq![Actor::JsonRpcServer]
    } else {
        Seq::<Actor>::empty()
    }) + (if lan_discovery {
        seq![Actor::LanDiscovery]
    } else {
        Seq::<Actor>::empty()
    }) + seq![Actor::ConnectionScheduler, Actor::ConnectionManager, Actor::Broker]
}

impl Node {
    /// The actors to start, in order. The JSON-RPC server and the LAN
    /// discovery run only where the configuration asks for them; the
    /// message loops of the connection manager and of the broker come last.
    pub fn actors(jsonrpc_server: bool, lan_discovery: bool) -> (list: Vec<Actor>)
        ensures
            list@ == startup_order(jsonrpc_server, lan_discovery),
    {
        let mut list: Vec<Actor> = Vec::new();
        list.push(Actor::CtrlC);
        list.push(Actor::TcpServer);
        if jsonrpc_server {
            list.push(Actor::JsonRpcServer);
        }
        if lan_discovery {
            list.push(Actor::LanDiscovery);
        }
        list.push(Actor::ConnectionScheduler);
        list.push(Actor::ConnectionManager);
        list.push(Actor::Broker);
        assert(list@ =~= startup_order(jsonrpc_server, lan_discovery));
        list
    }
}

} // verus!
