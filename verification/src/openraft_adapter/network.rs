//! How the nodes of a cluster call each other.

use vstd::prelude::*;

use crate::text::{concat3, concat4, decimal_of};

verus! {

/// What a node asks of another one.
#[derive(Debug, Clone, Copy, PartialEq, Eq, Structural)]
pub enum RaftCall {
    AppendEntries,
    Vote,
    InstallSnapshot,
}

impl RaftCall {
    /// The path that the call is made to.
    pub open spec fn target(self) -> Seq<char> {
        match self {
            RaftCall::AppendEntries => "/__kron/raft/append_entries"@,
            RaftCall::Vote => "/__kron/raft/vote"@,
            RaftCall::InstallSnapshot => "/__kron/raft/install_snapshot"@,
        }
    }

    /// The path that the call is made to.
    pub fn path(self) -> (r: &'static str)
        ensures
            r@ == self.target(),
    {
        match self {
            RaftCall::AppendEntries => "/__kron/raft/append_entries",
            RaftCall::Vote => "/__kron/raft/vote",
            RaftCall::InstallSnapshot => "/__kron/raft/install_snapshot",
        }
    }
}

/// What is needed to call any node.
#[derive(Debug)]
pub struct KronRaftNetworkFactory {
    pub token: String,
}

/// What is needed to call a node.
#[derive(Debug)]
pub struct KronRaftNetwork {
    pub target: u64,
    pub addr: String,
    pub token: String,
}

impl KronRaftNetworkFactory {
    /// The nodes that share the token.
    pub fn new(token: String) -> (r: Self)
        ensures
            r.token == token,
    {
        KronRaftNetworkFactory { token }
    }

    /// The node of the number at the address.
    pub fn new_client(&self, target: u64, addr: &str) -> (r: KronRaftNetwork)
        ensures
            r.target == target,
            r.addr@ == addr@,
            r.token@ == self.token@,
    {
        KronRaftNetwork { target, addr: addr.to_owned(), token: self.token.clone() }
    }
}

impl KronRaftNetwork {
    /// The address that a call is made to.
    pub fn url(&self, call: RaftCall) -> (r: String)
        ensures
            r@ == "http://"@ + self.addr@ + call.target(),
    {
        concat3("http://", &self.addr, call.path())
    }

    /// Whether a call succeeded, given the status of the answer and its text; if not, the
    /// message of the failure.
    pub fn check(&self, status: u16, text: &str) -> (r: Result<(), String>)
        ensures
            match r {
                Ok(_) => 200 <= status < 300,
                Err(message) => !(200 <= status < 300) && message@ == "raft peer "@
                    + crate::text::decimal(self.target as nat) + " returned "@ + text@,
            },
    {
        if 200 <= status && status < 300 {
            Ok(())
        } else {
            Err(concat4("raft peer ", &decimal_of(self.target), " returned ", text))
        }
    }
}

} // verus!
