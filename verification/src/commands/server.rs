//! The commands about a server.

use vstd::prelude::*;

use crate::audit::to_json_string;
use crate::openraft_adapter::runtime::bootstraps;
use crate::text::{concat, concat3, concat4};

verus! {

/// What may be done with a server.
#[derive(Debug, PartialEq, Eq)]
pub enum ServerCommand {
    Start {
        node_id: String,
        http: String,
        raft: String,
        leader_id: Option<String>,
        cluster_token: Option<String>,
    },
    Status,
    Shutdown,
    Join { node_id: String, http: String, raft: String },
    Leave { node_id: String },
}

/// How a command is carried out.
#[derive(Debug, PartialEq, Eq)]
pub enum ServerStep {
    /// Start a server; without a token, with that of the data directory.
    Start {
        node_id: String,
        http: String,
        raft: String,
        bootstrap: bool,
        cluster_token: Option<String>,
    },
    /// Make a request to the server that is running. The body is the text of a JSON value.
    Request { method: String, path: String, body: Option<String> },
}

/// A [`ServerStep`] as a mathematical value.
pub enum ServerStepView {
    Start {
        node_id: Seq<char>,
        http: Seq<char>,
        raft: Seq<char>,
        bootstrap: bool,
        cluster_token: Option<Seq<char>>,
    },
    Request { method: Seq<char>, path: Seq<char>, body: Option<Seq<char>> },
}

impl View for ServerStep {
    type V = ServerStepView;

    open spec fn view(&self) -> ServerStepView {
        match self {
            ServerStep::Start { node_id, http, raft, bootstrap, cluster_token } =>
            ServerStepView::Start {
                node_id: node_id@,
                http: http@,
                raft: raft@,
                bootstrap: *bootstrap,
                cluster_token: cluster_token.deep_view(),
            },
            ServerStep::Request { method, path, body } => ServerStepView::Request {
                method: method@,
                path: path@,
                body: body.deep_view(),
            },
        }
    }
}

/// The JSON object that tells where a node listens.
pub open spec fn node_json(node_id: Seq<char>, http: Seq<char>, raft: Seq<char>) -> Seq<char> {
    "{\"http_addr\":"@ + crate::audit::json_string(http) + ",\"node_id\":"@
        + crate::audit::json_string(node_id) + ",\"raft_addr\":"@ + crate::audit::json_string(raft)
        + "}"@
}

/// The JSON object that names a node.
pub open spec fn name_json(node_id: Seq<char>) -> Seq<char> {
    "{\"node_id\":"@ + crate::audit::json_string(node_id) + "}"@
}

/// How the command is carried out.
pub open spec fn step_of(command: ServerCommand) -> ServerStepView {
    match command {
        ServerCommand::Start { node_id, http, raft, leader_id, cluster_token } =>
        ServerStepView::Start {
            node_id: node_id@,
            http: http@,
            raft: raft@,
            bootstrap: leader_id is None || leader_id->0@ == node_id@,
            cluster_token: cluster_token.deep_view(),
        },
        ServerCommand::Status => ServerStepView::Request {
            method: "GET"@,
            path: "/v1/cluster/status"@,
            body: None,
        },
        ServerCommand::Shutdown => ServerStepView::Request {
            method: "POST"@,
            path: "/v1/runtime/shutdown"@,
            body: Some("{}"@),
        },
        ServerCommand::Join { node_id, http, raft } => ServerStepView::Request {
            method: "POST"@,
            path: "/v1/cluster/join"@,
            body: Some(node_json(node_id@, http@, raft@)),
        },
        ServerCommand::Leave { node_id } => ServerStepView::Request {
            method: "POST"@,
            path: "/v1/cluster/leave"@,
            body: Some(name_json(node_id@)),
        },
    }
}

/// How the command is carried out.
pub fn run(command: ServerCommand) -> (r: ServerStep)
    ensures
        r@ == step_of(command),
{
    match command {
        ServerCommand::Start { node_id, http, raft, leader_id, cluster_token } => {
            let bootstrap = bootstraps(&node_id, &leader_id);
            ServerStep::Start { node_id, http, raft, bootstrap, cluster_token }
        },
        ServerCommand::Status => ServerStep::Request {
            method: "GET".to_string(),
            path: "/v1/cluster/status".to_string(),
            body: None,
        },
        ServerCommand::Shutdown => ServerStep::Request {
            method: "POST".to_string(),
            path: "/v1/runtime/shutdown".to_string(),
            body: Some("{}".to_string()),
        },
        ServerCommand::Join { node_id, http, raft } => {
            let head = concat4(
                "{\"http_addr\":",
                &to_json_string(&http),
                ",\"node_id\":",
                &to_json_string(&node_id),
            );
            let body = concat4(&head, ",\"raft_addr\":", &to_json_string(&raft), "}");
            ServerStep::Request {
                method: "POST".to_string(),
                path: "/v1/cluster/join".to_string(),
                body: Some(body),
            }
        },
        ServerCommand::Leave { node_id } => ServerStep::Request {
            method: "POST".to_string(),
            path: "/v1/cluster/leave".to_string(),
            body: Some(concat3("{\"node_id\":", &to_json_string(&node_id), "}")),
        },
    }
}

/// What is said when a request ended at another address that could not be remembered.
pub fn forgotten_move(endpoint: &str, error: &str) -> (r: String)
    ensures
        r@ == "warning: request followed leader redirect to "@ + endpoint@
            + ", but failed to update kron.http: "@ + error@,
{
    concat(
        &concat3("warning: request followed leader redirect to ", endpoint, ", but failed to update kron.http: "),
        error,
    )
}

} // verus!
