//! How a process talks to the engine that runs in another one: requests and responses,
//! the files that lead to the engine, and the secret that both sides share.

use vstd::prelude::*;

use crate::engine::Engine;
use crate::error::KronError;
use crate::paths::join_path;
use crate::text::{same, to_lower, trim};
use crate::timer::{fresh_ulid, TimerSummary};

verus! {

/// What a process may ask of the engine.
#[derive(Debug, PartialEq, Eq)]
pub enum IpcRequest {
    Auth { token: String, inner: Box<IpcRequest> },
    Status { name: String },
    List,
    History { name: String, limit: Option<usize> },
    Shutdown,
    Compact,
    Doctor,
    RuntimeStatus,
}

/// What the engine answers. The data is the text of a JSON value.
#[derive(Debug, PartialEq, Eq)]
pub enum IpcResponse {
    Success { data: String },
    Error { message: String },
}

/// Where an engine keeps its things and how many timers it knows.
#[derive(Debug, PartialEq, Eq)]
pub struct RuntimeInfo {
    pub data_dir: String,
    pub lock_path: String,
    pub socket_path: String,
    pub timers: usize,
}

/// What is to be done about a request.
#[derive(Debug)]
pub enum IpcReply {
    /// Answer with what is shown of a timer.
    Status(Option<TimerSummary>),
    /// Answer with what is shown of the timers.
    Timers(Vec<TimerSummary>),
    /// Read the log, and answer with the entries about a timer.
    History { name: String, limit: Option<usize> },
    /// Shut the engine down, and answer that this was requested.
    Shutdown,
    /// Compact the log, and answer that this is done.
    Compact,
    /// Answer with a description of the engine.
    Runtime(RuntimeInfo),
}

/// The path of the socket of an engine.
pub fn socket_path(data_dir: &str) -> (r: String)
    ensures
        r@ == crate::paths::joined(data_dir@, "kron.sock"@),
{
    join_path(data_dir, "kron.sock")
}

/// The path of the file with the secret of an engine.
pub fn token_path(data_dir: &str) -> (r: String)
    ensures
        r@ == crate::paths::joined(data_dir@, "kron.token"@),
{
    join_path(data_dir, "kron.token")
}

/// The path of the file with the network address of an engine.
pub fn port_path(data_dir: &str) -> (r: String)
    ensures
        r@ == crate::paths::joined(data_dir@, "kron.port"@),
{
    join_path(data_dir, "kron.port")
}

/// Whether two sequences of bytes are equal. How long the comparison takes depends on
/// their lengths alone.
pub fn secure_eq(a: &[u8], b: &[u8]) -> (r: bool)
    ensures
        r == (a@ == b@),
{
    if a.len() != b.len() {
        return false;
    }
    let mut difference: u8 = 0;
    let mut i: usize = 0;
    while i < a.len()
        invariant
            i <= a@.len() == b@.len(),
            difference == 0 <==> forall|k: int| 0 <= k < i ==> a@[k] == b@[k],
        decreases a@.len() - i,
    {
        let x: u8 = a[i];
        let y: u8 = b[i];
        let next: u8 = difference | (x ^ y);
        assert(next == 0 <==> difference == 0 && x == y) by (bit_vector)
            requires
                next == difference | (x ^ y),
        ;
        difference = next;
        i = i + 1;
    }
    assert(difference == 0 ==> a@ =~= b@);
    difference == 0
}

/// Whether two secrets are equal. How long the comparison takes depends on their lengths
/// alone.
pub fn same_secret(a: &str, b: &str) -> (r: bool)
    ensures
        r == (a@ == b@),
{
    proof {
        vstd::utf8::encode_utf8_decode_utf8(a@);
        vstd::utf8::encode_utf8_decode_utf8(b@);
    }
    secure_eq(a.as_bytes(), b.as_bytes())
}

/// Whether the text has the form of a generated secret.
pub open spec fn is_secret(token: Seq<char>) -> bool {
    exists|ulid: Seq<char>| #[trigger]
        crate::timer::is_ulid(ulid) && token == crate::text::lowered(ulid)
}

/// A fresh secret.
pub fn generate_secret_token() -> (r: String)
    ensures
        is_secret(r@),
{
    let ulid = fresh_ulid();
    assert(crate::timer::is_ulid(ulid@));
    to_lower(&ulid)
}

/// The secret that a file holds.
pub fn token_in(content: &str) -> (r: String)
    ensures
        r@ == crate::text::trimmed(content@),
{
    trim(content)
}

/// The network address that a file holds.
pub fn endpoint_in(content: &str) -> (r: String)
    ensures
        r@ == crate::text::trimmed(content@),
{
    trim(content)
}

/// The host and the port to listen on, given what the environment says about them. Port
/// zero lets the system choose.
pub fn listen_address(host: Option<String>, port: Option<String>) -> (r: (String, u16))
    ensures
        r.0@ == match host {
            Some(name) => name@,
            None => "127.0.0.1"@,
        },
        r.1 == match port {
            Some(text) => match crate::text::parsed_number(text@, u16::MAX as nat) {
                Some(n) => n as u16,
                None => 0,
            },
            None => 0,
        },
{
    let name = match host {
        Some(name) => name,
        None => "127.0.0.1".to_string(),
    };
    let number: u16 = match port {
        Some(text) => match crate::text::parse_number(&text, u16::MAX as u64) {
            Some(n) => n as u16,
            None => 0,
        },
        None => 0,
    };
    (name, number)
}

/// The request as it is sent: with the secret.
pub fn with_token(token: String, request: IpcRequest) -> (r: IpcRequest)
    ensures
        r == (IpcRequest::Auth { token, inner: Box::new(request) }),
{
    IpcRequest::Auth { token, inner: Box::new(request) }
}

/// The request that came with the secret; without it, the reason why it is not served.
pub fn unlock(request: IpcRequest, expected_token: &str) -> (r: Result<IpcRequest, String>)
    ensures
        match request {
            IpcRequest::Auth { token, inner } => if token@ == expected_token@ {
                r == Ok::<_, String>(*inner)
            } else {
                r is Err && r->Err_0@ == "invalid IPC token"@
            },
            _ => r is Err && r->Err_0@ == "missing IPC token"@,
        },
{
    match request {
        IpcRequest::Auth { token, inner } => {
            if same(&token, expected_token) {
                Ok(*inner)
            } else {
                Err("invalid IPC token".to_string())
            }
        },
        _ => Err("missing IPC token".to_string()),
    }
}

/// Whether it is told of the engine where its files are and how many timers it has.
pub open spec fn runtime_of(engine: Engine, info: RuntimeInfo) -> bool {
    &&& info.data_dir@ == engine@.data_dir
    &&& info.lock_path@ == engine@.lock_path
    &&& info.socket_path@ == crate::paths::joined(engine@.data_dir, "kron.sock"@)
    &&& info.timers == engine@.state.listed(engine.state.specs.order()).len()
}

/// What is to be done about a request that was admitted.
pub fn handle_request(engine: &Engine, request: IpcRequest) -> (r: Result<IpcReply, KronError>)
    ensures
        match request {
            IpcRequest::Auth { .. } => r is Err && r->Err_0@
                == crate::error::KronErrorView::IpcUnavailable("nested auth request is invalid"@),
            IpcRequest::Status { name } => r is Ok && r->Ok_0 is Status
                && r->Ok_0->Status_0.deep_view() == engine@.state.summary(name@),
            IpcRequest::List => r is Ok && r->Ok_0 is Timers && r->Ok_0->Timers_0.deep_view()
                == engine@.state.listed(engine.state.specs.order()) && engine.state.specs.ordered(),
            IpcRequest::History { name, limit } => r == Ok::<_, KronError>(
                IpcReply::History { name, limit },
            ),
            IpcRequest::Shutdown => r == Ok::<_, KronError>(IpcReply::Shutdown),
            IpcRequest::Compact => r == Ok::<_, KronError>(IpcReply::Compact),
            IpcRequest::Doctor | IpcRequest::RuntimeStatus => r is Ok && r->Ok_0 is Runtime
                && runtime_of(*engine, r->Ok_0->Runtime_0),
        },
{
    match request {
        IpcRequest::Auth { .. } => Err(
            KronError::IpcUnavailable("nested auth request is invalid".to_string()),
        ),
        IpcRequest::Status { name } => Ok(IpcReply::Status(engine.status(&name))),
        IpcRequest::List => Ok(IpcReply::Timers(engine.list())),
        IpcRequest::History { name, limit } => Ok(IpcReply::History { name, limit }),
        IpcRequest::Shutdown => Ok(IpcReply::Shutdown),
        IpcRequest::Compact => Ok(IpcReply::Compact),
        IpcRequest::Doctor | IpcRequest::RuntimeStatus => {
            let timers = engine.list();
            assert(timers.deep_view().len() == timers@.len());
            Ok(
                IpcReply::Runtime(
                    RuntimeInfo {
                        data_dir: engine.data_dir().to_owned(),
                        lock_path: engine.lock_path().to_owned(),
                        socket_path: socket_path(engine.data_dir()),
                        timers: timers.len(),
                    },
                ),
            )
        },
    }
}

/// The answer to a request, given the data of the answer or why there is none.
pub fn response_of(outcome: Result<String, KronError>) -> (r: IpcResponse)
    ensures
        match outcome {
            Ok(data) => r == (IpcResponse::Success { data }),
            Err(error) => r is Error && r->message@ == error@.message(),
        },
{
    match outcome {
        Ok(data) => IpcResponse::Success { data },
        Err(error) => IpcResponse::Error { message: error.message() },
    }
}

/// Whether a request came with the secret and is not itself wrapped in another one.
pub open spec fn is_served(request: IpcRequest, token: Seq<char>) -> bool {
    request is Auth && request->token@ == token && !(*request->inner is Auth)
}

/// What is to be done about a request as it came in; if it is not served, the message of
/// the answer.
pub fn serve(engine: &Engine, request: IpcRequest, expected_token: &str) -> (r: Result<
    IpcReply,
    String,
>)
    ensures
        r is Ok <==> is_served(request, expected_token@),
        !(request is Auth) ==> r is Err && r->Err_0@ == "missing IPC token"@,
        request is Auth && request->token@ != expected_token@ ==> r is Err && r->Err_0@
            == "invalid IPC token"@,
        request is Auth && request->token@ == expected_token@ && *request->inner is Auth ==> r is Err
            && r->Err_0@ == crate::error::KronErrorView::IpcUnavailable(
            "nested auth request is invalid"@,
        ).message(),
        is_served(request, expected_token@) ==> match *request->inner {
            IpcRequest::Status { name } => r->Ok_0 is Status && r->Ok_0->Status_0.deep_view()
                == engine@.state.summary(name@),
            IpcRequest::List => r->Ok_0 is Timers && r->Ok_0->Timers_0.deep_view()
                == engine@.state.listed(engine.state.specs.order()) && engine.state.specs.ordered(),
            IpcRequest::History { name, limit } => r->Ok_0 == (IpcReply::History { name, limit }),
            IpcRequest::Shutdown => r->Ok_0 == IpcReply::Shutdown,
            IpcRequest::Compact => r->Ok_0 == IpcReply::Compact,
            _ => r->Ok_0 is Runtime && runtime_of(*engine, r->Ok_0->Runtime_0),
        },
{
    match unlock(request, expected_token) {
        Err(message) => Err(message),
        Ok(inner) => match handle_request(engine, inner) {
            Ok(reply) => Ok(reply),
            Err(error) => Err(error.message()),
        },
    }
}

} // verus!
