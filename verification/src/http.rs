//! The part of HTTP that servers, workers and clients speak: heads and bodies of requests
//! and responses, and which resource a request is about.

use vstd::prelude::*;

use crate::ipc::same_secret;
use crate::split::{
    byte_count,
    split_fields,
    split_lines,
    split_once,
    split_words,
    trim_end_char,
    trim_start_char,
};
use crate::text::{concat, concat3, concat4, decimal_of, parse_number, same, to_lower, trim};

pub mod laws;

verus! {

/// The largest body that is read, in bytes.
pub const MAX_BODY: u64 = 1_048_576;

/// What a server has found for a request.
#[derive(Debug, PartialEq, Eq)]
pub enum Found {
    /// It may not be asked, and was not.
    Nobody,
    /// The value that is answered.
    Value,
    /// There is nothing at the path.
    Nothing,
    /// It failed, with the reason.
    Failure(String),
}

/// The status of the answer to a request, and the error in its body, if it is one.
pub fn answered(found: Found) -> (r: (u16, Option<String>))
    ensures
        match found {
            Found::Nobody => r.0 == 401 && r.1.deep_view() == Some("unauthorized"@),
            Found::Value => r.0 == 200 && r.1 is None,
            Found::Nothing => r.0 == 404 && r.1.deep_view() == Some("not found"@),
            Found::Failure(reason) => r.0 == 400 && r.1.deep_view() == Some(reason@),
        },
{
    match found {
        Found::Nobody => (401, Some("unauthorized".to_string())),
        Found::Value => (200, None),
        Found::Nothing => (404, Some("not found".to_string())),
        Found::Failure(reason) => (400, Some(reason)),
    }
}

/// What a server does with the head of a request.
#[derive(Debug, PartialEq, Eq)]
pub enum Intake {
    /// Answer with an error.
    Reject { status: u16, error: String },
    /// Read a body of the length.
    Read { method: String, path: String, content_length: u64, authorized: bool },
}

/// An [`Intake`] as a mathematical value.
pub enum IntakeView {
    Reject { status: u16, error: Seq<char> },
    Read { method: Seq<char>, path: Seq<char>, content_length: nat, authorized: bool },
}

impl View for Intake {
    type V = IntakeView;

    open spec fn view(&self) -> IntakeView {
        match self {
            Intake::Reject { status, error } => IntakeView::Reject {
                status: *status,
                error: error@,
            },
            Intake::Read { method, path, content_length, authorized } => IntakeView::Read {
                method: method@,
                path: path@,
                content_length: *content_length as nat,
                authorized: *authorized,
            },
        }
    }
}

/// The value of a header, if the line is one of that name. The name is given in lower case.
pub open spec fn header_value(line: Seq<char>, name: Seq<char>) -> Option<Seq<char>> {
    match crate::split::parted(line, ':') {
        Some((found, value)) => if crate::text::lowered(found) == name {
            Some(crate::text::trimmed(value))
        } else {
            None
        },
        None => None,
    }
}

/// The length that the first header that tells one gives to the body; zero without one.
pub open spec fn body_length(headers: Seq<Seq<char>>) -> nat
    decreases headers.len(),
{
    if headers.len() == 0 {
        0
    } else {
        match length_in(headers[0]) {
            Some(n) => n,
            None => body_length(headers.skip(1)),
        }
    }
}

/// The length that a line gives to the body, if it gives one.
pub open spec fn length_in(line: Seq<char>) -> Option<nat> {
    match header_value(line, "content-length"@) {
        Some(value) => crate::text::parsed_number(value, usize::MAX as nat),
        None => None,
    }
}

/// Whether one of the headers shows the token.
pub open spec fn shows_token(headers: Seq<Seq<char>>, token: Seq<char>) -> bool {
    exists|i: int|
        0 <= i < headers.len() && header_value(#[trigger] headers[i], "authorization"@) == Some(
            "Bearer "@ + token,
        )
}

/// What a server with the token does with the head of a request.
pub open spec fn taken_in(head: Seq<char>, token: Seq<char>) -> IntakeView {
    let lines = crate::split::lines_of(head);
    let parts = if lines.len() > 0 {
        crate::split::words_of(lines[0])
    } else {
        Seq::empty()
    };
    if parts.len() < 2 {
        IntakeView::Reject { status: 400, error: "bad request"@ }
    } else if body_length(lines.skip(1)) > MAX_BODY {
        IntakeView::Reject { status: 413, error: "request body too large"@ }
    } else {
        IntakeView::Read {
            method: parts[0],
            path: parts[1],
            content_length: body_length(lines.skip(1)),
            authorized: shows_token(lines.skip(1), token),
        }
    }
}

/// The value of a header, if the line is one of that name. The name is given in lower case.
fn value_of_header(line: &str, name: &str) -> (r: Option<String>)
    ensures
        r.deep_view() == header_value(line@, name@),
{
    match split_once(line, ':') {
        Some((found, value)) => if same(&to_lower(&found), name) {
            Some(trim(&value))
        } else {
            None
        },
        None => None,
    }
}

/// What a server with the token does with the head of a request.
pub fn take_in(head: &str, token: &str) -> (r: Intake)
    ensures
        r@ == taken_in(head@, token@),
{
    let lines = split_lines(head);
    let ghost all = lines.deep_view();
    if lines.len() == 0 {
        return Intake::Reject { status: 400, error: "bad request".to_string() };
    }
    assert(all[0] == lines@[0]@);
    let parts = split_words(&lines[0]);
    let ghost words = parts.deep_view();
    assert(words.len() == parts@.len());
    if parts.len() < 2 {
        return Intake::Reject { status: 400, error: "bad request".to_string() };
    }
    assert(words[0] == parts@[0]@ && words[1] == parts@[1]@);
    let ghost headers = all.skip(1);
    let mut content_length: Option<u64> = None;
    let mut i: usize = 1;
    assert(all.skip(1).skip(0) =~= headers);
    while i < lines.len() && content_length.is_none()
        invariant
            1 <= i <= lines@.len(),
            all == lines.deep_view(),
            headers == all.skip(1),
            match content_length {
                Some(n) => body_length(headers) == n,
                None => body_length(headers) == body_length(headers.skip(i - 1)),
            },
        decreases lines@.len() - i,
    {
        proof {
            assert(headers.skip(i - 1)[0] == lines@[i as int]@);
            assert(headers.skip(i - 1).skip(1) =~= headers.skip(i as int));
        }
        if let Some(value) = value_of_header(&lines[i], "content-length") {
            content_length = parse_number(&value, usize::MAX as u64);
        }
        i = i + 1;
    }
    let length: u64 = match content_length {
        Some(n) => n,
        None => 0,
    };
    proof {
        if content_length is None {
            assert(headers.skip(i - 1) =~= Seq::<Seq<char>>::empty());
        }
    }
    if length > MAX_BODY {
        return Intake::Reject { status: 413, error: "request body too large".to_string() };
    }
    let wanted = concat("Bearer ", token);
    let mut authorized = false;
    let mut k: usize = 1;
    while k < lines.len()
        invariant
            1 <= k <= lines@.len(),
            all == lines.deep_view(),
            headers == all.skip(1),
            wanted@ == "Bearer "@ + token@,
            authorized == exists|j: int|
                0 <= j < k - 1 && header_value(#[trigger] headers[j], "authorization"@) == Some(
                    wanted@,
                ),
        decreases lines@.len() - k,
    {
        let ghost before = authorized;
        assert(headers[k - 1] == lines@[k as int]@);
        if let Some(value) = value_of_header(&lines[k], "authorization") {
            if same_secret(&value, &wanted) {
                authorized = true;
            }
        }
        k = k + 1;
    }
    Intake::Read {
        method: parts[0].clone(),
        path: parts[1].clone(),
        content_length: length,
        authorized,
    }
}

/// What a request is about.
#[derive(Debug, PartialEq, Eq)]
pub enum Route {
    CreateTimer,
    ListTimers,
    TimerStatus { name: String },
    TimerHistory { name: String },
    RegisterWorker,
    HeartbeatWorker,
    PollWorker,
    CompleteRun { run_id: String },
    FailRun { run_id: String },
    ClusterStatus,
    JoinCluster,
    LeaveCluster,
    ApplyCommand,
    Shutdown,
    NotFound,
}

/// A [`Route`] as a mathematical value.
pub enum RouteView {
    CreateTimer,
    ListTimers,
    TimerStatus { name: Seq<char> },
    TimerHistory { name: Seq<char> },
    RegisterWorker,
    HeartbeatWorker,
    PollWorker,
    CompleteRun { run_id: Seq<char> },
    FailRun { run_id: Seq<char> },
    ClusterStatus,
    JoinCluster,
    LeaveCluster,
    ApplyCommand,
    Shutdown,
    NotFound,
}

impl View for Route {
    type V = RouteView;

    open spec fn view(&self) -> RouteView {
        match self {
            Route::CreateTimer => RouteView::CreateTimer,
            Route::ListTimers => RouteView::ListTimers,
            Route::TimerStatus { name } => RouteView::TimerStatus { name: name@ },
            Route::TimerHistory { name } => RouteView::TimerHistory { name: name@ },
            Route::RegisterWorker => RouteView::RegisterWorker,
            Route::HeartbeatWorker => RouteView::HeartbeatWorker,
            Route::PollWorker => RouteView::PollWorker,
            Route::CompleteRun { run_id } => RouteView::CompleteRun { run_id: run_id@ },
            Route::FailRun { run_id } => RouteView::FailRun { run_id: run_id@ },
            Route::ClusterStatus => RouteView::ClusterStatus,
            Route::JoinCluster => RouteView::JoinCluster,
            Route::LeaveCluster => RouteView::LeaveCluster,
            Route::ApplyCommand => RouteView::ApplyCommand,
            Route::Shutdown => RouteView::Shutdown,
            Route::NotFound => RouteView::NotFound,
        }
    }
}

/// The segments of a path. Separators at its ends do not count.
pub open spec fn segments(path: Seq<char>) -> Seq<Seq<char>> {
    crate::split::fields(
        crate::split::trim_end_of(crate::split::trim_start_of(path, '/'), '/'),
        '/',
    )
}

/// What a request with the method for the segments is about.
pub open spec fn routed(method: Seq<char>, s: Seq<Seq<char>>) -> RouteView {
    let get = method == "GET"@;
    let post = method == "POST"@;
    if s.len() < 2 || s[0] != "v1"@ {
        RouteView::NotFound
    } else if s.len() == 2 {
        if post && s[1] == "timers"@ {
            RouteView::CreateTimer
        } else if get && s[1] == "timers"@ {
            RouteView::ListTimers
        } else {
            RouteView::NotFound
        }
    } else if s.len() == 3 {
        if get && s[1] == "timers"@ {
            RouteView::TimerStatus { name: s[2] }
        } else if post && s[1] == "workers"@ && s[2] == "register"@ {
            RouteView::RegisterWorker
        } else if post && s[1] == "workers"@ && s[2] == "heartbeat"@ {
            RouteView::HeartbeatWorker
        } else if post && s[1] == "workers"@ && s[2] == "poll"@ {
            RouteView::PollWorker
        } else if get && s[1] == "cluster"@ && s[2] == "status"@ {
            RouteView::ClusterStatus
        } else if post && s[1] == "cluster"@ && s[2] == "join"@ {
            RouteView::JoinCluster
        } else if post && s[1] == "cluster"@ && s[2] == "leave"@ {
            RouteView::LeaveCluster
        } else if post && s[1] == "raft"@ && s[2] == "apply"@ {
            RouteView::ApplyCommand
        } else if post && s[1] == "runtime"@ && s[2] == "shutdown"@ {
            RouteView::Shutdown
        } else {
            RouteView::NotFound
        }
    } else if s.len() == 4 {
        if get && s[1] == "timers"@ && s[3] == "history"@ {
            RouteView::TimerHistory { name: s[2] }
        } else if post && s[1] == "runs"@ && s[3] == "succeed"@ {
            RouteView::CompleteRun { run_id: s[2] }
        } else if post && s[1] == "runs"@ && s[3] == "fail"@ {
            RouteView::FailRun { run_id: s[2] }
        } else {
            RouteView::NotFound
        }
    } else {
        RouteView::NotFound
    }
}

/// What a request with the method for the path is about.
pub fn route_http(method: &str, path: &str) -> (r: Route)
    ensures
        r@ == routed(method@, segments(path@)),
{
    let s = split_fields(&trim_end_char(&trim_start_char(path, '/'), '/'), '/');
    let ghost all = s.deep_view();
    assert(all == segments(path@));
    assert(forall|i: int| 0 <= i < s@.len() ==> #[trigger] all[i] == s@[i]@);
    let get = same(method, "GET");
    let post = same(method, "POST");
    let n: usize = s.len();
    if n < 2 || !same(&s[0], "v1") {
        return Route::NotFound;
    }
    if n == 2 {
        return if post && same(&s[1], "timers") {
            Route::CreateTimer
        } else if get && same(&s[1], "timers") {
            Route::ListTimers
        } else {
            Route::NotFound
        };
    }
    if n == 3 {
        return if get && same(&s[1], "timers") {
            Route::TimerStatus { name: s[2].clone() }
        } else if post && same(&s[1], "workers") && same(&s[2], "register") {
            Route::RegisterWorker
        } else if post && same(&s[1], "workers") && same(&s[2], "heartbeat") {
            Route::HeartbeatWorker
        } else if post && same(&s[1], "workers") && same(&s[2], "poll") {
            Route::PollWorker
        } else if get && same(&s[1], "cluster") && same(&s[2], "status") {
            Route::ClusterStatus
        } else if post && same(&s[1], "cluster") && same(&s[2], "join") {
            Route::JoinCluster
        } else if post && same(&s[1], "cluster") && same(&s[2], "leave") {
            Route::LeaveCluster
        } else if post && same(&s[1], "raft") && same(&s[2], "apply") {
            Route::ApplyCommand
        } else if post && same(&s[1], "runtime") && same(&s[2], "shutdown") {
            Route::Shutdown
        } else {
            Route::NotFound
        };
    }
    if n == 4 {
        return if get && same(&s[1], "timers") && same(&s[3], "history") {
            Route::TimerHistory { name: s[2].clone() }
        } else if post && same(&s[1], "runs") && same(&s[3], "succeed") {
            Route::CompleteRun { run_id: s[2].clone() }
        } else if post && same(&s[1], "runs") && same(&s[3], "fail") {
            Route::FailRun { run_id: s[2].clone() }
        } else {
            Route::NotFound
        };
    }
    Route::NotFound
}

/// The words that go with a status.
pub open spec fn reason(status: u16) -> Seq<char> {
    if status == 400 {
        "Bad Request"@
    } else if status == 401 {
        "Unauthorized"@
    } else if status == 404 {
        "Not Found"@
    } else {
        "OK"@
    }
}

/// How many bytes a text takes in UTF-8, in decimal.
pub open spec fn size_text(body: Seq<char>) -> Seq<char> {
    crate::text::decimal(vstd::utf8::encode_utf8(body).len())
}

/// The response with the status and the body, which is the text of a JSON value.
pub open spec fn response_text(status: u16, body: Seq<char>) -> Seq<char> {
    "HTTP/1.1 "@ + crate::text::decimal(status as nat) + " "@ + reason(status)
        + "\r\nContent-Type: application/json\r\nContent-Length: "@ + size_text(body)
        + "\r\nConnection: close\r\n\r\n"@ + body
}

/// Writes the response with the status and the body, which is the text of a JSON value.
pub fn write_json(status: u16, body: &str) -> (r: String)
    ensures
        r@ == response_text(status, body@),
{
    let words = if status == 400 {
        "Bad Request"
    } else if status == 401 {
        "Unauthorized"
    } else if status == 404 {
        "Not Found"
    } else {
        "OK"
    };
    let line = concat4("HTTP/1.1 ", &decimal_of(status as u64), " ", words);
    let head = concat4(
        &line,
        "\r\nContent-Type: application/json\r\nContent-Length: ",
        &decimal_of(byte_count(body) as u64),
        "\r\nConnection: close\r\n\r\n",
    );
    concat(&head, body)
}

/// The request with the body, which is empty or the text of a JSON value.
pub open spec fn request_text(
    method: Seq<char>,
    path: Seq<char>,
    host: Seq<char>,
    token: Seq<char>,
    body: Seq<char>,
) -> Seq<char> {
    method + " "@ + path + " HTTP/1.1\r\nHost: "@ + host + "\r\nAuthorization: Bearer "@ + token
        + "\r\nContent-Type: application/json\r\nContent-Length: "@ + size_text(body)
        + "\r\nConnection: close\r\n\r\n"@ + body
}

/// Writes the request with the body, which is empty or the text of a JSON value.
pub fn write_request(method: &str, path: &str, host: &str, token: &str, body: &str) -> (r: String)
    ensures
        r@ == request_text(method@, path@, host@, token@, body@),
{
    let line = concat4(method, " ", path, " HTTP/1.1\r\nHost: ");
    let head = concat4(&line, host, "\r\nAuthorization: Bearer ", token);
    let tail = concat4(
        &head,
        "\r\nContent-Type: application/json\r\nContent-Length: ",
        &decimal_of(byte_count(body) as u64),
        "\r\nConnection: close\r\n\r\n",
    );
    concat(&tail, body)
}

/// The request that hands a command to a peer.
pub fn write_replication(host: &str, token: &str, command: &str) -> (r: String)
    ensures
        r@ == request_text("POST"@, "/v1/raft/apply"@, host@, token@, command@),
{
    write_request("POST", "/v1/raft/apply", host, token, command)
}

/// Whether a peer has taken a command up, given its response; if not, the reason.
pub fn check_replication(node_id: &str, response: &str) -> (r: Result<
    (),
    crate::error::KronError,
>)
    ensures
        match r {
            Ok(_) => crate::text::starts(response@, "HTTP/1.1 200"@),
            Err(error) => !crate::text::starts(response@, "HTTP/1.1 200"@) && error@
                == crate::error::KronErrorView::IpcUnavailable(
                "peer "@ + node_id@ + " rejected replication"@,
            ),
        },
{
    match crate::text::strip_prefix(response, "HTTP/1.1 200") {
        Some(_) => Ok(()),
        None => Err(
            crate::error::KronError::IpcUnavailable(
                concat3("peer ", node_id, " rejected replication"),
            ),
        ),
    }
}

/// The position of the empty line of a response, which ends its head, or its length if it
/// has none.
pub open spec fn head_len(s: Seq<char>) -> nat
    decreases s.len(),
{
    if s.len() == 0 || crate::text::starts(s, seq!['\r', '\n', '\r', '\n']) {
        0
    } else {
        1 + head_len(s.skip(1))
    }
}

/// The status and the body of a response, or why it has none.
pub open spec fn parsed_response(s: Seq<char>) -> Result<(u16, Seq<char>), Seq<char>> {
    let n = head_len(s) as int;
    if n >= s.len() {
        Err("invalid HTTP response"@)
    } else {
        match status_of(s.take(n)) {
            Some(status) => Ok((status, s.skip(n + 4))),
            None => Err("invalid HTTP status line"@),
        }
    }
}

/// The status in the head of a response: the second word of its first line.
pub open spec fn status_of(head: Seq<char>) -> Option<u16> {
    let lines = crate::split::lines_of(head);
    if lines.len() == 0 || crate::split::words_of(lines[0]).len() < 2 {
        None
    } else {
        match crate::text::parsed_number(crate::split::words_of(lines[0])[1], u16::MAX as nat) {
            Some(n) => Some(n as u16),
            None => None,
        }
    }
}

/// The view of a status and a body, or of the reason why there are none.
pub open spec fn response_view(r: Result<(u16, String), String>) -> Result<
    (u16, Seq<char>),
    Seq<char>,
> {
    match r {
        Ok((status, body)) => Ok((status, body@)),
        Err(error) => Err(error@),
    }
}

fn read_status(head: &str) -> (r: Option<u16>)
    ensures
        r == status_of(head@),
{
    let lines = split_lines(head);
    if lines.len() == 0 {
        return None;
    }
    assert(lines.deep_view()[0] == lines@[0]@);
    let words = split_words(&lines[0]);
    assert(words.deep_view().len() == words@.len());
    if words.len() < 2 {
        return None;
    }
    assert(words.deep_view()[1] == words@[1]@);
    match parse_number(&words[1], u16::MAX as u64) {
        Some(n) => Some(n as u16),
        None => None,
    }
}

/// Reads the status and the body of a response.
pub fn read_response(response: &str) -> (r: Result<(u16, String), String>)
    ensures
        response_view(r) == parsed_response(response@),
{
    let v = crate::text::chars_of(response);
    let mut n: usize = 0;
    assert(v@.skip(0) =~= response@);
    while n < v.len() && !(v.len() - n > 3 && v[n] == '\r' && v[n + 1] == '\n' && v[n + 2] == '\r'
        && v[n + 3] == '\n')
        invariant
            v@ == response@,
            n <= v@.len(),
            head_len(response@) == n + head_len(v@.skip(n as int)),
        decreases v@.len() - n,
    {
        proof {
            let rest = v@.skip(n as int);
            let end = seq!['\r', '\n', '\r', '\n'];
            if crate::text::starts(rest, end) {
                let start = rest.take(4);
                assert(start[0] == v@[n as int] && start[1] == v@[n + 1] && start[2] == v@[n + 2]
                    && start[3] == v@[n + 3]);
            }
            assert(rest.skip(1) =~= v@.skip(n + 1));
        }
        n = n + 1;
    }
    if n == v.len() {
        assert(v@.skip(n as int) =~= Seq::<char>::empty());
        return Err("invalid HTTP response".to_string());
    }
    proof {
        assert(v@.skip(n as int).take(4) =~= seq!['\r', '\n', '\r', '\n']);
        assert(response@.subrange(0, n as int) =~= response@.take(n as int));
        assert(response@.subrange(n + 4, v@.len() as int) =~= response@.skip(n + 4));
    }
    let head = crate::text::string_of(&v, 0, n);
    let body = crate::text::string_of(&v, n + 4, v.len());
    match read_status(&head) {
        Some(status) => Ok((status, body)),
        None => Err("invalid HTTP status line".to_string()),
    }
}

} // verus!
