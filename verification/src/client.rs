//! What a client of a server decides: which token it shows, where it turns to, and what it
//! makes of an answer.

use vstd::prelude::*;

use crate::http::{read_response, write_request};
use crate::split::{trim_end_char, trim_start_text};
use crate::text::{concat3, concat4, decimal_of, same, trim};

verus! {

/// The address of a server as it is connected to: without white space around it, the
/// scheme and slashes at its end.
pub open spec fn normalized(endpoint: Seq<char>) -> Seq<char> {
    crate::split::trim_end_of(
        crate::split::trim_prefixes(crate::text::trimmed(endpoint), "http://"@),
        '/',
    )
}

/// The address of a server as it is connected to.
pub fn normalize_endpoint(endpoint: &str) -> (r: String)
    ensures
        r@ == normalized(endpoint@),
{
    proof {
        reveal_strlit("http://");
    }
    trim_end_char(&trim_start_text(&trim(endpoint), "http://"), '/')
}

/// A field of the object in an answer.
#[derive(Debug, PartialEq, Eq)]
pub enum Field {
    /// The object has no such field, or there is no object.
    Missing,
    /// The field is not a text.
    Other,
    Text(String),
}

/// A [`Field`] as a mathematical value.
pub enum FieldView {
    Missing,
    Other,
    Text(Seq<char>),
}

impl View for Field {
    type V = FieldView;

    open spec fn view(&self) -> FieldView {
        match self {
            Field::Missing => FieldView::Missing,
            Field::Other => FieldView::Other,
            Field::Text(t) => FieldView::Text(t@),
        }
    }
}

/// What an answer holds that matters to the client.
#[derive(Debug)]
pub struct Answer {
    pub status: u16,
    pub error: Field,
    pub message: Field,
    pub leader_http: Field,
}

/// What a client does with an answer.
#[derive(Debug, PartialEq, Eq)]
pub enum ClientStep {
    /// Hand out the body. If there is an address, the server has moved there, and that is
    /// to be remembered.
    Done { moved_to: Option<String> },
    /// Ask the server at the address.
    Follow { endpoint: String },
    /// Give up.
    Fail { message: String },
}

/// A [`ClientStep`] as a mathematical value.
pub enum StepView {
    Done { moved_to: Option<Seq<char>> },
    Follow { endpoint: Seq<char> },
    Fail { message: Seq<char> },
}

impl View for ClientStep {
    type V = StepView;

    open spec fn view(&self) -> StepView {
        match self {
            ClientStep::Done { moved_to } => StepView::Done { moved_to: moved_to.deep_view() },
            ClientStep::Follow { endpoint } => StepView::Follow { endpoint: endpoint@ },
            ClientStep::Fail { message } => StepView::Fail { message: message@ },
        }
    }
}

/// What the answer says went wrong: its error or else its message, if it is a text.
pub open spec fn complaint(error: FieldView, message: FieldView, otherwise: Seq<char>) -> Seq<char> {
    match error {
        FieldView::Text(t) => t,
        FieldView::Other => otherwise,
        FieldView::Missing => match message {
            FieldView::Text(t) => t,
            _ => otherwise,
        },
    }
}

/// Where the leader is, if the answer says that the server does not lead and where.
pub open spec fn redirection(answer: Answer) -> Option<Seq<char>> {
    match (answer.error@, answer.leader_http@) {
        (FieldView::Text(error), FieldView::Text(leader)) => if error == "not_leader"@
            && crate::text::trimmed(leader).len() > 0 {
            Some(normalized(leader))
        } else {
            None
        },
        _ => None,
    }
}

/// Whether the status tells success.
pub open spec fn is_success(status: u16) -> bool {
    200 <= status < 300
}

/// What a client does with the answer of the server at an address. It follows a hint to
/// the leader once, and not when it has followed one already.
pub open spec fn next_step(
    first: bool,
    started_at: Seq<char>,
    endpoint: Seq<char>,
    answer: Answer,
    failure: Seq<char>,
) -> StepView {
    if is_success(answer.status) {
        StepView::Done {
            moved_to: if normalized(endpoint) != normalized(started_at) {
                Some(normalized(endpoint))
            } else {
                None
            },
        }
    } else if first && redirection(answer) is Some {
        StepView::Follow { endpoint: redirection(answer)->0 }
    } else {
        StepView::Fail { message: failure }
    }
}

/// What is said of a failure on the command line.
pub open spec fn cli_failure(answer: Answer) -> Seq<char> {
    "HTTP "@ + crate::text::decimal(answer.status as nat) + ": "@ + complaint(
        answer.error@,
        answer.message@,
        "server request failed"@,
    )
}

/// What is said of a failure to a program.
pub open spec fn api_failure(endpoint: Seq<char>, answer: Answer) -> Seq<char> {
    "HTTP "@ + crate::text::decimal(answer.status as nat) + " from "@ + normalized(endpoint) + ": "@
        + complaint(answer.error@, answer.message@, "HTTP request failed"@)
}

/// What the answer says went wrong.
fn complaint_of(answer: &Answer, otherwise: &str) -> (r: String)
    ensures
        r@ == complaint(answer.error@, answer.message@, otherwise@),
{
    match &answer.error {
        Field::Text(t) => t.clone(),
        Field::Other => otherwise.to_owned(),
        Field::Missing => match &answer.message {
            Field::Text(t) => t.clone(),
            _ => otherwise.to_owned(),
        },
    }
}

/// Where the leader is, if the answer says that the server does not lead and where.
fn redirection_in(answer: &Answer) -> (r: Option<String>)
    ensures
        r.deep_view() == redirection(*answer),
{
    match (&answer.error, &answer.leader_http) {
        (Field::Text(error), Field::Text(leader)) => {
            if same(error, "not_leader") && crate::text::chars_of(&trim(leader)).len() > 0 {
                Some(normalize_endpoint(leader))
            } else {
                None
            }
        },
        _ => None,
    }
}

fn step(first: bool, started_at: &str, endpoint: &str, answer: &Answer, failure: String) -> (r:
    ClientStep)
    ensures
        r@ == next_step(first, started_at@, endpoint@, *answer, failure@),
{
    if 200 <= answer.status && answer.status < 300 {
        let here = normalize_endpoint(endpoint);
        let moved_to = if same(&here, &normalize_endpoint(started_at)) {
            None
        } else {
            Some(here)
        };
        return ClientStep::Done { moved_to };
    }
    if first {
        if let Some(endpoint) = redirection_in(answer) {
            return ClientStep::Follow { endpoint };
        }
    }
    ClientStep::Fail { message: failure }
}

/// What the command line does with the answer of the server at an address.
pub fn cli_step(first: bool, started_at: &str, endpoint: &str, answer: &Answer) -> (r: ClientStep)
    ensures
        r@ == next_step(first, started_at@, endpoint@, *answer, cli_failure(*answer)),
{
    let failure = concat4(
        "HTTP ",
        &decimal_of(answer.status as u64),
        ": ",
        &complaint_of(answer, "server request failed"),
    );
    step(first, started_at, endpoint, answer, failure)
}

/// What a program does with the answer of the server at an address.
pub fn api_step(first: bool, started_at: &str, endpoint: &str, answer: &Answer) -> (r: ClientStep)
    ensures
        r@ == next_step(first, started_at@, endpoint@, *answer, api_failure(endpoint@, *answer)),
{
    let head = concat4(
        "HTTP ",
        &decimal_of(answer.status as u64),
        " from ",
        &normalize_endpoint(endpoint),
    );
    let failure = concat3(&head, ": ", &complaint_of(answer, "HTTP request failed"));
    step(first, started_at, endpoint, answer, failure)
}

/// The request for the server at an address. The body is the text of a JSON value; without
/// one it is empty.
pub fn request_once(
    endpoint: &str,
    token: &str,
    method: &str,
    path: &str,
    body: &Option<String>,
) -> (r: String)
    ensures
        r@ == crate::http::request_text(
            method@,
            path@,
            normalized(endpoint@),
            token@,
            match body {
                Some(text) => text@,
                None => Seq::empty(),
            },
        ),
{
    let host = normalize_endpoint(endpoint);
    match body {
        Some(text) => write_request(method, path, &host, token, text),
        None => {
            let empty = String::new();
            assert(empty@ =~= Seq::<char>::empty());
            write_request(method, path, &host, token, &empty)
        },
    }
}

/// The status and the body of the answer to a request.
pub fn answer_once(response: &str) -> (r: Result<(u16, String), String>)
    ensures
        crate::http::response_view(r) == crate::http::parsed_response(response@),
{
    read_response(response)
}

/// A token in the file of the tokens, as a client sees it.
#[derive(Debug)]
pub struct ClientToken {
    pub token: Option<String>,
    pub role: String,
}

/// The token of the first entry with the role that has one in the clear.
pub open spec fn token_for(entries: Seq<ClientToken>, role: Seq<char>) -> Option<Seq<char>>
    decreases entries.len(),
{
    if entries.len() == 0 {
        None
    } else if entries[0].role@ == role && entries[0].token is Some {
        Some(entries[0].token->0@)
    } else {
        token_for(entries.skip(1), role)
    }
}

/// The token with the most rights: that of an administrator, an operator, a reader, a
/// worker or a peer, in that order.
pub open spec fn best_token(entries: Seq<ClientToken>) -> Option<Seq<char>> {
    if token_for(entries, "admin"@) is Some {
        token_for(entries, "admin"@)
    } else if token_for(entries, "operator"@) is Some {
        token_for(entries, "operator"@)
    } else if token_for(entries, "reader"@) is Some {
        token_for(entries, "reader"@)
    } else if token_for(entries, "worker"@) is Some {
        token_for(entries, "worker"@)
    } else {
        token_for(entries, "raft"@)
    }
}

fn find_token(entries: &Vec<ClientToken>, role: &str) -> (r: Option<String>)
    ensures
        r.deep_view() == token_for(entries@, role@),
{
    let mut i: usize = 0;
    assert(entries@.skip(0) =~= entries@);
    while i < entries.len()
        invariant
            i <= entries@.len(),
            token_for(entries@, role@) == token_for(entries@.skip(i as int), role@),
        decreases entries@.len() - i,
    {
        proof {
            assert(entries@.skip(i as int)[0] == entries@[i as int]);
            assert(entries@.skip(i as int).skip(1) =~= entries@.skip(i + 1));
        }
        if same(&entries[i].role, role) {
            if let Some(token) = &entries[i].token {
                return Some(token.clone());
            }
        }
        i = i + 1;
    }
    None
}

/// The token with the most rights.
pub fn pick_token(entries: &Vec<ClientToken>) -> (r: Result<String, String>)
    ensures
        match r {
            Ok(token) => best_token(entries@) == Some(token@),
            Err(message) => best_token(entries@) is None && message@
                == "kron.tokens.json does not contain a usable token"@,
        },
{
    if let Some(token) = find_token(entries, "admin") {
        return Ok(token);
    }
    if let Some(token) = find_token(entries, "operator") {
        return Ok(token);
    }
    if let Some(token) = find_token(entries, "reader") {
        return Ok(token);
    }
    if let Some(token) = find_token(entries, "worker") {
        return Ok(token);
    }
    match find_token(entries, "raft") {
        Some(token) => Ok(token),
        None => Err("kron.tokens.json does not contain a usable token".to_string()),
    }
}

/// The token that the environment gives: one that is not blank.
pub fn token_from_env(setting: Option<String>) -> (r: Option<String>)
    ensures
        r.deep_view() == match setting {
            Some(token) => if crate::text::trimmed(token@).len() > 0 {
                Some(token@)
            } else {
                None
            },
            None => None,
        },
{
    match setting {
        Some(token) => if crate::text::chars_of(&trim(&token)).len() > 0 {
            Some(token)
        } else {
            None
        },
        None => None,
    }
}

/// A client that has followed a hint does not follow another one, and a success ends the
/// request.
pub proof fn redirects_are_one_hop(
    started_at: Seq<char>,
    endpoint: Seq<char>,
    answer: Answer,
    failure: Seq<char>,
)
    ensures
        !(next_step(false, started_at, endpoint, answer, failure) is Follow),
        is_success(answer.status) ==> next_step(true, started_at, endpoint, answer, failure) is Done,
        next_step(true, started_at, endpoint, answer, failure) is Follow ==> answer.error@
            == FieldView::Text("not_leader"@),
{
}

} // verus!
