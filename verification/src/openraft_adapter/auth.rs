//! Who may do what: tokens, roles and tenants.

use vstd::prelude::*;

use crate::audit::{sha256_hex_of, AuditNote};
use crate::ipc::same_secret;
use crate::text::{chars_of, concat, concat3, copy_option, same, strip_prefix, to_lower};
use crate::timestamp::{TimeView, Timestamp};

verus! {

/// What a token is good for.
#[derive(Debug, Clone, Copy, PartialEq, Eq, Structural)]
pub enum AuthRole {
    Reader,
    Worker,
    Operator,
    Admin,
    Raft,
}

impl AuthRole {
    /// The name of the role.
    pub open spec fn name(self) -> Seq<char> {
        match self {
            AuthRole::Reader => "reader"@,
            AuthRole::Worker => "worker"@,
            AuthRole::Operator => "operator"@,
            AuthRole::Admin => "admin"@,
            AuthRole::Raft => "raft"@,
        }
    }

    /// Whether who has the role may do what the other one is required for: an
    /// administrator may do everything, an operator what a reader may, and everyone what
    /// their own role is for.
    pub open spec fn covers(self, required: AuthRole) -> bool {
        self is Admin || self == required || (self is Operator && required is Reader)
    }

    /// Whether who has the role may do what the other one is required for.
    pub fn allows(self, required: AuthRole) -> (r: bool)
        ensures
            r == self.covers(required),
    {
        matches!(self, AuthRole::Admin) || self == required || matches!(
            (self, required),
            (AuthRole::Operator, AuthRole::Reader)
        )
    }

    /// The name of the role.
    pub fn as_str(self) -> (r: &'static str)
        ensures
            r@ == self.name(),
    {
        match self {
            AuthRole::Reader => "reader",
            AuthRole::Worker => "worker",
            AuthRole::Operator => "operator",
            AuthRole::Admin => "admin",
            AuthRole::Raft => "raft",
        }
    }
}

/// Who makes a request.
#[derive(Debug, PartialEq, Eq)]
pub struct AuthContext {
    pub actor: String,
    pub role: AuthRole,
    pub tenant_id: Option<String>,
}

/// An [`AuthContext`] as a mathematical value.
pub struct ContextView {
    pub actor: Seq<char>,
    pub role: AuthRole,
    pub tenant_id: Option<Seq<char>>,
}

impl View for AuthContext {
    type V = ContextView;

    open spec fn view(&self) -> ContextView {
        ContextView {
            actor: self.actor@,
            role: self.role,
            tenant_id: self.tenant_id.deep_view(),
        }
    }
}

/// A token that is known, in the clear or by its digest, and what it is good for.
#[derive(Debug, PartialEq, Eq)]
pub struct TokenEntry {
    pub name: String,
    pub token: Option<String>,
    /// The SHA-256 digest of the token in hexadecimal.
    pub token_sha256: Option<String>,
    pub role: AuthRole,
    pub tenant_id: Option<String>,
    /// The token is good from then on.
    pub not_before: Option<Timestamp>,
    /// The token is no longer good from then on.
    pub expires_at: Option<Timestamp>,
}

/// A [`TokenEntry`] as a mathematical value.
pub struct TokenView {
    pub name: Seq<char>,
    pub token: Option<Seq<char>>,
    pub token_sha256: Option<Seq<char>>,
    pub role: AuthRole,
    pub tenant_id: Option<Seq<char>>,
    pub not_before: Option<TimeView>,
    pub expires_at: Option<TimeView>,
}

impl View for TokenEntry {
    type V = TokenView;

    open spec fn view(&self) -> TokenView {
        TokenView {
            name: self.name@,
            token: self.token.deep_view(),
            token_sha256: self.token_sha256.deep_view(),
            role: self.role,
            tenant_id: self.tenant_id.deep_view(),
            not_before: self.not_before.deep_view(),
            expires_at: self.expires_at.deep_view(),
        }
    }
}

impl DeepView for TokenEntry {
    type V = TokenView;

    open spec fn deep_view(&self) -> TokenView {
        self@
    }
}

/// Whether the character is a hexadecimal digit.
pub open spec fn is_hex_digit(c: char) -> bool {
    '0' <= c <= '9' || 'a' <= c <= 'f' || 'A' <= c <= 'F'
}

/// Whether the text is a SHA-256 digest in hexadecimal.
pub open spec fn is_digest(s: Seq<char>) -> bool {
    s.len() == 64 && forall|i: int| 0 <= i < s.len() ==> is_hex_digit(#[trigger] s[i])
}

/// Whether the text is a SHA-256 digest in hexadecimal.
fn has_digest_form(s: &str) -> (r: bool)
    ensures
        r == is_digest(s@),
{
    let v = chars_of(s);
    if v.len() != 64 {
        return false;
    }
    let mut i: usize = 0;
    while i < v.len()
        invariant
            v@ == s@,
            i <= v@.len() == 64,
            forall|k: int| 0 <= k < i ==> is_hex_digit(#[trigger] v@[k]),
        decreases v@.len() - i,
    {
        let c = v[i];
        if !(('0' <= c && c <= '9') || ('a' <= c && c <= 'f') || ('A' <= c && c <= 'F')) {
            assert(!is_hex_digit(s@[i as int]));
            return false;
        }
        i = i + 1;
    }
    true
}

impl TokenView {
    /// What is wrong with the entry, if anything is.
    pub open spec fn fault(self) -> Option<Seq<char>> {
        if (self.token is Some) == (self.token_sha256 is Some) {
            Some("token entry `"@ + self.name + "` must set exactly one of token or token_sha256"@)
        } else if self.token_sha256 is Some && !is_digest(self.token_sha256->0) {
            Some(
                "token_sha256 of `"@ + self.name + "` must be a 64-character SHA-256 hex digest"@,
            )
        } else {
            None
        }
    }

    /// Whether the entry is about the token with the digest.
    pub open spec fn is_about(self, bearer: Seq<char>, digest: Seq<char>) -> bool {
        match self.token {
            Some(token) => token == bearer,
            None => match self.token_sha256 {
                Some(hash) => crate::text::lowered(hash) == digest,
                None => false,
            },
        }
    }

    /// Who shows the token of the entry, if it is good at the time; if not, the reason.
    pub open spec fn context_at(self, now: TimeView) -> Result<ContextView, Seq<char>> {
        if self.not_before is Some && now.before(self.not_before->0) {
            Err("token is not active yet"@)
        } else if self.expires_at is Some && self.expires_at->0.not_after(now) {
            Err("token has expired"@)
        } else {
            Ok(ContextView { actor: self.name, role: self.role, tenant_id: self.tenant_id })
        }
    }
}

impl TokenEntry {
    /// What is wrong with the entry, if anything is.
    pub fn fault(&self) -> (r: Option<String>)
        ensures
            r.deep_view() == self@.fault(),
    {
        if self.token.is_some() == self.token_sha256.is_some() {
            return Some(
                concat3(
                    "token entry `",
                    &self.name,
                    "` must set exactly one of token or token_sha256",
                ),
            );
        }
        if let Some(hash) = &self.token_sha256 {
            if !has_digest_form(hash) {
                return Some(
                    concat3(
                        "token_sha256 of `",
                        &self.name,
                        "` must be a 64-character SHA-256 hex digest",
                    ),
                );
            }
        }
        None
    }

    fn is_about(&self, bearer: &str, digest: &str) -> (r: bool)
        ensures
            r == self@.is_about(bearer@, digest@),
    {
        match &self.token {
            Some(token) => same_secret(token, bearer),
            None => match &self.token_sha256 {
                Some(hash) => same_secret(&to_lower(hash), digest),
                None => false,
            },
        }
    }

    fn context_at(&self, now: Timestamp) -> (r: Result<AuthContext, String>)
        ensures
            context_view(r) == self@.context_at(now@),
    {
        if let Some(start) = &self.not_before {
            if now.before(start) {
                return Err("token is not active yet".to_string());
            }
        }
        if let Some(end) = &self.expires_at {
            if end.not_after(&now) {
                return Err("token has expired".to_string());
            }
        }
        Ok(
            AuthContext {
                actor: self.name.clone(),
                role: self.role,
                tenant_id: copy_option(&self.tenant_id),
            },
        )
    }
}

/// The view of who makes a request, or of the reason why this is not known.
pub open spec fn context_view(r: Result<AuthContext, String>) -> Result<ContextView, Seq<char>> {
    match r {
        Ok(context) => Ok(context@),
        Err(reason) => Err(reason@),
    }
}

/// The file of the tokens as it was found.
#[derive(Debug)]
pub enum TokenFile {
    Absent,
    /// It could not be read, with the message of the failure.
    Unreadable(String),
    /// It could not be decoded, with the message of the failure.
    Undecodable(String),
    Tokens(Vec<TokenEntry>),
}

/// What is wrong with the first entry with which something is wrong.
pub open spec fn first_fault(entries: Seq<TokenView>) -> Option<Seq<char>>
    decreases entries.len(),
{
    if entries.len() == 0 {
        None
    } else if entries[0].fault() is Some {
        entries[0].fault()
    } else {
        first_fault(entries.skip(1))
    }
}

/// Who shows the token with the digest, given the tokens that are known: the first entry
/// about it tells.
pub open spec fn known_as(
    entries: Seq<TokenView>,
    bearer: Seq<char>,
    digest: Seq<char>,
    now: TimeView,
) -> Result<ContextView, Seq<char>>
    decreases entries.len(),
{
    if entries.len() == 0 {
        Err("unknown token"@)
    } else if entries[0].is_about(bearer, digest) {
        entries[0].context_at(now)
    } else {
        known_as(entries.skip(1), bearer, digest, now)
    }
}

/// Who shows the token with the digest to a server, given the file of the tokens and the
/// token of the server itself, which counts only without the file.
pub open spec fn authenticated(
    header: Option<Seq<char>>,
    digest: Seq<char>,
    file: TokenFile,
    server_token: Seq<char>,
    now: TimeView,
) -> Result<ContextView, Seq<char>> {
    match bearer_in(header) {
        None => Err("missing bearer token"@),
        Some(bearer) => match file {
            TokenFile::Unreadable(error) => Err("unable to read token file: "@ + error@),
            TokenFile::Undecodable(error) => Err("invalid token file: "@ + error@),
            TokenFile::Tokens(entries) => match first_fault(entries.deep_view()) {
                Some(fault) => Err("invalid token file: "@ + fault),
                None => known_as(entries.deep_view(), bearer, digest, now),
            },
            TokenFile::Absent => if server_token == bearer {
                Ok(
                    ContextView {
                        actor: "legacy-admin-token"@,
                        role: AuthRole::Admin,
                        tenant_id: None,
                    },
                )
            } else {
                Err("unknown token"@)
            },
        },
    }
}

/// The token that the header shows, if it shows one.
pub open spec fn bearer_in(header: Option<Seq<char>>) -> Option<Seq<char>> {
    match header {
        Some(value) => if crate::text::starts(value, "Bearer "@) {
            Some(value.skip("Bearer "@.len() as int))
        } else {
            None
        },
        None => None,
    }
}

/// The token that the header shows, if it shows one.
pub fn bearer_of(header: &Option<String>) -> (r: Option<String>)
    ensures
        r.deep_view() == bearer_in(header.deep_view()),
{
    match header {
        Some(value) => strip_prefix(value, "Bearer "),
        None => None,
    }
}

/// Who shows the token with the digest, given the tokens that are known.
fn find_token(entries: &Vec<TokenEntry>, bearer: &str, digest: &str, now: Timestamp) -> (r: Result<
    AuthContext,
    String,
>)
    ensures
        context_view(r) == known_as(entries.deep_view(), bearer@, digest@, now@),
{
    let ghost all = entries.deep_view();
    let mut i: usize = 0;
    assert(all.skip(0) =~= all);
    while i < entries.len()
        invariant
            i <= entries@.len(),
            all == entries.deep_view(),
            known_as(all, bearer@, digest@, now@) == known_as(
                all.skip(i as int),
                bearer@,
                digest@,
                now@,
            ),
        decreases entries@.len() - i,
    {
        proof {
            assert(all.skip(i as int)[0] == entries@[i as int]@);
            assert(all.skip(i as int).skip(1) =~= all.skip(i + 1));
        }
        if entries[i].is_about(bearer, digest) {
            return entries[i].context_at(now);
        }
        i = i + 1;
    }
    assert(all.skip(i as int) =~= Seq::<TokenView>::empty());
    Err("unknown token".to_string())
}

/// What is wrong with the first entry with which something is wrong.
pub fn find_fault(entries: &Vec<TokenEntry>) -> (r: Option<String>)
    ensures
        r.deep_view() == first_fault(entries.deep_view()),
{
    let ghost all = entries.deep_view();
    let mut i: usize = 0;
    assert(all.skip(0) =~= all);
    while i < entries.len()
        invariant
            i <= entries@.len(),
            all == entries.deep_view(),
            first_fault(all) == first_fault(all.skip(i as int)),
        decreases entries@.len() - i,
    {
        proof {
            assert(all.skip(i as int)[0] == entries@[i as int]@);
            assert(all.skip(i as int).skip(1) =~= all.skip(i + 1));
        }
        if let Some(fault) = entries[i].fault() {
            return Some(fault);
        }
        i = i + 1;
    }
    assert(all.skip(i as int) =~= Seq::<TokenView>::empty());
    None
}

/// Who makes a request to a server, given the digest of the token that the header shows.
pub fn authenticate_given(
    header: &Option<String>,
    digest: &str,
    file: &TokenFile,
    server_token: &str,
    now: Timestamp,
) -> (r: Result<AuthContext, String>)
    ensures
        context_view(r) == authenticated(
            header.deep_view(),
            digest@,
            *file,
            server_token@,
            now@,
        ),
{
    let bearer = match bearer_of(header) {
        Some(bearer) => bearer,
        None => {
            return Err("missing bearer token".to_string());
        },
    };
    match file {
        TokenFile::Unreadable(error) => Err(concat("unable to read token file: ", error)),
        TokenFile::Undecodable(error) => Err(concat("invalid token file: ", error)),
        TokenFile::Tokens(entries) => match find_fault(entries) {
            Some(fault) => Err(concat("invalid token file: ", &fault)),
            None => find_token(entries, &bearer, digest, now),
        },
        TokenFile::Absent => if same_secret(server_token, &bearer) {
            Ok(
                AuthContext {
                    actor: "legacy-admin-token".to_string(),
                    role: AuthRole::Admin,
                    tenant_id: None,
                },
            )
        } else {
            Err("unknown token".to_string())
        },
    }
}

/// The digest of the token that the header shows, in hexadecimal.
pub open spec fn bearer_digest(header: Option<Seq<char>>) -> Seq<char> {
    match bearer_in(header) {
        Some(bearer) => crate::audit::sha256_hex(bearer),
        None => Seq::empty(),
    }
}

/// Who makes a request to a server, given the value of its header `authorization`.
pub fn authenticate(
    header: &Option<String>,
    file: &TokenFile,
    server_token: &str,
    now: Timestamp,
) -> (r: Result<AuthContext, String>)
    ensures
        context_view(r) == authenticated(
            header.deep_view(),
            bearer_digest(header.deep_view()),
            *file,
            server_token@,
            now@,
        ),
{
    let digest = match bearer_of(header) {
        Some(bearer) => sha256_hex_of(&bearer),
        None => String::new(),
    };
    assert(header.deep_view() is None ==> digest@ =~= Seq::<char>::empty());
    authenticate_given(header, &digest, file, server_token, now)
}

/// What a request wants to do.
#[derive(Debug, Clone, Copy, PartialEq, Eq, Structural)]
pub enum Action {
    CreateTimer,
    ListTimers,
    TimerStatus,
    TimerHistory,
    RegisterWorker,
    HeartbeatWorker,
    PollWorker,
    CompleteRun,
    FailRun,
    ClusterStatus,
    JoinCluster,
    LeaveCluster,
    Shutdown,
    AppendEntries,
    Vote,
    InstallSnapshot,
}

impl Action {
    /// The role that is required for it.
    pub open spec fn required(self) -> AuthRole {
        match self {
            Action::CreateTimer => AuthRole::Operator,
            Action::ListTimers | Action::TimerStatus | Action::TimerHistory
            | Action::ClusterStatus => AuthRole::Reader,
            Action::RegisterWorker | Action::HeartbeatWorker | Action::PollWorker
            | Action::CompleteRun | Action::FailRun => AuthRole::Worker,
            Action::JoinCluster | Action::LeaveCluster | Action::Shutdown => AuthRole::Admin,
            Action::AppendEntries | Action::Vote | Action::InstallSnapshot => AuthRole::Raft,
        }
    }

    /// Its name in the audit trail.
    pub open spec fn text(self) -> Seq<char> {
        match self {
            Action::CreateTimer => "timer.create"@,
            Action::ListTimers => "timer.list"@,
            Action::TimerStatus => "timer.status"@,
            Action::TimerHistory => "timer.history"@,
            Action::RegisterWorker => "worker.register"@,
            Action::HeartbeatWorker => "worker.heartbeat"@,
            Action::PollWorker => "worker.poll"@,
            Action::CompleteRun => "run.succeed"@,
            Action::FailRun => "run.fail"@,
            Action::ClusterStatus => "cluster.status"@,
            Action::JoinCluster => "cluster.join"@,
            Action::LeaveCluster => "cluster.leave"@,
            Action::Shutdown => "runtime.shutdown"@,
            Action::AppendEntries => "raft.append_entries"@,
            Action::Vote => "raft.vote"@,
            Action::InstallSnapshot => "raft.install_snapshot"@,
        }
    }

    /// The role that is required for it.
    pub fn required_role(self) -> (r: AuthRole)
        ensures
            r == self.required(),
    {
        match self {
            Action::CreateTimer => AuthRole::Operator,
            Action::ListTimers | Action::TimerStatus | Action::TimerHistory
            | Action::ClusterStatus => AuthRole::Reader,
            Action::RegisterWorker | Action::HeartbeatWorker | Action::PollWorker
            | Action::CompleteRun | Action::FailRun => AuthRole::Worker,
            Action::JoinCluster | Action::LeaveCluster | Action::Shutdown => AuthRole::Admin,
            Action::AppendEntries | Action::Vote | Action::InstallSnapshot => AuthRole::Raft,
        }
    }

    /// Its name in the audit trail.
    pub fn name(self) -> (r: &'static str)
        ensures
            r@ == self.text(),
    {
        match self {
            Action::CreateTimer => "timer.create",
            Action::ListTimers => "timer.list",
            Action::TimerStatus => "timer.status",
            Action::TimerHistory => "timer.history",
            Action::RegisterWorker => "worker.register",
            Action::HeartbeatWorker => "worker.heartbeat",
            Action::PollWorker => "worker.poll",
            Action::CompleteRun => "run.succeed",
            Action::FailRun => "run.fail",
            Action::ClusterStatus => "cluster.status",
            Action::JoinCluster => "cluster.join",
            Action::LeaveCluster => "cluster.leave",
            Action::Shutdown => "runtime.shutdown",
            Action::AppendEntries => "raft.append_entries",
            Action::Vote => "raft.vote",
            Action::InstallSnapshot => "raft.install_snapshot",
        }
    }
}

/// What becomes of a request.
#[derive(Debug)]
pub enum Verdict {
    /// It is carried out for who makes it.
    Allowed(AuthContext),
    /// It is refused, since another role is required for it; what is noted of it.
    Forbidden { required: AuthRole, context: AuthContext },
    /// It is refused, since it is not known who makes it; the reason.
    Unauthorized { reason: String },
}

/// Whether a request is carried out, given who makes it.
pub fn authed(auth: Result<AuthContext, String>, action: Action) -> (r: Verdict)
    ensures
        match auth {
            Ok(context) => if context@.role.covers(action.required()) {
                r == Verdict::Allowed(context)
            } else {
                r == (Verdict::Forbidden { required: action.required(), context })
            },
            Err(reason) => r == (Verdict::Unauthorized { reason }),
        },
{
    match auth {
        Ok(context) => if context.role.allows(action.required_role()) {
            Verdict::Allowed(context)
        } else {
            Verdict::Forbidden { required: action.required_role(), context }
        },
        Err(reason) => Verdict::Unauthorized { reason },
    }
}

/// What is noted of a request in the audit trail.
pub fn audit(
    node_id: &str,
    auth: Option<&AuthContext>,
    action: Action,
    outcome: &str,
    status: u16,
    reason: Option<String>,
) -> (r: AuditNote)
    ensures
        r.node_id@ == node_id@,
        r.action@ == action.text(),
        r.outcome@ == outcome@,
        r.status == status,
        r.actor@ == match auth {
            Some(context) => context@.actor,
            None => "anonymous"@,
        },
        r.role@ == match auth {
            Some(context) => context@.role.name(),
            None => "none"@,
        },
        r.tenant_id.deep_view() == match auth {
            Some(context) => context@.tenant_id,
            None => None,
        },
        r.reason == reason,
{
    let (actor, role, tenant_id) = match auth {
        Some(context) => (
            context.actor.clone(),
            context.role.as_str().to_owned(),
            copy_option(&context.tenant_id),
        ),
        None => ("anonymous".to_string(), "none".to_string(), None),
    };
    AuditNote {
        node_id: node_id.to_owned(),
        action: action.name().to_owned(),
        outcome: outcome.to_owned(),
        status,
        actor,
        role,
        tenant_id,
        reason,
    }
}

/// The status of the answer to a request that failed, given the word for the error in its
/// body.
pub fn failure_status(error: Option<&str>) -> (r: u16)
    ensures
        r == if error is Some && error->0@ == "not_leader"@ {
            409u16
        } else {
            400u16
        },
{
    match error {
        Some(word) => if same(word, "not_leader") {
            409
        } else {
            400
        },
        None => 400,
    }
}

/// What came of a request.
#[derive(Debug, PartialEq, Eq)]
pub struct Outcome {
    /// The word for it in the audit trail.
    pub word: &'static str,
    /// The status of the answer.
    pub status: u16,
    pub reason: Option<String>,
}

/// What came of a request, given what became of it and, where it was carried out, whether
/// that failed and the word for the error in its body, if there is one.
pub fn audit_outcome(verdict: &Verdict, failed: bool, error: Option<&str>) -> (r: Outcome)
    ensures
        match *verdict {
            Verdict::Allowed(_) => if !failed {
                r.word@ == "ok"@ && r.status == 200 && r.reason is None
            } else {
                &&& r.word@ == "error"@
                &&& r.status == if error is Some && error->0@ == "not_leader"@ {
                    409u16
                } else {
                    400u16
                }
                &&& r.reason.deep_view() == text_view(error)
            },
            Verdict::Forbidden { required, .. } => r.word@ == "forbidden"@ && r.status == 403
                && r.reason.deep_view() == Some(required.name()),
            Verdict::Unauthorized { reason } => r.word@ == "unauthorized"@ && r.status == 401
                && r.reason.deep_view() == Some(reason@),
        },
{
    match verdict {
        Verdict::Allowed(_) => if !failed {
            Outcome { word: "ok", status: 200, reason: None }
        } else {
            let reason = match error {
                Some(word) => Some(word.to_owned()),
                None => None,
            };
            Outcome { word: "error", status: failure_status(error), reason }
        },
        Verdict::Forbidden { required, .. } => Outcome {
            word: "forbidden",
            status: 403,
            reason: Some(required.as_str().to_owned()),
        },
        Verdict::Unauthorized { reason } => Outcome {
            word: "unauthorized",
            status: 401,
            reason: Some(reason.clone()),
        },
    }
}

/// The part of a message that may be the text of a JSON object: from its first brace on.
pub fn json_part(message: &str) -> (r: Option<String>)
    ensures
        r.deep_view() == ({
            let n = crate::split::first_of(message@, '{') as int;
            if n < message@.len() {
                Some(message@.skip(n))
            } else {
                None
            }
        }),
{
    match crate::split::split_once(message, '{') {
        Some((_, rest)) => {
            let part = concat("{", &rest);
            proof {
                reveal_strlit("{");
                crate::split::first_of_is_first(message@, '{');
                let n = crate::split::first_of(message@, '{') as int;
                assert(part@ =~= message@.skip(n));
            }
            Some(part)
        },
        None => None,
    }
}

/// Whether who is bound to a tenant, or to none, may see what belongs to a tenant, or to
/// none.
pub open spec fn tenant_covers(request: Option<Seq<char>>, resource: Option<Seq<char>>) -> bool {
    match request {
        None => true,
        Some(tenant) => tenant == "*"@ || resource == Some(tenant),
    }
}

/// The view of a borrowed text, if there is one.
pub open spec fn text_view(text: Option<&str>) -> Option<Seq<char>> {
    match text {
        Some(t) => Some(t@),
        None => None,
    }
}

/// Whether who is bound to a tenant, or to none, may see what belongs to a tenant, or to
/// none.
pub fn tenant_matches(request_tenant: Option<&str>, resource_tenant: Option<&str>) -> (r: bool)
    ensures
        r == tenant_covers(text_view(request_tenant), text_view(resource_tenant)),
{
    match request_tenant {
        None => true,
        Some(tenant) => same(tenant, "*") || match resource_tenant {
            Some(owner) => same(owner, tenant),
            None => false,
        },
    }
}

/// Who is bound to a tenant sees nothing of another one.
pub proof fn tenants_are_apart(tenant: Seq<char>, other: Seq<char>)
    requires
        tenant != "*"@,
        other != tenant,
    ensures
        !tenant_covers(Some(tenant), Some(other)),
        !tenant_covers(Some(tenant), None),
        tenant_covers(Some(tenant), Some(tenant)),
{
}

/// An administrator may do everything; everyone else only what their role is for, and an
/// operator what a reader may.
pub proof fn roles_are_apart(role: AuthRole, action: Action)
    ensures
        AuthRole::Admin.covers(action.required()),
        role.covers(action.required()) && !(role is Admin) ==> role == action.required() || (role
            is Operator && action.required() is Reader),
        action.required() is Raft && role.covers(action.required()) ==> role is Raft || role is Admin,
{
}

/// A token is refused before its window and from its end on, whatever else is known.
pub proof fn token_is_refused_outside_its_window(
    entries: Seq<TokenView>,
    i: int,
    bearer: Seq<char>,
    digest: Seq<char>,
    now: TimeView,
)
    requires
        0 <= i < entries.len(),
        entries[i].is_about(bearer, digest),
        forall|k: int| 0 <= k < i ==> !(#[trigger] entries[k]).is_about(bearer, digest),
        (entries[i].not_before is Some && now.before(entries[i].not_before->0)) || (
        entries[i].expires_at is Some && entries[i].expires_at->0.not_after(now)),
    ensures
        known_as(entries, bearer, digest, now) is Err,
    decreases i,
{
    if i > 0 {
        let rest = entries.skip(1);
        assert(!entries[0].is_about(bearer, digest));
        assert(rest[i - 1] == entries[i]);
        assert forall|k: int| 0 <= k < i - 1 implies !(#[trigger] rest[k]).is_about(
            bearer,
            digest,
        ) by {
            assert(rest[k] == entries[k + 1]);
        }
        token_is_refused_outside_its_window(rest, i - 1, bearer, digest, now);
    }
}

/// A token that no entry is about is refused.
pub proof fn unknown_token_is_refused(
    entries: Seq<TokenView>,
    bearer: Seq<char>,
    digest: Seq<char>,
    now: TimeView,
)
    requires
        forall|k: int| 0 <= k < entries.len() ==> !(#[trigger] entries[k]).is_about(bearer, digest),
    ensures
        known_as(entries, bearer, digest, now) == Err::<ContextView, _>("unknown token"@),
    decreases entries.len(),
{
    if entries.len() > 0 {
        let rest = entries.skip(1);
        assert(!entries[0].is_about(bearer, digest));
        assert forall|k: int| 0 <= k < rest.len() implies !(#[trigger] rest[k]).is_about(
            bearer,
            digest,
        ) by {
            assert(rest[k] == entries[k + 1]);
        }
        unknown_token_is_refused(rest, bearer, digest, now);
    }
}

} // verus!
