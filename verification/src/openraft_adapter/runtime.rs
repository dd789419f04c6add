//! What a server of a replicated cluster decides: which command answers a request, which
//! run a worker gets, which leases have expired, and what is shown to whom. Replicating
//! the commands is up to the caller.

use vstd::prelude::*;

use crate::audit::to_json_string;
use crate::cluster::{copy_texts, creation_of, entries_about, holds_text, ActiveRunView, CommandView, CreateTimerRequest, DistributedSummary, DistributedSummaryView, HistoryEntry, HistoryView, JoinRequest, NodeInfo, NodeView, PersistedActiveRun, RaftCommand, RequestView, RunCompleteRequest, RunFailRequest, TimerTarget, WorkerRegisterRequest, WorkerRun, WorkerRunView};
use crate::error::{KronError, KronErrorView};
use crate::openraft_adapter::auth::tenant_matches;
use crate::openraft_adapter::file_store::{AppView, MachineView, RaftAppState};
use crate::text::{concat, concat3, concat4, copy_option, parse_number, same};
use crate::timer::{RunId, TimerId};
use crate::timestamp::{to_rfc3339, TimeView, Timestamp};

verus! {

/// How long a poll waits for a run, in milliseconds.
pub const POLL_MS: u64 = 20_000;

/// How long a poll sleeps between two looks, in milliseconds.
pub const POLL_PAUSE_MS: u64 = 100;

/// How long a worker that says nothing is counted on, and how long it may hold a run,
/// unless the environment says otherwise.
pub const DEFAULT_LEASE_SECONDS: u64 = 30;

/// The seconds of a lease, given what the environment says about it: a positive number, or
/// else the default.
pub open spec fn lease_seconds(setting: Option<Seq<char>>) -> u64 {
    match setting {
        Some(text) => match crate::text::parsed_number(text, u64::MAX as nat) {
            Some(n) => if n > 0 {
                n as u64
            } else {
                DEFAULT_LEASE_SECONDS
            },
            None => DEFAULT_LEASE_SECONDS,
        },
        None => DEFAULT_LEASE_SECONDS,
    }
}

/// The seconds of a lease, given what the environment says about it.
pub fn worker_lease_seconds(setting: &Option<String>) -> (r: u64)
    ensures
        r == lease_seconds(setting.deep_view()),
        r > 0,
{
    match setting {
        Some(text) => match parse_number(text, u64::MAX) {
            Some(n) => if n > 0 {
                n
            } else {
                DEFAULT_LEASE_SECONDS
            },
            None => DEFAULT_LEASE_SECONDS,
        },
        None => DEFAULT_LEASE_SECONDS,
    }
}

/// The decimal digits of a text, in order.
pub open spec fn digits_in(s: Seq<char>) -> Seq<char>
    decreases s.len(),
{
    if s.len() == 0 {
        Seq::empty()
    } else {
        let front = digits_in(s.drop_last());
        if '0' <= s.last() <= '9' {
            front.push(s.last())
        } else {
            front
        }
    }
}

/// The 64-bit FNV-1 hash of bytes that mixes before it multiplies.
pub open spec fn fnv64(bytes: Seq<u8>) -> u64
    decreases bytes.len(),
{
    if bytes.len() == 0 {
        1469598103934665603
    } else {
        (fnv64(bytes.drop_last()) ^ (bytes.last() as u64)).wrapping_mul(1099511628211)
    }
}

/// The number of a node: its digits, if they make one of 64 bits, or else a hash of its
/// name.
pub open spec fn node_number(name: Seq<char>) -> u64 {
    match crate::text::parsed_number(digits_in(name), u64::MAX as nat) {
        Some(n) => n as u64,
        None => fnv64(vstd::utf8::encode_utf8(name)),
    }
}

/// The number of a node.
pub fn parse_node_id(value: &str) -> (r: u64)
    ensures
        r == node_number(value@),
{
    let v = crate::text::chars_of(value);
    let mut digits = String::new();
    let mut i: usize = 0;
    assert(value@.take(0) =~= Seq::<char>::empty());
    assert(digits@ =~= digits_in(value@.take(0)));
    while i < v.len()
        invariant
            v@ == value@,
            i <= v@.len(),
            digits@ == digits_in(value@.take(i as int)),
        decreases v@.len() - i,
    {
        proof {
            assert(value@.take(i + 1).drop_last() =~= value@.take(i as int));
            assert(value@.take(i + 1).last() == v@[i as int]);
        }
        let c = v[i];
        if '0' <= c && c <= '9' {
            digits.push(c);
        }
        i = i + 1;
    }
    assert(value@.take(i as int) =~= value@);
    if let Some(n) = parse_number(&digits, u64::MAX) {
        return n;
    }
    let bytes = value.as_bytes();
    let ghost all = vstd::utf8::encode_utf8(value@);
    let mut hash: u64 = 1469598103934665603;
    let mut k: usize = 0;
    assert(all.take(0) =~= Seq::<u8>::empty());
    while k < bytes.len()
        invariant
            bytes@ == all,
            k <= bytes@.len(),
            hash == fnv64(all.take(k as int)),
        decreases bytes@.len() - k,
    {
        assert(all.take(k + 1).drop_last() =~= all.take(k as int));
        assert(all.take(k + 1).last() == bytes@[k as int]);
        hash = (hash ^ (bytes[k] as u64)).wrapping_mul(1099511628211);
        k = k + 1;
    }
    assert(all.take(k as int) =~= all);
    hash
}

/// Where the token of a server comes from.
#[derive(Debug, PartialEq, Eq)]
pub enum TokenSource {
    /// The environment gives it.
    Given(String),
    /// It is in a file.
    InFile,
    /// There is none yet: this one is fresh.
    Fresh(String),
}

/// The token of a server, given what the environment says and whether there is a file.
pub fn server_token(setting: Option<String>, has_file: bool) -> (r: TokenSource)
    ensures
        match setting {
            Some(token) => r == TokenSource::Given(token),
            None => if has_file {
                r == TokenSource::InFile
            } else {
                r is Fresh && crate::ipc::is_secret(r->Fresh_0@)
            },
        },
{
    match setting {
        Some(token) => TokenSource::Given(token),
        None => if has_file {
            TokenSource::InFile
        } else {
            TokenSource::Fresh(crate::ipc::generate_secret_token())
        },
    }
}

/// Refuses a data directory that holds the storage of an earlier kind of server.
pub fn check_alpha_store(exists: bool) -> (r: Result<(), KronError>)
    ensures
        match r {
            Ok(_) => !exists,
            Err(error) => exists && error@ == KronErrorView::IpcUnavailable(
                "alpha cluster storage requires manual migration before starting OpenRaft"@,
            ),
        },
{
    if exists {
        Err(
            KronError::IpcUnavailable(
                "alpha cluster storage requires manual migration before starting OpenRaft".to_string(),
            ),
        )
    } else {
        Ok(())
    }
}

/// Whether a server that starts makes up a cluster of its own, given which node is to lead.
pub fn bootstraps(node_id: &str, leader_id: &Option<String>) -> (r: bool)
    ensures
        r == match leader_id {
            Some(leader) => leader@ == node_id@,
            None => true,
        },
{
    match leader_id {
        Some(leader) => same(leader, node_id),
        None => true,
    }
}

impl AppView {
    /// Whether the timer has an active run.
    pub open spec fn is_active(self, timer: Seq<char>) -> bool {
        exists|run: Seq<char>| #[trigger]
            self.active_runs.dom().contains(run) && self.active_runs[run].timer_id == timer
    }

    /// Whether a worker of the tenant that asks for the tasks can be given a run of the
    /// timer.
    pub open spec fn can_claim(
        self,
        id: Seq<char>,
        tasks: Seq<Seq<char>>,
        tenant: Option<Seq<char>>,
        now: TimeView,
    ) -> bool {
        let summary = self.timers[id];
        &&& crate::openraft_adapter::auth::tenant_covers(tenant, summary.tenant_id)
        &&& !self.is_active(summary.id)
        &&& summary.next_run_at is Some
        &&& summary.next_run_at->0.not_after(now)
        &&& summary.target is WorkerTask
        &&& tasks.contains(summary.target->task)
    }

    /// The run of the timer that a worker is given.
    pub open spec fn run_of(self, id: Seq<char>, run_id: Seq<char>) -> WorkerRunView {
        let summary = self.timers[id];
        WorkerRunView {
            timer: summary.id,
            tenant_id: summary.tenant_id,
            run_id,
            task: summary.target->task,
            payload: summary.target->payload,
            attempt: 1,
            fencing_token: (summary.fencing_token + 1) as u64,
            idempotency_key: summary.id + ":"@ + crate::timestamp::rfc3339_text(
                summary.next_run_at->0.secs,
                summary.next_run_at->0.nanos,
            ),
        }
    }

    /// Whether every token can be raised.
    pub open spec fn tokens_can_grow(self) -> bool {
        &&& forall|id: Seq<char>| #[trigger]
            self.timers.dom().contains(id) ==> self.timers[id].fencing_token < u64::MAX
        &&& forall|run: Seq<char>| #[trigger]
            self.active_runs.dom().contains(run) ==> self.active_runs[run].fencing_token < u64::MAX
    }

    /// The run that takes the place of an active run whose lease has expired, if it has an
    /// attempt left.
    pub open spec fn replacement(self, active: ActiveRunView) -> Option<WorkerRunView> {
        let timer = active.timer_id;
        if self.specs.dom().contains(timer) && active.attempt
            < self.specs[timer].retry.max_attempts && self.specs[timer].target is WorkerTask {
            Some(
                WorkerRunView {
                    timer,
                    tenant_id: self.specs[timer].tenant_id,
                    run_id: active.run_id,
                    task: self.specs[timer].target->task,
                    payload: self.specs[timer].target->payload,
                    attempt: (active.attempt + 1) as u32,
                    fencing_token: if self.timers.dom().contains(timer) {
                        (self.timers[timer].fencing_token + 1) as u64
                    } else {
                        (active.fencing_token + 1) as u64
                    },
                    idempotency_key: timer + ":lease-expired:"@ + active.run_id,
                },
            )
        } else {
            None
        }
    }

    /// The commands that end the leases that have expired, for the active runs of the
    /// given names.
    pub open spec fn expirations(self, runs: Seq<Seq<char>>, now: TimeView) -> Seq<CommandView>
        decreases runs.len(),
    {
        if runs.len() == 0 {
            Seq::empty()
        } else {
            let front = self.expirations(runs.drop_last(), now);
            let active = self.active_runs[runs.last()];
            if active.lease_deadline.not_after(now) {
                front.push(
                    CommandView::ExpireRunLease {
                        run_id: active.run_id,
                        replacement: self.replacement(active),
                        expired_at: now,
                    },
                )
            } else {
                front
            }
        }
    }

    /// Why a worker may not end a run, if it may not.
    pub open spec fn refusal(
        self,
        run_id: Seq<char>,
        worker_id: Seq<char>,
        token: u64,
        tenant: Option<Seq<char>>,
    ) -> Option<KronErrorView> {
        if !self.active_runs.dom().contains(run_id) {
            Some(KronErrorView::IpcUnavailable("run not active"@))
        } else if self.active_runs[run_id].worker_id != worker_id {
            Some(KronErrorView::IpcUnavailable("worker is not run owner"@))
        } else if self.active_runs[run_id].fencing_token != token {
            Some(KronErrorView::IpcUnavailable("stale fencing token"@))
        } else if !crate::openraft_adapter::auth::tenant_covers(
            tenant,
            self.tenant_of(self.active_runs[run_id].timer_id),
        ) {
            Some(KronErrorView::IpcUnavailable("token tenant does not match run tenant"@))
        } else {
            None
        }
    }

    /// The tenant that a timer belongs to.
    pub open spec fn tenant_of(self, timer: Seq<char>) -> Option<Seq<char>> {
        if self.specs.dom().contains(timer) {
            self.specs[timer].tenant_id
        } else {
            None
        }
    }

    /// What is shown of the timers of the given names to the tenant.
    pub open spec fn shown_to(self, tenant: Option<Seq<char>>, names: Seq<Seq<char>>) -> Seq<
        DistributedSummaryView,
    >
        decreases names.len(),
    {
        if names.len() == 0 {
            Seq::empty()
        } else {
            let front = self.shown_to(tenant, names.drop_last());
            let summary = self.timers[names.last()];
            if crate::openraft_adapter::auth::tenant_covers(tenant, summary.tenant_id) {
                front.push(summary)
            } else {
                front
            }
        }
    }

    /// The node of the number, if there is one among those of the given names.
    pub open spec fn node_of(self, names: Seq<Seq<char>>, number: u64) -> Option<NodeView>
        decreases names.len(),
    {
        if names.len() == 0 {
            None
        } else if node_number(names[0]) == number {
            Some(self.nodes[names[0]])
        } else {
            self.node_of(names.skip(1), number)
        }
    }
}

/// The entries that the tenant may see, in order.
pub open spec fn entries_for(entries: Seq<HistoryView>, tenant: Option<Seq<char>>) -> Seq<
    HistoryView,
>
    decreases entries.len(),
{
    if entries.len() == 0 {
        Seq::empty()
    } else {
        let front = entries_for(entries.drop_last(), tenant);
        if crate::openraft_adapter::auth::tenant_covers(tenant, entries.last().tenant_id) {
            front.push(entries.last())
        } else {
            front
        }
    }
}

/// A text as it is borrowed, if there is one.
fn borrowed(text: &Option<String>) -> (r: Option<&str>)
    ensures
        crate::openraft_adapter::auth::text_view(r) == text.deep_view(),
{
    match text {
        Some(t) => Some(t.as_str()),
        None => None,
    }
}

/// What a poll does next.
#[derive(Debug)]
pub enum ClaimStep {
    /// Replicate the command, and then see whether the run is the worker's.
    Claim { run: WorkerRun, command: RaftCommand },
    /// Answer that there is no run.
    Stop,
    /// Sleep for a while and look again.
    Wait { millis: u64 },
}

/// A node as it is seen from inside: its names and where it listens.
pub struct OpenRaftCluster {
    pub node_id: u64,
    pub node_name: String,
    pub http_addr: String,
    pub raft_addr: String,
    pub data_dir: String,
    pub token: String,
}

/// Who leads, as far as it is known.
#[derive(Debug, PartialEq, Eq)]
pub struct LeaderHint {
    pub leader_id: Option<String>,
    pub leader_http: Option<String>,
}

/// The JSON value that stands for a text, or for nothing.
pub open spec fn json_option(text: Option<Seq<char>>) -> Seq<char> {
    match text {
        Some(t) => crate::audit::json_string(t),
        None => "null"@,
    }
}

/// The answer of a server that does not lead.
pub open spec fn not_leader_text(
    leader_id: Option<Seq<char>>,
    leader_http: Option<Seq<char>>,
) -> Seq<char> {
    "{\"error\":\"not_leader\",\"leader_http\":"@ + json_option(leader_http) + ",\"leader_id\":"@
        + json_option(leader_id) + "}"@
}

fn json_option_of(text: &Option<String>) -> (r: String)
    ensures
        r@ == json_option(text.deep_view()),
{
    match text {
        Some(t) => to_json_string(t),
        None => "null".to_string(),
    }
}

impl LeaderHint {
    /// The answer of a server that does not lead, as the text of a JSON object.
    pub fn not_leader_response(&self) -> (r: String)
        ensures
            r@ == not_leader_text(self.leader_id.deep_view(), self.leader_http.deep_view()),
    {
        let head = concat4(
            "{\"error\":\"not_leader\",\"leader_http\":",
            &json_option_of(&self.leader_http),
            ",\"leader_id\":",
            &json_option_of(&self.leader_id),
        );
        concat(&head, "}")
    }
}

impl OpenRaftCluster {
    /// The node of the name.
    pub fn open(
        data_dir: &str,
        node_name: &str,
        http_addr: &str,
        raft_addr: &str,
        token: String,
    ) -> (r: Self)
        ensures
            r.node_id == node_number(node_name@),
            r.node_name@ == node_name@,
            r.http_addr@ == http_addr@,
            r.raft_addr@ == raft_addr@,
            r.data_dir@ == data_dir@,
            r.token == token,
    {
        OpenRaftCluster {
            node_id: parse_node_id(node_name),
            node_name: node_name.to_owned(),
            http_addr: http_addr.to_owned(),
            raft_addr: raft_addr.to_owned(),
            data_dir: data_dir.to_owned(),
            token,
        }
    }

    /// Who leads, given the number of the leader: this node, or one that has joined.
    pub open spec fn hint(self, leader: Option<u64>, app: AppView, names: Seq<Seq<char>>) -> (
        Option<Seq<char>>,
        Option<Seq<char>>,
    ) {
        match leader {
            None => (None, None),
            Some(number) => if number == self.node_id {
                (Some(self.node_name@), Some(self.http_addr@))
            } else {
                match app.node_of(names, number) {
                    Some(node) => (Some(node.node_id), Some(node.http_addr)),
                    None => (Some(crate::text::decimal(number as nat)), None),
                }
            },
        }
    }

    /// Who leads, given the number of the leader: this node, or one that has joined.
    pub fn leader_hint(&self, leader: Option<u64>, app: &RaftAppState) -> (r: LeaderHint)
        ensures
            (r.leader_id.deep_view(), r.leader_http.deep_view()) == self.hint(
                leader,
                app@,
                app.nodes.order(),
            ),
            app.nodes.ordered(),
    {
        let n: usize = app.nodes.len();
        let number: u64 = match leader {
            None => {
                return LeaderHint { leader_id: None, leader_http: None };
            },
            Some(number) => number,
        };
        if number == self.node_id {
            return LeaderHint {
                leader_id: Some(self.node_name.clone()),
                leader_http: Some(self.http_addr.clone()),
            };
        }
        let ghost order = app.nodes.order();
        let mut i: usize = 0;
        assert(order.skip(0) =~= order);
        while i < n
            invariant
                i <= n == order.len(),
                order == app.nodes.order(),
                app.nodes.ordered(),
                number != self.node_id,
                leader == Some(number),
                app@.node_of(order, number) == app@.node_of(order.skip(i as int), number),
            decreases n - i,
        {
            proof {
                assert(order.skip(i as int)[0] == order[i as int]);
                assert(order.skip(i as int).skip(1) =~= order.skip(i + 1));
            }
            if parse_node_id(app.nodes.key_at(i)) == number {
                let node = app.nodes.value_at(i);
                return LeaderHint {
                    leader_id: Some(node.node_id.clone()),
                    leader_http: Some(node.http_addr.clone()),
                };
            }
            i = i + 1;
        }
        assert(order.skip(i as int) =~= Seq::<Seq<char>>::empty());
        LeaderHint { leader_id: Some(crate::text::decimal_of(number)), leader_http: None }
    }

    /// Refuses what only the leader may do, given whether this node has just made sure
    /// that it leads.
    pub fn ensure_leader(&self, leads: bool, leader: Option<u64>, app: &RaftAppState) -> (r: Result<
        (),
        KronError,
    >)
        ensures
            match r {
                Ok(_) => leads,
                Err(error) => !leads && app.nodes.ordered() && error@ == KronErrorView::IpcUnavailable(
                    ({
                        let hint = self.hint(leader, app@, app.nodes.order());
                        not_leader_text(hint.0, hint.1)
                    }),
                ),
            },
    {
        if leads {
            Ok(())
        } else {
            Err(
                KronError::IpcUnavailable(self.leader_hint(leader, app).not_leader_response()),
            )
        }
    }
}

/// The request as it counts for a tenant: it is about the tenant, and not about another.
pub open spec fn scoped(request: RequestView, tenant: Option<Seq<char>>) -> Result<
    RequestView,
    KronErrorView,
> {
    match tenant {
        None => Ok(request),
        Some(scope) => if request.tenant_id is Some && request.tenant_id->0 != scope {
            Err(
                KronErrorView::IpcUnavailable("token tenant does not match requested tenant"@),
            )
        } else {
            Ok(RequestView { tenant_id: Some(scope), ..request })
        },
    }
}

/// The command that creates the timer that a tenant asks for, or why there is none.
pub open spec fn creation_for(
    request: RequestView,
    tenant: Option<Seq<char>>,
    now: TimeView,
) -> Result<CommandView, KronErrorView> {
    match scoped(request, tenant) {
        Ok(own) => own.creation(now),
        Err(error) => Err(error),
    }
}

/// The command that creates the timer that a tenant asks for.
pub fn create_timer(request: CreateTimerRequest, tenant_id: Option<String>, now: Timestamp) -> (r:
    Result<RaftCommand, KronError>)
    requires
        scoped(request@, tenant_id.deep_view()) is Ok ==> request@.can_create(now@),
    ensures
        crate::cluster::command_view(r) == creation_for(request@, tenant_id.deep_view(), now@),
{
    let mut own = request;
    if let Some(scope) = tenant_id {
        if let Some(asked) = &own.tenant_id {
            if !same(asked, &scope) {
                return Err(
                    KronError::IpcUnavailable(
                        "token tenant does not match requested tenant".to_string(),
                    ),
                );
            }
        }
        own.tenant_id = Some(scope);
    }
    creation_of(&own, now)
}

/// The timer that was created, once the command that creates it is replicated.
pub fn created_timer(app: &RaftAppState, name: &str) -> (r: Result<DistributedSummary, KronError>)
    ensures
        match r {
            Ok(summary) => app@.timers.dom().contains(name@) && summary@ == app@.timers[name@],
            Err(error) => !app@.timers.dom().contains(name@) && error@
                == KronErrorView::IpcUnavailable("timer was not applied"@),
        },
{
    match app.timers.get(name) {
        Some(summary) => Ok(summary.clone()),
        None => Err(KronError::IpcUnavailable("timer was not applied".to_string())),
    }
}

/// What is shown of the timers to a tenant, in the order of their names.
pub fn list_for_tenant(app: &RaftAppState, tenant_id: Option<&str>) -> (r: Vec<DistributedSummary>)
    ensures
        r.deep_view() == app@.shown_to(
            crate::openraft_adapter::auth::text_view(tenant_id),
            app.timers.order(),
        ),
        crate::strmap::sorted(app.timers.order()),
        forall|k: Seq<char>| #[trigger]
            app@.timers.dom().contains(k) <==> app.timers.order().contains(k),
{
    let n: usize = app.timers.len();
    let ghost order = app.timers.order();
    let ghost tenant = crate::openraft_adapter::auth::text_view(tenant_id);
    let mut out: Vec<DistributedSummary> = Vec::new();
    let mut i: usize = 0;
    assert(order.take(0) =~= Seq::<Seq<char>>::empty());
    assert(out.deep_view() =~= app@.shown_to(tenant, order.take(0)));
    while i < n
        invariant
            i <= n == order.len(),
            order == app.timers.order(),
            tenant == crate::openraft_adapter::auth::text_view(tenant_id),
            out.deep_view() == app@.shown_to(tenant, order.take(i as int)),
        decreases n - i,
    {
        let ghost front = out.deep_view();
        proof {
            assert(order.take(i + 1).drop_last() =~= order.take(i as int));
            assert(order.take(i + 1).last() == order[i as int]);
        }
        let summary = app.timers.value_at(i);
        if tenant_matches(tenant_id, borrowed(&summary.tenant_id)) {
            out.push(summary.clone());
            assert(out.deep_view() =~= front.push(summary@));
        }
        i = i + 1;
    }
    assert(order.take(n as int) =~= order);
    out
}

/// What is shown of the timers, in the order of their names.
pub fn list(app: &RaftAppState) -> (r: Vec<DistributedSummary>)
    ensures
        r.deep_view() == app@.shown_to(None, app.timers.order()),
        crate::strmap::sorted(app.timers.order()),
        forall|k: Seq<char>| #[trigger]
            app@.timers.dom().contains(k) <==> app.timers.order().contains(k),
{
    list_for_tenant(app, None)
}

/// What is shown of a timer.
pub fn status(app: &RaftAppState, name: &str) -> (r: Option<DistributedSummary>)
    ensures
        r.deep_view() == crate::state::found(app@.timers, name@),
{
    match app.timers.get(name) {
        Some(summary) => Some(summary.clone()),
        None => None,
    }
}

/// What is shown of a timer to a tenant.
pub fn status_for_tenant(app: &RaftAppState, name: &str, tenant_id: Option<&str>) -> (r: Option<
    DistributedSummary,
>)
    ensures
        r.deep_view() == if app@.timers.dom().contains(name@)
            && crate::openraft_adapter::auth::tenant_covers(
            crate::openraft_adapter::auth::text_view(tenant_id),
            app@.timers[name@].tenant_id,
        ) {
            Some(app@.timers[name@])
        } else {
            None
        },
{
    match app.timers.get(name) {
        Some(summary) => if tenant_matches(tenant_id, borrowed(&summary.tenant_id)) {
            Some(summary.clone())
        } else {
            None
        },
        None => None,
    }
}

/// The entries of the history about a timer, oldest first.
pub fn history(app: &RaftAppState, name: &str) -> (r: Vec<HistoryEntry>)
    ensures
        r.deep_view() == crate::cluster::history_of(app@.history, name@),
{
    entries_about(&app.history, name)
}

/// The entries of the history about a timer that a tenant may see, oldest first.
pub fn history_for_tenant(app: &RaftAppState, name: &str, tenant_id: Option<&str>) -> (r: Vec<
    HistoryEntry,
>)
    ensures
        r.deep_view() == entries_for(
            crate::cluster::history_of(app@.history, name@),
            crate::openraft_adapter::auth::text_view(tenant_id),
        ),
{
    let entries = entries_about(&app.history, name);
    let ghost all = entries.deep_view();
    let ghost tenant = crate::openraft_adapter::auth::text_view(tenant_id);
    let mut out: Vec<HistoryEntry> = Vec::new();
    let mut i: usize = 0;
    assert(all.take(0) =~= Seq::<HistoryView>::empty());
    assert(out.deep_view() =~= entries_for(all.take(0), tenant));
    while i < entries.len()
        invariant
            i <= entries@.len(),
            all == entries.deep_view(),
            tenant == crate::openraft_adapter::auth::text_view(tenant_id),
            out.deep_view() == entries_for(all.take(i as int), tenant),
        decreases entries@.len() - i,
    {
        let ghost front = out.deep_view();
        proof {
            assert(all.take(i + 1).drop_last() =~= all.take(i as int));
            assert(all.take(i + 1).last() == entries@[i as int]@);
        }
        if tenant_matches(tenant_id, borrowed(&entries[i].tenant_id)) {
            out.push(entries[i].clone());
            assert(out.deep_view() =~= front.push(entries@[i as int]@));
        }
        i = i + 1;
    }
    assert(all.take(all.len() as int) =~= all);
    out
}

/// The command that registers a worker, for the lease that it asks for or the usual one.
pub fn register_worker(request: &WorkerRegisterRequest, lease_seconds: u64, now: Timestamp) -> (r:
    RaftCommand)
    requires
        now@.can_add(
            (match request.lease_seconds {
                    Some(n) => n,
                    None => lease_seconds,
                }) as int,
        ),
    ensures
        r@ == (CommandView::RegisterWorker {
            worker_id: request.worker_id@,
            tasks: request.tasks.deep_view(),
            lease_until: now@.plus(
                (match request.lease_seconds {
                        Some(n) => n,
                        None => lease_seconds,
                    }) as int,
            ),
        }),
{
    let seconds: u64 = match request.lease_seconds {
        Some(n) => n,
        None => lease_seconds,
    };
    let lease_until = match now.plus_seconds(seconds) {
        Some(t) => t,
        None => now,
    };
    RaftCommand::RegisterWorker {
        worker_id: request.worker_id.clone(),
        tasks: copy_texts(&request.tasks),
        lease_until,
    }
}

/// The command that notes that a worker was heard of.
pub fn heartbeat_worker(worker_id: &str, lease_seconds: u64, now: Timestamp) -> (r: RaftCommand)
    requires
        now@.can_add(lease_seconds as int),
    ensures
        r@ == (CommandView::HeartbeatWorker {
            worker_id: worker_id@,
            lease_until: now@.plus(lease_seconds as int),
        }),
{
    let lease_until = match now.plus_seconds(lease_seconds) {
        Some(t) => t,
        None => now,
    };
    RaftCommand::HeartbeatWorker { worker_id: worker_id.to_owned(), lease_until }
}

/// Whether the timer has an active run.
fn is_active(app: &RaftAppState, timer: &str) -> (r: bool)
    ensures
        r == app@.is_active(timer@),
{
    let n: usize = app.active_runs.len();
    let ghost order = app.active_runs.order();
    let mut i: usize = 0;
    while i < n
        invariant
            n == order.len(),
            order == app.active_runs.order(),
            i <= n,
            forall|run: Seq<char>| #[trigger]
                app@.active_runs.dom().contains(run) <==> order.contains(run),
            forall|k: int| 0 <= k < i ==> app@.active_runs[#[trigger] order[k]].timer_id != timer@,
        decreases n - i,
    {
        let run = app.active_runs.value_at(i);
        if same(run.timer_id.as_str(), timer) {
            assert(app@.active_runs.dom().contains(order[i as int]));
            return true;
        }
        i = i + 1;
    }
    proof {
        if app@.is_active(timer@) {
            let run = choose|run: Seq<char>| #[trigger]
                app@.active_runs.dom().contains(run) && app@.active_runs[run].timer_id == timer@;
            assert(order.contains(run));
            assert(order[order.index_of(run)] == run);
        }
    }
    false
}

/// The command that claims the run for the worker.
pub open spec fn claim_of(run: WorkerRunView, worker_id: Seq<char>, deadline: TimeView) -> CommandView {
    CommandView::ClaimRun {
        timer_id: run.timer,
        run_id: run.run_id,
        worker_id,
        fencing_token: run.fencing_token,
        attempt: run.attempt,
        lease_deadline: deadline,
    }
}

/// Whether the worker is given a run of the timer at the position: it can be, and none of
/// a timer before.
pub open spec fn first_claim(
    app: AppView,
    names: Seq<Seq<char>>,
    at: int,
    tasks: Seq<Seq<char>>,
    tenant: Option<Seq<char>>,
    now: TimeView,
) -> bool {
    &&& 0 <= at < names.len()
    &&& app.can_claim(names[at], tasks, tenant, now)
    &&& no_claim(app, names.take(at), tasks, tenant, now)
}

/// Whether the worker can be given a run of none of the timers.
pub open spec fn no_claim(
    app: AppView,
    names: Seq<Seq<char>>,
    tasks: Seq<Seq<char>>,
    tenant: Option<Seq<char>>,
    now: TimeView,
) -> bool {
    forall|k: int| 0 <= k < names.len() ==> !app.can_claim(#[trigger] names[k], tasks, tenant, now)
}

/// Whether every token can be raised. Each can, unless it is the largest number.
pub fn tokens_fit(app: &RaftAppState) -> (r: bool)
    ensures
        r == app@.tokens_can_grow(),
{
    let mut i: usize = 0;
    while i < app.timers.len()
        invariant
            i <= app.timers.order().len(),
            forall|k: int|
                0 <= k < i ==> app@.timers[#[trigger] app.timers.order()[k]].fencing_token
                    < u64::MAX,
        decreases app.timers.order().len() - i,
    {
        if app.timers.value_at(i).fencing_token == u64::MAX {
            assert(app@.timers.dom().contains(app.timers.order()[i as int]));
            return false;
        }
        i = i + 1;
    }
    assert forall|id: Seq<char>| #[trigger] app@.timers.dom().contains(id) implies
        app@.timers[id].fencing_token < u64::MAX by {
        assert(app.timers.order().contains(id));
    }
    let mut k: usize = 0;
    while k < app.active_runs.len()
        invariant
            k <= app.active_runs.order().len(),
            forall|j: int|
                0 <= j < k ==> app@.active_runs[#[trigger] app.active_runs.order()[j]].fencing_token
                    < u64::MAX,
        decreases app.active_runs.order().len() - k,
    {
        if app.active_runs.value_at(k).fencing_token == u64::MAX {
            assert(app@.active_runs.dom().contains(app.active_runs.order()[k as int]));
            return false;
        }
        k = k + 1;
    }
    assert forall|run: Seq<char>| #[trigger] app@.active_runs.dom().contains(run) implies
        app@.active_runs[run].fencing_token < u64::MAX by {
        assert(app.active_runs.order().contains(run));
    }
    true
}

/// The run that a worker is given, under the given name: one of the first timer, in the
/// order of the names, that is due, has no active run, belongs to the tenant and is for one
/// of the tasks.
pub fn find_claim(
    app: &RaftAppState,
    tasks: &Vec<String>,
    tenant_id: Option<&str>,
    fresh: &RunId,
    now: Timestamp,
) -> (r: Option<WorkerRun>)
    requires
        app@.tokens_can_grow(),
    ensures
        app.timers.ordered(),
        match r {
            Some(run) => exists|at: int| #[trigger]
                first_claim(
                    app@,
                    app.timers.order(),
                    at,
                    tasks.deep_view(),
                    crate::openraft_adapter::auth::text_view(tenant_id),
                    now@,
                ) && run@ == app@.run_of(app.timers.order()[at], fresh@),
            None => no_claim(
                app@,
                app.timers.order(),
                tasks.deep_view(),
                crate::openraft_adapter::auth::text_view(tenant_id),
                now@,
            ),
        },
{
    let n: usize = app.timers.len();
    let ghost order = app.timers.order();
    let ghost tenant = crate::openraft_adapter::auth::text_view(tenant_id);
    let ghost wanted = tasks.deep_view();
    let mut i: usize = 0;
    while i < n
        invariant
            i <= n == order.len(),
            order == app.timers.order(),
            app.timers.ordered(),
            tenant == crate::openraft_adapter::auth::text_view(tenant_id),
            wanted == tasks.deep_view(),
            app@.tokens_can_grow(),
            forall|k: int|
                0 <= k < i ==> !app@.can_claim(#[trigger] order[k], wanted, tenant, now@),
        decreases n - i,
    {
        let summary = app.timers.value_at(i);
        let due = match &summary.next_run_at {
            Some(at) => at.not_after(&now),
            None => false,
        };
        if due && tenant_matches(tenant_id, borrowed(&summary.tenant_id)) && !is_active(
            app,
            &summary.id,
        ) {
            if let TimerTarget::WorkerTask { task, payload } = &summary.target {
                if holds_text(tasks, task) {
                    let at = match &summary.next_run_at {
                        Some(at) => to_rfc3339(*at),
                        None => String::new(),
                    };
                    let run = WorkerRun {
                        timer: summary.id.clone(),
                        tenant_id: copy_option(&summary.tenant_id),
                        run_id: fresh.0.clone(),
                        task: task.clone(),
                        payload: payload.clone(),
                        attempt: 1,
                        fencing_token: summary.fencing_token + 1,
                        idempotency_key: concat3(&summary.id, ":", &at),
                    };
                    proof {
                        assert forall|k: int| 0 <= k < order.take(i as int).len() implies !app@.can_claim(
                            #[trigger] order.take(i as int)[k],
                            wanted,
                            tenant,
                            now@,
                        ) by {
                            assert(order.take(i as int)[k] == order[k]);
                        }
                        assert(first_claim(app@, order, i as int, wanted, tenant, now@));
                        assert(run@ == app@.run_of(order[i as int], fresh@));
                    }
                    return Some(run);
                }
            }
        }
        i = i + 1;
    }
    None
}

/// The command that claims a run for a worker.
pub fn claim_command(run: &WorkerRun, worker_id: &str, lease_seconds: u64, now: Timestamp) -> (r:
    RaftCommand)
    requires
        now@.can_add(lease_seconds as int),
    ensures
        r@ == claim_of(run@, worker_id@, now@.plus(lease_seconds as int)),
{
    let lease_deadline = match now.plus_seconds(lease_seconds) {
        Some(t) => t,
        None => now,
    };
    RaftCommand::ClaimRun {
        timer_id: TimerId::new(&run.timer),
        run_id: RunId(run.run_id.clone()),
        worker_id: worker_id.to_owned(),
        fencing_token: run.fencing_token,
        attempt: run.attempt,
        lease_deadline,
    }
}

/// Tries to find a run for a worker, under a fresh name: the run, and the command that
/// claims it.
pub fn try_claim(
    app: &RaftAppState,
    worker_id: &str,
    tasks: &Vec<String>,
    tenant_id: Option<&str>,
    lease_seconds: u64,
    now: Timestamp,
) -> (r: Option<(WorkerRun, RaftCommand)>)
    requires
        app@.tokens_can_grow(),
        now@.can_add(lease_seconds as int),
    ensures
        app.timers.ordered(),
        match r {
            Some((run, command)) => {
                &&& exists|at: int, fresh: Seq<char>|
                    #![trigger app@.run_of(app.timers.order()[at], fresh)]
                    first_claim(
                        app@,
                        app.timers.order(),
                        at,
                        tasks.deep_view(),
                        crate::openraft_adapter::auth::text_view(tenant_id),
                        now@,
                    ) && crate::cluster_engine::is_run_name(fresh) && run@ == app@.run_of(
                        app.timers.order()[at],
                        fresh,
                    )
                &&& command@ == claim_of(
                    run@,
                    worker_id@,
                    now@.plus(lease_seconds as int),
                )
            },
            None => no_claim(
                app@,
                app.timers.order(),
                tasks.deep_view(),
                crate::openraft_adapter::auth::text_view(tenant_id),
                now@,
            ),
        },
{
    let fresh = RunId::new();
    assert(crate::cluster_engine::is_run_name(fresh@));
    match find_claim(app, tasks, tenant_id, &fresh, now) {
        Some(run) => {
            let command = claim_command(&run, worker_id, lease_seconds, now);
            Some((run, command))
        },
        None => None,
    }
}

/// What a poll that waits until the deadline does next, on a clock that only goes forward.
pub fn poll_step(
    claim: Option<(WorkerRun, RaftCommand)>,
    tick: u64,
    deadline: u64,
    shutting_down: bool,
) -> (r: ClaimStep)
    ensures
        match claim {
            Some((run, command)) => r == (ClaimStep::Claim { run, command }),
            None => if tick >= deadline || shutting_down {
                r == ClaimStep::Stop
            } else {
                r == (ClaimStep::Wait { millis: POLL_PAUSE_MS })
            },
        },
{
    match claim {
        Some((run, command)) => ClaimStep::Claim { run, command },
        None => if tick >= deadline || shutting_down {
            ClaimStep::Stop
        } else {
            ClaimStep::Wait { millis: POLL_PAUSE_MS }
        },
    }
}

/// Whether the run is the worker's once the command that claims it is replicated.
pub fn still_owner(app: &RaftAppState, run: &WorkerRun, worker_id: &str) -> (r: bool)
    ensures
        r == (app@.active_runs.dom().contains(run@.run_id)
            && app@.active_runs[run@.run_id].worker_id == worker_id@
            && app@.active_runs[run@.run_id].fencing_token == run@.fencing_token),
{
    match app.active_runs.get(&run.run_id) {
        Some(active) => same(&active.worker_id, worker_id) && active.fencing_token
            == run.fencing_token,
        None => false,
    }
}

/// Whether a worker of the tenant may end a run; if not, the reason.
pub fn validate_active_run(
    app: &RaftAppState,
    run_id: &str,
    worker_id: &str,
    fencing_token: u64,
    tenant_id: Option<&str>,
) -> (r: Result<(), KronError>)
    ensures
        match r {
            Ok(_) => app@.refusal(
                run_id@,
                worker_id@,
                fencing_token,
                crate::openraft_adapter::auth::text_view(tenant_id),
            ) is None,
            Err(error) => app@.refusal(
                run_id@,
                worker_id@,
                fencing_token,
                crate::openraft_adapter::auth::text_view(tenant_id),
            ) == Some(error@),
        },
{
    let active = match app.active_runs.get(run_id) {
        Some(active) => active,
        None => {
            return Err(KronError::IpcUnavailable("run not active".to_string()));
        },
    };
    if !same(&active.worker_id, worker_id) {
        return Err(KronError::IpcUnavailable("worker is not run owner".to_string()));
    }
    if active.fencing_token != fencing_token {
        return Err(KronError::IpcUnavailable("stale fencing token".to_string()));
    }
    let run_tenant = match app.specs.get(active.timer_id.as_str()) {
        Some(spec) => borrowed(&spec.tenant_id),
        None => None,
    };
    if !tenant_matches(tenant_id, run_tenant) {
        return Err(
            KronError::IpcUnavailable("token tenant does not match run tenant".to_string()),
        );
    }
    Ok(())
}

/// The command that completes a run for a worker of the tenant.
pub fn complete_run(
    app: &RaftAppState,
    run_id: &str,
    request: &RunCompleteRequest,
    tenant_id: Option<&str>,
    now: Timestamp,
) -> (r: Result<RaftCommand, KronError>)
    ensures
        crate::cluster::command_view(r) == match app@.refusal(
            run_id@,
            request.worker_id@,
            request.fencing_token,
            crate::openraft_adapter::auth::text_view(tenant_id),
        ) {
            Some(error) => Err(error),
            None => Ok(
                CommandView::CompleteRun {
                    run_id: run_id@,
                    worker_id: request.worker_id@,
                    fencing_token: request.fencing_token,
                    completed_at: now@,
                },
            ),
        },
{
    match validate_active_run(app, run_id, &request.worker_id, request.fencing_token, tenant_id) {
        Err(error) => Err(error),
        Ok(_) => Ok(
            RaftCommand::CompleteRun {
                run_id: RunId(run_id.to_owned()),
                worker_id: request.worker_id.clone(),
                fencing_token: request.fencing_token,
                completed_at: now,
            },
        ),
    }
}

/// The command that fails a run for a worker of the tenant.
pub fn fail_run(
    app: &RaftAppState,
    run_id: &str,
    request: &RunFailRequest,
    tenant_id: Option<&str>,
    now: Timestamp,
) -> (r: Result<RaftCommand, KronError>)
    ensures
        crate::cluster::command_view(r) == match app@.refusal(
            run_id@,
            request.worker_id@,
            request.fencing_token,
            crate::openraft_adapter::auth::text_view(tenant_id),
        ) {
            Some(error) => Err(error),
            None => Ok(
                CommandView::FailRun {
                    run_id: run_id@,
                    worker_id: request.worker_id@,
                    fencing_token: request.fencing_token,
                    error: request.error@,
                    failed_at: now@,
                },
            ),
        },
{
    match validate_active_run(app, run_id, &request.worker_id, request.fencing_token, tenant_id) {
        Err(error) => Err(error),
        Ok(_) => Ok(
            RaftCommand::FailRun {
                run_id: RunId(run_id.to_owned()),
                worker_id: request.worker_id.clone(),
                fencing_token: request.fencing_token,
                error: request.error.clone(),
                failed_at: now,
            },
        ),
    }
}

/// The run that takes the place of an active run whose lease has expired.
fn replacement_of(app: &RaftAppState, active: &PersistedActiveRun) -> (r: Option<WorkerRun>)
    requires
        app@.tokens_can_grow(),
        active.fencing_token < u64::MAX,
    ensures
        r.deep_view() == app@.replacement(active@),
{
    let timer = active.timer_id.as_str();
    let spec = match app.specs.get(timer) {
        Some(spec) => spec,
        None => {
            return None;
        },
    };
    if active.attempt >= spec.retry.max_attempts {
        return None;
    }
    match &spec.target {
        TimerTarget::WorkerTask { task, payload } => {
            let fencing_token: u64 = match app.timers.get(timer) {
                Some(summary) => summary.fencing_token + 1,
                None => active.fencing_token + 1,
            };
            Some(
                WorkerRun {
                    timer: timer.to_owned(),
                    tenant_id: copy_option(&spec.tenant_id),
                    run_id: active.run_id.0.clone(),
                    task: task.clone(),
                    payload: payload.clone(),
                    attempt: active.attempt + 1,
                    fencing_token,
                    idempotency_key: concat3(timer, ":lease-expired:", &active.run_id.0),
                },
            )
        },
        _ => None,
    }
}

/// The commands that end the leases that have expired, in the order of the names of the
/// runs.
pub fn expire_active_leases(app: &RaftAppState, now: Timestamp) -> (r: Vec<RaftCommand>)
    requires
        app@.tokens_can_grow(),
    ensures
        r.deep_view() == app@.expirations(app.active_runs.order(), now@),
        crate::strmap::sorted(app.active_runs.order()),
        forall|k: Seq<char>| #[trigger]
            app@.active_runs.dom().contains(k) <==> app.active_runs.order().contains(k),
{
    let n: usize = app.active_runs.len();
    let ghost order = app.active_runs.order();
    let mut out: Vec<RaftCommand> = Vec::new();
    let mut i: usize = 0;
    assert(order.take(0) =~= Seq::<Seq<char>>::empty());
    assert(out.deep_view() =~= app@.expirations(order.take(0), now@));
    while i < n
        invariant
            i <= n == order.len(),
            order == app.active_runs.order(),
            app@.tokens_can_grow(),
            out.deep_view() == app@.expirations(order.take(i as int), now@),
        decreases n - i,
    {
        let ghost front = out.deep_view();
        proof {
            assert(order.take(i + 1).drop_last() =~= order.take(i as int));
            assert(order.take(i + 1).last() == order[i as int]);
        }
        let active = app.active_runs.value_at(i);
        if active.lease_deadline.not_after(&now) {
            let command = RaftCommand::ExpireRunLease {
                run_id: active.run_id.clone(),
                replacement: replacement_of(app, active),
                expired_at: now,
            };
            let ghost added = command@;
            out.push(command);
            assert(out.deep_view() =~= front.push(added));
        }
        i = i + 1;
    }
    assert(order.take(n as int) =~= order);
    out
}

/// The command that makes known where a node that joins listens.
pub fn join(request: &JoinRequest) -> (r: RaftCommand)
    ensures
        r@ == (CommandView::AddNode {
            node: NodeView {
                node_id: request.node_id@,
                http_addr: request.http_addr@,
                raft_addr: request.raft_addr@,
            },
        }),
{
    RaftCommand::AddNode {
        node: NodeInfo {
            node_id: request.node_id.clone(),
            http_addr: request.http_addr.clone(),
            raft_addr: request.raft_addr.clone(),
        },
    }
}

/// The voters once a node has left.
pub fn voters_without(voters: &Vec<u64>, id: u64) -> (r: Vec<u64>)
    ensures
        r@ == voters@.filter(|v: u64| v != id),
{
    let mut out: Vec<u64> = Vec::new();
    let ghost stays = |v: u64| v != id;
    let mut i: usize = 0;
    assert(voters@.take(0).filter(stays) =~= Seq::<u64>::empty()) by {
        reveal(Seq::filter);
    }
    while i < voters.len()
        invariant
            i <= voters@.len(),
            stays == (|v: u64| v != id),
            out@ == voters@.take(i as int).filter(stays),
        decreases voters@.len() - i,
    {
        proof {
            reveal(Seq::filter);
            assert(voters@.take(i + 1).drop_last() =~= voters@.take(i as int));
        }
        if voters[i] != id {
            out.push(voters[i]);
        }
        i = i + 1;
    }
    assert(voters@.take(voters@.len() as int) =~= voters@);
    out
}

/// What is shown to a tenant belongs to it.
pub proof fn tenant_sees_its_own(
    app: AppView,
    tenant: Option<Seq<char>>,
    names: Seq<Seq<char>>,
    i: int,
)
    requires
        0 <= i < app.shown_to(tenant, names).len(),
    ensures
        crate::openraft_adapter::auth::tenant_covers(
            tenant,
            app.shown_to(tenant, names)[i].tenant_id,
        ),
    decreases names.len(),
{
    if i < app.shown_to(tenant, names.drop_last()).len() {
        tenant_sees_its_own(app, tenant, names.drop_last(), i);
    }
}

/// A timer that a tenant creates belongs to the tenant.
pub proof fn created_timer_is_of_the_tenant(
    request: RequestView,
    tenant: Seq<char>,
    now: TimeView,
)
    ensures
        creation_for(request, Some(tenant), now) matches Ok(command) ==> command is CreateTimer
            && command->CreateTimer_spec.tenant_id == Some(tenant),
        request.tenant_id is Some && request.tenant_id->0 != tenant ==> creation_for(
            request,
            Some(tenant),
            now,
        ) is Err,
{
}

/// The run that a worker is given belongs to its tenant, is for one of the tasks that it
/// asks for, is due, and carries a higher token than any run of the timer before.
pub proof fn claim_is_for_the_worker(
    app: AppView,
    names: Seq<Seq<char>>,
    at: int,
    tasks: Seq<Seq<char>>,
    tenant: Option<Seq<char>>,
    fresh: Seq<char>,
    now: TimeView,
)
    requires
        first_claim(app, names, at, tasks, tenant, now),
        app.timers[names[at]].fencing_token < u64::MAX,
    ensures
        ({
            let run = app.run_of(names[at], fresh);
            &&& crate::openraft_adapter::auth::tenant_covers(tenant, run.tenant_id)
            &&& tasks.contains(run.task)
            &&& app.timers[names[at]].next_run_at->0.not_after(now)
            &&& run.fencing_token > app.timers[names[at]].fencing_token
            &&& run.run_id == fresh
        }),
{
}

/// Once the claim of a run of a timer without an active run is applied, the worker may end
/// the run, if it is of the same tenant, and no other worker may.
pub proof fn applied_claim_makes_the_owner(
    machine: MachineView,
    run: WorkerRunView,
    worker_id: Seq<char>,
    deadline: TimeView,
    tenant: Option<Seq<char>>,
    other: Seq<char>,
    token: u64,
)
    requires
        !machine.is_active(run.timer),
        crate::openraft_adapter::auth::tenant_covers(
            tenant,
            machine.app_state().tenant_of(run.timer),
        ),
        other != worker_id || token != run.fencing_token,
    ensures
        ({
            let app = machine.apply(claim_of(run, worker_id, deadline)).app_state();
            &&& app.refusal(run.run_id, worker_id, run.fencing_token, tenant) is None
            &&& app.refusal(run.run_id, other, token, tenant) is Some
            &&& app.is_active(run.timer)
        }),
{
    let after = machine.apply(claim_of(run, worker_id, deadline));
    let app = after.app_state();
    assert(app.active_runs.dom().contains(run.run_id));
    assert(app.active_runs[run.run_id].timer_id == run.timer);
    assert(app.tenant_of(run.timer) == machine.app_state().tenant_of(run.timer));
}

/// While a run of a timer is active, no worker is given another one.
pub proof fn active_timer_gives_no_claim(
    app: AppView,
    id: Seq<char>,
    tasks: Seq<Seq<char>>,
    tenant: Option<Seq<char>>,
    now: TimeView,
)
    requires
        app.timers[id].id == id,
        app.is_active(id),
    ensures
        !app.can_claim(id, tasks, tenant, now),
{
}

/// Every lease that has expired is ended by a command.
pub proof fn expired_leases_are_ended(
    app: AppView,
    runs: Seq<Seq<char>>,
    now: TimeView,
    i: int,
)
    requires
        0 <= i < runs.len(),
        app.active_runs[runs[i]].lease_deadline.not_after(now),
    ensures
        app.expirations(runs, now).contains(
            CommandView::ExpireRunLease {
                run_id: app.active_runs[runs[i]].run_id,
                replacement: app.replacement(app.active_runs[runs[i]]),
                expired_at: now,
            },
        ),
    decreases runs.len(),
{
    let all = app.expirations(runs, now);
    let front = app.expirations(runs.drop_last(), now);
    let command = CommandView::ExpireRunLease {
        run_id: app.active_runs[runs[i]].run_id,
        replacement: app.replacement(app.active_runs[runs[i]]),
        expired_at: now,
    };
    if i == runs.len() - 1 {
        assert(all[all.len() - 1] == command);
    } else {
        assert(runs.drop_last()[i] == runs[i]);
        expired_leases_are_ended(app, runs.drop_last(), now, i);
        let k = front.index_of(command);
        assert(all[k] == command);
    }
}

} // verus!
