//! Who may do what: tokens, roles and tenants.

use vstd::prelude::*;

use crate::engine::Engine;
use crate::ipc::{IpcRequest, RuntimeInfo};
use crate::openraft_adapter::auth::{Action, AuthRole, ContextView, TokenFile, TokenView};
use crate::timestamp::TimeView;

verus! {

/// An admin may do everything. A reader may look, an operator may also create timers, a
/// worker may do what workers do, and a node may do what nodes do; none of these may do
/// anything else.
pub proof fn roles_allow_what_they_are_for(action: Action)
    ensures
        ({
            let looks = action is ListTimers || action is TimerStatus || action is TimerHistory
                || action is ClusterStatus;
            let works = action is RegisterWorker || action is HeartbeatWorker || action
                is PollWorker || action is CompleteRun || action is FailRun;
            let replicates = action is AppendEntries || action is Vote || action is InstallSnapshot;
            let required = action.required();
            &&& AuthRole::Admin.covers(required)
            &&& AuthRole::Reader.covers(required) <==> looks
            &&& AuthRole::Operator.covers(required) <==> looks || action is CreateTimer
            &&& AuthRole::Worker.covers(required) <==> works
            &&& AuthRole::Raft.covers(required) <==> replicates
        }),
{
}

/// A resource is open to who is of no tenant, to who is of all tenants, and to its own
/// tenant; to no one else.
pub proof fn resource_is_open_to_its_tenant(
    request: Option<Seq<char>>,
    resource: Option<Seq<char>>,
)
    ensures
        crate::openraft_adapter::auth::tenant_covers(request, resource) <==> request is None || (
        request->0 == "*"@) || (resource is Some && resource->0 == request->0),
{
}

/// A token entry is in order exactly if it has a token or a digest and not both, and the
/// digest is one of 64 hexadecimal digits.
pub proof fn token_entry_is_in_order(entry: TokenView)
    ensures
        entry.fault() is None <==> {
            ||| entry.token is Some && entry.token_sha256 is None
            ||| {
                &&& entry.token is None
                &&& entry.token_sha256 is Some
                &&& entry.token_sha256->0.len() == 64
                &&& forall|i: int|
                    0 <= i < 64 ==> {
                        let c = #[trigger] entry.token_sha256->0[i];
                        '0' <= c <= '9' || 'a' <= c <= 'f' || 'A' <= c <= 'F'
                    }
            }
        },
{
}

/// A token entry is about who shows its token or, where it has a digest, a token of that
/// digest, in whatever case the digest is written.
pub proof fn token_entry_is_about_its_bearer(
    entry: TokenView,
    bearer: Seq<char>,
    digest: Seq<char>,
)
    ensures
        entry.token is Some ==> (entry.is_about(bearer, digest) <==> entry.token->0 == bearer),
        entry.token is None && entry.token_sha256 is Some ==> (entry.is_about(bearer, digest)
            <==> crate::text::lowered(entry.token_sha256->0) == digest),
        entry.token is None && entry.token_sha256 is None ==> !entry.is_about(bearer, digest),
{
}

/// A token gives the name, the role and the tenant of its entry from the time on at which it
/// becomes active, and up to, but not at, the time at which it expires.
pub proof fn token_counts_within_its_window(entry: TokenView, now: TimeView)
    ensures
        ({
            let context = entry.context_at(now);
            let begun = entry.not_before is None || !now.before(entry.not_before->0);
            let over = entry.expires_at is Some && !now.before(entry.expires_at->0);
            &&& context is Ok <==> begun && !over
            &&& context is Ok ==> context->Ok_0.actor == entry.name && context->Ok_0.role
                == entry.role && context->Ok_0.tenant_id == entry.tenant_id
            &&& !begun ==> context == Err::<ContextView, _>("token is not active yet"@)
            &&& begun && over ==> context == Err::<ContextView, _>("token has expired"@)
        }),
{
}

/// The first entry that is about a bearer decides.
pub proof fn first_entry_decides(
    entries: Seq<TokenView>,
    i: int,
    bearer: Seq<char>,
    digest: Seq<char>,
    now: TimeView,
)
    requires
        0 <= i < entries.len(),
        entries[i].is_about(bearer, digest),
        forall|k: int| 0 <= k < i ==> !(#[trigger] entries[k]).is_about(bearer, digest),
    ensures
        crate::openraft_adapter::auth::known_as(entries, bearer, digest, now)
            == entries[i].context_at(now),
    decreases i,
{
    if i > 0 {
        let rest = entries.skip(1);
        assert(!entries[0].is_about(bearer, digest));
        assert(rest[i - 1] == entries[i]);
        assert forall|k: int| 0 <= k < i - 1 implies !(#[trigger] rest[k]).is_about(
            bearer,
            digest,
        ) by {
            assert(rest[k] == entries[k + 1]);
        }
        first_entry_decides(rest, i - 1, bearer, digest, now);
    }
}

/// A token file is refused exactly if one of its entries is not in order.
pub proof fn faulty_entry_refuses_the_file(entries: Seq<TokenView>)
    ensures
        crate::openraft_adapter::auth::first_fault(entries) is None <==> forall|i: int|
            0 <= i < entries.len() ==> (#[trigger] entries[i]).fault() is None,
    decreases entries.len(),
{
    if entries.len() > 0 {
        let rest = entries.skip(1);
        faulty_entry_refuses_the_file(rest);
        if crate::openraft_adapter::auth::first_fault(entries) is None {
            assert forall|i: int| 0 <= i < entries.len() implies (
            #[trigger] entries[i]).fault() is None by {
                if i > 0 {
                    assert(entries[i] == rest[i - 1]);
                }
            }
        } else if entries[0].fault() is None {
            let k = choose|k: int|
                0 <= k < rest.len() && !((#[trigger] rest[k]).fault() is None);
            assert(entries[k + 1] == rest[k]);
        }
    }
}

/// A request without a bearer token is refused; so is every request where the token file
/// cannot be read or decoded. Without such a file the token of the server, and no other one,
/// makes an admin of all tenants; with one it counts for nothing.
pub proof fn requests_need_a_token(
    header: Option<Seq<char>>,
    digest: Seq<char>,
    file: TokenFile,
    server_token: Seq<char>,
    now: TimeView,
    bearer: Seq<char>,
)
    ensures
        ({
            let known = crate::openraft_adapter::auth::authenticated(
                header,
                digest,
                file,
                server_token,
                now,
            );
            let shown = header == Some("Bearer "@ + bearer);
            &&& header is None ==> known is Err
            &&& header is Some && !crate::text::starts(header->0, "Bearer "@) ==> known is Err
            &&& file is Unreadable || file is Undecodable ==> known is Err
            &&& shown && file is Absent ==> (known is Ok <==> bearer == server_token)
            &&& file is Absent && known is Ok ==> known->Ok_0.role == AuthRole::Admin
                && known->Ok_0.tenant_id is None && known->Ok_0.actor == "legacy-admin-token"@
            &&& shown && file is Tokens ==> {
                let entries = file->Tokens_0.deep_view();
                if crate::openraft_adapter::auth::first_fault(entries) is None {
                    known == crate::openraft_adapter::auth::known_as(entries, bearer, digest, now)
                } else {
                    known is Err
                }
            }
        }),
        crate::openraft_adapter::auth::bearer_in(Some("Bearer "@ + bearer)) == Some(bearer),
        crate::openraft_adapter::auth::bearer_digest(Some("Bearer "@ + bearer))
            == crate::audit::sha256_hex(bearer),
{
    let value = "Bearer "@ + bearer;
    assert(value.take("Bearer "@.len() as int) =~= "Bearer "@);
    assert(value.skip("Bearer "@.len() as int) =~= bearer);
}

/// A request to a running process is served exactly if it comes with the token of the
/// process, and is not one within one within one.
pub proof fn local_requests_need_the_token(request: IpcRequest, token: Seq<char>)
    ensures
        crate::ipc::is_served(request, token) <==> match request {
            IpcRequest::Auth { token: shown, inner } => shown@ == token && !(*inner is Auth),
            _ => false,
        },
{
}

/// The action that a caller attempts is noted under the name of its subject and what is done
/// with it.
pub proof fn actions_have_their_names(action: Action)
    ensures
        action is CreateTimer <==> action.text() == "timer.create"@,
        action is ListTimers <==> action.text() == "timer.list"@,
        action is TimerStatus <==> action.text() == "timer.status"@,
        action is TimerHistory <==> action.text() == "timer.history"@,
        action is RegisterWorker <==> action.text() == "worker.register"@,
        action is HeartbeatWorker <==> action.text() == "worker.heartbeat"@,
        action is PollWorker <==> action.text() == "worker.poll"@,
        action is CompleteRun <==> action.text() == "run.succeed"@,
        action is FailRun <==> action.text() == "run.fail"@,
        action is ClusterStatus <==> action.text() == "cluster.status"@,
        action is JoinCluster <==> action.text() == "cluster.join"@,
        action is LeaveCluster <==> action.text() == "cluster.leave"@,
        action is Shutdown <==> action.text() == "runtime.shutdown"@,
        action is AppendEntries <==> action.text() == "raft.append_entries"@,
        action is Vote <==> action.text() == "raft.vote"@,
        action is InstallSnapshot <==> action.text() == "raft.install_snapshot"@,
{
    reveal_strlit("timer.create");
    reveal_strlit("timer.list");
    reveal_strlit("timer.status");
    reveal_strlit("timer.history");
    reveal_strlit("worker.register");
    reveal_strlit("worker.heartbeat");
    reveal_strlit("worker.poll");
    reveal_strlit("run.succeed");
    reveal_strlit("run.fail");
    reveal_strlit("cluster.status");
    reveal_strlit("cluster.join");
    reveal_strlit("cluster.leave");
    reveal_strlit("runtime.shutdown");
    reveal_strlit("raft.append_entries");
    reveal_strlit("raft.vote");
    reveal_strlit("raft.install_snapshot");
    assert("timer.create"@.len() == 12 && "timer.create"@[0] == 't');
    assert("timer.list"@.len() == 10 && "timer.list"@[0] == 't');
    assert("timer.status"@.len() == 12 && "timer.status"@[0] == 't');
    assert("timer.history"@.len() == 13 && "timer.history"@[0] == 't');
    assert("worker.register"@.len() == 15 && "worker.register"@[0] == 'w');
    assert("worker.heartbeat"@.len() == 16 && "worker.heartbeat"@[0] == 'w');
    assert("worker.poll"@.len() == 11 && "worker.poll"@[0] == 'w');
    assert("run.succeed"@.len() == 11 && "run.succeed"@[0] == 'r');
    assert("run.fail"@.len() == 8 && "run.fail"@[0] == 'r');
    assert("cluster.status"@.len() == 14 && "cluster.status"@[0] == 'c');
    assert("cluster.join"@.len() == 12 && "cluster.join"@[0] == 'c');
    assert("cluster.leave"@.len() == 13 && "cluster.leave"@[0] == 'c');
    assert("runtime.shutdown"@.len() == 16 && "runtime.shutdown"@[0] == 'r');
    assert("raft.append_entries"@.len() == 19 && "raft.append_entries"@[0] == 'r');
    assert("raft.vote"@.len() == 9 && "raft.vote"@[0] == 'r');
    assert("raft.install_snapshot"@.len() == 21 && "raft.install_snapshot"@[0] == 'r');
    assert("timer.create"@[6] == 'c' && "timer.status"@[6] == 's');
}

/// A role is noted under its name.
pub proof fn roles_have_their_names(role: AuthRole)
    ensures
        role is Reader <==> role.name() == "reader"@,
        role is Worker <==> role.name() == "worker"@,
        role is Operator <==> role.name() == "operator"@,
        role is Admin <==> role.name() == "admin"@,
        role is Raft <==> role.name() == "raft"@,
{
    reveal_strlit("reader");
    reveal_strlit("worker");
    reveal_strlit("operator");
    reveal_strlit("admin");
    reveal_strlit("raft");
    let name = role.name();
    assert(role is Reader ==> name[1] == 'e');
    assert(role is Worker ==> name[0] == 'w');
    assert(role is Operator ==> name[0] == 'o');
    assert(role is Admin ==> name[0] == 'a' && name[1] == 'd');
    assert(role is Raft ==> name[0] == 'r' && name[1] == 'a');
}

/// What a process tells of itself is its own directory, the lock in use, the socket in the
/// directory, and how many timers it lists.
pub proof fn process_tells_of_itself(engine: Engine, info: RuntimeInfo)
    requires
        crate::ipc::runtime_of(engine, info),
    ensures
        info.data_dir@ == engine@.data_dir,
        info.lock_path@ == engine@.lock_path,
        info.socket_path@ == crate::paths::joined(info.data_dir@, "kron.sock"@),
        info.timers == engine@.state.listed(engine.state.specs.order()).len(),
{
}

} // verus!
