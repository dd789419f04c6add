//! The replicated server: what is asked of it, which runs it gives out and takes back.

use vstd::prelude::*;

use crate::cluster::{
    ActiveRunView,
    CommandView,
    HistoryView,
    RequestView,
    TargetView,
    WorkerRunView,
};
use crate::error::KronErrorView;
use crate::openraft_adapter::file_store::{AppView, MachineView};
use crate::openraft_adapter::runtime::OpenRaftCluster;
use crate::retry::BackoffStrategy;
use crate::schedule::ScheduleView;
use crate::timestamp::TimeView;

verus! {

/// A timer that is asked for has the name, the tenant, the task, the payload, the time zone
/// and the number of attempts of the request. Where the request is silent the payload is
/// `null`, the zone `UTC` and the attempts are three.
pub proof fn created_timer_is_the_one_asked_for(request: RequestView, now: TimeView)
    ensures
        request.creation(now) matches Ok(command) ==> {
            &&& command is CreateTimer
            &&& command->CreateTimer_spec.id == request.name
            &&& command->CreateTimer_spec.tenant_id == request.tenant_id
            &&& command->CreateTimer_spec.created_at == now
            &&& command->CreateTimer_spec.target is WorkerTask
            &&& command->CreateTimer_spec.target->task == request.task
            &&& request.payload is Some ==> command->CreateTimer_spec.target->payload
                == request.payload->0
            &&& request.payload is None ==> command->CreateTimer_spec.target->payload == "null"@
            &&& request.timezone is Some ==> command->CreateTimer_spec.timezone
                == request.timezone->0
            &&& request.timezone is None ==> command->CreateTimer_spec.timezone == "UTC"@
            &&& request.max_attempts is Some ==> command->CreateTimer_spec.retry.max_attempts
                == request.max_attempts->0
            &&& request.max_attempts is None ==> command->CreateTimer_spec.retry.max_attempts == 3
            &&& command->CreateTimer_spec.retry.backoff == (BackoffStrategy::Exponential {
                base_seconds: 30,
                max_seconds: 3600,
            })
            &&& command->CreateTimer_spec.schedule.next(
                now,
                command->CreateTimer_spec.timezone,
            ) == Ok::<_, KronErrorView>(command->CreateTimer_next_run_at)
        },
{
}

/// The schedule of a timer that is asked for is what the one text that is given says; none
/// or more than one is refused.
pub proof fn schedule_is_the_one_text_given(
    cron: Option<Seq<char>>,
    every: Option<Seq<char>>,
    after: Option<Seq<char>>,
    at: Option<Seq<char>>,
    now: TimeView,
    n: u64,
)
    ensures
        ({
            let read = crate::cluster::chosen_schedule(cron, every, after, at, now);
            let others_than_cron = every is Some || after is Some || at is Some;
            &&& cron is Some && !others_than_cron ==> read == Ok::<_, KronErrorView>(
                ScheduleView::Cron { expr: cron->0 },
            )
            &&& cron is Some && others_than_cron ==> read is Err
            &&& every is Some && (cron is Some || after is Some || at is Some) ==> read is Err
            &&& after is Some && (cron is Some || every is Some || at is Some) ==> read is Err
            &&& at is Some && (cron is Some || every is Some || after is Some) ==> read is Err
            &&& cron is None && every is None && after is None && at is None ==> read is Err
            &&& every is Some && cron is None && after is None && at is None
                && crate::schedule::parsed_duration(every->0) == Ok::<nat, KronErrorView>(n as nat)
                ==> read == Ok::<_, KronErrorView>(ScheduleView::Every { seconds: n })
            &&& after is Some && cron is None && every is None && at is None
                && crate::schedule::parsed_duration(after->0) == Ok::<nat, KronErrorView>(n as nat)
                ==> read == Ok::<_, KronErrorView>(
                ScheduleView::After { seconds: n, registered_at: now },
            )
            &&& at is Some && cron is None && every is None && after is None ==> match crate::timestamp::rfc3339_instant(
                at->0,
            ) {
                Ok((secs, nanos)) => read == Ok::<_, KronErrorView>(
                    ScheduleView::At { at: TimeView { secs, nanos } },
                ),
                Err(_) => read is Err,
            }
        }),
{
}

/// A request of a tenant is about that tenant; one of nobody in particular stays as it is.
pub proof fn request_is_about_its_tenant(request: RequestView, tenant: Seq<char>)
    ensures
        ({
            let own = crate::openraft_adapter::runtime::scoped(request, Some(tenant));
            let open = crate::openraft_adapter::runtime::scoped(request, None);
            &&& open == Ok::<_, KronErrorView>(request)
            &&& own is Ok <==> request.tenant_id is None || request.tenant_id->0 == tenant
            &&& own is Ok ==> own->Ok_0.tenant_id == Some(tenant) && own->Ok_0.name == request.name
                && own->Ok_0.task == request.task && own->Ok_0.payload == request.payload
                && own->Ok_0.cron == request.cron && own->Ok_0.every == request.every
                && own->Ok_0.after == request.after && own->Ok_0.at == request.at
                && own->Ok_0.timezone == request.timezone && own->Ok_0.max_attempts
                == request.max_attempts
        }),
{
}

/// A timer can be given to a worker exactly if it is due, is a task that the worker asks
/// for, belongs to a tenant that the worker may serve, and none of its runs is active.
pub proof fn only_due_tasks_are_given_out(
    app: AppView,
    id: Seq<char>,
    tasks: Seq<Seq<char>>,
    tenant: Option<Seq<char>>,
    now: TimeView,
)
    requires
        app.timers[id].id == id,
    ensures
        app.can_claim(id, tasks, tenant, now) <==> {
            let timer = app.timers[id];
            &&& timer.next_run_at is Some
            &&& !now.before(timer.next_run_at->0)
            &&& timer.target is WorkerTask
            &&& exists|k: int| 0 <= k < tasks.len() && #[trigger] tasks[k] == timer.target->task
            &&& tenant is Some ==> tenant->0 == "*"@ || timer.tenant_id == Some(tenant->0)
            &&& forall|run: Seq<char>| #[trigger]
                app.active_runs.dom().contains(run) ==> app.active_runs[run].timer_id != id
        },
{
}

/// The run that a worker is given is of the timer, with exactly its task, its payload and
/// its tenant. It is a first attempt, under the fresh name, with a token one above that of
/// the timer, and its key names the occurrence.
pub proof fn given_run_carries_the_task(
    app: AppView,
    id: Seq<char>,
    fresh: Seq<char>,
    task: Seq<char>,
    payload: Seq<char>,
)
    requires
        app.timers[id].id == id,
        app.timers[id].target == (TargetView::WorkerTask { task, payload }),
        app.timers[id].fencing_token < u64::MAX,
        app.timers[id].next_run_at is Some,
    ensures
        ({
            let run = app.run_of(id, fresh);
            let due = app.timers[id].next_run_at->0;
            &&& run.timer == id
            &&& run.task == task
            &&& run.payload == payload
            &&& run.tenant_id == app.timers[id].tenant_id
            &&& run.attempt == 1
            &&& run.run_id == fresh
            &&& run.fencing_token == app.timers[id].fencing_token + 1
            &&& run.idempotency_key == id + ":"@ + crate::timestamp::rfc3339_text(
                due.secs,
                due.nanos,
            )
        }),
{
}

/// What a worker is given is what was asked for: a timer that is created with a task and a
/// payload gives runs with that task and that payload.
pub proof fn created_payload_reaches_the_worker(
    machine: MachineView,
    request: RequestView,
    now: TimeView,
    fresh: Seq<char>,
)
    requires
        request.creation(now) is Ok,
        request.payload is Some,
    ensures
        ({
            let app = machine.apply(request.creation(now)->Ok_0).app_state();
            let run = app.run_of(request.name, fresh);
            &&& app.timers.dom().contains(request.name)
            &&& run.timer == request.name
            &&& run.task == request.task
            &&& run.payload == request.payload->0
            &&& run.tenant_id == request.tenant_id
            &&& run.fencing_token == 1
        }),
{
}

/// Where a timer of the order can be given out, the first one that can is; where none can,
/// none is.
pub proof fn first_of_the_order_is_given_out(
    app: AppView,
    names: Seq<Seq<char>>,
    at: int,
    k: int,
    tasks: Seq<Seq<char>>,
    tenant: Option<Seq<char>>,
    now: TimeView,
)
    requires
        0 <= k < names.len(),
        app.can_claim(names[k], tasks, tenant, now),
    ensures
        !crate::openraft_adapter::runtime::no_claim(app, names, tasks, tenant, now),
        crate::openraft_adapter::runtime::first_claim(app, names, at, tasks, tenant, now) ==> at
            <= k && app.can_claim(names[at], tasks, tenant, now),
{
    if crate::openraft_adapter::runtime::first_claim(app, names, at, tasks, tenant, now) && k < at {
        assert(names.take(at)[k] == names[k]);
    }
}

/// The command of a claim gives the run as it stands to the worker until the deadline.
pub proof fn claim_is_of_the_run(run: WorkerRunView, worker_id: Seq<char>, deadline: TimeView)
    ensures
        ({
            let command = crate::openraft_adapter::runtime::claim_of(run, worker_id, deadline);
            &&& command is ClaimRun
            &&& command->ClaimRun_timer_id == run.timer
            &&& command->ClaimRun_run_id == run.run_id
            &&& command->ClaimRun_worker_id == worker_id
            &&& command->ClaimRun_fencing_token == run.fencing_token
            &&& command->ClaimRun_attempt == run.attempt
            &&& command->ClaimRun_lease_deadline == deadline
        }),
{
}

/// A run can be ended by who holds it under its token and may serve its tenant, and by
/// nobody else; what is wrong is said.
pub proof fn only_the_holder_ends_a_run(
    app: AppView,
    run_id: Seq<char>,
    worker_id: Seq<char>,
    token: u64,
    tenant: Option<Seq<char>>,
)
    ensures
        ({
            let refusal = app.refusal(run_id, worker_id, token, tenant);
            let active = app.active_runs[run_id];
            let here = app.active_runs.dom().contains(run_id);
            let own = here && active.worker_id == worker_id;
            let fresh = own && active.fencing_token == token;
            let of = if app.specs.dom().contains(active.timer_id) {
                app.specs[active.timer_id].tenant_id
            } else {
                None
            };
            let served = tenant is None || tenant->0 == "*"@ || of == Some(tenant->0);
            &&& refusal is None <==> fresh && served
            &&& !here ==> refusal == Some(KronErrorView::IpcUnavailable("run not active"@))
            &&& here && !own ==> refusal == Some(
                KronErrorView::IpcUnavailable("worker is not run owner"@),
            )
            &&& own && !fresh ==> refusal == Some(
                KronErrorView::IpcUnavailable("stale fencing token"@),
            )
            &&& fresh && !served ==> refusal == Some(
                KronErrorView::IpcUnavailable("token tenant does not match run tenant"@),
            )
        }),
{
}

/// The replacement of a run whose lease has expired is its next attempt under its own name,
/// with the task and the payload of its timer and a token above that of the timer; there is
/// one exactly while attempts are left of a task for workers.
pub proof fn replacement_is_the_next_attempt(
    app: AppView,
    active: ActiveRunView,
    task: Seq<char>,
    payload: Seq<char>,
)
    requires
        app.specs.dom().contains(active.timer_id),
        app.timers.dom().contains(active.timer_id),
        app.timers[active.timer_id].fencing_token < u64::MAX,
    ensures
        ({
            let spec = app.specs[active.timer_id];
            let next = app.replacement(active);
            &&& next is Some <==> active.attempt < spec.retry.max_attempts && spec.target
                is WorkerTask
            &&& next is Some && spec.target == (TargetView::WorkerTask { task, payload }) ==> {
                &&& (next->0).task == task && (next->0).payload == payload
                &&& (next->0).timer == active.timer_id
                &&& (next->0).tenant_id == spec.tenant_id
                &&& (next->0).run_id == active.run_id
                &&& (next->0).attempt == active.attempt + 1
                &&& (next->0).fencing_token == app.timers[active.timer_id].fencing_token + 1
            }
        }),
{
}

/// A lease is ended exactly if its deadline has come, in the order of the runs, each once.
pub proof fn only_expired_leases_are_ended(
    app: AppView,
    runs: Seq<Seq<char>>,
    run: Seq<char>,
    now: TimeView,
)
    ensures
        ({
            let before = app.expirations(runs, now);
            let after = app.expirations(runs.push(run), now);
            let active = app.active_runs[run];
            &&& app.expirations(Seq::empty(), now).len() == 0
            &&& now.before(active.lease_deadline) ==> after == before
            &&& !now.before(active.lease_deadline) ==> after == before.push(
                CommandView::ExpireRunLease {
                    run_id: active.run_id,
                    replacement: app.replacement(active),
                    expired_at: now,
                },
            )
        }),
{
    assert(runs.push(run).drop_last() =~= runs);
}

/// A tenant is shown every timer of its own and every entry about them, in order, and those
/// of no other tenant; who is of no tenant is shown all.
pub proof fn tenant_is_shown_all_its_own(
    app: AppView,
    tenant: Option<Seq<char>>,
    names: Seq<Seq<char>>,
    name: Seq<char>,
    entries: Seq<HistoryView>,
    entry: HistoryView,
)
    ensures
        ({
            let shown = app.shown_to(tenant, names.push(name));
            let of = app.timers[name].tenant_id;
            let may = tenant is None || tenant->0 == "*"@ || of == Some(tenant->0);
            let told = crate::openraft_adapter::runtime::entries_for(entries.push(entry), tenant);
            let hears = tenant is None || tenant->0 == "*"@ || entry.tenant_id == Some(tenant->0);
            &&& app.shown_to(tenant, Seq::empty()).len() == 0
            &&& may ==> shown == app.shown_to(tenant, names).push(app.timers[name])
            &&& !may ==> shown == app.shown_to(tenant, names)
            &&& crate::openraft_adapter::runtime::entries_for(Seq::empty(), tenant).len() == 0
            &&& hears ==> told == crate::openraft_adapter::runtime::entries_for(
                entries,
                tenant,
            ).push(entry)
            &&& !hears ==> told == crate::openraft_adapter::runtime::entries_for(entries, tenant)
        }),
{
    assert(names.push(name).drop_last() =~= names);
    assert(entries.push(entry).drop_last() =~= entries);
}

/// The lease of a worker is what the setting says if that is a number above zero, and half a
/// minute if not.
pub proof fn lease_is_the_setting_or_half_a_minute(n: u64)
    ensures
        crate::openraft_adapter::runtime::lease_seconds(None) == 30,
        n > 0 ==> crate::openraft_adapter::runtime::lease_seconds(
            Some(crate::text::decimal(n as nat)),
        ) == n,
        n == 0 ==> crate::openraft_adapter::runtime::lease_seconds(
            Some(crate::text::decimal(n as nat)),
        ) == 30,
        forall|s: Seq<char>|
            crate::text::parsed_number(s, u64::MAX as nat) is None
                ==> #[trigger] crate::openraft_adapter::runtime::lease_seconds(Some(s)) == 30,
{
    crate::text::decimal_round_trip(n as nat);
}

/// A node whose name is a text without digits and a number behind it has that number.
pub proof fn node_has_the_number_in_its_name(prefix: Seq<char>, n: u64)
    requires
        forall|i: int| 0 <= i < prefix.len() ==> !('0' <= #[trigger] prefix[i] <= '9'),
    ensures
        crate::openraft_adapter::runtime::node_number(prefix + crate::text::decimal(n as nat)) == n,
{
    let digits = crate::text::decimal(n as nat);
    crate::text::decimal_round_trip(n as nat);
    digits_behind_are_found(prefix, digits);
}

proof fn digits_behind_are_found(prefix: Seq<char>, digits: Seq<char>)
    requires
        forall|i: int| 0 <= i < prefix.len() ==> !('0' <= #[trigger] prefix[i] <= '9'),
        forall|i: int| 0 <= i < digits.len() ==> '0' <= #[trigger] digits[i] <= '9',
    ensures
        crate::openraft_adapter::runtime::digits_in(prefix + digits) == digits,
    decreases prefix.len() + digits.len(),
{
    let all = prefix + digits;
    if digits.len() > 0 {
        let fewer = digits.drop_last();
        assert forall|i: int| 0 <= i < fewer.len() implies '0' <= #[trigger] fewer[i] <= '9' by {
            assert(fewer[i] == digits[i]);
        }
        digits_behind_are_found(prefix, fewer);
        assert(all.drop_last() =~= prefix + fewer);
        assert(all.last() == digits[digits.len() - 1]);
        assert(fewer.push(digits.last()) =~= digits);
    } else if prefix.len() > 0 {
        let shorter = prefix.drop_last();
        assert forall|i: int| 0 <= i < shorter.len() implies !(
        '0' <= #[trigger] shorter[i] <= '9') by {
            assert(shorter[i] == prefix[i]);
        }
        digits_behind_are_found(shorter, digits);
        assert(all.drop_last() =~= shorter + digits);
        assert(all.last() == prefix[prefix.len() - 1]);
    } else {
        assert(all =~= Seq::empty());
        assert(digits =~= Seq::empty());
    }
}

/// The node of a number is the first one whose name has the number.
pub proof fn node_is_found_by_its_number(
    app: AppView,
    names: Seq<Seq<char>>,
    number: u64,
    i: int,
)
    requires
        0 <= i < names.len(),
        crate::openraft_adapter::runtime::node_number(names[i]) == number,
        forall|k: int|
            0 <= k < i ==> crate::openraft_adapter::runtime::node_number(#[trigger] names[k])
                != number,
    ensures
        app.node_of(names, number) == Some(app.nodes[names[i]]),
    decreases i,
{
    if i > 0 {
        let rest = names.skip(1);
        assert(crate::openraft_adapter::runtime::node_number(names[0]) != number);
        assert(rest[i - 1] == names[i]);
        assert forall|k: int| 0 <= k < i - 1 implies crate::openraft_adapter::runtime::node_number(
            #[trigger] rest[k],
        ) != number by {
            assert(rest[k] == names[k + 1]);
        }
        node_is_found_by_its_number(app, rest, number, i - 1);
    }
}

/// A node that leads names itself and where it listens; one that does not names the leader and
/// where that one listens, only its number where it does not know it, and nothing where no one
/// leads.
pub proof fn leader_is_named(
    cluster: OpenRaftCluster,
    leader: Option<u64>,
    app: AppView,
    names: Seq<Seq<char>>,
)
    ensures
        ({
            let (id, http) = cluster.hint(leader, app, names);
            let known = app.node_of(names, leader->0);
            &&& leader is None ==> id is None && http is None
            &&& leader is Some && leader->0 == cluster.node_id ==> id == Some(cluster.node_name@)
                && http == Some(cluster.http_addr@)
            &&& leader is Some && leader->0 != cluster.node_id && known is Some ==> id == Some(
                known->0.node_id,
            ) && http == Some(known->0.http_addr)
            &&& leader is Some && leader->0 != cluster.node_id && known is None ==> id == Some(
                crate::text::decimal(leader->0 as nat),
            ) && http is None
        }),
{
}

/// A node whose name has no digit is numbered by the bytes of its name: one byte after the other
/// is mixed in and the whole multiplied.
pub proof fn node_without_digits_is_numbered_by_its_bytes(
    name: Seq<char>,
    bytes: Seq<u8>,
    byte: u8,
)
    requires
        forall|i: int| 0 <= i < name.len() ==> !('0' <= #[trigger] name[i] <= '9'),
    ensures
        crate::openraft_adapter::runtime::node_number(name)
            == crate::openraft_adapter::runtime::fnv64(vstd::utf8::encode_utf8(name)),
        crate::openraft_adapter::runtime::fnv64(bytes.push(byte)) == (
        crate::openraft_adapter::runtime::fnv64(bytes) ^ (byte as u64)).wrapping_mul(
            1099511628211,
        ),
        crate::openraft_adapter::runtime::fnv64(Seq::empty()) == 1469598103934665603,
{
    digits_behind_are_found(name, Seq::empty());
    assert(name + Seq::<char>::empty() =~= name);
    assert(bytes.push(byte).drop_last() =~= bytes);
}

/// No run is given out exactly if no timer has one to give.
pub proof fn no_run_is_given_only_if_there_is_none(
    app: AppView,
    names: Seq<Seq<char>>,
    tasks: Seq<Seq<char>>,
    tenant: Option<Seq<char>>,
    now: TimeView,
)
    ensures
        crate::openraft_adapter::runtime::no_claim(app, names, tasks, tenant, now) <==> forall|
            i: int,
        |
            0 <= i < names.len() ==> !app.can_claim(#[trigger] names[i], tasks, tenant, now),
{
}

} // verus!
