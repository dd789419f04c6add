//! What a caller from another language is given, and what the commands do.

use vstd::prelude::*;

use crate::binding::AtView;
use crate::commands::server::ServerCommand;
use crate::error::KronErrorView;
use crate::schedule::ScheduleView;
use crate::timer::TimerSummaryView;
use crate::timestamp::TimeView;

verus! {

/// A schedule is made of exactly one of the four arguments, and of what it says: an expression,
/// a distance, a delay from now on, or an instant.
pub proof fn schedule_is_the_one_given(
    cron: Option<Seq<char>>,
    every: Option<Seq<char>>,
    after: Option<Seq<char>>,
    at: Option<AtView>,
    now: TimeView,
)
    ensures
        ({
            let made = crate::binding::scheduled(cron, every, after, at, now);
            let only_cron = cron is Some && every is None && after is None && at is None;
            let only_every = cron is None && every is Some && after is None && at is None;
            let only_after = cron is None && every is None && after is Some && at is None;
            let only_at = cron is None && every is None && after is None && at is Some;
            &&& !only_cron && !only_every && !only_after && !only_at ==> made is Err
                && made->Err_0.value_error && made->Err_0.message
                == "schedule() requires exactly one of cron, every, after, at"@
            &&& only_cron ==> made is Ok && made->Ok_0 == (ScheduleView::Cron { expr: cron->0 })
            &&& only_every ==> match crate::schedule::parsed_duration(every->0) {
                Ok(seconds) => made is Ok && made->Ok_0 == (ScheduleView::Every {
                    seconds: seconds as u64,
                }),
                Err(_) => made is Err,
            }
            &&& only_after ==> match crate::schedule::parsed_duration(after->0) {
                Ok(seconds) => made is Ok && made->Ok_0 == (ScheduleView::After {
                    seconds: seconds as u64,
                    registered_at: now,
                }),
                Err(_) => made is Err,
            }
            &&& only_at ==> match at->0 {
                AtView::Instant(t) => made is Ok && made->Ok_0 == (ScheduleView::At { at: t }),
                AtView::Text(s) => match crate::timestamp::rfc3339_instant(s) {
                    Ok((secs, nanos)) => made is Ok && made->Ok_0 == (ScheduleView::At {
                        at: TimeView { secs, nanos },
                    }),
                    Err(_) => made is Err && made->Err_0.value_error,
                },
                AtView::Other(name) => made is Err && made->Err_0.value_error
                    && made->Err_0.message
                    == "at must be timezone-aware datetime or RFC3339 string, got "@ + name,
            }
        }),
{
}

/// A caller is blamed for a wrong expression or a wrong time zone, and for nothing else. What is
/// wrong is told in the words of the error; of a directory in use also where its owner listens.
pub proof fn errors_are_raised_as_they_are(error: KronErrorView)
    ensures
        ({
            let raised = crate::binding::raised(error);
            &&& raised.value_error <==> error is InvalidCron || error is InvalidTimezone
            &&& crate::text::starts(raised.message, error.message())
            &&& !(error is DataDirLocked) ==> raised.message == error.message()
        }),
{
    let raised = crate::binding::raised(error);
    assert(raised.message.take(error.message().len() as int) =~= error.message());
}

/// A function takes a context exactly if one of its parameters can be given by position.
pub proof fn context_is_given_by_position(kinds: Seq<Seq<char>>, kind: Seq<char>)
    ensures
        !crate::binding::takes_context(Seq::empty()),
        crate::binding::takes_context(kinds.push(kind)) <==> crate::binding::takes_context(kinds)
            || kind == "POSITIONAL_ONLY"@ || kind == "POSITIONAL_OR_KEYWORD"@ || kind
            == "VAR_POSITIONAL"@,
{
    let longer = kinds.push(kind);
    if crate::binding::takes_context(kinds) {
        let i = choose|i: int|
            0 <= i < kinds.len() && (#[trigger] kinds[i] == "POSITIONAL_ONLY"@ || kinds[i]
                == "POSITIONAL_OR_KEYWORD"@ || kinds[i] == "VAR_POSITIONAL"@);
        assert(longer[i] == kinds[i]);
    }
    assert(longer[kinds.len() as int] == kind);
}

/// The directory that is named comes first, then the one that is set, then one beside the
/// script, then one at home, and at last one where the process stands.
pub proof fn directory_is_the_first_there_is(
    explicit: Option<Seq<char>>,
    setting: Option<Seq<char>>,
    script: Option<Seq<char>>,
    home: Option<Seq<char>>,
)
    ensures
        ({
            let dir = crate::binding::data_dir_of(explicit, setting, script, home);
            let beside = crate::binding::script_dir(script);
            &&& explicit is Some ==> dir == explicit->0
            &&& explicit is None && setting is Some ==> dir == setting->0
            &&& explicit is None && setting is None && beside is Some ==> dir
                == crate::paths::joined(beside->0, ".kron"@)
            &&& explicit is None && setting is None && beside is None && home is Some ==> dir
                == crate::paths::joined(home->0, ".kron"@)
            &&& explicit is None && setting is None && beside is None && home is None ==> dir
                == ".kron"@
            &&& script is None ==> beside is None
            &&& script == Some("-c"@) || script == Some("-m"@) || script == Some("-"@) ==> beside
                is None
        }),
{
}

/// A text without a separator behind one ends at that separator.
proof fn separator_is_found(dir: Seq<char>, file: Seq<char>)
    requires
        !file.contains('/'),
    ensures
        crate::paths::last_separator(dir + seq!['/'] + file) == dir.len() + 1,
    decreases file.len(),
{
    let path = dir + seq!['/'] + file;
    if file.len() == 0 {
        assert(path.last() == '/');
    } else {
        assert(file.contains(file.last()));
        assert(path.last() == file.last());
        assert(path.drop_last() =~= dir + seq!['/'] + file.drop_last());
        assert(!file.drop_last().contains('/')) by {
            if file.drop_last().contains('/') {
                let i = file.drop_last().index_of('/');
                assert(file[i] == '/');
            }
        }
        separator_is_found(dir, file.drop_last());
    }
}

/// The directory of a file in a directory is that directory.
pub proof fn file_is_in_its_directory(dir: Seq<char>, file: Seq<char>)
    requires
        dir.len() > 0,
        dir.last() != '/',
        !(dir.len() > 1 && dir.last() == '.' && dir[dir.len() - 2] == '/'),
        file.len() > 0,
        !file.contains('/'),
        file != seq!['.'],
    ensures
        crate::paths::parent(crate::paths::joined(dir, file)) == Some(dir),
        crate::paths::joined(dir + seq!['/'], file) == crate::paths::joined(dir, file),
        crate::paths::joined(Seq::empty(), file) == file,
{
    reveal_strlit("/");
    let path = dir + seq!['/'] + file;
    assert(crate::paths::joined(dir, file) =~= path);
    assert(file.contains(file.last()));
    assert(path.last() == file.last());
    if file.last() == '.' && path[path.len() - 2] == '/' {
        if file.len() == 1 {
            assert(file =~= seq!['.']);
        } else {
            assert(file[file.len() - 2] == '/');
            assert(file.contains('/'));
        }
    }
    assert(crate::paths::path_core(path) == path);
    separator_is_found(dir, file);
    let front = path.take(dir.len() as int + 1);
    assert(front =~= dir + seq!['/']);
    assert(front.drop_last() =~= dir);
    assert(crate::paths::path_core(dir) == dir);
    assert(path.len() > 1);
}

/// The query that a command asks has who and what was named, begins when the first day begins,
/// and ends when the last day ends; it is not made of what cannot be read as a time or a day.
pub proof fn query_is_the_one_asked(
    actor: Option<String>,
    action: Option<String>,
    from: Option<String>,
    to: Option<String>,
)
    ensures
        ({
            let asked = crate::commands::audit::asked(actor, action, from, to);
            let start = crate::audit::parsed_bound(from->0@, false);
            let end = crate::audit::parsed_bound(to->0@, true);
            let can = (from is Some ==> start is Ok) && (to is Some ==> end is Ok);
            &&& asked is Some
            &&& asked->0 is Ok <==> can
            &&& can ==> {
                let query = asked->0->Ok_0;
                &&& query.actor is Some <==> actor is Some
                &&& actor is Some ==> query.actor->0 == actor->0@
                &&& query.action is Some <==> action is Some
                &&& action is Some ==> query.action->0 == action->0@
                &&& query.from == if from is Some {
                    Some(start->Ok_0)
                } else {
                    None
                }
                &&& query.to == if to is Some {
                    Some(end->Ok_0)
                } else {
                    None
                }
            }
        }),
{
}

/// A day that is named as the first one counts from midnight on, as the last one up to its last
/// second; an instant counts as it is.
pub proof fn named_days_count_whole(text: Seq<char>)
    ensures
        ({
            let instant = crate::timestamp::rfc3339_instant(text);
            let day = crate::timestamp::calendar_day(text);
            let first = crate::audit::parsed_bound(text, false);
            let last = crate::audit::parsed_bound(text, true);
            &&& instant is Ok ==> first == last && first is Ok && first->Ok_0.secs
                == instant->Ok_0.0 && first->Ok_0.nanos == instant->Ok_0.1
            &&& instant is Err && day is Ok ==> first is Ok && last is Ok && first->Ok_0.secs
                == day->Ok_0 * 24 * 60 * 60 && last->Ok_0.secs == (day->Ok_0 + 1) * 24 * 60 * 60
                - 1
            &&& instant is Err && day is Err ==> first is Err && last is Err
        }),
{
}

/// A list of timers has a line for each of them, below a heading and a rule, that begins with
/// its name and tells its state and when it runs next.
pub proof fn list_has_a_line_for_each(timers: Seq<TimerSummaryView>, i: int)
    requires
        timers.len() > 0,
        0 <= i < timers.len(),
    ensures
        ({
            let lines = crate::commands::job::listing(timers);
            let timer = crate::commands::job::in_order(timers)[i];
            let line = lines[i + 2];
            let next = match timer.next_run_at {
                Some(t) => crate::timestamp::formatted_time(t.secs, t.nanos, "%Y-%m-%d %H:%M UTC"@),
                None => "-"@,
            };
            &&& lines.len() == timers.len() + 2
            &&& crate::text::starts(line, timer.id)
            &&& timer.id.len() <= 30 && timer.state.name().len() <= 12 ==> {
                &&& line.len() == 30 + 1 + 12 + 1 + next.len()
                &&& line.subrange(0, timer.id.len() as int) == timer.id
                &&& line.subrange(31, 31int + timer.state.name().len()) == timer.state.name()
                &&& line.skip(44) == next
            }
        }),
{
    crate::commands::job::listing_is_complete_and_ordered(timers);
    let ordered = crate::commands::job::in_order(timers);
    assert(ordered.len() == timers.len()) by {
        timers.to_multiset_ensures();
        ordered.to_multiset_ensures();
    }
    let timer = ordered[i];
    let line = crate::commands::job::listing(timers)[i + 2];
    let next = crate::commands::job::list_time(timer.next_run_at);
    reveal_strlit(" ");
    assert(line == crate::commands::job::list_line(timer, next));
    assert(line.take(timer.id.len() as int) =~= timer.id);
    if timer.id.len() <= 30 && timer.state.name().len() <= 12 {
        assert(line.subrange(0, timer.id.len() as int) =~= timer.id);
        assert(line.subrange(31, 31int + timer.state.name().len()) =~= timer.state.name());
        assert(line.skip(44) =~= next);
    }
}

/// The description of a timer tells its name, its state, its function and its retries, and what
/// there is to tell of its last run and its next one.
pub proof fn description_tells_what_is_known(s: TimerSummaryView)
    ensures
        ({
            let lines = crate::commands::job::description(s);
            let told = |text: Seq<char>| lines.contains(text);
            &&& told("timer:       "@ + s.id)
            &&& told("status:      "@ + s.state.name())
            &&& told("retries_7d:  "@ + crate::text::decimal(s.retries_last_7d as nat))
            &&& s.fn_name is Some ==> told("fn:          "@ + (s.fn_name->0 + " (registered)"@))
            &&& s.fn_name is None ==> told("fn:          "@ + "- (not registered)"@)
            &&& s.last_run_at is Some ==> told(
                "last_run:    "@ + crate::commands::job::full_time(s.last_run_at->0),
            )
            &&& s.last_duration_ms is Some ==> told(
                "duration:    "@ + (crate::text::decimal(s.last_duration_ms->0 as nat) + "ms"@),
            )
            &&& s.last_status is Some ==> told("last_status: "@ + s.last_status->0)
            &&& s.next_run_at is Some ==> told(
                "next_run:    "@ + crate::commands::job::full_time(s.next_run_at->0),
            )
            &&& lines.len() == 4 + crate::cluster::counted(s.last_status) + (if s.last_run_at
                is Some {
                1int
            } else {
                0
            }) + (if s.last_duration_ms is Some {
                1int
            } else {
                0
            }) + (if s.next_run_at is Some {
                1int
            } else {
                0
            })
        }),
{
    let lines = crate::commands::job::description(s);
    let run = crate::cluster::counted(
        crate::commands::job::time_text(s.last_run_at),
    ) as int;
    let took = if s.last_duration_ms is Some {
        1int
    } else {
        0
    };
    let status = crate::cluster::counted(s.last_status) as int;
    let next = crate::cluster::counted(
        crate::commands::job::time_text(s.next_run_at),
    ) as int;
    assert(lines[0] == "timer:       "@ + s.id);
    assert(lines[1] == "status:      "@ + s.state.name());
    assert(lines[2] == lines[2]);
    assert(lines[3 + run + took + status + next] == "retries_7d:  "@ + crate::text::decimal(
        s.retries_last_7d as nat,
    ));
    if s.last_run_at is Some {
        assert(lines[3] == "last_run:    "@ + crate::commands::job::full_time(s.last_run_at->0));
    }
    if s.last_duration_ms is Some {
        assert(lines[3 + run] == "duration:    "@ + (crate::text::decimal(
            s.last_duration_ms->0 as nat,
        ) + "ms"@));
    }
    if s.last_status is Some {
        assert(lines[3 + run + took] == "last_status: "@ + s.last_status->0);
    }
    if s.next_run_at is Some {
        assert(lines[3 + run + took + status] == "next_run:    "@
            + crate::commands::job::full_time(s.next_run_at->0));
    }
}

/// A node is started with what was given. It begins a cluster of its own exactly if no other
/// node is named as the leader.
pub proof fn node_is_started_as_told(command: ServerCommand)
    requires
        command is Start,
    ensures
        ({
            let step = crate::commands::server::step_of(command);
            &&& step is Start
            &&& step->node_id == command->Start_node_id@
            &&& step->http == command->Start_http@
            &&& step->raft == command->Start_raft@
            &&& step->bootstrap <==> (command->leader_id is Some ==> command->leader_id->0@
                == command->Start_node_id@)
            &&& step->cluster_token is Some <==> command->cluster_token is Some
            &&& command->cluster_token is Some ==> step->cluster_token->0
                == command->cluster_token->0@
        }),
{
}

} // verus!
