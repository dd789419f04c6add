//! The commands about timers, and how timers are shown.

use vstd::prelude::*;

use crate::ipc::IpcRequest;
use crate::split::pad;
use crate::state::EngineState;
use crate::text::{concat, concat3, concat4, decimal_of, place, Place};
use crate::timer::{format_state, TimerId, TimerSummary, TimerSummaryView};
use crate::timestamp::{format_time, Timestamp};

verus! {

/// What may be asked about timers.
#[derive(Debug, PartialEq, Eq)]
pub enum JobCommand {
    List,
    Status { timer: String },
    History { timer: String, limit: Option<usize> },
}

/// Whom a command asks.
#[derive(Debug, PartialEq, Eq)]
pub enum JobStep {
    /// The server that is running, for the resource at the path.
    Server { path: String },
    /// The engine that is running; if there is none, the data directory.
    Engine { request: IpcRequest },
}

/// Whom the command asks, given whether a server is running.
pub fn run(command: JobCommand, has_server: bool) -> (r: JobStep)
    ensures
        has_server ==> r is Server && r->path@ == match command {
            JobCommand::List => "/v1/timers"@,
            JobCommand::Status { timer } => "/v1/timers/"@ + timer@,
            JobCommand::History { timer, .. } => "/v1/timers/"@ + timer@ + "/history"@,
        },
        !has_server ==> r == (JobStep::Engine {
            request: match command {
                JobCommand::List => IpcRequest::List,
                JobCommand::Status { timer } => IpcRequest::Status { name: timer },
                JobCommand::History { timer, limit } => IpcRequest::History { name: timer, limit },
            },
        }),
{
    if has_server {
        let path = match command {
            JobCommand::List => "/v1/timers".to_string(),
            JobCommand::Status { timer } => concat("/v1/timers/", &timer),
            JobCommand::History { timer, .. } => concat3("/v1/timers/", &timer, "/history"),
        };
        JobStep::Server { path }
    } else {
        let request = match command {
            JobCommand::List => IpcRequest::List,
            JobCommand::Status { timer } => IpcRequest::Status { name: timer },
            JobCommand::History { timer, limit } => IpcRequest::History { name: timer, limit },
        };
        JobStep::Engine { request }
    }
}

/// What the data directory knows of a timer.
pub fn local_status(state: &EngineState, timer: &str) -> (r: Result<TimerSummary, String>)
    ensures
        match r {
            Ok(summary) => state@.summary(timer@) == Some(summary@),
            Err(message) => state@.summary(timer@) is None && message@ == "timer '"@ + timer@
                + "' not found"@,
        },
{
    match state.summary(&TimerId::new(timer)) {
        Some(summary) => Ok(summary),
        None => Err(concat3("timer '", timer, "' not found")),
    }
}

/// What is shown of a timer put in its place among those in the order of their names,
/// behind those of the same name.
pub open spec fn placed(s: Seq<TimerSummaryView>, x: TimerSummaryView) -> Seq<TimerSummaryView>
    decreases s.len(),
{
    if s.len() == 0 || !crate::text::precedes(x.id, s.last().id) {
        s.push(x)
    } else {
        placed(s.drop_last(), x).push(s.last())
    }
}

/// What is shown of timers in the order of their names.
pub open spec fn in_order(s: Seq<TimerSummaryView>) -> Seq<TimerSummaryView>
    decreases s.len(),
{
    if s.len() == 0 {
        Seq::empty()
    } else {
        placed(in_order(s.drop_last()), s.last())
    }
}

/// Puts what is shown of a timer in its place.
fn put(sorted: &mut Vec<TimerSummary>, x: TimerSummary)
    ensures
        final(sorted).deep_view() == placed(old(sorted).deep_view(), x@),
{
    let ghost before = sorted.deep_view();
    let mut at: usize = sorted.len();
    assert(before.take(at as int) =~= before);
    assert(before.skip(at as int) =~= Seq::<TimerSummaryView>::empty());
    assert(placed(before.take(at as int), x@) + before.skip(at as int) =~= placed(before, x@));
    while at > 0 && matches!(place(x.id.as_str(), sorted[at - 1].id.as_str()), Place::Before)
        invariant
            at <= sorted@.len(),
            before == sorted.deep_view(),
            placed(before.take(at as int), x@) + before.skip(at as int) == placed(before, x@),
        decreases at,
    {
        proof {
            let front = before.take(at as int);
            assert(front.last() == sorted@[at - 1]@);
            assert(front.drop_last() =~= before.take(at - 1));
            assert(placed(front.drop_last(), x@).push(front.last()) + before.skip(at as int)
                =~= placed(before.take(at - 1), x@) + before.skip(at - 1));
        }
        at = at - 1;
    }
    proof {
        if at > 0 {
            assert(before.take(at as int).last() == sorted@[at - 1]@);
        }
        assert(placed(before.take(at as int), x@) == before.take(at as int).push(x@));
    }
    let ghost shown = x@;
    sorted.insert(at, x);
    assert(sorted.deep_view() =~= before.take(at as int).push(shown) + before.skip(at as int));
}

/// Puts what is shown of timers in the order of their names.
pub fn sort_summaries(summaries: Vec<TimerSummary>) -> (r: Vec<TimerSummary>)
    ensures
        r.deep_view() == in_order(summaries.deep_view()),
{
    let ghost all = summaries.deep_view();
    let mut sorted: Vec<TimerSummary> = Vec::new();
    assert(all.take(0) =~= Seq::<TimerSummaryView>::empty());
    assert(sorted.deep_view() =~= in_order(all.take(0)));
    for x in it: summaries
        invariant
            it.seq() == summaries@,
            all == summaries.deep_view(),
            sorted.deep_view() == in_order(all.take(it.index() as int)),
    {
        proof {
            let i = it.index() as int;
            assert(all.take(i + 1).drop_last() =~= all.take(i));
            assert(all.take(i + 1).last() == x@);
        }
        put(&mut sorted, x);
    }
    assert(all.take(all.len() as int) =~= all);
    sorted
}

/// The time of day of an instant as the list of the timers shows it.
pub open spec fn list_time(t: Option<crate::timestamp::TimeView>) -> Seq<char> {
    match t {
        Some(at) => crate::timestamp::formatted_time(at.secs, at.nanos, "%Y-%m-%d %H:%M UTC"@),
        None => "-"@,
    }
}

/// The line of a timer in the list of the timers, given how its next run is written.
pub open spec fn list_line(summary: TimerSummaryView, next: Seq<char>) -> Seq<char> {
    crate::split::padded(summary.id, 30) + " "@ + crate::split::padded(summary.state.name(), 12)
        + " "@ + next
}

/// The lines of timers in the list of the timers.
pub open spec fn list_lines(s: Seq<TimerSummaryView>) -> Seq<Seq<char>> {
    Seq::new(s.len(), |i: int| list_line(s[i], list_time(s[i].next_run_at)))
}

/// Seventy hyphens.
pub open spec fn rule() -> Seq<char> {
    Seq::new(70, |i: int| '-')
}

/// The list of the timers.
pub open spec fn listing(s: Seq<TimerSummaryView>) -> Seq<Seq<char>> {
    if s.len() == 0 {
        seq!["(no timers registered)"@]
    } else {
        seq![
            crate::split::padded("TIMER"@, 30) + " "@ + crate::split::padded("STATUS"@, 12)
                + " NEXT RUN"@,
            rule(),
        ] + list_lines(in_order(s))
    }
}

/// The line of a timer in the list of the timers, given how its next run is written.
pub fn list_line_of(summary: &TimerSummary, next: &str) -> (r: String)
    ensures
        r@ == list_line(summary@, next@),
{
    let head = concat4(
        &pad(summary.id.as_str(), 30),
        " ",
        &pad(format_state(&summary.state), 12),
        " ",
    );
    concat(&head, next)
}

fn list_time_of(t: Option<Timestamp>) -> (r: String)
    ensures
        r@ == list_time(t.deep_view()),
{
    match t {
        Some(at) => format_time(at, "%Y-%m-%d %H:%M UTC"),
        None => "-".to_string(),
    }
}

fn rule_line() -> (r: String)
    ensures
        r@ == rule(),
{
    let mut out = String::new();
    let mut i: usize = 0;
    while i < 70
        invariant
            i <= 70,
            out@ == Seq::new(i as nat, |k: int| '-'),
        decreases 70 - i,
    {
        out.push('-');
        assert(out@ =~= Seq::new((i + 1) as nat, |k: int| '-'));
        i = i + 1;
    }
    assert(out@ =~= rule());
    out
}

/// The list of the timers, line by line.
pub fn print_list(summaries: Vec<TimerSummary>) -> (r: Vec<String>)
    ensures
        r.deep_view() == listing(summaries.deep_view()),
{
    let ghost all = summaries.deep_view();
    let mut out: Vec<String> = Vec::new();
    if summaries.len() == 0 {
        out.push("(no timers registered)".to_string());
        assert(out.deep_view() =~= listing(all));
        return out;
    }
    let sorted = sort_summaries(summaries);
    let ghost ordered = sorted.deep_view();
    out.push(concat4(&pad("TIMER", 30), " ", &pad("STATUS", 12), " NEXT RUN"));
    out.push(rule_line());
    let ghost head = out.deep_view();
    let mut i: usize = 0;
    assert(head + list_lines(ordered).take(0) =~= head);
    while i < sorted.len()
        invariant
            i <= sorted@.len(),
            ordered == sorted.deep_view(),
            out.deep_view() == head + list_lines(ordered).take(i as int),
        decreases sorted@.len() - i,
    {
        let ghost before = out.deep_view();
        assert(ordered[i as int] == sorted@[i as int]@);
        let line = list_line_of(&sorted[i], &list_time_of(sorted[i].next_run_at));
        let ghost text = line@;
        out.push(line);
        assert(out.deep_view() =~= before.push(text));
        assert(before.push(text) =~= head + list_lines(ordered).take(i + 1));
        i = i + 1;
    }
    assert(list_lines(ordered).take(ordered.len() as int) =~= list_lines(ordered));
    assert(out.deep_view() =~= listing(all));
    out
}

/// The time of day of an instant as the description of a timer shows it.
pub open spec fn full_time(t: crate::timestamp::TimeView) -> Seq<char> {
    crate::timestamp::formatted_time(t.secs, t.nanos, "%Y-%m-%d %H:%M:%S UTC"@)
}

/// A line if there is something to say.
pub open spec fn line_if(label: Seq<char>, text: Option<Seq<char>>) -> Seq<Seq<char>> {
    match text {
        Some(t) => seq![label + t],
        None => Seq::empty(),
    }
}

/// What is said of an instant, if there is one.
pub open spec fn time_text(t: Option<crate::timestamp::TimeView>) -> Option<Seq<char>> {
    match t {
        Some(at) => Some(full_time(at)),
        None => None,
    }
}

/// The description of a timer.
pub open spec fn description(s: TimerSummaryView) -> Seq<Seq<char>> {
    seq![
        "timer:       "@ + s.id,
        "status:      "@ + s.state.name(),
        "fn:          "@ + match s.fn_name {
            Some(name) => name + " (registered)"@,
            None => "- (not registered)"@,
        },
    ] + line_if("last_run:    "@, time_text(s.last_run_at)) + line_if(
        "duration:    "@,
        match s.last_duration_ms {
            Some(ms) => Some(crate::text::decimal(ms as nat) + "ms"@),
            None => None,
        },
    ) + line_if("last_status: "@, s.last_status) + line_if(
        "next_run:    "@,
        time_text(s.next_run_at),
    ) + seq!["retries_7d:  "@ + crate::text::decimal(s.retries_last_7d as nat)]
}

fn push_line(out: &mut Vec<String>, label: &str, text: Option<String>)
    ensures
        final(out).deep_view() == old(out).deep_view() + line_if(label@, text.deep_view()),
{
    let ghost before = out.deep_view();
    if let Some(t) = text {
        out.push(concat(label, &t));
        assert(out.deep_view() =~= before + seq![label@ + t@]);
    } else {
        assert(before =~= before + Seq::<Seq<char>>::empty());
    }
}

fn time_text_of(t: Option<Timestamp>) -> (r: Option<String>)
    ensures
        r.deep_view() == time_text(t.deep_view()),
{
    match t {
        Some(at) => Some(format_time(at, "%Y-%m-%d %H:%M:%S UTC")),
        None => None,
    }
}

/// The description of a timer, line by line.
pub fn print_status(s: TimerSummary) -> (r: Vec<String>)
    ensures
        r.deep_view() == description(s@),
{
    let ghost shown = s@;
    let mut out: Vec<String> = Vec::new();
    out.push(concat("timer:       ", s.id.as_str()));
    out.push(concat("status:      ", format_state(&s.state)));
    let function = match s.fn_name {
        Some(name) => concat(&name, " (registered)"),
        None => "- (not registered)".to_string(),
    };
    out.push(concat("fn:          ", &function));
    let ghost head = seq![
        "timer:       "@ + shown.id,
        "status:      "@ + shown.state.name(),
        "fn:          "@ + match shown.fn_name {
            Some(name) => name + " (registered)"@,
            None => "- (not registered)"@,
        },
    ];
    assert(out.deep_view() =~= head);
    push_line(&mut out, "last_run:    ", time_text_of(s.last_run_at));
    let duration = match s.last_duration_ms {
        Some(ms) => Some(concat(&decimal_of(ms), "ms")),
        None => None,
    };
    push_line(&mut out, "duration:    ", duration);
    push_line(&mut out, "last_status: ", s.last_status);
    push_line(&mut out, "next_run:    ", time_text_of(s.next_run_at));
    let ghost before = out.deep_view();
    out.push(concat("retries_7d:  ", &decimal_of(s.retries_last_7d as u64)));
    assert(out.deep_view() =~= before + seq![
        "retries_7d:  "@ + crate::text::decimal(shown.retries_last_7d as nat),
    ]);
    out
}

/// The list shows every timer, and the names come in order.
pub proof fn listing_is_complete_and_ordered(s: Seq<TimerSummaryView>)
    ensures
        in_order(s).to_multiset() == s.to_multiset(),
        forall|i: int, j: int|
            0 <= i < j < in_order(s).len() ==> !crate::text::precedes(
                (#[trigger] in_order(s)[j]).id,
                (#[trigger] in_order(s)[i]).id,
            ),
    decreases s.len(),
{
    broadcast use vstd::seq_lib::group_to_multiset_ensures;

    if s.len() > 0 {
        listing_is_complete_and_ordered(s.drop_last());
        placing_keeps_order(in_order(s.drop_last()), s.last());
        assert(s.drop_last().push(s.last()) =~= s);
    }
}

proof fn placing_keeps_order(s: Seq<TimerSummaryView>, x: TimerSummaryView)
    requires
        forall|i: int, j: int|
            0 <= i < j < s.len() ==> !crate::text::precedes(
                (#[trigger] s[j]).id,
                (#[trigger] s[i]).id,
            ),
    ensures
        placed(s, x).to_multiset() == s.push(x).to_multiset(),
        placed(s, x).len() == s.len() + 1,
        forall|i: int, j: int|
            0 <= i < j < placed(s, x).len() ==> !crate::text::precedes(
                (#[trigger] placed(s, x)[j]).id,
                (#[trigger] placed(s, x)[i]).id,
            ),
    decreases s.len(),
{
    broadcast use vstd::seq_lib::group_to_multiset_ensures;

    let all = placed(s, x);
    if s.len() == 0 {
    } else if !crate::text::precedes(x.id, s.last().id) {
        assert forall|i: int, j: int| 0 <= i < j < all.len() implies !crate::text::precedes(
            (#[trigger] all[j]).id,
            (#[trigger] all[i]).id,
        ) by {
            if j == s.len() {
                let last = s[s.len() - 1];
                if crate::text::precedes(x.id, s[i].id) {
                    not_before_is_transitive(x.id, last.id, s[i].id);
                }
            }
        }
    } else {
        let front = s.drop_last();
        placing_keeps_order(front, x);
        let inner = placed(front, x);
        assert(front.push(x).push(s.last()).to_multiset() == s.push(x).to_multiset()) by {
            assert(front.push(s.last()) =~= s);
        }
        assert forall|i: int, j: int| 0 <= i < j < all.len() implies !crate::text::precedes(
            (#[trigger] all[j]).id,
            (#[trigger] all[i]).id,
        ) by {
            if j == all.len() - 1 {
                assert(all[i] == inner[i]);
                assert(inner.to_multiset().contains(inner[i]));
                assert(front.push(x).to_multiset().contains(inner[i]));
                assert(front.push(x).contains(inner[i]));
                let k = front.push(x).index_of(inner[i]);
                if k < front.len() {
                    assert(s[k] == inner[i]);
                } else {
                    if crate::text::precedes(s.last().id, x.id) {
                        crate::text::precedes_transitive(x.id, s.last().id, x.id);
                        crate::text::precedes_irreflexive(x.id);
                    }
                }
            } else {
                assert(all[i] == inner[i] && all[j] == inner[j]);
            }
        }
    }
}

proof fn not_before_is_transitive(a: Seq<char>, b: Seq<char>, c: Seq<char>)
    requires
        !crate::text::precedes(a, b),
        !crate::text::precedes(b, c),
    ensures
        !crate::text::precedes(a, c),
{
    crate::text::precedes_total(a, b);
    crate::text::precedes_total(b, c);
    if crate::text::precedes(a, c) {
        if a != b {
            crate::text::precedes_transitive(b, a, c);
        }
    }
}

} // verus!
