//! What the bindings for another language decide: how arguments make up a schedule, where
//! the data directory is, and which kind of error is raised.

use vstd::prelude::*;

use crate::audit::to_json_string;
use crate::client::Field;
use crate::error::{KronError, KronErrorView};
use crate::ipc::socket_path;
use crate::paths::{join_path, parent_of};
use crate::schedule::{parse_duration_str, Schedule, ScheduleView};
use crate::text::{concat, concat3, concat4, decimal_of, same};
use crate::timer::OverlapPolicy;
use crate::timestamp::{parse_rfc3339, TimeView, Timestamp};

verus! {

/// An error as it is raised: with its message, and whether the arguments are at fault.
#[derive(Debug, PartialEq, Eq)]
pub struct Raised {
    pub value_error: bool,
    pub message: String,
}

/// A [`Raised`] as a mathematical value.
pub struct RaisedView {
    pub value_error: bool,
    pub message: Seq<char>,
}

impl View for Raised {
    type V = RaisedView;

    open spec fn view(&self) -> RaisedView {
        RaisedView { value_error: self.value_error, message: self.message@ }
    }
}

/// The error as it is raised. One about a locked data directory tells which socket leads to
/// the engine that is running there.
pub open spec fn raised(error: KronErrorView) -> RaisedView {
    RaisedView {
        value_error: error.is_value_error(),
        message: match error {
            KronErrorView::DataDirLocked { path } => match crate::paths::parent(path) {
                Some(dir) => error.message() + "; another writer may be active; socket: "@
                    + crate::paths::joined(dir, "kron.sock"@),
                None => error.message(),
            },
            _ => error.message(),
        },
    }
}

/// The error as it is raised.
pub fn map_kron_error(error: &KronError) -> (r: Raised)
    ensures
        r@ == raised(error@),
{
    let message = error.message();
    if let KronError::DataDirLocked { path } = error {
        if let Some(dir) = parent_of(path) {
            return Raised {
                value_error: false,
                message: concat3(
                    &message,
                    "; another writer may be active; socket: ",
                    &socket_path(&dir),
                ),
            };
        }
    }
    Raised { value_error: error.is_value_error(), message }
}

/// Whether one of the parameters of a function, given by their kinds, takes the context of
/// the run as a positional argument.
pub open spec fn takes_context(kinds: Seq<Seq<char>>) -> bool {
    exists|i: int|
        0 <= i < kinds.len() && (#[trigger] kinds[i] == "POSITIONAL_ONLY"@ || kinds[i]
            == "POSITIONAL_OR_KEYWORD"@ || kinds[i] == "VAR_POSITIONAL"@)
}

/// Whether a function takes the context of the run as an argument, given the kinds of its
/// parameters.
pub fn accepts_context(kinds: &Vec<String>) -> (r: bool)
    ensures
        r == takes_context(kinds.deep_view()),
{
    let ghost all = kinds.deep_view();
    let mut i: usize = 0;
    while i < kinds.len()
        invariant
            i <= kinds@.len(),
            all == kinds.deep_view(),
            forall|k: int|
                0 <= k < i ==> #[trigger] all[k] != "POSITIONAL_ONLY"@ && all[k]
                    != "POSITIONAL_OR_KEYWORD"@ && all[k] != "VAR_POSITIONAL"@,
        decreases kinds@.len() - i,
    {
        assert(all[i as int] == kinds@[i as int]@);
        let kind = &kinds[i];
        if same(kind, "POSITIONAL_ONLY") || same(kind, "POSITIONAL_OR_KEYWORD") || same(
            kind,
            "VAR_POSITIONAL",
        ) {
            return true;
        }
        i = i + 1;
    }
    false
}

/// The argument that gives the instant of a timer.
#[derive(Debug, PartialEq, Eq)]
pub enum AtArgument {
    Instant(Timestamp),
    Text(String),
    /// Something else, with the name of its type.
    Other(String),
}

/// An [`AtArgument`] as a mathematical value.
pub enum AtView {
    Instant(TimeView),
    Text(Seq<char>),
    Other(Seq<char>),
}

impl View for AtArgument {
    type V = AtView;

    open spec fn view(&self) -> AtView {
        match self {
            AtArgument::Instant(t) => AtView::Instant(t@),
            AtArgument::Text(s) => AtView::Text(s@),
            AtArgument::Other(s) => AtView::Other(s@),
        }
    }
}

impl DeepView for AtArgument {
    type V = AtView;

    open spec fn deep_view(&self) -> AtView {
        self@
    }
}

/// How many of the arguments are given.
pub open spec fn given(
    cron: Option<Seq<char>>,
    every: Option<Seq<char>>,
    after: Option<Seq<char>>,
    at: Option<AtView>,
) -> nat {
    crate::cluster::counted(cron) + crate::cluster::counted(every) + crate::cluster::counted(after)
        + if at is Some {
        1nat
    } else {
        0nat
    }
}

/// The schedule that exactly one of the arguments describes, or the error that is raised.
pub open spec fn scheduled(
    cron: Option<Seq<char>>,
    every: Option<Seq<char>>,
    after: Option<Seq<char>>,
    at: Option<AtView>,
    now: TimeView,
) -> Result<ScheduleView, RaisedView> {
    if given(cron, every, after, at) != 1 {
        Err(
            RaisedView {
                value_error: true,
                message: "schedule() requires exactly one of cron, every, after, at"@,
            },
        )
    } else if cron is Some {
        Ok(ScheduleView::Cron { expr: cron->0 })
    } else if every is Some {
        match crate::schedule::parsed_duration(every->0) {
            Ok(seconds) => Ok(ScheduleView::Every { seconds: seconds as u64 }),
            Err(error) => Err(raised(error)),
        }
    } else if after is Some {
        match crate::schedule::parsed_duration(after->0) {
            Ok(seconds) => Ok(
                ScheduleView::After { seconds: seconds as u64, registered_at: now },
            ),
            Err(error) => Err(raised(error)),
        }
    } else {
        match at->0 {
            AtView::Instant(t) => Ok(ScheduleView::At { at: t }),
            AtView::Text(s) => match crate::timestamp::rfc3339_instant(s) {
                Ok((secs, nanos)) => Ok(ScheduleView::At { at: TimeView { secs, nanos } }),
                Err(reason) => Err(
                    RaisedView { value_error: true, message: "invalid at datetime: "@ + reason },
                ),
            },
            AtView::Other(name) => Err(
                RaisedView {
                    value_error: true,
                    message: "at must be timezone-aware datetime or RFC3339 string, got "@ + name,
                },
            ),
        }
    }
}

/// The view of a schedule or of the error in its place.
pub open spec fn outcome_view(r: Result<Schedule, Raised>) -> Result<ScheduleView, RaisedView> {
    match r {
        Ok(schedule) => Ok(schedule@),
        Err(error) => Err(error@),
    }
}

/// The schedule that exactly one of the arguments describes.
pub fn parse_schedule(
    cron: &Option<String>,
    every: &Option<String>,
    after: &Option<String>,
    at: &Option<AtArgument>,
    now: Timestamp,
) -> (r: Result<Schedule, Raised>)
    requires
        given(cron.deep_view(), every.deep_view(), after.deep_view(), at.deep_view()) == 1 ==> {
            &&& every is Some ==> crate::schedule::duration_fits(every->0@)
            &&& after is Some ==> crate::schedule::duration_fits(after->0@)
        },
    ensures
        outcome_view(r) == scheduled(
            cron.deep_view(),
            every.deep_view(),
            after.deep_view(),
            at.deep_view(),
            now@,
        ),
{
    match (cron, every, after, at) {
        (Some(expr), None, None, None) => Ok(Schedule::Cron { expr: expr.clone() }),
        (None, Some(text), None, None) => match parse_duration_str(text) {
            Ok(seconds) => Ok(Schedule::Every { seconds }),
            Err(error) => Err(map_kron_error(&error)),
        },
        (None, None, Some(text), None) => match parse_duration_str(text) {
            Ok(seconds) => Ok(Schedule::After { seconds, registered_at: now }),
            Err(error) => Err(map_kron_error(&error)),
        },
        (None, None, None, Some(instant)) => match instant {
            AtArgument::Instant(t) => Ok(Schedule::At { at: *t }),
            AtArgument::Text(s) => match parse_rfc3339(s) {
                Ok(t) => Ok(Schedule::At { at: t }),
                Err(reason) => Err(
                    Raised {
                        value_error: true,
                        message: concat("invalid at datetime: ", &reason),
                    },
                ),
            },
            AtArgument::Other(name) => Err(
                Raised {
                    value_error: true,
                    message: concat(
                        "at must be timezone-aware datetime or RFC3339 string, got ",
                        name,
                    ),
                },
            ),
        },
        _ => Err(
            Raised {
                value_error: true,
                message: "schedule() requires exactly one of cron, every, after, at".to_string(),
            },
        ),
    }
}

/// What happens when runs overlap, as the argument says; without one, a run is delayed.
pub fn parse_overlap(name: &Option<String>) -> (r: Result<OverlapPolicy, Raised>)
    ensures
        match name {
            None => r == Ok::<_, Raised>(OverlapPolicy::Delay),
            Some(text) => match OverlapPolicy::named(text@) {
                Some(policy) => r == Ok::<_, Raised>(policy),
                None => r is Err && r->Err_0@ == (RaisedView {
                    value_error: true,
                    message: "overlap must be one of delay, skip, allow, got "@ + text@,
                }),
            },
        },
{
    match name {
        None => Ok(OverlapPolicy::Delay),
        Some(text) => match OverlapPolicy::from_name(text) {
            Some(policy) => Ok(policy),
            None => Err(
                Raised {
                    value_error: true,
                    message: concat("overlap must be one of delay, skip, allow, got ", text),
                },
            ),
        },
    }
}

/// Whether the first argument of a Python process names the file that it runs. It is empty
/// in an interactive process, `-` for a program from the standard input, `-c` for one from
/// the command line and `-m` until the file of a module is found.
pub open spec fn names_file(argument: Seq<char>) -> bool {
    argument.len() > 0 && argument != "-"@ && argument != "-c"@ && argument != "-m"@
}

/// The directory of the script that is running, if there is one. That of a path without a
/// directory part is the current one, which is written as nothing.
pub open spec fn script_dir(script: Option<Seq<char>>) -> Option<Seq<char>> {
    match script {
        Some(path) => if names_file(path) {
            crate::paths::parent(path)
        } else {
            None
        },
        None => None,
    }
}

/// Where the data directory is: where it is said to be, by the caller or else by the
/// environment; or else next to the script that is running, or in the home directory, or in
/// the current one.
pub open spec fn data_dir_of(
    explicit: Option<Seq<char>>,
    setting: Option<Seq<char>>,
    script: Option<Seq<char>>,
    home: Option<Seq<char>>,
) -> Seq<char> {
    match (explicit, setting) {
        (Some(dir), _) => dir,
        (None, Some(dir)) => dir,
        (None, None) => match (script_dir(script), home) {
            (Some(dir), _) => crate::paths::joined(dir, ".kron"@),
            (None, Some(dir)) => crate::paths::joined(dir, ".kron"@),
            (None, None) => ".kron"@,
        },
    }
}

/// Where the data directory is.
pub fn resolve_data_dir(
    explicit: &Option<String>,
    setting: &Option<String>,
    script: &Option<String>,
    home: &Option<String>,
) -> (r: String)
    ensures
        r@ == data_dir_of(
            explicit.deep_view(),
            setting.deep_view(),
            script.deep_view(),
            home.deep_view(),
        ),
{
    if let Some(dir) = explicit {
        return dir.clone();
    }
    if let Some(dir) = setting {
        return dir.clone();
    }
    if let Some(path) = script {
        let names_file = crate::text::chars_of(path).len() > 0 && !same(path, "-") && !same(
            path,
            "-c",
        ) && !same(path, "-m");
        if names_file {
            if let Some(dir) = parent_of(path) {
                return join_path(&dir, ".kron");
            }
        }
    }
    match home {
        Some(dir) => join_path(dir, ".kron"),
        None => ".kron".to_string(),
    }
}

/// A text of a run as a worker got it; the empty text if there is none.
pub fn text_or_empty(field: Field) -> (r: String)
    ensures
        r@ == match field@ {
            crate::client::FieldView::Text(t) => t,
            _ => Seq::empty(),
        },
{
    match field {
        Field::Text(t) => t,
        _ => {
            let empty = String::new();
            assert(empty@ =~= Seq::<char>::empty());
            empty
        },
    }
}

/// The path to which a worker reports the end of a run.
pub fn report_path(run_id: &str, succeeded: bool) -> (r: String)
    ensures
        r@ == "/v1/runs/"@ + run_id@ + if succeeded {
            "/succeed"@
        } else {
            "/fail"@
        },
{
    if succeeded {
        concat3("/v1/runs/", run_id, "/succeed")
    } else {
        concat3("/v1/runs/", run_id, "/fail")
    }
}

/// The body with which a worker reports the end of a run, as the text of a JSON object.
pub open spec fn report_text(
    worker_id: Seq<char>,
    fencing_token: u64,
    error: Option<Seq<char>>,
) -> Seq<char> {
    let tail = "\"fencing_token\":"@ + crate::text::decimal(fencing_token as nat)
        + ",\"worker_id\":"@ + crate::audit::json_string(worker_id) + "}"@;
    match error {
        Some(message) => "{\"error\":"@ + crate::audit::json_string(message) + ","@ + tail,
        None => "{"@ + tail,
    }
}

/// The body with which a worker reports the end of a run: that it succeeded, or why it
/// failed.
pub fn report_body(worker_id: &str, fencing_token: u64, error: &Option<String>) -> (r: String)
    ensures
        r@ == report_text(worker_id@, fencing_token, error.deep_view()),
{
    let tail = concat4(
        "\"fencing_token\":",
        &decimal_of(fencing_token),
        ",\"worker_id\":",
        &to_json_string(worker_id),
    );
    let tail = concat(&tail, "}");
    match error {
        Some(message) => concat4("{\"error\":", &to_json_string(message), ",", &tail),
        None => concat("{", &tail),
    }
}

/// The name of a worker: the one that is given, or else one made from the time.
pub fn worker_name(given: Option<String>, nanos: &str) -> (r: String)
    ensures
        r@ == match given {
            Some(name) => name@,
            None => "worker_"@ + nanos@,
        },
{
    match given {
        Some(name) => name,
        None => concat("worker_", nanos),
    }
}

/// What is said of a run whose task the worker does not know.
pub fn unknown_task(task: &str) -> (r: String)
    ensures
        r@ == "task "@ + task@ + " is not registered"@,
{
    concat3("task ", task, " is not registered")
}

} // verus!
