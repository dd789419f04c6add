//! The command that describes a data directory without a running engine.

use vstd::prelude::*;

use crate::text::{concat, decimal_of};

verus! {

/// The word for a truth value.
pub open spec fn bool_text(b: bool) -> Seq<char> {
    if b {
        "true"@
    } else {
        "false"@
    }
}

fn bool_word(b: bool) -> (r: &'static str)
    ensures
        r@ == bool_text(b),
{
    if b {
        "true"
    } else {
        "false"
    }
}

/// The lines that describe a data directory without a running engine: how many timers it
/// knows and which files it has.
pub fn run(data_dir: &str, timers: usize, has_snapshot: bool, has_log: bool) -> (r: Vec<String>)
    ensures
        r.deep_view() == seq![
            "runtime: inactive"@,
            "data_dir: "@ + data_dir@,
            "timers: "@ + crate::text::decimal(timers as nat),
            "snapshot: "@ + bool_text(has_snapshot),
            "aof: "@ + bool_text(has_log),
        ],
{
    let mut out: Vec<String> = Vec::new();
    out.push("runtime: inactive".to_string());
    out.push(concat("data_dir: ", data_dir));
    out.push(concat("timers: ", &decimal_of(timers as u64)));
    out.push(concat("snapshot: ", bool_word(has_snapshot)));
    out.push(concat("aof: ", bool_word(has_log)));
    assert(out.deep_view() =~= seq![
        "runtime: inactive"@,
        "data_dir: "@ + data_dir@,
        "timers: "@ + crate::text::decimal(timers as nat),
        "snapshot: "@ + bool_text(has_snapshot),
        "aof: "@ + bool_text(has_log),
    ]);
    out
}

} // verus!
