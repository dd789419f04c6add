//! The commands about the audit trail.

use vstd::prelude::*;

use crate::audit::{parse_bound, AuditQuery};
use crate::text::{concat3, decimal_of};

verus! {

/// What may be asked about the audit trail.
#[derive(Debug, PartialEq, Eq)]
pub enum AuditCommand {
    Verify,
    Tail { limit: usize, no_follow: bool },
    Query {
        actor: Option<String>,
        action: Option<String>,
        from: Option<String>,
        to: Option<String>,
    },
}

/// What a command does with the audit trail.
pub enum AuditStep {
    /// Verify its chain.
    Verify,
    /// Show its last records, and perhaps those that follow.
    Tail { limit: usize, follow: bool },
    /// Show the records that are asked for.
    Query { wanted: AuditQuery },
}

/// What the command does with the audit trail, or why it does nothing.
pub fn run(command: AuditCommand) -> (r: Result<AuditStep, String>)
    ensures
        match command {
            AuditCommand::Verify => r == Ok::<_, String>(AuditStep::Verify),
            AuditCommand::Tail { limit, no_follow } => r == Ok::<_, String>(
                AuditStep::Tail { limit, follow: !no_follow },
            ),
            AuditCommand::Query { actor, action, from, to } => query_view(r) == asked(
                actor,
                action,
                from,
                to,
            ),
        },
{
    match command {
        AuditCommand::Verify => Ok(AuditStep::Verify),
        AuditCommand::Tail { limit, no_follow } => Ok(
            AuditStep::Tail { limit, follow: !no_follow },
        ),
        AuditCommand::Query { actor, action, from, to } => {
            let start = match parse_bound(&from, false) {
                Ok(bound) => bound,
                Err(message) => {
                    return Err(message);
                },
            };
            let end = match parse_bound(&to, true) {
                Ok(bound) => bound,
                Err(message) => {
                    return Err(message);
                },
            };
            Ok(AuditStep::Query { wanted: AuditQuery { actor, action, from: start, to: end } })
        },
    }
}

/// A query as a mathematical value.
pub struct QueryView {
    pub actor: Option<Seq<char>>,
    pub action: Option<Seq<char>>,
    pub from: Option<crate::timestamp::TimeView>,
    pub to: Option<crate::timestamp::TimeView>,
}

/// The view of the query of a step, or of the reason why there is none.
pub open spec fn query_view(r: Result<AuditStep, String>) -> Option<Result<QueryView, Seq<char>>> {
    match r {
        Ok(AuditStep::Query { wanted }) => Some(
            Ok(
                QueryView {
                    actor: wanted.actor.deep_view(),
                    action: wanted.action.deep_view(),
                    from: wanted.from.deep_view(),
                    to: wanted.to.deep_view(),
                },
            ),
        ),
        Ok(_) => None,
        Err(message) => Some(Err(message@)),
    }
}

/// What a text bounds a query by, if there is one.
pub open spec fn bound_of(text: Option<String>, end_of_day: bool) -> Result<
    Option<crate::timestamp::TimeView>,
    Seq<char>,
> {
    match text {
        None => Ok(None),
        Some(t) => match crate::audit::parsed_bound(t@, end_of_day) {
            Ok(bound) => Ok(Some(bound)),
            Err(message) => Err(message),
        },
    }
}

/// The query that is asked: a day as the start is meant from its first second on, and as
/// the end up to its last.
pub open spec fn asked(
    actor: Option<String>,
    action: Option<String>,
    from: Option<String>,
    to: Option<String>,
) -> Option<Result<QueryView, Seq<char>>> {
    match (bound_of(from, false), bound_of(to, true)) {
        (Err(message), _) => Some(Err(message)),
        (_, Err(message)) => Some(Err(message)),
        (Ok(start), Ok(end)) => Some(
            Ok(
                QueryView {
                    actor: actor.deep_view(),
                    action: action.deep_view(),
                    from: start,
                    to: end,
                },
            ),
        ),
    }
}

/// What is said of a chain that is in order.
pub fn verified_line(records: u64) -> (r: String)
    ensures
        r@ == "Audit chain verified: "@ + crate::text::decimal(records as nat) + " records OK"@,
{
    concat3("Audit chain verified: ", &decimal_of(records), " records OK")
}

} // verus!
