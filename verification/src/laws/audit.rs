//! The audit trail: what is noted, what is verified and what is found in it.

use vstd::prelude::*;

use crate::audit::{AuditNote, AuditQuery, AuditView};
use crate::timestamp::TimeView;

verus! {

/// The answer to a query holds a record of the trail if and only if it meets every condition
/// that is given: the actor and the action are the ones asked for, and its time is neither
/// before the lower nor after the upper bound.
pub proof fn answer_meets_the_query(
    records: Seq<AuditView>,
    query: AuditQuery,
    record: AuditView,
)
    ensures
        crate::audit::answered(records, query).contains(record) <==> {
            &&& records.contains(record)
            &&& query.actor is Some ==> record.actor == query.actor->0@
            &&& query.action is Some ==> record.action == query.action->0@
            &&& query.from is Some ==> !record.ts.before(query.from->0@)
            &&& query.to is Some ==> !query.to->0@.before(record.ts)
        },
    decreases records.len(),
{
    let found = crate::audit::answered(records, query);
    if records.len() > 0 {
        let front = records.drop_last();
        let last = records.last();
        let before = crate::audit::answered(front, query);
        answer_meets_the_query(front, query, record);
        if records.contains(record) {
            let i = records.index_of(record);
            if i < front.len() {
                assert(front[i] == record);
            }
        }
        if front.contains(record) {
            let i = front.index_of(record);
            assert(records[i] == record);
        }
        assert(records[records.len() - 1] == last);
        if before.contains(record) {
            let i = before.index_of(record);
            assert(found[i] == record);
        }
        if query.wants(last) {
            assert(found[found.len() - 1] == last);
            if found.contains(record) {
                let i = found.index_of(record);
                if i < before.len() {
                    assert(before[i] == record);
                }
            }
        }
    } else {
        assert(found.len() == 0);
    }
}

/// Every record that meets a query is in the answer as often as in the trail, and what is
/// added to the end of the trail is added to the end of the answer.
pub proof fn answer_keeps_the_order(records: Seq<AuditView>, query: AuditQuery, next: AuditView)
    ensures
        ({
            let shorter = crate::audit::answered(records, query);
            let longer = crate::audit::answered(records.push(next), query);
            let meets = {
                &&& query.actor is Some ==> next.actor == query.actor->0@
                &&& query.action is Some ==> next.action == query.action->0@
                &&& query.from is Some ==> !next.ts.before(query.from->0@)
                &&& query.to is Some ==> !query.to->0@.before(next.ts)
            };
            longer == if meets {
                shorter.push(next)
            } else {
                shorter
            }
        }),
{
    assert(records.push(next).drop_last() =~= records);
}

/// A day as the lower bound of a query begins with its first second, and as the upper bound
/// ends with its last; an instant bounds as it stands.
pub proof fn days_bound_whole(text: Seq<char>, instant: TimeView, day: int, at: TimeView)
    ensures
        ({
            let from = crate::audit::bound_given(text, None, Ok(day), false);
            let to = crate::audit::bound_given(text, None, Ok(day), true);
            &&& from is Ok && to is Ok
            &&& at.nanos == 0 ==> (from->Ok_0.not_after(at) && at.not_after(to->Ok_0) <==> at.secs
                / 86400 == day)
            &&& forall|end: bool|
                crate::audit::bound_given(text, Some(instant), Ok(day), end) == Ok::<_, Seq<char>>(
                    instant,
                )
            &&& forall|end: bool, why: Seq<char>|
                (#[trigger] crate::audit::bound_given(text, None, Err(why), end)) is Err
        }),
{
}

/// A note is written down as it stands, behind the end of the trail: its record has the next
/// number, names the hash of the one before, and says who did what with which outcome.
pub proof fn note_is_written_as_it_stands(
    end: (u64, Seq<char>),
    ts: TimeView,
    note: AuditNote,
)
    requires
        end.0 < u64::MAX,
    ensures
        ({
            let record = crate::audit::next_record(end, ts, note);
            &&& record.seq == end.0 + 1
            &&& record.prev_hash == end.1
            &&& record.hash == record.computed_hash()
            &&& record.ts == ts
            &&& record.node_id == note.node_id@
            &&& record.action == note.action@
            &&& record.outcome == note.outcome@
            &&& record.status == note.status
            &&& record.actor == note.actor@
            &&& record.role == note.role@
            &&& record.tenant_id == note.tenant_id.deep_view()
            &&& record.reason == note.reason.deep_view()
        }),
{
    crate::audit::hash_is_of_the_rest(
        crate::audit::record_behind(end, ts, note),
        crate::audit::record_behind(end, ts, note).computed_hash(),
    );
}

/// A chain is in order exactly if its records are numbered from one on, the first names no
/// hash and every other one that of the record before it, and each carries the digest of
/// what it says.
pub proof fn chain_in_order_means(records: Seq<AuditView>)
    requires
        records.len() <= u64::MAX,
    ensures
        crate::audit::chain_valid(records) <==> forall|i: int|
            0 <= i < records.len() ==> {
                &&& (#[trigger] records[i]).seq == i + 1
                &&& i == 0 ==> records[i].prev_hash.len() == 0
                &&& i > 0 ==> records[i].prev_hash == records[i - 1].hash
                &&& records[i].hash == crate::text::hex_bytes(
                    crate::audit::sha256(records[i].canonical()),
                )
            },
{
    if crate::audit::chain_valid(records) {
        assert forall|i: int| 0 <= i < records.len() implies {
            &&& (#[trigger] records[i]).seq == i + 1
            &&& i == 0 ==> records[i].prev_hash.len() == 0
            &&& i > 0 ==> records[i].prev_hash == records[i - 1].hash
            &&& records[i].hash == crate::text::hex_bytes(
                crate::audit::sha256(records[i].canonical()),
            )
        } by {
            assert(crate::audit::fault_at(records, i) is None);
        }
    } else {
        let i = choose|i: int|
            0 <= i < records.len() && !(#[trigger] crate::audit::fault_at(records, i) is None);
        let r = records[i];
        if i == 0 && r.prev_hash.len() == 0 {
            assert(r.prev_hash =~= Seq::empty());
        }
    }
}

/// What is wrong with a record is said of that record and names the first thing that is: its
/// number, the hash before it or its own hash.
pub proof fn fault_names_what_is_wrong(
    record: AuditView,
    seq: u64,
    prev_hash: Seq<char>,
    computed: Seq<char>,
)
    ensures
        ({
            let fault = crate::audit::record_fault(record, seq, prev_hash, computed);
            let start = "TAMPERED: record seq="@ + crate::text::decimal(record.seq as nat);
            &&& fault is None <==> record.seq == seq && record.prev_hash == prev_hash
                && record.hash == computed
            &&& record.seq != seq ==> fault == Some(
                start + " sequence mismatch, expected "@ + crate::text::decimal(seq as nat),
            )
            &&& record.seq == seq && record.prev_hash != prev_hash ==> fault == Some(
                start + " prev_hash mismatch"@,
            )
            &&& record.seq == seq && record.prev_hash == prev_hash && record.hash != computed
                ==> fault == Some(start + " hash mismatch"@)
        }),
{
}

/// A trail without a broken line is verified exactly if its chain is in order, and then with
/// the number of its records.
pub proof fn whole_trail_is_verified_by_its_chain(
    lines: Seq<crate::log::LineView<AuditView>>,
)
    requires
        crate::log::all_readable(lines),
    ensures
        crate::audit::verdict(lines) is Ok <==> crate::audit::chain_valid(
            crate::log::values(lines),
        ),
        crate::audit::verdict(lines) is Ok ==> crate::audit::verdict(lines)->Ok_0
            == crate::log::values(lines).len(),
{
}

/// A line that cannot be read makes a trail whose records are in order invalid, unless it is
/// the beginning of a record with nothing behind it.
pub proof fn broken_line_is_reported(lines: Seq<crate::log::LineView<AuditView>>, at: int)
    requires
        0 <= at < lines.len(),
        lines[at] is Broken,
        forall|i: int| 0 <= i < at ==> !((#[trigger] lines[i]) is Broken),
        crate::audit::chain_valid(crate::log::values(lines.take(at))),
    ensures
        crate::audit::verdict(lines) is Ok <==> lines[at]->eof && forall|i: int|
            at < i < lines.len() ==> (#[trigger] lines[i]) is Blank,
        crate::audit::verdict(lines) is Ok ==> crate::audit::verdict(lines)->Ok_0
            == crate::log::values(lines.take(at)).len(),
{
    assert(crate::log::first_broken(lines, at));
    let chosen = choose|at: int| crate::log::first_broken(lines, at);
    assert(chosen == at);
    assert(!crate::log::all_readable(lines));
}

/// The values of lines are those of the lines that hold one, in their order: blank lines
/// count for nothing.
pub proof fn values_are_those_of_the_lines(
    lines: Seq<crate::log::LineView<AuditView>>,
    record: AuditView,
)
    ensures
        crate::log::values(lines.push(crate::log::LineView::Value(record))) == crate::log::values(
            lines,
        ).push(record),
        crate::log::values(lines.push(crate::log::LineView::Blank)) == crate::log::values(lines),
        crate::log::values(Seq::<crate::log::LineView<AuditView>>::empty()).len() == 0,
{
    assert(lines.push(crate::log::LineView::Value(record)).drop_last() =~= lines);
    assert(lines.push(crate::log::LineView::Blank).drop_last() =~= lines);
}

/// Whether a record stands in order at its place: it has the number of the place, names the hash
/// of the record before it, and carries the digest of what it says.
pub open spec fn in_order(records: Seq<AuditView>, i: int) -> bool {
    &&& records[i].seq == i + 1
    &&& i == 0 ==> records[i].prev_hash.len() == 0
    &&& i > 0 ==> records[i].prev_hash == records[i - 1].hash
    &&& records[i].hash == crate::text::hex_bytes(crate::audit::sha256(records[i].canonical()))
}

/// Of a trail whose records are not all in order what is reported is the first one that is not,
/// and what is wrong with it.
pub proof fn first_record_out_of_order_is_reported(
    lines: Seq<crate::log::LineView<AuditView>>,
    at: int,
)
    requires
        forall|i: int|
            0 <= i < lines.len() ==> !((#[trigger] lines[i]) is Broken),
        0 <= at < crate::log::values(lines).len() <= u64::MAX,
        !in_order(crate::log::values(lines), at),
        forall|i: int| 0 <= i < at ==> #[trigger] in_order(crate::log::values(lines), i),
    ensures
        ({
            let records = crate::log::values(lines);
            let before = if at == 0 {
                Seq::empty()
            } else {
                records[at - 1].hash
            };
            crate::audit::verdict(lines) == Err::<nat, _>(
                crate::audit::record_fault(
                    records[at],
                    (at + 1) as u64,
                    before,
                    records[at].computed_hash(),
                )->0,
            )
        }),
{
    let records = crate::log::values(lines);
    assert(crate::log::all_readable(lines));
    assert forall|i: int| 0 <= i < records.len() implies (#[trigger] crate::audit::fault_at(
        records,
        i,
    ) is None <==> in_order(records, i)) by {
        if records[i].prev_hash.len() == 0 {
            assert(records[i].prev_hash =~= Seq::empty());
        }
    }
    assert(crate::audit::fault_at(records, at) is Some);
    assert(crate::audit::first_fault(records, at)) by {
        assert forall|i: int| 0 <= i < at implies #[trigger] crate::audit::fault_at(
            records,
            i,
        ) is None by {
            assert(in_order(records, i));
        }
    }
    let other = choose|other: int| crate::audit::first_fault(records, other);
    assert(other == at) by {
        assert(crate::audit::first_fault(records, other));
        if other < at {
            assert(crate::audit::fault_at(records, other) is None);
        } else if at < other {
            assert(crate::audit::fault_at(records, at) is None);
        }
    }
}

} // verus!
