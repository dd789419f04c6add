//! What is written to disk and read back: the log of a process, its snapshots, and the entries
//! and segments of a node.

use vstd::prelude::*;

use crate::error::KronErrorView;
use crate::event::LogEntryView;
use crate::openraft_adapter::entry_log::{EntryView, IndexBound};
use crate::openraft_adapter::segment::RecordView;
use crate::snapshot::{LoadPlan, SnapshotView};
use crate::state::StateView;

verus! {

/// The history of a timer grows by the events about it, at its end, and by no others.
pub proof fn history_grows_by_its_events(
    entries: Seq<LogEntryView>,
    entry: LogEntryView,
    timer: Seq<char>,
)
    ensures
        ({
            let before = crate::log::entries_of(entries, timer);
            let after = crate::log::entries_of(entries.push(entry), timer);
            &&& entry.event.timer() == timer ==> after == before.push(entry)
            &&& entry.event.timer() != timer ==> after == before
        }),
        crate::log::entries_of(Seq::empty(), timer).len() == 0,
{
    assert(entries.push(entry).drop_last() =~= entries);
}

/// Of a history at most as much is shown as is asked for, and it is the latest part.
pub proof fn latest_part_is_shown(all: Seq<LogEntryView>, limit: Option<usize>)
    ensures
        ({
            let shown = crate::log::last_of(all, limit);
            &&& limit is None ==> shown == all
            &&& limit is Some && limit->0 >= all.len() ==> shown == all
            &&& limit is Some && limit->0 < all.len() ==> shown.len() == limit->0
            &&& shown.len() <= all.len()
            &&& forall|i: int|
                0 <= i < shown.len() ==> #[trigger] shown[i] == all[all.len() - shown.len() + i]
        }),
{
}

/// A log that is whole is read back as its entries; one that is broken in its middle, or at an
/// end that is not merely cut off, is reported with the line and what is wrong with it.
pub proof fn log_is_read_up_to_what_is_broken(
    lines: Seq<crate::log::LineView<LogEntryView>>,
    at: int,
    path: Seq<char>,
)
    requires
        0 <= at < lines.len(),
        lines[at] is Broken,
        forall|i: int| 0 <= i < at ==> !((#[trigger] lines[i]) is Broken),
    ensures
        ({
            let read = crate::log::replayed(lines, path);
            let cut_off = lines[at]->eof && forall|i: int|
                at < i < lines.len() ==> (#[trigger] lines[i]) is Blank;
            &&& cut_off ==> read == Ok::<_, KronErrorView>(crate::log::values(lines.take(at)))
            &&& !cut_off ==> read == Err::<Seq<LogEntryView>, _>(
                KronErrorView::CorruptLog {
                    path,
                    line: (at + 1) as nat,
                    source: lines[at]->message,
                },
            )
        }),
{
    assert(crate::log::first_broken(lines, at));
    let other = choose|other: int| crate::log::first_broken(lines, other);
    assert(other == at) by {
        assert(crate::log::first_broken(lines, other));
        if other < at {
            assert(!(lines[other] is Broken));
        } else if at < other {
            assert(!(lines[at] is Broken));
        }
    }
}

/// A log whose lines can all be read gives its values.
pub proof fn readable_log_is_read(
    lines: Seq<crate::log::LineView<LogEntryView>>,
    path: Seq<char>,
)
    requires
        forall|i: int| 0 <= i < lines.len() ==> !((#[trigger] lines[i]) is Broken),
    ensures
        crate::log::replayed(lines, path) == Ok::<_, KronErrorView>(crate::log::values(lines)),
{
}

/// A snapshot holds the state but for the functions that are registered, and where in the log
/// it was taken.
pub proof fn snapshot_holds_the_state(
    state: StateView,
    offset: u64,
    created_at: crate::timestamp::TimeView,
)
    ensures
        ({
            let snapshot = state.snapshot(offset, created_at);
            &&& snapshot.last_aof_offset == offset
            &&& snapshot.created_at == created_at
            &&& snapshot.engine_version == crate::snapshot::ENGINE_VERSION@
            &&& snapshot.state == StateView { fn_names: snapshot.state.fn_names, ..state }
            &&& forall|name: Seq<char>| !snapshot.state.fn_names.dom().contains(name)
            &&& snapshot.restored() == Ok::<_, KronErrorView>(snapshot.state)
        }),
{
}

/// A snapshot of another version than the one that is written is refused, as is one of another
/// format of the files.
pub proof fn other_versions_are_refused(
    state: StateView,
    offset: u64,
    created_at: crate::timestamp::TimeView,
    snapshot: SnapshotView,
)
    ensures
        ({
            let written = state.snapshot(offset, created_at);
            snapshot.restored() is Ok <==> snapshot.v == written.v && snapshot.format_version
                == written.format_version
        }),
        snapshot.restored() is Ok ==> snapshot.restored()->Ok_0 == snapshot.state,
        snapshot.restored() is Err ==> snapshot.restored()->Err_0 is InvalidSnapshot,
{
}

/// A log is read from where the snapshot was taken; where it is shorter than that, what was put
/// aside is read from there and then the whole log; and where nothing was put aside, nothing is
/// read.
pub proof fn log_is_read_from_the_snapshot_on(
    offset: u64,
    aof_len: u64,
    old_exists: bool,
    data_dir: Seq<char>,
)
    ensures
        ({
            let plan = crate::snapshot::load_plan(offset, aof_len, old_exists, data_dir);
            &&& plan is Err <==> aof_len < offset && !old_exists
            &&& plan is Err ==> plan->Err_0 is InvalidSnapshot
            &&& aof_len >= offset ==> plan == Ok::<_, KronErrorView>(LoadPlan::Tail { offset })
            &&& aof_len < offset && old_exists ==> plan == Ok::<_, KronErrorView>(
                LoadPlan::OldTailThenWhole { offset },
            )
        }),
{
}

/// An index is within bounds exactly if it is not below the lower one and not above the upper
/// one; a bound that is excluded is not within.
pub proof fn bounds_bound_an_index(index: u64, low: u64, high: u64)
    ensures
        crate::openraft_adapter::entry_log::within(
            IndexBound::Included(low),
            IndexBound::Included(high),
            index,
        ) <==> low <= index <= high,
        crate::openraft_adapter::entry_log::within(
            IndexBound::Included(low),
            IndexBound::Excluded(high),
            index,
        ) <==> low <= index < high,
        crate::openraft_adapter::entry_log::within(
            IndexBound::Excluded(low),
            IndexBound::Included(high),
            index,
        ) <==> low < index <= high,
        crate::openraft_adapter::entry_log::within(
            IndexBound::Excluded(low),
            IndexBound::Excluded(high),
            index,
        ) <==> low < index < high,
        crate::openraft_adapter::entry_log::within(
            IndexBound::Included(low),
            IndexBound::Unbounded,
            index,
        ) <==> low <= index,
        crate::openraft_adapter::entry_log::within(
            IndexBound::Excluded(low),
            IndexBound::Unbounded,
            index,
        ) <==> low < index,
        crate::openraft_adapter::entry_log::within(
            IndexBound::Unbounded,
            IndexBound::Included(high),
            index,
        ) <==> index <= high,
        crate::openraft_adapter::entry_log::within(
            IndexBound::Unbounded,
            IndexBound::Excluded(high),
            index,
        ) <==> index < high,
        crate::openraft_adapter::entry_log::within(
            IndexBound::Unbounded,
            IndexBound::Unbounded,
            index,
        ),
{
}

/// An entry is found under its index, and only there.
pub proof fn entry_is_found_under_its_index(entries: Seq<EntryView>, at: int, index: u64)
    requires
        crate::openraft_adapter::entry_log::ascending(entries),
    ensures
        ({
            let found = crate::openraft_adapter::entry_log::by_index(entries);
            &&& 0 <= at < entries.len() ==> found.dom().contains(entries[at].log_id.index)
                && found[entries[at].log_id.index] == entries[at]
            &&& found.dom().contains(index) ==> found[index].log_id.index == index
                && entries.contains(found[index])
        }),
{
    let found = crate::openraft_adapter::entry_log::by_index(entries);
    if 0 <= at < entries.len() {
        let key = entries[at].log_id.index;
        assert(crate::openraft_adapter::entry_log::stands_at(entries, key, at));
        let there = choose|there: int|
            crate::openraft_adapter::entry_log::stands_at(entries, key, there);
        assert(there == at) by {
            assert(crate::openraft_adapter::entry_log::stands_at(entries, key, there));
            if there < at {
                assert(entries[there].log_id.index < entries[at].log_id.index);
            } else if at < there {
                assert(entries[at].log_id.index < entries[there].log_id.index);
            }
        }
    }
    if found.dom().contains(index) {
        let there = choose|there: int|
            crate::openraft_adapter::entry_log::stands_at(entries, index, there);
        assert(crate::openraft_adapter::entry_log::stands_at(entries, index, there));
    }
}

/// Of the entries those are left that are within the bounds, as they were.
pub proof fn entries_within_bounds_are_left(
    entries: Map<u64, EntryView>,
    start: IndexBound,
    end: IndexBound,
    index: u64,
)
    ensures
        ({
            let left = crate::openraft_adapter::entry_log::restricted(entries, start, end);
            &&& left.dom().contains(index) <==> entries.dom().contains(index)
                && crate::openraft_adapter::entry_log::within(start, end, index)
            &&& left.dom().contains(index) ==> left[index] == entries[index]
        }),
{
}

/// The length of records that were written one behind the other is the sum of their lengths.
proof fn one_more_record(records: Seq<RecordView>, n: int)
    requires
        0 < n <= records.len(),
    ensures
        crate::openraft_adapter::segment::encoded_all(records.take(n)).len()
            == crate::openraft_adapter::segment::encoded(records[0]).len()
            + crate::openraft_adapter::segment::encoded_all(records.skip(1).take(n - 1)).len(),
{
    assert(records.take(n)[0] == records[0]);
    assert(records.take(n).skip(1) =~= records.skip(1).take(n - 1));
}

/// A segment takes records as long as it has not reached its size: it has reached it when a
/// record is left over, and had not before its last record.
pub proof fn segment_is_filled_to_its_size(records: Seq<RecordView>, size: nat)
    ensures
        ({
            let n = crate::openraft_adapter::segment::segment_take(records, size) as int;
            let filled = |k: int|
                size + crate::openraft_adapter::segment::encoded_all(records.take(k)).len();
            &&& n <= records.len()
            &&& n < records.len() ==> filled(n)
                >= crate::openraft_adapter::segment::LOG_SEGMENT_MAX_BYTES
            &&& n > 0 ==> filled(n - 1) < crate::openraft_adapter::segment::LOG_SEGMENT_MAX_BYTES
        }),
    decreases records.len(),
{
    let n = crate::openraft_adapter::segment::segment_take(records, size) as int;
    assert(records.take(0) =~= Seq::<RecordView>::empty());
    if records.len() > 0 && size < crate::openraft_adapter::segment::LOG_SEGMENT_MAX_BYTES {
        let more = size + crate::openraft_adapter::segment::encoded(records[0]).len();
        segment_is_filled_to_its_size(records.skip(1), more);
        one_more_record(records, n);
        if n > 1 {
            one_more_record(records, n - 1);
        }
    }
}

} // verus!
