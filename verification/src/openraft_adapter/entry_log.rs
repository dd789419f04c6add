//! The entries of the replicated log that have not been purged.

use vstd::prelude::*;

use crate::cluster::{CommandView, RaftCommand};

verus! {

/// The place of an entry in the replicated log, and the leader that put it there.
#[derive(Debug, Clone, Copy, PartialEq, Eq, Structural)]
pub struct LogId {
    pub term: u64,
    pub node_id: u64,
    pub index: u64,
}

/// What an entry of the replicated log holds. A membership is the text of a JSON value.
#[derive(Debug)]
pub enum EntryPayload {
    Blank,
    Normal(RaftCommand),
    Membership(String),
}

/// An [`EntryPayload`] as a mathematical value.
pub enum PayloadView {
    Blank,
    Normal(CommandView),
    Membership(Seq<char>),
}

impl View for EntryPayload {
    type V = PayloadView;

    open spec fn view(&self) -> PayloadView {
        match self {
            EntryPayload::Blank => PayloadView::Blank,
            EntryPayload::Normal(command) => PayloadView::Normal(command@),
            EntryPayload::Membership(text) => PayloadView::Membership(text@),
        }
    }
}

/// An entry of the replicated log.
#[derive(Debug)]
pub struct StoredEntry {
    pub log_id: LogId,
    pub payload: EntryPayload,
}

/// A [`StoredEntry`] as a mathematical value.
pub struct EntryView {
    pub log_id: LogId,
    pub payload: PayloadView,
}

impl View for StoredEntry {
    type V = EntryView;

    open spec fn view(&self) -> EntryView {
        EntryView { log_id: self.log_id, payload: self.payload@ }
    }
}

impl DeepView for StoredEntry {
    type V = EntryView;

    open spec fn deep_view(&self) -> EntryView {
        self@
    }
}

impl Clone for StoredEntry {
    fn clone(&self) -> (r: Self)
        ensures
            r@ == self@,
    {
        StoredEntry {
            log_id: self.log_id,
            payload: match &self.payload {
                EntryPayload::Blank => EntryPayload::Blank,
                EntryPayload::Normal(command) => EntryPayload::Normal(command.clone()),
                EntryPayload::Membership(text) => EntryPayload::Membership(text.clone()),
            },
        }
    }
}

/// One end of a range of indexes.
#[derive(Debug, Clone, Copy, PartialEq, Eq, Structural)]
pub enum IndexBound {
    Included(u64),
    Excluded(u64),
    Unbounded,
}

/// Whether an index lies between two ends of a range.
pub open spec fn within(start: IndexBound, end: IndexBound, index: u64) -> bool {
    &&& match start {
        IndexBound::Included(s) => s <= index,
        IndexBound::Excluded(s) => s < index,
        IndexBound::Unbounded => true,
    }
    &&& match end {
        IndexBound::Included(e) => index <= e,
        IndexBound::Excluded(e) => index < e,
        IndexBound::Unbounded => true,
    }
}

/// Whether an index lies between two ends of a range.
pub fn contains(start: IndexBound, end: IndexBound, value: u64) -> (r: bool)
    ensures
        r == within(start, end, value),
{
    let start_ok = match start {
        IndexBound::Included(s) => value >= s,
        IndexBound::Excluded(s) => value > s,
        IndexBound::Unbounded => true,
    };
    let end_ok = match end {
        IndexBound::Included(e) => value <= e,
        IndexBound::Excluded(e) => value < e,
        IndexBound::Unbounded => true,
    };
    start_ok && end_ok
}

/// Whether the indexes of the entries go up.
pub open spec fn ascending(entries: Seq<EntryView>) -> bool {
    forall|i: int, j: int|
        0 <= i < j < entries.len() ==> (#[trigger] entries[i]).log_id.index < (
        #[trigger] entries[j]).log_id.index
}

/// Whether the entry at the position has the index.
pub open spec fn stands_at(entries: Seq<EntryView>, index: u64, at: int) -> bool {
    0 <= at < entries.len() && entries[at].log_id.index == index
}

/// The entries by their indexes.
pub open spec fn by_index(entries: Seq<EntryView>) -> Map<u64, EntryView> {
    Map::new(
        |index: u64| exists|at: int| stands_at(entries, index, at),
        |index: u64| entries[choose|at: int| stands_at(entries, index, at)],
    )
}

proof fn by_index_at(entries: Seq<EntryView>, at: int)
    requires
        ascending(entries),
        0 <= at < entries.len(),
    ensures
        by_index(entries).dom().contains(entries[at].log_id.index),
        by_index(entries)[entries[at].log_id.index] == entries[at],
{
    let index = entries[at].log_id.index;
    assert(stands_at(entries, index, at));
    let chosen = choose|at: int| stands_at(entries, index, at);
    assert(chosen == at);
}

/// The entries whose indexes lie between two ends of a range.
pub open spec fn restricted(
    entries: Map<u64, EntryView>,
    start: IndexBound,
    end: IndexBound,
) -> Map<u64, EntryView> {
    Map::new(
        |index: u64| entries.dom().contains(index) && within(start, end, index),
        |index: u64| entries[index],
    )
}

/// The entries of the replicated log, in the order of their indexes.
pub struct EntryLog {
    entries: Vec<StoredEntry>,
}

impl View for EntryLog {
    type V = Map<u64, EntryView>;

    closed spec fn view(&self) -> Map<u64, EntryView> {
        by_index(self.entries.deep_view())
    }
}

impl EntryLog {
    #[verifier::type_invariant]
    spec fn sorted(self) -> bool {
        ascending(self.entries.deep_view())
    }

    /// A log without entries.
    pub fn new() -> (r: Self)
        ensures
            r@ == Map::<u64, EntryView>::empty(),
    {
        let entries: Vec<StoredEntry> = Vec::new();
        assert(by_index(entries.deep_view()) =~= Map::<u64, EntryView>::empty());
        EntryLog { entries }
    }

    /// Adds an entry, in place of one with the same index.
    pub fn insert(&mut self, entry: StoredEntry)
        ensures
            final(self)@ == old(self)@.insert(entry@.log_id.index, entry@),
    {
        proof {
            use_type_invariant(&*self);
        }
        let ghost before = self.entries.deep_view();
        let ghost new = entry@;
        let mut entries: Vec<StoredEntry> = Vec::new();
        core::mem::swap(&mut entries, &mut self.entries);
        let index: u64 = entry.log_id.index;
        let mut at: usize = entries.len();
        while at > 0 && entries[at - 1].log_id.index >= index
            invariant
                at <= entries@.len(),
                before == entries.deep_view(),
                ascending(before),
                forall|i: int|
                    at <= i < before.len() ==> (#[trigger] before[i]).log_id.index >= index,
            decreases at,
        {
            assert(before[at - 1] == entries@[at - 1]@);
            at = at - 1;
        }
        proof {
            if at > 0 {
                assert(before[at - 1] == entries@[at - 1]@);
                assert(before[at - 1].log_id.index < index);
            }
        }
        let replaces = at < entries.len() && entries[at].log_id.index == index;
        if replaces {
            assert(before[at as int] == entries@[at as int]@);
            entries.set(at, entry);
            proof {
                let after = entries.deep_view();
                assert(after =~= before.update(at as int, new));
                assert(ascending(after));
                changed_at(before, after, new, at as int);
            }
        } else {
            proof {
                if at < before.len() {
                    assert(before[at as int] == entries@[at as int]@);
                }
            }
            entries.insert(at, entry);
            proof {
                let after = entries.deep_view();
                assert(after =~= before.insert(at as int, new));
                assert forall|i: int, j: int| 0 <= i < j < after.len() implies (
                #[trigger] after[i]).log_id.index < (#[trigger] after[j]).log_id.index by {
                    let (x, y) = (
                        if i < at {
                            i
                        } else {
                            i - 1
                        },
                        if j < at {
                            j
                        } else {
                            j - 1
                        },
                    );
                    if i == at {
                        assert(after[j] == before[y]);
                        assert(before[at as int].log_id.index > index);
                    } else if j == at {
                        assert(after[i] == before[x]);
                        assert(before[x].log_id.index <= before[at - 1].log_id.index);
                    } else {
                        assert(after[i] == before[x]);
                        assert(after[j] == before[y]);
                    }
                }
                inserted_at(before, after, new, at as int);
            }
        }
        self.entries = entries;
    }

    /// Keeps the entries whose indexes lie between two ends of a range.
    pub fn retain(&mut self, start: IndexBound, end: IndexBound)
        ensures
            final(self)@ == restricted(old(self)@, start, end),
    {
        proof {
            use_type_invariant(&*self);
        }
        let ghost before = self.entries.deep_view();
        let mut entries: Vec<StoredEntry> = Vec::new();
        core::mem::swap(&mut entries, &mut self.entries);
        let mut kept: Vec<StoredEntry> = Vec::new();
        for entry in it: entries
            invariant
                before == entries.deep_view(),
                it.seq() == entries@,
                kept.deep_view() == chosen_from(before.take(it.index() as int), start, end),
        {
            let ghost seen = it.index() as int;
            let ghost front = kept.deep_view();
            let ghost e = entry@;
            proof {
                assert(e == before[seen]);
                assert(before.take(seen + 1).drop_last() =~= before.take(seen));
            }
            if contains(start, end, entry.log_id.index) {
                kept.push(entry);
                assert(kept.deep_view() =~= front.push(e));
            }
        }
        proof {
            assert(before.take(before.len() as int) =~= before);
            chosen_are_restricted(before, start, end);
        }
        self.entries = kept;
    }

    /// The entries whose indexes lie between two ends of a range, in order.
    pub fn range(&self, start: IndexBound, end: IndexBound) -> (r: Vec<StoredEntry>)
        ensures
            ascending(r.deep_view()),
            by_index(r.deep_view()) == restricted(self@, start, end),
    {
        proof {
            use_type_invariant(self);
        }
        let ghost all = self.entries.deep_view();
        let mut out: Vec<StoredEntry> = Vec::new();
        let mut i: usize = 0;
        assert(all.take(0) =~= Seq::<EntryView>::empty());
        assert(out.deep_view() =~= chosen_from(all.take(0), start, end));
        while i < self.entries.len()
            invariant
                i <= self.entries@.len(),
                all == self.entries.deep_view(),
                out.deep_view() == chosen_from(all.take(i as int), start, end),
            decreases self.entries@.len() - i,
        {
            let ghost front = out.deep_view();
            proof {
                assert(all.take(i + 1).drop_last() =~= all.take(i as int));
                assert(all.take(i + 1).last() == self.entries@[i as int]@);
            }
            if contains(start, end, self.entries[i].log_id.index) {
                out.push(self.entries[i].clone());
                assert(out.deep_view() =~= front.push(self.entries@[i as int]@));
            }
            i = i + 1;
        }
        proof {
            assert(all.take(all.len() as int) =~= all);
            chosen_are_restricted(all, start, end);
        }
        out
    }

    /// The place of the entry with the largest index.
    pub fn last_log_id(&self) -> (r: Option<LogId>)
        ensures
            match r {
                Some(id) => {
                    &&& self@.dom().contains(id.index)
                    &&& self@[id.index].log_id == id
                    &&& forall|index: u64| #[trigger] self@.dom().contains(index) ==> index
                        <= id.index
                },
                None => self@ == Map::<u64, EntryView>::empty(),
            },
    {
        proof {
            use_type_invariant(self);
        }
        let ghost all = self.entries.deep_view();
        let n: usize = self.entries.len();
        if n == 0 {
            assert(self@ =~= Map::<u64, EntryView>::empty());
            return None;
        }
        proof {
            assert(all[n - 1] == self.entries@[n - 1]@);
            by_index_at(all, n - 1);
            assert forall|index: u64| #[trigger] self@.dom().contains(index) implies index <= all[n
                - 1].log_id.index by {
                let at = choose|at: int| stands_at(all, index, at);
                assert(stands_at(all, index, at));
                if at < n - 1 {
                    assert(all[at].log_id.index < all[n - 1].log_id.index);
                }
            }
        }
        Some(self.entries[n - 1].log_id)
    }
}

/// The entries whose indexes lie between two ends of a range, in order.
spec fn chosen_from(entries: Seq<EntryView>, start: IndexBound, end: IndexBound) -> Seq<EntryView>
    decreases entries.len(),
{
    if entries.len() == 0 {
        Seq::empty()
    } else {
        let front = chosen_from(entries.drop_last(), start, end);
        if within(start, end, entries.last().log_id.index) {
            front.push(entries.last())
        } else {
            front
        }
    }
}

proof fn chosen_have_places(entries: Seq<EntryView>, start: IndexBound, end: IndexBound)
    requires
        ascending(entries),
    ensures
        ({
            let chosen = chosen_from(entries, start, end);
            &&& ascending(chosen)
            &&& forall|i: int|
                0 <= i < chosen.len() ==> within(start, end, (#[trigger] chosen[i]).log_id.index)
                    && entries.contains(chosen[i])
            &&& forall|i: int|
                0 <= i < entries.len() && within(
                    start,
                    end,
                    (#[trigger] entries[i]).log_id.index,
                ) ==> chosen.contains(entries[i])
        }),
    decreases entries.len(),
{
    if entries.len() > 0 {
        let (front, last) = (entries.drop_last(), entries.last());
        assert(ascending(front));
        chosen_have_places(front, start, end);
        let before = chosen_from(front, start, end);
        let chosen = chosen_from(entries, start, end);
        assert forall|i: int| 0 <= i < before.len() implies (#[trigger] before[i]).log_id.index
            < last.log_id.index && entries.contains(before[i]) by {
            assert(front.contains(before[i]));
            let k = front.index_of(before[i]);
            assert(entries[k] == before[i]);
            assert(entries[k].log_id.index < entries[entries.len() - 1].log_id.index);
        }
        assert(entries.contains(last)) by {
            assert(entries[entries.len() - 1] == last);
        }
        assert forall|i: int|
            0 <= i < entries.len() && within(start, end, (#[trigger] entries[i]).log_id.index) implies
        chosen.contains(entries[i]) by {
            if i < entries.len() - 1 {
                assert(front[i] == entries[i]);
                assert(before.contains(front[i]));
                let k = before.index_of(front[i]);
                assert(chosen[k] == entries[i]);
            } else {
                assert(chosen[chosen.len() - 1] == last);
            }
        }
    }
}

proof fn chosen_are_restricted(entries: Seq<EntryView>, start: IndexBound, end: IndexBound)
    requires
        ascending(entries),
    ensures
        ascending(chosen_from(entries, start, end)),
        by_index(chosen_from(entries, start, end)) == restricted(by_index(entries), start, end),
{
    let chosen = chosen_from(entries, start, end);
    chosen_have_places(entries, start, end);
    let (a, b) = (by_index(chosen), restricted(by_index(entries), start, end));
    assert forall|index: u64| #[trigger] a.dom().contains(index) <==> b.dom().contains(index) by {
        if a.dom().contains(index) {
            let at = choose|at: int| stands_at(chosen, index, at);
            assert(entries.contains(chosen[at]));
            assert(stands_at(entries, index, entries.index_of(chosen[at])));
        }
        if b.dom().contains(index) {
            let at = choose|at: int| stands_at(entries, index, at);
            assert(chosen.contains(entries[at]));
            assert(stands_at(chosen, index, chosen.index_of(entries[at])));
        }
    }
    assert forall|index: u64| #[trigger] a.dom().contains(index) implies a[index] == b[index] by {
        let at = choose|at: int| stands_at(chosen, index, at);
        let k = entries.index_of(chosen[at]);
        assert(entries.contains(chosen[at]));
        by_index_at(entries, k);
    }
    assert(a =~= b);
}

proof fn changed_at(before: Seq<EntryView>, after: Seq<EntryView>, new: EntryView, at: int)
    requires
        ascending(before),
        ascending(after),
        0 <= at < before.len(),
        before[at].log_id.index == new.log_id.index,
        after == before.update(at, new),
    ensures
        by_index(after) == by_index(before).insert(new.log_id.index, new),
{
    let (a, b) = (by_index(after), by_index(before).insert(new.log_id.index, new));
    assert forall|index: u64| #[trigger] a.dom().contains(index) <==> b.dom().contains(index) by {
        if a.dom().contains(index) {
            let k = choose|k: int| stands_at(after, index, k);
            assert(stands_at(before, index, k));
        }
        if index == new.log_id.index {
            assert(stands_at(after, index, at));
        } else if b.dom().contains(index) {
            let k = choose|k: int| stands_at(before, index, k);
            assert(stands_at(after, index, k));
        }
    }
    assert forall|index: u64| #[trigger] a.dom().contains(index) implies a[index] == b[index] by {
        let k = choose|k: int| stands_at(after, index, k);
        assert(stands_at(after, index, k));
        if k != at {
            by_index_at(before, k);
            assert(after[k].log_id.index != after[at].log_id.index);
        }
    }
    assert(a =~= b);
}

proof fn inserted_at(before: Seq<EntryView>, after: Seq<EntryView>, new: EntryView, at: int)
    requires
        ascending(before),
        ascending(after),
        0 <= at <= before.len(),
        after == before.insert(at, new),
    ensures
        by_index(after) == by_index(before).insert(new.log_id.index, new),
{
    let (a, b) = (by_index(after), by_index(before).insert(new.log_id.index, new));
    assert forall|index: u64| #[trigger] a.dom().contains(index) <==> b.dom().contains(index) by {
        if a.dom().contains(index) && index != new.log_id.index {
            let k = choose|k: int| stands_at(after, index, k);
            assert(stands_at(after, index, k));
            assert(stands_at(
                before,
                index,
                if k < at {
                    k
                } else {
                    k - 1
                },
            ));
        }
        if index == new.log_id.index {
            assert(stands_at(after, index, at));
        } else if b.dom().contains(index) {
            let k = choose|k: int| stands_at(before, index, k);
            assert(stands_at(before, index, k));
            assert(stands_at(
                after,
                index,
                if k < at {
                    k
                } else {
                    k + 1
                },
            ));
        }
    }
    assert forall|index: u64| #[trigger] a.dom().contains(index) implies a[index] == b[index] by {
        let k = choose|k: int| stands_at(after, index, k);
        assert(stands_at(after, index, k));
        if k == at {
            by_index_at(after, k);
        } else {
            let x = if k < at {
                k
            } else {
                k - 1
            };
            assert(after[k] == before[x]);
            by_index_at(before, x);
            assert(after[k].log_id.index != after[at].log_id.index);
        }
    }
    assert(a =~= b);
}

} // verus!
