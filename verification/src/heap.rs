//! The runs that wait for their time.

use vstd::multiset::Multiset;
use vstd::prelude::*;

use crate::timer::{RunId, TimerId};
use crate::timestamp::{TimeView, Timestamp};

verus! {

/// A run of a timer that waits for its time. A run that is tried again has a name
/// already; a new one gets it when it starts.
#[derive(Debug, PartialEq, Eq)]
pub struct ScheduledTimer {
    pub timer_id: TimerId,
    pub next_run_at: Timestamp,
    pub run_id: Option<RunId>,
    pub attempt: u32,
}

/// A [`ScheduledTimer`] as a mathematical value.
pub struct ScheduledView {
    pub timer_id: Seq<char>,
    pub next_run_at: TimeView,
    pub run_id: Option<Seq<char>>,
    pub attempt: u32,
}

impl View for ScheduledTimer {
    type V = ScheduledView;

    open spec fn view(&self) -> ScheduledView {
        ScheduledView {
            timer_id: self.timer_id@,
            next_run_at: self.next_run_at@,
            run_id: self.run_id.deep_view(),
            attempt: self.attempt,
        }
    }
}

impl DeepView for ScheduledTimer {
    type V = ScheduledView;

    open spec fn deep_view(&self) -> ScheduledView {
        self@
    }
}

/// The entries that are due.
pub open spec fn due_by(now: TimeView) -> spec_fn(ScheduledView) -> bool {
    |e: ScheduledView| e.next_run_at.not_after(now)
}

/// The entries that are not due yet.
pub open spec fn not_due_by(now: TimeView) -> spec_fn(ScheduledView) -> bool {
    |e: ScheduledView| now.before(e.next_run_at)
}

/// The entries of other timers.
pub open spec fn of_others(timer: Seq<char>) -> spec_fn(ScheduledView) -> bool {
    |e: ScheduledView| e.timer_id != timer
}

/// Whether the time is the nearest deadline of the entries; none if there is no entry.
pub open spec fn nearest(entries: Multiset<ScheduledView>, at: Option<TimeView>) -> bool {
    match at {
        Some(t) => {
            &&& exists|e: ScheduledView| #[trigger] entries.contains(e) && e.next_run_at == t
            &&& forall|e: ScheduledView| #[trigger]
                entries.contains(e) ==> t.not_after(e.next_run_at)
        },
        None => entries.len() == 0,
    }
}

/// Whether no entry has a later time than one that follows it.
pub open spec fn chronological(entries: Seq<ScheduledView>) -> bool {
    forall|i: int, j: int|
        0 <= i < j < entries.len() ==> (#[trigger] entries[i]).next_run_at.not_after(
            (#[trigger] entries[j]).next_run_at,
        )
}

/// The runs that wait for their time, nearest first.
pub struct TimerHeap {
    entries: Vec<ScheduledTimer>,
}

impl View for TimerHeap {
    type V = Multiset<ScheduledView>;

    closed spec fn view(&self) -> Multiset<ScheduledView> {
        self.entries.deep_view().to_multiset()
    }
}

impl TimerHeap {
    #[verifier::type_invariant]
    spec fn sorted(self) -> bool {
        chronological(self.entries.deep_view())
    }

    /// A heap without entries.
    pub fn new() -> (r: Self)
        ensures
            r@ == Multiset::<ScheduledView>::empty(),
    {
        let entries: Vec<ScheduledTimer> = Vec::new();
        proof {
            broadcast use vstd::seq_lib::group_to_multiset_ensures;

            assert(entries.deep_view() == Seq::<ScheduledView>::empty());
            assert(entries.deep_view().to_multiset().len() == 0);
            assert(entries.deep_view().to_multiset() =~= Multiset::empty());
        }
        TimerHeap { entries }
    }

    /// Adds an entry.
    pub fn push(&mut self, entry: ScheduledTimer)
        ensures
            final(self)@ == old(self)@.insert(entry@),
    {
        proof {
            use_type_invariant(&*self);
        }
        let ghost before = self.entries.deep_view();
        let mut entries: Vec<ScheduledTimer> = Vec::new();
        core::mem::swap(&mut entries, &mut self.entries);
        let mut at: usize = entries.len();
        while at > 0 && entry.next_run_at.before(&entries[at - 1].next_run_at)
            invariant
                at <= entries@.len(),
                before == entries.deep_view(),
                chronological(before),
                forall|i: int|
                    at <= i < before.len() ==> entry@.next_run_at.before(
                        (#[trigger] before[i]).next_run_at,
                    ),
            decreases at,
        {
            assert(before[at - 1] == entries@[at - 1]@);
            at = at - 1;
        }
        let ghost new = entry@;
        proof {
            if at > 0 {
                assert(before[at - 1] == entries@[at - 1]@);
            }
        }
        entries.insert(at, entry);
        proof {
            assert(entries.deep_view() =~= before.insert(at as int, new));
            vstd::seq_lib::to_multiset_insert(before, at as int, new);
            assert(chronological(entries.deep_view()));
        }
        self.entries = entries;
    }

    /// The nearest deadline.
    pub fn peek_next_at(&self) -> (r: Option<Timestamp>)
        ensures
            nearest(self@, r.deep_view()),
    {
        proof {
            use_type_invariant(self);
            broadcast use vstd::seq_lib::group_to_multiset_ensures;

        }
        let ghost views = self.entries.deep_view();
        if self.entries.len() == 0 {
            assert(views.len() == 0);
            return None;
        }
        proof {
            assert(views[0] == self.entries@[0]@);
            assert(views.contains(views[0]));
            assert(self@.contains(views[0]));
            assert forall|e: ScheduledView| #[trigger] self@.contains(e) implies views[0].next_run_at.not_after(
                e.next_run_at,
            ) by {
                assert(views.contains(e));
                let i = views.index_of(e);
                assert(views[i] == e);
            }
        }
        Some(self.entries[0].next_run_at)
    }

    /// Takes out all entries that are due, in chronological order.
    pub fn pop_due(&mut self, now: Timestamp) -> (r: Vec<ScheduledTimer>)
        ensures
            chronological(r.deep_view()),
            r.deep_view().to_multiset() == old(self)@.filter(due_by(now@)),
            final(self)@ == old(self)@.filter(not_due_by(now@)),
    {
        proof {
            use_type_invariant(&*self);
        }
        let ghost before = self.entries.deep_view();
        let mut due: Vec<ScheduledTimer> = Vec::new();
        core::mem::swap(&mut due, &mut self.entries);
        let mut k: usize = 0;
        while k < due.len() && due[k].next_run_at.not_after(&now)
            invariant
                k <= due@.len(),
                before == due.deep_view(),
                forall|i: int|
                    0 <= i < k ==> (#[trigger] before[i]).next_run_at.not_after(now@),
            decreases due@.len() - k,
        {
            assert(before[k as int] == due@[k as int]@);
            k = k + 1;
        }
        proof {
            if k < due@.len() {
                assert(before[k as int] == due@[k as int]@);
            }
        }
        let rest = due.split_off(k);
        proof {
            let (d, l) = (due.deep_view(), rest.deep_view());
            assert(d =~= before.take(k as int));
            assert(l =~= before.skip(k as int));
            assert(chronological(d));
            assert(chronological(l));
            assert forall|i: int| 0 <= i < l.len() implies now@.before(
                (#[trigger] l[i]).next_run_at,
            ) by {
                assert(l[i] == before[k + i]);
                assert(before[k as int].next_run_at.not_after(before[k + i].next_run_at));
            }
            split_by_time(d, l, now@);
            assert(before =~= d + l);
        }
        self.entries = rest;
        due
    }

    /// Takes out all entries of a timer.
    pub fn remove_timer(&mut self, id: &TimerId)
        ensures
            final(self)@ == old(self)@.filter(of_others(id@)),
    {
        proof {
            use_type_invariant(&*self);
        }
        let ghost before = self.entries.deep_view();
        let mut entries: Vec<ScheduledTimer> = Vec::new();
        core::mem::swap(&mut entries, &mut self.entries);
        let mut kept: Vec<ScheduledTimer> = Vec::new();
        let ghost others = of_others(id@);
        proof {
            broadcast use vstd::seq_lib::group_to_multiset_ensures;

            assert(kept.deep_view() =~= Seq::<ScheduledView>::empty());
            assert(before.take(0) =~= Seq::<ScheduledView>::empty());
            assert(Seq::<ScheduledView>::empty().to_multiset().len() == 0);
            assert(kept.deep_view().to_multiset() =~= before.take(0).to_multiset().filter(others));
        }
        for entry in it: entries
            invariant
                chronological(before),
                before == entries.deep_view(),
                it.seq() == entries@,
                others == of_others(id@),
                chronological(kept.deep_view()),
                kept.deep_view().to_multiset() == before.take(
                    it.index() as int,
                ).to_multiset().filter(others),
                forall|i: int, j: int|
                    0 <= i < kept@.len() && it.index() <= j < before.len()
                        ==> (#[trigger] kept.deep_view()[i]).next_run_at.not_after(
                        (#[trigger] before[j]).next_run_at,
                    ),
        {
            let ghost seen = it.index() as int;
            let ghost kept_before = kept.deep_view();
            let ghost e = entry@;
            proof {
                assert(e == before[seen]);
                assert(before.take(seen + 1) =~= before.take(seen).push(e));
                vstd::seq_lib::to_multiset_build(before.take(seen), e);
            }
            if !crate::text::same(entry.timer_id.as_str(), id.as_str()) {
                kept.push(entry);
                proof {
                    assert(kept.deep_view() =~= kept_before.push(e));
                    vstd::seq_lib::to_multiset_build(kept_before, e);
                    assert forall|i: int, j: int|
                        0 <= i < kept@.len() && seen + 1 <= j < before.len() implies (
                    #[trigger] kept.deep_view()[i]).next_run_at.not_after(
                        (#[trigger] before[j]).next_run_at,
                    ) by {
                        if i < kept_before.len() {
                            assert(kept.deep_view()[i] == kept_before[i]);
                        }
                    }
                    assert forall|i: int, j: int| 0 <= i < j < kept@.len() implies (
                    #[trigger] kept.deep_view()[i]).next_run_at.not_after(
                        (#[trigger] kept.deep_view()[j]).next_run_at,
                    ) by {
                        assert(kept.deep_view()[i] == kept_before[i]);
                        if j == kept_before.len() {
                            assert(kept_before[i].next_run_at.not_after(before[seen].next_run_at));
                        } else {
                            assert(kept.deep_view()[j] == kept_before[j]);
                        }
                    }
                }
            }
            assert(kept.deep_view().to_multiset() =~= before.take(seen + 1).to_multiset().filter(
                others,
            ));
        }
        assert(before.take(before.len() as int) =~= before);
        self.entries = kept;
    }

    /// The number of entries.
    pub fn len(&self) -> (r: usize)
        ensures
            r == self@.len(),
    {
        proof {
            broadcast use vstd::seq_lib::group_to_multiset_ensures;

        }
        self.entries.len()
    }

    /// Whether there is no entry.
    pub fn is_empty(&self) -> (r: bool)
        ensures
            r == (self@.len() == 0),
    {
        self.len() == 0
    }
}

impl Default for TimerHeap {
    fn default() -> (r: Self)
        ensures
            r@ == Multiset::<ScheduledView>::empty(),
    {
        TimerHeap::new()
    }
}

proof fn split_by_time(due: Seq<ScheduledView>, later: Seq<ScheduledView>, now: TimeView)
    requires
        forall|i: int| 0 <= i < due.len() ==> (#[trigger] due[i]).next_run_at.not_after(now),
        forall|i: int| 0 <= i < later.len() ==> now.before((#[trigger] later[i]).next_run_at),
    ensures
        due.to_multiset() == (due + later).to_multiset().filter(due_by(now)),
        later.to_multiset() == (due + later).to_multiset().filter(not_due_by(now)),
{
    broadcast use vstd::seq_lib::group_to_multiset_ensures;

    vstd::seq_lib::lemma_multiset_commutative(due, later);
    assert forall|e: ScheduledView| #[trigger] due.to_multiset().count(e) > 0 implies due_by(now)(
        e,
    ) by {
        assert(due.contains(e));
        assert(due[due.index_of(e)] == e);
    }
    assert forall|e: ScheduledView| #[trigger] later.to_multiset().count(e) > 0 implies not_due_by(
        now,
    )(e) by {
        assert(later.contains(e));
        assert(later[later.index_of(e)] == e);
    }
    assert(due.to_multiset() =~= (due + later).to_multiset().filter(due_by(now)));
    assert(later.to_multiset() =~= (due + later).to_multiset().filter(not_due_by(now)));
}

/// What is due and what is left make up what was there: taking out the due entries
/// neither loses nor doubles one.
pub proof fn due_and_rest_are_all(contents: Multiset<ScheduledView>, now: TimeView)
    ensures
        contents.filter(due_by(now)).add(contents.filter(not_due_by(now))) == contents,
{
    assert(contents.filter(due_by(now)).add(contents.filter(not_due_by(now))) =~= contents);
}

} // verus!
