//! Logs of one value per line, and what is made of lines that cannot be read.

use vstd::prelude::*;

use crate::error::{KronError, KronErrorView};
use crate::event::{LogEntry, LogEntryView};
use crate::text::{same, trim};

verus! {

/// A line of a log, read as a value.
pub enum ParsedLine<T> {
    /// There is only white space on the line.
    Blank,
    /// The value of the line.
    Value(T),
    /// The line is not the text of a value. `eof` says that it is the beginning of one,
    /// cut off at its end.
    Broken { eof: bool, message: String },
}

/// A [`ParsedLine`] as a mathematical value.
pub enum LineView<T> {
    Blank,
    Value(T),
    Broken { eof: bool, message: Seq<char> },
}

impl<T: DeepView> DeepView for ParsedLine<T> {
    type V = LineView<T::V>;

    open spec fn deep_view(&self) -> LineView<T::V> {
        match self {
            ParsedLine::Blank => LineView::Blank,
            ParsedLine::Value(value) => LineView::Value(value.deep_view()),
            ParsedLine::Broken { eof, message } => LineView::Broken {
                eof: *eof,
                message: message@,
            },
        }
    }
}

/// Whether there is only white space on the line.
pub fn is_blank(line: &str) -> (r: bool)
    ensures
        r == (crate::text::trimmed(line@).len() == 0),
{
    let t = trim(line);
    t.as_str().is_empty()
}

/// The values of the lines, in order.
pub open spec fn values<T>(lines: Seq<LineView<T>>) -> Seq<T>
    decreases lines.len(),
{
    if lines.len() == 0 {
        Seq::empty()
    } else {
        let front = values(lines.drop_last());
        match lines.last() {
            LineView::Value(value) => front.push(value),
            _ => front,
        }
    }
}

/// Whether the line at the position is the first one that cannot be read.
pub open spec fn first_broken<T>(lines: Seq<LineView<T>>, at: int) -> bool {
    &&& 0 <= at < lines.len()
    &&& lines[at] is Broken
    &&& forall|i: int| 0 <= i < at ==> !((#[trigger] lines[i]) is Broken)
}

/// Whether no line can not be read.
pub open spec fn all_readable<T>(lines: Seq<LineView<T>>) -> bool {
    forall|i: int| 0 <= i < lines.len() ==> !((#[trigger] lines[i]) is Broken)
}

/// Whether the line at the position is a tail that a crash has cut off: the beginning of
/// a value, with only blank lines after it.
pub open spec fn is_cut_off<T>(lines: Seq<LineView<T>>, at: int) -> bool {
    &&& lines[at] is Broken
    &&& lines[at]->eof
    &&& forall|i: int| at < i < lines.len() ==> (#[trigger] lines[i]) is Blank
}

/// The lines behind which a log is continued: all of them but a tail that a crash has cut
/// off.
pub open spec fn kept<T>(lines: Seq<LineView<T>>) -> Seq<LineView<T>> {
    let at = choose|at: int| first_broken(lines, at);
    if !all_readable(lines) && is_cut_off(lines, at) {
        lines.take(at)
    } else {
        lines
    }
}

/// How many of the lines a log is continued behind.
pub fn kept_lines<T: DeepView>(lines: &Vec<ParsedLine<T>>) -> (r: usize)
    ensures
        r == kept(lines.deep_view()).len(),
        r <= lines@.len(),
        lines.deep_view().take(r as int) == kept(lines.deep_view()),
{
    let ghost all = lines.deep_view();
    let n: usize = lines.len();
    let mut at: usize = 0;
    while at < n && !matches!(lines[at], ParsedLine::Broken { .. })
        invariant
            n == lines@.len(),
            all == lines.deep_view(),
            at <= n,
            forall|k: int| 0 <= k < at ==> !((#[trigger] all[k]) is Broken),
        decreases n - at,
    {
        assert(all[at as int] == lines@[at as int].deep_view());
        at = at + 1;
    }
    assert(all.take(n as int) =~= all);
    if at == n {
        return n;
    }
    proof {
        assert(all[at as int] == lines@[at as int].deep_view());
        assert(first_broken(all, at as int));
        let chosen = choose|at: int| first_broken(all, at);
        assert(chosen == at);
        assert(!all_readable(all));
    }
    match &lines[at] {
        ParsedLine::Broken { eof, .. } => if *eof && blank_from(lines, at + 1) {
            at
        } else {
            n
        },
        _ => n,
    }
}

/// A line that could not be read.
pub struct BrokenLine {
    /// The number of the line, from one on.
    pub line: usize,
    pub message: String,
}

/// What was read of a log.
pub struct LineScan<T> {
    /// The values up to the first line that could not be read.
    pub values: Vec<T>,
    /// That line, if there is one.
    pub broken: Option<BrokenLine>,
    /// Whether it is a tail that a crash has cut off.
    pub cut_off: bool,
}

/// What there is to read in the lines of a log.
pub open spec fn scan_matches<T: DeepView>(
    lines: Seq<LineView<T::V>>,
    scan: LineScan<T>,
) -> bool {
    match scan.broken {
        None => all_readable(lines) && scan.values.deep_view() == values(lines) && !scan.cut_off,
        Some(broken) => {
            let at = broken.line - 1;
            &&& first_broken(lines, at)
            &&& broken.message@ == lines[at]->message
            &&& scan.values.deep_view() == values(lines.take(at))
            &&& scan.cut_off == is_cut_off(lines, at)
        },
    }
}

/// Reads the lines of a log up to the first one that cannot be read.
pub fn scan_lines<T: DeepView>(lines: Vec<ParsedLine<T>>) -> (r: LineScan<T>)
    ensures
        scan_matches(lines.deep_view(), r),
{
    let ghost all = lines.deep_view();
    let n: usize = lines.len();
    let mut at: usize = 0;
    while at < n && !matches!(lines[at], ParsedLine::Broken { .. })
        invariant
            n == lines@.len(),
            all == lines.deep_view(),
            at <= n,
            forall|k: int| 0 <= k < at ==> !((#[trigger] all[k]) is Broken),
        decreases n - at,
    {
        assert(all[at as int] == lines@[at as int].deep_view());
        at = at + 1;
    }
    let (broken, cut_off) = if at < n {
        assert(all[at as int] == lines@[at as int].deep_view());
        match &lines[at] {
            ParsedLine::Broken { eof, message } => (
                Some(BrokenLine { line: at + 1, message: message.clone() }),
                *eof && blank_from(&lines, at + 1),
            ),
            _ => (None, false),
        }
    } else {
        (None, false)
    };
    let values = take_values(lines, at);
    assert(at == n ==> all.take(at as int) == all);
    LineScan { values, broken, cut_off }
}

/// The values of the first lines.
fn take_values<T: DeepView>(lines: Vec<ParsedLine<T>>, count: usize) -> (r: Vec<T>)
    requires
        count <= lines@.len(),
    ensures
        r.deep_view() == values(lines.deep_view().take(count as int)),
{
    let ghost all = lines.deep_view();
    let mut found: Vec<T> = Vec::new();
    assert(all.take(0) == Seq::<LineView<T::V>>::empty());
    assert(found.deep_view() =~= values(all.take(0)));
    let mut i: usize = 0;
    for line in it: lines
        invariant
            all == lines.deep_view(),
            it.seq() == lines@,
            count <= all.len(),
            i == (if it.index() <= count {
                it.index() as int
            } else {
                count as int
            }),
            found.deep_view() == values(all.take(i as int)),
    {
        if i < count {
            let ghost front = found.deep_view();
            proof {
                assert(line.deep_view() == all[i as int]);
                assert(all.take(i + 1).drop_last() == all.take(i as int));
            }
            if let ParsedLine::Value(value) = line {
                let ghost v = value.deep_view();
                found.push(value);
                assert(found.deep_view() =~= front.push(v));
            }
            i = i + 1;
        }
    }
    found
}

/// Whether the lines from a position on are blank.
fn blank_from<T: DeepView>(lines: &Vec<ParsedLine<T>>, from: usize) -> (r: bool)
    requires
        from <= lines@.len(),
    ensures
        r == (forall|k: int|
            from <= k < lines@.len() ==> (#[trigger] lines.deep_view()[k]) is Blank),
{
    let mut i: usize = from;
    while i < lines.len()
        invariant
            from <= i <= lines@.len(),
            forall|k: int| from <= k < i ==> (#[trigger] lines.deep_view()[k]) is Blank,
        decreases lines@.len() - i,
    {
        assert(lines.deep_view()[i as int] == lines@[i as int].deep_view());
        if !matches!(lines[i], ParsedLine::Blank) {
            assert(!(lines.deep_view()[i as int] is Blank));
            return false;
        }
        i = i + 1;
    }
    true
}

/// What a log gives: its entries, without a tail that a crash has cut off. Any other line
/// that cannot be read is an error, since to skip it could derive a false state.
pub open spec fn replayed(lines: Seq<LineView<LogEntryView>>, path: Seq<char>) -> Result<
    Seq<LogEntryView>,
    KronErrorView,
> {
    if all_readable(lines) {
        Ok(values(lines))
    } else {
        let at = choose|at: int| first_broken(lines, at);
        if is_cut_off(lines, at) {
            Ok(values(lines.take(at)))
        } else {
            Err(
                KronErrorView::CorruptLog {
                    path,
                    line: (at + 1) as nat,
                    source: lines[at]->message,
                },
            )
        }
    }
}

/// The entries of a log, from its lines.
pub fn replay(lines: Vec<ParsedLine<LogEntry>>, path: &str) -> (r: Result<Vec<LogEntry>, KronError>)
    ensures
        match r {
            Ok(entries) => replayed(lines.deep_view(), path@) == Ok::<_, KronErrorView>(
                entries.deep_view(),
            ),
            Err(error) => replayed(lines.deep_view(), path@) == Err::<Seq<LogEntryView>, _>(error@),
        },
{
    let ghost all = lines.deep_view();
    let scan = scan_lines(lines);
    match scan.broken {
        None => Ok(scan.values),
        Some(broken) => {
            proof {
                let at = broken.line - 1;
                assert(first_broken(all, at));
                let chosen = choose|at: int| first_broken(all, at);
                assert(at == chosen);
            }
            if scan.cut_off {
                Ok(scan.values)
            } else {
                Err(
                    KronError::CorruptLog {
                        path: path.to_owned(),
                        line: broken.line,
                        source: broken.message,
                    },
                )
            }
        },
    }
}

/// A log that a crash has cut off within its last entry gives the entries before that
/// one; what was written before is never lost.
pub proof fn cut_off_tail_is_ignored(
    entries: Seq<LogEntryView>,
    message: Seq<char>,
    path: Seq<char>,
)
    ensures
        ({
            let whole = Seq::new(entries.len(), |i: int| LineView::Value(entries[i]));
            &&& replayed(whole, path) == Ok::<_, KronErrorView>(entries)
            &&& replayed(whole.push(LineView::Broken { eof: true, message }), path) == Ok::<
                _,
                KronErrorView,
            >(entries)
        }),
{
    let whole = Seq::new(entries.len(), |i: int| LineView::Value(entries[i]));
    let cut = whole.push(LineView::Broken { eof: true, message });
    values_of_values(entries);
    let at = entries.len() as int;
    assert(first_broken(cut, at));
    let chosen = choose|at: int| first_broken(cut, at);
    assert(chosen == at);
    assert(cut.take(at) =~= whole);
    assert(cut[at] is Broken);
}

proof fn values_of_values(entries: Seq<LogEntryView>)
    ensures
        values(Seq::new(entries.len(), |i: int| LineView::Value(entries[i]))) == entries,
    decreases entries.len(),
{
    let lines = Seq::new(entries.len(), |i: int| LineView::Value(entries[i]));
    if entries.len() > 0 {
        values_of_values(entries.drop_last());
        assert(lines.drop_last() =~= Seq::new(
            entries.drop_last().len(),
            |i: int| LineView::Value(entries.drop_last()[i]),
        ));
        assert(entries.drop_last().push(entries.last()) =~= entries);
    }
}

/// A line in the middle of a log that cannot be read is fatal, and named.
pub proof fn broken_middle_is_fatal(lines: Seq<LineView<LogEntryView>>, at: int, path: Seq<char>)
    requires
        first_broken(lines, at),
        at + 1 < lines.len(),
        lines[at + 1] is Value,
    ensures
        replayed(lines, path) == Err::<Seq<LogEntryView>, _>(
            KronErrorView::CorruptLog {
                path,
                line: (at + 1) as nat,
                source: lines[at]->message,
            },
        ),
{
    let chosen = choose|at: int| first_broken(lines, at);
    assert(chosen == at);
    assert(!(lines[at + 1] is Blank));
}

/// The entries that are about a timer, in order.
pub open spec fn entries_of(entries: Seq<LogEntryView>, timer: Seq<char>) -> Seq<LogEntryView>
    decreases entries.len(),
{
    if entries.len() == 0 {
        Seq::empty()
    } else {
        let front = entries_of(entries.drop_last(), timer);
        if entries.last().event.timer() == timer {
            front.push(entries.last())
        } else {
            front
        }
    }
}

/// The last elements of a sequence, at most as many as the limit, if there is one.
pub open spec fn last_of<T>(all: Seq<T>, limit: Option<usize>) -> Seq<T> {
    match limit {
        Some(n) => if n < all.len() {
            all.skip(all.len() - n)
        } else {
            all
        },
        None => all,
    }
}

/// The history of a timer: the latest entries that are about it, oldest first.
pub fn history(entries: &Vec<LogEntry>, name: &str, limit: Option<usize>) -> (r: Vec<LogEntry>)
    ensures
        r.deep_view() == last_of(entries_of(entries.deep_view(), name@), limit),
{
    let ghost all = entries.deep_view();
    let mut matching: Vec<LogEntry> = Vec::new();
    let mut i: usize = 0;
    assert(all.take(0) == Seq::<LogEntryView>::empty());
    assert(matching.deep_view() =~= entries_of(all.take(0), name@));
    while i < entries.len()
        invariant
            all == entries.deep_view(),
            i <= entries@.len(),
            matching.deep_view() == entries_of(all.take(i as int), name@),
        decreases entries@.len() - i,
    {
        let ghost front = matching.deep_view();
        proof {
            assert(all.take(i + 1).drop_last() == all.take(i as int));
            assert(all.take(i + 1).last() == entries@[i as int]@);
        }
        if same(entries[i].event.timer().as_str(), name) {
            matching.push(entries[i].clone());
            assert(matching.deep_view() =~= front.push(entries@[i as int]@));
        }
        i = i + 1;
    }
    assert(all.take(all.len() as int) == all);
    match limit {
        Some(n) => {
            if n < matching.len() {
                let ghost found = matching.deep_view();
                let start: usize = matching.len() - n;
                let tail = matching.split_off(start);
                assert(tail.deep_view() =~= found.skip(start as int));
                tail
            } else {
                matching
            }
        },
        None => matching,
    }
}

/// The history of a timer is made of entries of the log that are about it, and holds the
/// newest of them unless it is limited to none.
pub proof fn history_is_about_the_timer(
    entries: Seq<LogEntryView>,
    timer: Seq<char>,
    limit: Option<usize>,
    i: int,
)
    requires
        0 <= i < last_of(entries_of(entries, timer), limit).len(),
    ensures
        last_of(entries_of(entries, timer), limit)[i].event.timer() == timer,
        entries.contains(last_of(entries_of(entries, timer), limit)[i]),
        last_of(entries_of(entries, timer), limit).last() == entries_of(entries, timer).last(),
{
    let all = entries_of(entries, timer);
    assert forall|k: int| 0 <= k < all.len() implies (#[trigger] all[k]).event.timer() == timer
        && entries.contains(all[k]) by {
        entries_of_are_entries(entries, timer, k);
    }
    let shown = last_of(all, limit);
    if shown.len() < all.len() {
        assert(shown[i] == all[all.len() - shown.len() + i]);
    }
}

proof fn entries_of_are_entries(entries: Seq<LogEntryView>, timer: Seq<char>, k: int)
    requires
        0 <= k < entries_of(entries, timer).len(),
    ensures
        entries_of(entries, timer)[k].event.timer() == timer,
        entries.contains(entries_of(entries, timer)[k]),
    decreases entries.len(),
{
    let front = entries_of(entries.drop_last(), timer);
    if k < front.len() {
        entries_of_are_entries(entries.drop_last(), timer, k);
        let i = entries.drop_last().index_of(front[k]);
        assert(entries[i] == front[k]);
    } else {
        assert(entries[entries.len() - 1] == entries.last());
    }
}

} // verus!
