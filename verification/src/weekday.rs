//! The weekdays of cron expressions: by the common numbers, from 0 for Sunday to 6 for
//! Saturday with 7 for Sunday again, or by numbers from 1 for Sunday to 7 for Saturday.

use vstd::prelude::*;

use crate::split::{split_fields, split_once};
use crate::text::{chars_of, concat, concat3, concat4, digit_of, parse_number, string_of};

verus! {

/// Whether a character separates the fields of a cron expression.
pub open spec fn is_blank(c: char) -> bool {
    c == ' ' || c == '\t' || c == '\r' || c == '\n'
}

/// The end of the blanks, or else of what is none, that begin at the position.
pub open spec fn run_end(s: Seq<char>, at: int, blank: bool) -> int
    decreases s.len() - at,
{
    if 0 <= at < s.len() && is_blank(s[at]) == blank {
        run_end(s, at + 1, blank)
    } else {
        at
    }
}

/// Where the field after the first `n` fields begins.
pub open spec fn field_at(s: Seq<char>, n: nat) -> int
    decreases n,
{
    if n == 0 {
        run_end(s, 0, true)
    } else {
        run_end(s, run_end(s, field_at(s, (n - 1) as nat), false), true)
    }
}

/// A text without the blanks at its end.
pub open spec fn strip_back(s: Seq<char>) -> Seq<char>
    decreases s.len(),
{
    if s.len() > 0 && is_blank(s.last()) {
        strip_back(s.drop_last())
    } else {
        s
    }
}

/// The number that a text of digits between blanks denotes, if it is no greater than `max`.
pub open spec fn number(s: Seq<char>, max: nat) -> Option<nat> {
    let t = strip_back(s.skip(run_end(s, 0, true)));
    if crate::text::all_digits(t) && crate::text::digits_value(t) <= max {
        Some(crate::text::digits_value(t))
    } else {
        None
    }
}

/// The first and the last of the common numbers that a day or a range of days stands for.
/// A day with a step behind it stands for the rest of the week.
pub open spec fn span(base: Seq<char>, stepped: bool) -> Option<(nat, nat)> {
    match crate::split::parted(base, '-') {
        Some((from, to)) => if number(from, 7) is Some && number(to, 7) is Some && number(
            from,
            7,
        )->0 <= number(to, 7)->0 {
            Some((number(from, 7)->0, number(to, 7)->0))
        } else {
            None
        },
        None => match number(base, 7) {
            Some(n) => Some(
                (
                    n,
                    if stepped && n < 7 {
                        6
                    } else {
                        n
                    },
                ),
            ),
            None => None,
        },
    }
}

/// The days that an item of the field stands for, if it has common numbers: the first, the
/// last and the step between them.
pub open spec fn item_days(item: Seq<char>) -> Option<(nat, nat, nat)> {
    match crate::split::parted(item, '/') {
        Some((base, step)) => match (span(base, true), number(step, u32::MAX as nat)) {
            (Some((first, last)), Some(k)) => if k > 0 {
                Some((first, last, k))
            } else {
                None
            },
            _ => None,
        },
        None => match span(item, false) {
            Some((first, last)) => Some((first, last, 1)),
            None => None,
        },
    }
}

/// Whether days from `first` to `last`, `step` apart, have the common number `n` among them.
pub open spec fn has_day(first: nat, last: nat, step: nat, n: int) -> bool {
    first <= n <= last && (n - first) % step as int == 0
}

/// The days from `first` to `last`, `step` apart, one by one and by the other numbers.
pub open spec fn listed(first: nat, last: nat, step: nat) -> Seq<char>
    decreases last - first,
{
    let day = seq![crate::text::digit_char(first % 7 + 1)];
    if step == 0 || first + step > last {
        day
    } else {
        day.push(',') + listed(first + step, last, step)
    }
}

/// An item of the field by the other numbers. What has no common numbers, such as `*` or
/// the name of a day, is left as it is.
pub open spec fn renumbered_item(item: Seq<char>) -> Seq<char> {
    match item_days(item) {
        Some((first, last, step)) => listed(first, last, step),
        None => item,
    }
}

/// Items by the other numbers, with commas between them.
pub open spec fn renumbered_items(items: Seq<Seq<char>>) -> Seq<char>
    decreases items.len(),
{
    if items.len() == 0 {
        Seq::empty()
    } else if items.len() == 1 {
        renumbered_item(items[0])
    } else {
        renumbered_items(items.drop_last()) + ","@ + renumbered_item(items.last())
    }
}

/// The field of the weekdays by the other numbers.
pub open spec fn renumbered(field: Seq<char>) -> Seq<char> {
    renumbered_items(crate::split::fields(field, ','))
}

/// A cron expression of five fields, with the field of the seconds in front and that of
/// the year behind it, and with the weekdays by the other numbers.
pub open spec fn full_cron(expr: Seq<char>) -> Seq<char> {
    let at = field_at(expr, 4);
    "0 "@ + expr.take(at) + renumbered(expr.skip(at)) + " *"@
}

fn end_of_run(v: &Vec<char>, at: usize, blank: bool) -> (r: usize)
    requires
        at <= v@.len(),
    ensures
        r == run_end(v@, at as int, blank),
        at <= r <= v@.len(),
{
    let mut i: usize = at;
    while i < v.len() && (v[i] == ' ' || v[i] == '\t' || v[i] == '\r' || v[i] == '\n') == blank
        invariant
            at <= i <= v@.len(),
            run_end(v@, at as int, blank) == run_end(v@, i as int, blank),
        decreases v@.len() - i,
    {
        i = i + 1;
    }
    i
}

fn parse_digits(s: &str, max: u64) -> (r: Option<u64>)
    ensures
        match r {
            Some(n) => number(s@, max as nat) == Some(n as nat),
            None => number(s@, max as nat) is None,
        },
{
    let v = chars_of(s);
    let from: usize = end_of_run(&v, 0, true);
    let ghost rest = s@.skip(from as int);
    let mut to: usize = v.len();
    assert(v@.subrange(from as int, to as int) =~= rest);
    while to > from && (v[to - 1] == ' ' || v[to - 1] == '\t' || v[to - 1] == '\r' || v[to - 1]
        == '\n')
        invariant
            from <= to <= v@.len(),
            strip_back(rest) == strip_back(v@.subrange(from as int, to as int)),
        decreases to,
    {
        proof {
            let cut = v@.subrange(from as int, to as int);
            assert(cut.last() == v@[to - 1]);
            assert(cut.drop_last() =~= v@.subrange(from as int, to - 1));
        }
        to = to - 1;
    }
    let ghost digits = v@.subrange(from as int, to as int);
    proof {
        if from < to {
            assert(digits.last() == v@[to - 1]);
        }
        assert(strip_back(rest) == digits);
    }
    if from < to && v[from] == '+' {
        assert(digits[0] == '+');
        return None;
    }
    proof {
        if from < to {
            assert(digits[0] == v@[from as int]);
        }
    }
    parse_number(&string_of(&v, from, to), max)
}

fn span_of(base: &str, stepped: bool) -> (r: Option<(u64, u64)>)
    ensures
        match r {
            Some((first, last)) => span(base@, stepped) == Some((first as nat, last as nat))
                && first <= last <= 7,
            None => span(base@, stepped) is None,
        },
{
    match split_once(base, '-') {
        Some((from, to)) => match (parse_digits(&from, 7), parse_digits(&to, 7)) {
            (Some(first), Some(last)) => if first <= last {
                Some((first, last))
            } else {
                None
            },
            _ => None,
        },
        None => match parse_digits(base, 7) {
            Some(n) => if stepped && n < 7 {
                Some((n, 6))
            } else {
                Some((n, n))
            },
            None => None,
        },
    }
}

fn list_days(first: u64, last: u64, step: u64) -> (r: String)
    requires
        first <= last <= 7,
        0 < step <= u32::MAX,
    ensures
        r@ == listed(first as nat, last as nat, step as nat),
    decreases last - first,
{
    let mut out = String::new();
    out.push(digit_of(first % 7 + 1));
    let ghost day = seq![crate::text::digit_char(first as nat % 7 + 1)];
    assert(out@ =~= day);
    if first + step <= last {
        out.push(',');
        assert(out@ =~= day.push(','));
        let rest = list_days(first + step, last, step);
        return concat(&out, &rest);
    }
    out
}

fn renumber_item(item: &String) -> (r: String)
    ensures
        r@ == renumbered_item(item@),
{
    match split_once(item, '/') {
        Some((base, step)) => match (span_of(&base, true), parse_digits(&step, u32::MAX as u64)) {
            (Some((first, last)), Some(k)) => if k > 0 {
                list_days(first, last, k)
            } else {
                item.clone()
            },
            _ => item.clone(),
        },
        None => match span_of(item, false) {
            Some((first, last)) => list_days(first, last, 1),
            None => item.clone(),
        },
    }
}

fn renumber(field: &str) -> (r: String)
    ensures
        r@ == renumbered(field@),
{
    let items = split_fields(field, ',');
    let ghost all = items.deep_view();
    let mut out = String::new();
    let mut i: usize = 0;
    proof {
        assert(all.take(0) =~= Seq::<Seq<char>>::empty());
        assert(out@ =~= renumbered_items(all.take(0)));
    }
    while i < items.len()
        invariant
            i <= items@.len(),
            all == items.deep_view(),
            out@ == renumbered_items(all.take(i as int)),
        decreases items@.len() - i,
    {
        proof {
            assert(all.take(i + 1).drop_last() =~= all.take(i as int));
            assert(all.take(i + 1).last() == items@[i as int]@);
        }
        let item = renumber_item(&items[i]);
        out = if i > 0 {
            concat3(&out, ",", &item)
        } else {
            item
        };
        i = i + 1;
    }
    assert(all.take(all.len() as int) =~= all);
    out
}

/// A cron expression of five fields as one of seven, see [`full_cron`].
pub fn complete_cron(expr: &str) -> (r: String)
    ensures
        r@ == full_cron(expr@),
{
    let v = chars_of(expr);
    let mut at: usize = end_of_run(&v, 0, true);
    let mut n: usize = 0;
    while n < 4
        invariant
            n <= 4,
            at <= v@.len(),
            v@ == expr@,
            at == field_at(expr@, n as nat),
        decreases 4 - n,
    {
        let end: usize = end_of_run(&v, at, false);
        at = end_of_run(&v, end, true);
        n = n + 1;
    }
    let front = string_of(&v, 0, at);
    let days = string_of(&v, at, v.len());
    proof {
        assert(front@ =~= expr@.take(at as int));
        assert(days@ =~= expr@.skip(at as int));
    }
    concat4("0 ", &front, &renumber(&days), " *")
}

proof fn next_day(first: nat, last: nat, step: nat, n: int)
    requires
        step > 0,
        n != first,
    ensures
        has_day(first, last, step, n) <==> has_day(first + step, last, step, n),
{
    if has_day(first, last, step, n) {
        if n < first + step {
            vstd::arithmetic::div_mod::lemma_small_mod((n - first) as nat, step);
        }
        vstd::arithmetic::div_mod::lemma_mod_sub_multiples_vanish(n - first, step as int);
    }
    if has_day(first + step, last, step, n) {
        vstd::arithmetic::div_mod::lemma_mod_sub_multiples_vanish(n - first, step as int);
    }
}

/// The list of an item names the weekdays of the item and no others: the day `d` after
/// Sunday stands in it by its other number where one of the common numbers of the item is
/// that day.
pub proof fn listed_days_are_those_of_the_item(first: nat, last: nat, step: nat, d: nat)
    requires
        first <= last <= 7,
        step > 0,
        d < 7,
    ensures
        listed(first, last, step).contains(crate::text::digit_char(d + 1)) <==> exists|n: int|
            #[trigger] has_day(first, last, step, n) && n % 7 == d,
    decreases last - first,
{
    let text = listed(first, last, step);
    let name = crate::text::digit_char(d + 1);
    assert(text[0] == crate::text::digit_char(first % 7 + 1));
    assert(has_day(first, last, step, first as int)) by {
        vstd::arithmetic::div_mod::lemma_small_mod(0, step);
    }
    if first + step > last {
        assert(text =~= seq![crate::text::digit_char(first % 7 + 1)]);
        assert forall|n: int| #[trigger] has_day(first, last, step, n) implies n == first by {
            if n != first {
                vstd::arithmetic::div_mod::lemma_small_mod((n - first) as nat, step);
            }
        }
    } else {
        let rest = listed(first + step, last, step);
        listed_days_are_those_of_the_item(first + step, last, step, d);
        assert(text[1] == ',');
        if text.contains(name) {
            let i = text.index_of(name);
            if i > 1 {
                assert(rest[i - 2] == name);
                let n = choose|n: int| #[trigger] has_day(first + step, last, step, n) && n % 7 == d;
                next_day(first, last, step, n);
            }
        }
        if rest.contains(name) {
            let i = rest.index_of(name);
            assert(text[i + 2] == name);
        }
        if exists|n: int| #[trigger] has_day(first, last, step, n) && n % 7 == d {
            let n = choose|n: int| #[trigger] has_day(first, last, step, n) && n % 7 == d;
            if n != first {
                next_day(first, last, step, n);
            }
        }
    }
}

} // verus!
