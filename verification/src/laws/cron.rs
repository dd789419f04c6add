//! How cron expressions with the common numbers of the weekdays are read.

use vstd::prelude::*;

verus! {

/// Whether a field of a cron expression is not empty and holds no blank.
pub open spec fn is_field(s: Seq<char>) -> bool {
    s.len() > 0 && forall|i: int| 0 <= i < s.len() ==> !crate::weekday::is_blank(#[trigger] s[i])
}

/// A run within a text ends where the first character of the other sort stands.
proof fn run_ends(s: Seq<char>, from: int, to: int, blank: bool)
    requires
        0 <= from <= to <= s.len(),
        forall|i: int| from <= i < to ==> crate::weekday::is_blank(#[trigger] s[i]) == blank,
        to < s.len() ==> crate::weekday::is_blank(s[to]) != blank,
    ensures
        crate::weekday::run_end(s, from, blank) == to,
    decreases to - from,
{
    if from < to {
        assert(crate::weekday::is_blank(s[from]) == blank);
        run_ends(s, from + 1, to, blank);
    }
}

/// Behind a field and one space stands the next field.
proof fn field_is_passed(s: Seq<char>, n: nat, at: int, field: Seq<char>)
    requires
        crate::weekday::field_at(s, n) == at,
        0 <= at,
        is_field(field),
        at + field.len() + 1 < s.len(),
        s.subrange(at, at + field.len()) == field,
        s[at + field.len()] == ' ',
        !crate::weekday::is_blank(s[at + field.len() + 1]),
    ensures
        crate::weekday::field_at(s, n + 1) == at + field.len() + 1,
{
    let end = at + field.len();
    assert forall|i: int| at <= i < end implies crate::weekday::is_blank(#[trigger] s[i])
        == false by {
        assert(field[i - at] == s[i]);
    }
    run_ends(s, at, end, false);
    run_ends(s, end, end + 1, true);
}

/// Of five fields the first four stay as they are; the seconds are added before them, the
/// weekdays get their other numbers, and every year is meant.
pub proof fn five_fields_become_seven(
    minute: Seq<char>,
    hour: Seq<char>,
    day: Seq<char>,
    month: Seq<char>,
    weekdays: Seq<char>,
)
    requires
        is_field(minute),
        is_field(hour),
        is_field(day),
        is_field(month),
        is_field(weekdays),
    ensures
        crate::weekday::full_cron(
            minute + seq![' '] + hour + seq![' '] + day + seq![' '] + month + seq![' '] + weekdays,
        ) == "0 "@ + (minute + seq![' '] + hour + seq![' '] + day + seq![' '] + month + seq![' '])
            + crate::weekday::renumbered(weekdays) + " *"@,
{
    let front = minute + seq![' '] + hour + seq![' '] + day + seq![' '] + month + seq![' '];
    let s = front + weekdays;
    assert(s =~= minute + seq![' '] + hour + seq![' '] + day + seq![' '] + month + seq![' ']
        + weekdays);
    let a = minute.len() as int + 1;
    let b = a + hour.len() + 1;
    let c = b + day.len() + 1;
    let d = c + month.len() + 1;
    assert(s[0] == minute[0]);
    assert(crate::weekday::field_at(s, 0) == 0);
    assert(s.subrange(0, minute.len() as int) =~= minute);
    assert(s[a - 1] == ' ' && s[a] == hour[0]);
    field_is_passed(s, 0, 0, minute);
    assert(s.subrange(a, a + hour.len()) =~= hour);
    assert(s[b - 1] == ' ' && s[b] == day[0]);
    field_is_passed(s, 1, a, hour);
    assert(s.subrange(b, b + day.len()) =~= day);
    assert(s[c - 1] == ' ' && s[c] == month[0]);
    field_is_passed(s, 2, b, day);
    assert(s.subrange(c, c + month.len()) =~= month);
    assert(s[d - 1] == ' ' && s[d] == weekdays[0]);
    field_is_passed(s, 3, c, month);
    assert(s.take(d) =~= front);
    assert(s.skip(d) =~= weekdays);
}

/// A single digit is read as its value.
proof fn digit_is_read(n: nat, max: nat)
    requires
        n < 10,
    ensures
        crate::weekday::number(seq![crate::text::digit_char(n)], max) == if n <= max {
            Some(n)
        } else {
            None
        },
        !crate::weekday::is_blank(crate::text::digit_char(n)),
        crate::text::digit_char(n) != '-' && crate::text::digit_char(n) != '/'
            && crate::text::digit_char(n) != ',',
{
    let s = seq![crate::text::digit_char(n)];
    assert(crate::weekday::run_end(s, 0, true) == 0);
    assert(s.skip(0) =~= s);
    assert(crate::weekday::strip_back(s) == s);
    assert(s.drop_last() =~= Seq::<char>::empty());
    assert(crate::text::digits_value(s.drop_last()) == 0);
    assert(crate::text::digits_value(s) == n);
    assert(crate::text::all_digits(s));
}

/// A text is parted at a character that stands in it once.
proof fn parted_at(a: Seq<char>, c: char, b: Seq<char>)
    requires
        !a.contains(c),
    ensures
        crate::split::parted(a + seq![c] + b, c) == Some((a, b)),
{
    let s = a + seq![c] + b;
    let n = crate::split::first_of(s, c) as int;
    crate::split::first_of_is_first(s, c);
    assert(s[a.len() as int] == c);
    if n < a.len() {
        assert(a[n] == s[n]);
        assert(a.contains(c));
    }
    assert(s.take(a.len() as int) =~= a);
    assert(s.skip(a.len() as int + 1) =~= b);
}

/// A text without a character is not parted at it.
proof fn not_parted(s: Seq<char>, c: char)
    requires
        !s.contains(c),
    ensures
        crate::split::parted(s, c) is None,
{
    let n = crate::split::first_of(s, c) as int;
    crate::split::first_of_is_first(s, c);
    if n < s.len() {
        assert(s.contains(c));
    }
}

/// The number of a weekday means that day; two with a hyphen mean the days from the one to the
/// other; with a step behind them they mean every so many of these days; and a number with a
/// step means the days from it to Saturday.
pub proof fn weekday_items_mean_days(first: nat, last: nat, step: nat)
    requires
        first <= last <= 7,
        0 < step < 10,
    ensures
        ({
            let a = seq![crate::text::digit_char(first)];
            let b = seq![crate::text::digit_char(last)];
            let k = seq![crate::text::digit_char(step)];
            let range = a + seq!['-'] + b;
            &&& crate::weekday::item_days(a) == Some((first, first, 1nat))
            &&& crate::weekday::item_days(range) == Some((first, last, 1nat))
            &&& crate::weekday::item_days(range + seq!['/'] + k) == Some((first, last, step))
            &&& first < 7 ==> crate::weekday::item_days(a + seq!['/'] + k) == Some(
                (first, 6nat, step),
            )
            &&& first == 7 ==> crate::weekday::item_days(a + seq!['/'] + k) == Some(
                (7nat, 7nat, step),
            )
            &&& first < last ==> crate::weekday::item_days(b + seq!['-'] + a) is None
        }),
{
    let a = seq![crate::text::digit_char(first)];
    let b = seq![crate::text::digit_char(last)];
    let k = seq![crate::text::digit_char(step)];
    let range = a + seq!['-'] + b;
    digit_is_read(first, 7);
    digit_is_read(last, 7);
    digit_is_read(step, u32::MAX as nat);
    assert(!a.contains('/') && !a.contains('-') && !b.contains('/') && !b.contains('-'));
    assert(!range.contains('/'));
    assert(!(b + seq!['-'] + a).contains('/'));
    not_parted(a, '/');
    not_parted(a, '-');
    not_parted(range, '/');
    parted_at(a, '-', b);
    parted_at(range, '/', k);
    parted_at(a, '/', k);
    not_parted(b + seq!['-'] + a, '/');
    parted_at(b, '-', a);
}

/// An item that names no weekday by its number stays as it is: an asterisk, or the letters of a
/// name.
pub proof fn named_days_stay(item: Seq<char>)
    requires
        item.len() > 0,
        forall|i: int| 0 <= i < item.len() ==> 'A' <= #[trigger] item[i] <= 'z' || item[i] == '*'
            || item[i] == '?',
    ensures
        crate::weekday::renumbered_item(item) == item,
{
    assert(!item.contains('/')) by {
        assert forall|i: int| 0 <= i < item.len() implies item[i] != '/' by {}
    }
    assert(!item.contains('-')) by {
        assert forall|i: int| 0 <= i < item.len() implies item[i] != '-' by {}
    }
    not_parted(item, '/');
    not_parted(item, '-');
    assert(!crate::weekday::is_blank(item[0]));
    assert(!crate::weekday::is_blank(item.last()));
    assert(crate::weekday::run_end(item, 0, true) == 0);
    assert(item.skip(0) =~= item);
    assert(crate::weekday::strip_back(item) == item);
    assert(!('0' <= item[0] <= '9'));
    assert(!crate::text::all_digits(item));
}

/// The fields of a text with one more field are one more.
proof fn one_more_field(s: Seq<char>, c: char, last: Seq<char>)
    requires
        !last.contains(c),
    ensures
        crate::split::fields(s + seq![c] + last, c) == crate::split::fields(s, c).push(last),
        crate::split::fields(last, c) == seq![last],
    decreases s.len(),
{
    let t = s + seq![c] + last;
    let n = crate::split::first_of(s, c) as int;
    crate::split::first_of_is_first(s, c);
    let m = crate::split::first_of(last, c) as int;
    crate::split::first_of_is_first(last, c);
    if m < last.len() {
        assert(last.contains(c));
    }
    assert(crate::split::fields(last, c) == seq![last]);
    let k = crate::split::first_of(t, c) as int;
    crate::split::first_of_is_first(t, c);
    assert(t[s.len() as int] == c);
    assert(crate::split::fields(t, c) == seq![t.take(k)] + crate::split::fields(t.skip(k + 1), c));
    if n < s.len() {
        assert(t[n] == s[n]);
        if k < n {
            assert(t[k] == s[k]);
        }
        assert(k == n);
        assert(t.take(n) =~= s.take(n));
        assert(t.skip(n + 1) =~= s.skip(n + 1) + seq![c] + last);
        one_more_field(s.skip(n + 1), c, last);
        assert(seq![s.take(n)] + crate::split::fields(s.skip(n + 1), c).push(last) =~= (seq![
            s.take(n),
        ] + crate::split::fields(s.skip(n + 1), c)).push(last));
    } else {
        if k < s.len() {
            assert(t[k] == s[k]);
        }
        assert(k == s.len());
        assert(t.take(k) =~= s);
        assert(t.skip(k + 1) =~= last);
        assert(seq![s] + seq![last] =~= seq![s].push(last));
    }
}

/// The items of a list of weekdays are renumbered one by one.
pub proof fn listed_items_are_renumbered_each(field: Seq<char>, item: Seq<char>)
    requires
        !item.contains(','),
    ensures
        crate::weekday::renumbered(item) == crate::weekday::renumbered_item(item),
        crate::weekday::renumbered(field + seq![','] + item) == crate::weekday::renumbered(field)
            + ","@ + crate::weekday::renumbered_item(item),
{
    one_more_field(field, ',', item);
    let items = crate::split::fields(field, ',');
    assert(items.push(item).drop_last() =~= items);
    assert(items.len() > 0);
}

} // verus!
