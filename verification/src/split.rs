//! Taking texts apart: lines, words, fields and the like.

use vstd::prelude::*;

use crate::text::{chars_of, is_whitespace, string_of};

verus! {

/// The position of the first `c` in `s`, or the length of `s` if there is none.
pub open spec fn first_of(s: Seq<char>, c: char) -> nat
    decreases s.len(),
{
    if s.len() == 0 || s[0] == c {
        0
    } else {
        1 + first_of(s.skip(1), c)
    }
}

/// What [`first_of`] gives is the position of a `c` that no other one stands before.
pub proof fn first_of_is_first(s: Seq<char>, c: char)
    ensures
        first_of(s, c) <= s.len(),
        first_of(s, c) < s.len() ==> s[first_of(s, c) as int] == c,
        forall|i: int| 0 <= i < first_of(s, c) ==> s[i] != c,
    decreases s.len(),
{
    if s.len() > 0 && s[0] != c {
        first_of_is_first(s.skip(1), c);
        assert forall|i: int| 0 <= i < first_of(s, c) implies s[i] != c by {
            if i > 0 {
                assert(s.skip(1)[i - 1] == s[i]);
            }
        }
    }
}

proof fn first_of_is_only(s: Seq<char>, c: char, n: nat)
    requires
        n <= s.len(),
        n < s.len() ==> s[n as int] == c,
        forall|i: int| 0 <= i < n ==> s[i] != c,
    ensures
        first_of(s, c) == n,
{
    first_of_is_first(s, c);
    if first_of(s, c) < n {
        assert(s[first_of(s, c) as int] != c);
    }
}

/// The position of the first `c` at or after `from`.
fn find_from(v: &Vec<char>, c: char, from: usize) -> (r: usize)
    requires
        from <= v@.len(),
    ensures
        r == from + first_of(v@.skip(from as int), c),
        from <= r <= v@.len(),
{
    let ghost rest = v@.skip(from as int);
    let mut i: usize = from;
    while i < v.len() && v[i] != c
        invariant
            from <= i <= v@.len(),
            rest == v@.skip(from as int),
            forall|k: int| 0 <= k < i - from ==> rest[k] != c,
        decreases v@.len() - i,
    {
        assert(rest[i - from] == v@[i as int]);
        i = i + 1;
    }
    proof {
        if i < v.len() {
            assert(rest[i - from] == v@[i as int]);
        }
        first_of_is_only(rest, c, (i - from) as nat);
    }
    i
}

/// The two parts of a text around the first `c`, if there is one.
pub open spec fn parted(s: Seq<char>, c: char) -> Option<(Seq<char>, Seq<char>)> {
    let n = first_of(s, c) as int;
    if n < s.len() {
        Some((s.take(n), s.skip(n + 1)))
    } else {
        None
    }
}

/// The views of the two parts of a text, if there are two.
pub open spec fn parts_view(r: Option<(String, String)>) -> Option<(Seq<char>, Seq<char>)> {
    match r {
        Some((a, b)) => Some((a@, b@)),
        None => None,
    }
}

/// The two parts of a text around the first `c`, if there is one.
pub fn split_once(s: &str, c: char) -> (r: Option<(String, String)>)
    ensures
        parts_view(r) == parted(s@, c),
{
    let v = chars_of(s);
    let n: usize = find_from(&v, c, 0);
    assert(v@.skip(0) =~= s@);
    if n < v.len() {
        let a = string_of(&v, 0, n);
        let b = string_of(&v, n + 1, v.len());
        assert(s@.subrange(0, n as int) =~= s@.take(n as int));
        assert(s@.subrange(n + 1, s@.len() as int) =~= s@.skip(n + 1));
        Some((a, b))
    } else {
        None
    }
}

/// The parts of a text between the `c`. A text without any is its only part.
pub open spec fn fields(s: Seq<char>, c: char) -> Seq<Seq<char>>
    decreases s.len(),
    via fields_shrink
{
    let n = first_of(s, c) as int;
    if n < s.len() {
        seq![s.take(n)] + fields(s.skip(n + 1), c)
    } else {
        seq![s]
    }
}

#[via_fn]
proof fn fields_shrink(s: Seq<char>, c: char) {
    first_of_is_first(s, c);
}

/// The parts of a text between the `c`.
pub fn split_fields(s: &str, c: char) -> (r: Vec<String>)
    ensures
        r.deep_view() == fields(s@, c),
{
    let v = chars_of(s);
    let mut out: Vec<String> = Vec::new();
    let mut from: usize = 0;
    assert(v@.skip(0) =~= s@);
    assert(out.deep_view() + fields(s@, c) =~= fields(s@, c));
    loop
        invariant_except_break
            v@ == s@,
            from <= v@.len(),
            out.deep_view() + fields(v@.skip(from as int), c) == fields(s@, c),
        ensures
            out.deep_view() == fields(s@, c),
        decreases v@.len() - from,
    {
        let ghost front = out.deep_view();
        let ghost rest = v@.skip(from as int);
        let n: usize = find_from(&v, c, from);
        let part = string_of(&v, from, n);
        let ghost text = part@;
        out.push(part);
        assert(out.deep_view() =~= front.push(text));
        if n == v.len() {
            proof {
                assert(text =~= rest);
                assert(front.push(text) =~= front + seq![rest]);
            }
            break ;
        }
        proof {
            assert(text =~= rest.take(n - from));
            assert(rest.skip(n - from + 1) =~= v@.skip(n + 1));
            assert(front.push(text) + fields(v@.skip(n + 1), c) =~= front + (seq![text] + fields(
                v@.skip(n + 1),
                c,
            )));
        }
        from = n + 1;
    }
    out
}

/// A line without the carriage return at its end.
pub open spec fn without_return(s: Seq<char>) -> Seq<char> {
    if s.len() > 0 && s.last() == '\r' {
        s.drop_last()
    } else {
        s
    }
}

/// The lines of a text. A line ends with a line feed, which a carriage return may
/// precede; what follows the last line feed is a line if there is any.
pub open spec fn lines_of(s: Seq<char>) -> Seq<Seq<char>>
    decreases s.len(),
    via lines_shrink
{
    let n = first_of(s, '\n') as int;
    if s.len() == 0 {
        Seq::empty()
    } else if n < s.len() {
        seq![without_return(s.take(n))] + lines_of(s.skip(n + 1))
    } else {
        seq![s]
    }
}

#[via_fn]
proof fn lines_shrink(s: Seq<char>) {
    first_of_is_first(s, '\n');
}

/// The lines of a text.
pub fn split_lines(s: &str) -> (r: Vec<String>)
    ensures
        r.deep_view() == lines_of(s@),
{
    let v = chars_of(s);
    let mut out: Vec<String> = Vec::new();
    let mut from: usize = 0;
    assert(v@.skip(0) =~= s@);
    assert(out.deep_view() + lines_of(s@) =~= lines_of(s@));
    while from < v.len()
        invariant
            v@ == s@,
            from <= v@.len(),
            out.deep_view() + lines_of(v@.skip(from as int)) == lines_of(s@),
        decreases v@.len() - from,
    {
        let ghost front = out.deep_view();
        let ghost rest = v@.skip(from as int);
        let n: usize = find_from(&v, '\n', from);
        let end: usize = if n < v.len() && n > from && v[n - 1] == '\r' {
            n - 1
        } else {
            n
        };
        let part = string_of(&v, from, end);
        let ghost text = part@;
        out.push(part);
        assert(out.deep_view() =~= front.push(text));
        proof {
            if n < v.len() {
                let line = rest.take(n - from);
                if n > from {
                    assert(line.last() == v@[n - 1]);
                }
                assert(text =~= without_return(line));
                assert(rest.skip(n - from + 1) =~= v@.skip(n + 1));
                assert(front.push(text) + lines_of(v@.skip(n + 1)) =~= front + (seq![text]
                    + lines_of(v@.skip(n + 1))));
            } else {
                assert(text =~= rest);
                assert(v@.skip(n as int) =~= Seq::<char>::empty());
                assert(front.push(text) + lines_of(v@.skip(n as int)) =~= front + seq![rest]);
            }
        }
        from = if n < v.len() {
            n + 1
        } else {
            n
        };
    }
    proof {
        assert(v@.skip(from as int) =~= Seq::<char>::empty());
        assert(out.deep_view() + lines_of(v@.skip(from as int)) =~= out.deep_view());
    }
    out
}

/// How many characters stand in front of the first white space.
pub open spec fn word_len(s: Seq<char>) -> nat
    decreases s.len(),
{
    if s.len() == 0 || crate::text::is_space(s[0]) {
        0
    } else {
        1 + word_len(s.skip(1))
    }
}

proof fn word_len_fits(s: Seq<char>)
    ensures
        word_len(s) <= s.len(),
        s.len() > 0 && !crate::text::is_space(s[0]) ==> word_len(s) > 0,
    decreases s.len(),
{
    if s.len() > 0 && !crate::text::is_space(s[0]) {
        word_len_fits(s.skip(1));
    }
}

/// The words of a text: what stands between white space.
pub open spec fn words_of(s: Seq<char>) -> Seq<Seq<char>>
    decreases s.len(),
    via words_shrink
{
    if s.len() == 0 {
        Seq::empty()
    } else if crate::text::is_space(s[0]) {
        words_of(s.skip(1))
    } else {
        seq![s.take(word_len(s) as int)] + words_of(s.skip(word_len(s) as int))
    }
}

#[via_fn]
proof fn words_shrink(s: Seq<char>) {
    word_len_fits(s);
}

/// The words of a text.
pub fn split_words(s: &str) -> (r: Vec<String>)
    ensures
        r.deep_view() == words_of(s@),
{
    let v = chars_of(s);
    let mut out: Vec<String> = Vec::new();
    let mut from: usize = 0;
    assert(v@.skip(0) =~= s@);
    assert(out.deep_view() + words_of(s@) =~= words_of(s@));
    while from < v.len()
        invariant
            v@ == s@,
            from <= v@.len(),
            out.deep_view() + words_of(v@.skip(from as int)) == words_of(s@),
        decreases v@.len() - from,
    {
        let ghost rest = v@.skip(from as int);
        assert(rest[0] == v@[from as int]);
        if is_whitespace(v[from]) {
            assert(rest.skip(1) =~= v@.skip(from + 1));
            from = from + 1;
        } else {
            let ghost front = out.deep_view();
            let mut to: usize = from;
            assert(v@.skip(to as int) =~= rest.skip(to - from));
            while to < v.len() && !is_whitespace(v[to])
                invariant
                    from <= to <= v@.len(),
                    from < v@.len(),
                    rest == v@.skip(from as int),
                    word_len(rest) == to - from + word_len(v@.skip(to as int)),
                decreases v@.len() - to,
            {
                assert(v@.skip(to as int)[0] == v@[to as int]);
                assert(v@.skip(to as int).skip(1) =~= v@.skip(to + 1));
                to = to + 1;
            }
            proof {
                if to < v.len() {
                    assert(v@.skip(to as int)[0] == v@[to as int]);
                }
                assert(word_len(v@.skip(to as int)) == 0);
                word_len_fits(rest);
            }
            let part = string_of(&v, from, to);
            let ghost text = part@;
            out.push(part);
            proof {
                assert(out.deep_view() =~= front.push(text));
                assert(text =~= rest.take(to - from));
                assert(rest.skip(to - from) =~= v@.skip(to as int));
                assert(front.push(text) + words_of(v@.skip(to as int)) =~= front + (seq![text]
                    + words_of(v@.skip(to as int))));
            }
            from = to;
        }
    }
    proof {
        assert(v@.skip(from as int) =~= Seq::<char>::empty());
        assert(out.deep_view() + words_of(v@.skip(from as int)) =~= out.deep_view());
    }
    out
}

/// `s` without the `c` at its start.
pub open spec fn trim_start_of(s: Seq<char>, c: char) -> Seq<char>
    decreases s.len(),
{
    if s.len() > 0 && s[0] == c {
        trim_start_of(s.skip(1), c)
    } else {
        s
    }
}

/// `s` without the `c` at its end.
pub open spec fn trim_end_of(s: Seq<char>, c: char) -> Seq<char>
    decreases s.len(),
{
    if s.len() > 0 && s.last() == c {
        trim_end_of(s.drop_last(), c)
    } else {
        s
    }
}

/// Removes the `c` at the start of a text.
pub fn trim_start_char(s: &str, c: char) -> (r: String)
    ensures
        r@ == trim_start_of(s@, c),
{
    let v = chars_of(s);
    let mut from: usize = 0;
    assert(v@.skip(0) =~= s@);
    while from < v.len() && v[from] == c
        invariant
            v@ == s@,
            from <= v@.len(),
            trim_start_of(s@, c) == trim_start_of(v@.skip(from as int), c),
        decreases v@.len() - from,
    {
        assert(v@.skip(from as int)[0] == v@[from as int]);
        assert(v@.skip(from as int).skip(1) =~= v@.skip(from + 1));
        from = from + 1;
    }
    proof {
        if from < v.len() {
            assert(v@.skip(from as int)[0] == v@[from as int]);
        }
        assert(v@.subrange(from as int, v@.len() as int) =~= v@.skip(from as int));
    }
    string_of(&v, from, v.len())
}

/// Removes the `c` at the end of a text.
pub fn trim_end_char(s: &str, c: char) -> (r: String)
    ensures
        r@ == trim_end_of(s@, c),
{
    let v = chars_of(s);
    let mut to: usize = v.len();
    assert(v@.take(to as int) =~= s@);
    while to > 0 && v[to - 1] == c
        invariant
            v@ == s@,
            to <= v@.len(),
            trim_end_of(s@, c) == trim_end_of(v@.take(to as int), c),
        decreases to,
    {
        assert(v@.take(to as int).last() == v@[to - 1]);
        assert(v@.take(to as int).drop_last() =~= v@.take(to - 1));
        to = to - 1;
    }
    proof {
        if to > 0 {
            assert(v@.take(to as int).last() == v@[to - 1]);
        }
        assert(v@.subrange(0, to as int) =~= v@.take(to as int));
    }
    string_of(&v, 0, to)
}

/// `s` without the prefix `p`, as often as it stands there.
pub open spec fn trim_prefixes(s: Seq<char>, p: Seq<char>) -> Seq<char>
    decreases s.len(),
{
    if p.len() > 0 && crate::text::starts(s, p) {
        trim_prefixes(s.skip(p.len() as int), p)
    } else {
        s
    }
}

/// Removes a prefix as often as it stands at the start of a text.
pub fn trim_start_text(s: &str, p: &str) -> (r: String)
    requires
        p@.len() > 0,
    ensures
        r@ == trim_prefixes(s@, p@),
{
    let mut out = s.to_owned();
    loop
        invariant
            p@.len() > 0,
            trim_prefixes(s@, p@) == trim_prefixes(out@, p@),
        ensures
            out@ == trim_prefixes(s@, p@),
        decreases out@.len(),
    {
        match crate::text::strip_prefix(&out, p) {
            Some(rest) => {
                out = rest;
            },
            None => {
                break ;
            },
        }
    }
    out
}

/// How many bytes a text takes in UTF-8.
pub fn byte_count(s: &str) -> (r: usize)
    ensures
        r == vstd::utf8::encode_utf8(s@).len(),
{
    s.as_bytes().len()
}

/// A text filled up with spaces to a width.
pub open spec fn padded(s: Seq<char>, width: nat) -> Seq<char> {
    if s.len() >= width {
        s
    } else {
        s + Seq::new((width - s.len()) as nat, |i: int| ' ')
    }
}

/// Fills a text up with spaces to a width.
pub fn pad(s: &str, width: usize) -> (r: String)
    ensures
        r@ == padded(s@, width as nat),
{
    let v = chars_of(s);
    let mut out = s.to_owned();
    let mut n: usize = v.len();
    while n < width
        invariant
            v@ == s@,
            v@.len() <= n,
            n <= width || n == v@.len(),
            out@ == padded(s@, n as nat),
        decreases width - n,
    {
        out.push(' ');
        assert(out@ =~= padded(s@, (n + 1) as nat));
        n = n + 1;
    }
    out
}

} // verus!
