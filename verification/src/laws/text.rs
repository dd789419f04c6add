//! How texts are taken apart and put together.

use vstd::prelude::*;

verus! {

/// Whether all characters of a text are white space.
pub open spec fn all_space(s: Seq<char>) -> bool {
    forall|i: int| 0 <= i < s.len() ==> crate::text::is_space(#[trigger] s[i])
}

/// The parts of a text with a character between them.
pub open spec fn put_together(parts: Seq<Seq<char>>, c: char) -> Seq<char>
    decreases parts.len(),
{
    if parts.len() == 0 {
        Seq::empty()
    } else if parts.len() == 1 {
        parts[0]
    } else {
        parts[0] + seq![c] + put_together(parts.skip(1), c)
    }
}

/// All characters of some texts, one text behind the other.
pub open spec fn all_of(parts: Seq<Seq<char>>) -> Seq<char>
    decreases parts.len(),
{
    if parts.len() == 0 {
        Seq::empty()
    } else {
        parts[0] + all_of(parts.skip(1))
    }
}

/// A text without the white space at its front has nothing else less, and begins with none.
proof fn front_is_trimmed(s: Seq<char>) -> (n: int)
    ensures
        0 <= n <= s.len(),
        crate::text::trim_front(s) == s.skip(n),
        all_space(s.take(n)),
        n < s.len() ==> !crate::text::is_space(s[n]),
    decreases s.len(),
{
    if s.len() > 0 && crate::text::is_space(s[0]) {
        let rest = s.skip(1);
        let n = front_is_trimmed(rest);
        assert(rest.skip(n) =~= s.skip(n + 1));
        assert forall|i: int| 0 <= i < n + 1 implies crate::text::is_space(
            #[trigger] s.take(n + 1)[i],
        ) by {
            if i > 0 {
                assert(rest.take(n)[i - 1] == s[i]);
            }
        }
        n + 1
    } else {
        assert(s.skip(0) =~= s);
        0
    }
}

/// The same of its back.
proof fn back_is_trimmed(s: Seq<char>) -> (n: int)
    ensures
        0 <= n <= s.len(),
        crate::text::trim_back(s) == s.take(n),
        all_space(s.skip(n)),
        n > 0 ==> !crate::text::is_space(s[n - 1]),
    decreases s.len(),
{
    if s.len() > 0 && crate::text::is_space(s.last()) {
        let rest = s.drop_last();
        let n = back_is_trimmed(rest);
        assert(rest.take(n) =~= s.take(n));
        assert forall|i: int| 0 <= i < s.len() - n implies crate::text::is_space(
            #[trigger] s.skip(n)[i],
        ) by {
            if i < rest.len() - n {
                assert(rest.skip(n)[i] == s.skip(n)[i]);
            }
        }
        n
    } else {
        assert(s.take(s.len() as int) =~= s);
        s.len() as int
    }
}

/// A trimmed text is the text without white space at its ends: nothing else is taken off, and
/// none is left there.
pub proof fn only_space_is_trimmed(s: Seq<char>)
    ensures
        ({
            let t = crate::text::trimmed(s);
            &&& exists|a: Seq<char>, b: Seq<char>| all_space(a) && all_space(b) && s == a + t + b
            &&& t.len() > 0 ==> !crate::text::is_space(t[0]) && !crate::text::is_space(t.last())
        }),
{
    let n = front_is_trimmed(s);
    let front = s.skip(n);
    let m = back_is_trimmed(front);
    let t = crate::text::trimmed(s);
    let a = s.take(n);
    let b = front.skip(m);
    assert(s =~= a + t + b);
    assert(all_space(a) && all_space(b) && s == a + t + b);
    if t.len() > 0 {
        assert(t[0] == s[n]);
        assert(t.last() == front[m - 1]);
    }
}

/// The fields of a text are the text when they are put together, and none of them holds the
/// character between them.
pub proof fn fields_make_up_the_text(s: Seq<char>, c: char)
    ensures
        put_together(crate::split::fields(s, c), c) == s,
        crate::split::fields(s, c).len() > 0,
        forall|i: int|
            0 <= i < crate::split::fields(s, c).len() ==> !(
            #[trigger] crate::split::fields(s, c)[i]).contains(c),
    decreases s.len(),
{
    let n = crate::split::first_of(s, c) as int;
    crate::split::first_of_is_first(s, c);
    let parts = crate::split::fields(s, c);
    if n < s.len() {
        let rest = s.skip(n + 1);
        let behind = crate::split::fields(rest, c);
        fields_make_up_the_text(rest, c);
        assert(parts == seq![s.take(n)] + behind);
        assert(parts.skip(1) =~= behind);
        assert(s =~= s.take(n) + seq![c] + rest);
        assert forall|i: int| 0 <= i < parts.len() implies !(#[trigger] parts[i]).contains(c) by {
            if i > 0 {
                assert(parts[i] == behind[i - 1]);
            } else {
                assert(parts[0] == s.take(n));
            }
        }
    } else {
        assert(parts == seq![s]);
    }
}

/// The words of a text are all of it but the white space, in its order; none of them is empty or
/// holds white space.
pub proof fn words_are_all_but_space(s: Seq<char>)
    ensures
        all_of(crate::split::words_of(s)) == s.filter(|c: char| !crate::text::is_space(c)),
        forall|i: int, k: int|
            0 <= i < crate::split::words_of(s).len() && 0 <= k < crate::split::words_of(s)[i].len()
                ==> !crate::text::is_space(#[trigger] crate::split::words_of(s)[i][k]),
        forall|i: int|
            0 <= i < crate::split::words_of(s).len() ==> (#[trigger] crate::split::words_of(
                s,
            )[i]).len() > 0,
    decreases s.len(),
{
    let solid = |c: char| !crate::text::is_space(c);
    let words = crate::split::words_of(s);
    if s.len() == 0 {
        reveal(Seq::filter);
    } else if crate::text::is_space(s[0]) {
        let rest = s.skip(1);
        words_are_all_but_space(rest);
        assert(s =~= seq![s[0]] + rest);
        Seq::filter_distributes_over_add(seq![s[0]], rest, solid);
        assert(seq![s[0]].filter(solid) =~= Seq::empty()) by {
            reveal(Seq::filter);
            let one = seq![s[0]];
            assert(one.drop_last() =~= Seq::<char>::empty());
            assert(one.drop_last().filter(solid) =~= Seq::<char>::empty());
            assert(one.last() == s[0]);
            assert(!solid(one.last()));
            assert(one.filter(solid) == one.drop_last().filter(solid));
        }
        assert(Seq::<char>::empty() + rest.filter(solid) =~= rest.filter(solid));
    } else {
        let n = crate::split::word_len(s) as int;
        word_is_solid(s);
        let word = s.take(n);
        let rest = s.skip(n);
        let behind = crate::split::words_of(rest);
        words_are_all_but_space(rest);
        assert(words == seq![word] + behind);
        assert(words.skip(1) =~= behind);
        assert(s =~= word + rest);
        Seq::filter_distributes_over_add(word, rest, solid);
        all_kept(word);
        assert forall|i: int, k: int| 0 <= i < words.len() && 0 <= k < words[i].len()
            implies !crate::text::is_space(#[trigger] words[i][k]) by {
            if i > 0 {
                assert(words[i] == behind[i - 1]);
                assert(!crate::text::is_space(behind[i - 1][k]));
            } else {
                assert(words[0] == word);
            }
        }
        assert forall|i: int| 0 <= i < words.len() implies (#[trigger] words[i]).len() > 0 by {
            if i > 0 {
                assert(words[i] == behind[i - 1]);
            } else {
                assert(words[0] == word);
            }
        }
    }
}

/// A word at the front of a text ends before the first white space.
proof fn word_is_solid(s: Seq<char>)
    ensures
        crate::split::word_len(s) <= s.len(),
        forall|i: int|
            0 <= i < crate::split::word_len(s) ==> !crate::text::is_space(#[trigger] s[i]),
        s.len() > 0 && !crate::text::is_space(s[0]) ==> crate::split::word_len(s) > 0,
    decreases s.len(),
{
    if s.len() > 0 && !crate::text::is_space(s[0]) {
        word_is_solid(s.skip(1));
        assert forall|i: int| 0 <= i < crate::split::word_len(s) implies !crate::text::is_space(
            #[trigger] s[i],
        ) by {
            if i > 0 {
                assert(s.skip(1)[i - 1] == s[i]);
            }
        }
    }
}

/// Nothing is left out of a text without white space.
proof fn all_kept(s: Seq<char>)
    requires
        forall|i: int| 0 <= i < s.len() ==> !crate::text::is_space(#[trigger] s[i]),
    ensures
        s.filter(|c: char| !crate::text::is_space(c)) == s,
    decreases s.len(),
{
    reveal(Seq::filter);
    if s.len() > 0 {
        let front = s.drop_last();
        assert forall|i: int| 0 <= i < front.len() implies !crate::text::is_space(
            #[trigger] front[i],
        ) by {
            assert(front[i] == s[i]);
        }
        all_kept(front);
        assert(front.push(s.last()) =~= s);
    }
}

/// A padded text begins with the text, has spaces behind it, and is as wide as asked for, or as
/// the text where that is wider.
pub proof fn padding_is_behind_the_text(s: Seq<char>, width: nat)
    ensures
        ({
            let p = crate::split::padded(s, width);
            &&& p.len() == if s.len() < width {
                width
            } else {
                s.len()
            }
            &&& p.take(s.len() as int) == s
            &&& forall|i: int| s.len() <= i < p.len() ==> #[trigger] p[i] == ' '
        }),
{
    assert(crate::split::padded(s, width).take(s.len() as int) =~= s);
}

/// A text in small letters has each capital letter replaced by the small one, and every other
/// character as it is.
pub proof fn only_capitals_are_lowered(s: Seq<char>, i: int)
    requires
        0 <= i < s.len(),
    ensures
        ({
            let t = crate::text::lowered(s);
            &&& t.len() == s.len()
            &&& 'A' <= s[i] <= 'Z' ==> t[i] as int == s[i] as int - 'A' as int + 'a' as int
            &&& !('A' <= s[i] <= 'Z') ==> t[i] == s[i]
            &&& crate::text::lowered(t) == t
        }),
{
    let t = crate::text::lowered(s);
    assert forall|k: int| 0 <= k < s.len() implies crate::text::lower_char(#[trigger] t[k])
        == t[k] by {
        if 'A' <= s[k] <= 'Z' {
            assert(t[k] as int == s[k] as int + 32);
        }
    }
    assert(crate::text::lowered(t) =~= t);
}

/// The value of hexadecimal digits.
pub open spec fn hex_value(s: Seq<char>) -> nat
    decreases s.len(),
{
    if s.len() == 0 {
        0
    } else {
        let c = s.last() as int;
        16 * hex_value(s.drop_last()) + if c < 'a' as int {
            (c - '0' as int) as nat
        } else {
            (c - 'a' as int + 10) as nat
        }
    }
}

/// A number that is written in hexadecimal digits has as many of them as asked for, and their
/// value is that of the number as far as it fits.
pub proof fn hexadecimal_digits_have_the_value(n: nat, width: nat)
    ensures
        crate::text::hexadecimal(n, width).len() == width,
        n < vstd::arithmetic::power::pow(16, width) ==> hex_value(
            crate::text::hexadecimal(n, width),
        ) == n,
    decreases width,
{
    if width > 0 {
        let s = crate::text::hexadecimal(n, width);
        let front = crate::text::hexadecimal(n / 16, (width - 1) as nat);
        hexadecimal_digits_have_the_value(n / 16, (width - 1) as nat);
        assert(s.drop_last() =~= front);
        assert(s.last() == crate::text::digit_char(n % 16));
        reveal(vstd::arithmetic::power::pow);
        assert(vstd::arithmetic::power::pow(16, width) == 16 * vstd::arithmetic::power::pow(
            16,
            (width - 1) as nat,
        ));
    } else {
        reveal(vstd::arithmetic::power::pow);
    }
}

/// A number is read back from its digits, with or without a plus sign, exactly if it is not
/// above the largest that is wanted.
pub proof fn written_number_is_read(n: nat, max: nat)
    ensures
        crate::text::parsed_number(crate::text::decimal(n), max) == if n <= max {
            Some(n)
        } else {
            None
        },
        crate::text::parsed_number(seq!['+'] + crate::text::decimal(n), max) == if n <= max {
            Some(n)
        } else {
            None
        },
{
    crate::text::decimal_round_trip(n);
    let signed = seq!['+'] + crate::text::decimal(n);
    assert(signed.skip(1) =~= crate::text::decimal(n));
}

/// What holds anything but digits is no number.
pub proof fn only_digits_are_read(s: Seq<char>, max: nat, i: int)
    requires
        0 <= i < s.len(),
        !('0' <= s[i] <= '9'),
        i > 0 || s[i] != '+',
    ensures
        crate::text::parsed_number(s, max) is None,
        crate::text::parsed_number(Seq::empty(), max) is None,
{
    let d = crate::text::unsigned_digits(s);
    if s[0] == '+' {
        assert(d[i - 1] == s[i]);
    } else {
        assert(d[i] == s[i]);
    }
}

} // verus!
