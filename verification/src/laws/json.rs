//! What is written as JSON is told apart: two values that are written alike are alike.

use vstd::prelude::*;

use crate::audit::AuditView;

verus! {

/// Three texts one behind the other are the same in whichever order they are put together.
proof fn together(a: Seq<char>, b: Seq<char>, c: Seq<char>)
    ensures
        a + b + c == a + (b + c),
{
    assert(a + b + c =~= a + (b + c));
}

/// What stands behind the same text is the same where the whole is.
proof fn same_behind(a: Seq<char>, s: Seq<char>, t: Seq<char>)
    requires
        a + s == a + t,
    ensures
        s == t,
{
    assert((a + s).skip(a.len() as int) =~= s);
    assert((a + t).skip(a.len() as int) =~= t);
}

/// The text of a string begins with that of its first character.
proof fn first_char_first(text: Seq<char>)
    requires
        text.len() > 0,
    ensures
        crate::audit::json_chars(text) == crate::audit::json_char(text[0])
            + crate::audit::json_chars(text.skip(1)),
    decreases text.len(),
{
    let front = text.drop_last();
    if front.len() == 0 {
        assert(text.skip(1) =~= Seq::<char>::empty());
        assert(front =~= Seq::<char>::empty());
        assert(text.last() == text[0]);
    } else {
        first_char_first(front);
        assert(front.skip(1) =~= text.skip(1).drop_last());
        together(
            crate::audit::json_char(text[0]),
            crate::audit::json_chars(front.skip(1)),
            crate::audit::json_char(text.last()),
        );
    }
}

/// Two hexadecimal digits tell numbers below 256 apart.
proof fn two_digits_tell_apart(n: nat, m: nat)
    requires
        n < 256,
        m < 256,
        crate::text::hexadecimal(n, 2) == crate::text::hexadecimal(m, 2),
    ensures
        n == m,
        crate::text::hexadecimal(n, 2).len() == 2,
{
    reveal_with_fuel(crate::text::hexadecimal, 3);
    let a = crate::text::hexadecimal(n, 2);
    let b = crate::text::hexadecimal(m, 2);
    assert(a[0] == crate::text::digit_char((n / 16) % 16));
    assert(b[0] == crate::text::digit_char((m / 16) % 16));
    assert(a[1] == crate::text::digit_char(n % 16));
    assert(b[1] == crate::text::digit_char(m % 16));
}

/// The texts of two characters are told apart by how they begin.
proof fn chars_are_told_apart(a: char, b: char, s: Seq<char>, t: Seq<char>)
    requires
        crate::audit::json_char(a) + s == crate::audit::json_char(b) + t,
    ensures
        a == b,
        s == t,
{
    reveal_with_fuel(crate::text::hexadecimal, 3);
    let x = crate::audit::json_char(a);
    let y = crate::audit::json_char(b);
    assert((x + s)[0] == x[0] && (y + t)[0] == y[0]);
    if x[0] == '\\' {
        assert((x + s)[1] == x[1] && (y + t)[1] == y[1]);
        if x[1] == 'u' {
            let n = a as int as nat;
            let m = b as int as nat;
            let hex = crate::text::hexadecimal(n, 2);
            let other = crate::text::hexadecimal(m, 2);
            assert(hex.len() == 2 && other.len() == 2);
            assert((x + s)[4] == hex[0] && (x + s)[5] == hex[1]);
            assert((y + t)[4] == other[0] && (y + t)[5] == other[1]);
            assert(hex =~= other);
            two_digits_tell_apart(n, m);
        }
    }
    assert(a == b);
    same_behind(x, s, t);
}

/// A text of characters ends at the first quotation mark that no character stands for.
proof fn strings_end(x: Seq<char>, y: Seq<char>, s: Seq<char>, t: Seq<char>)
    requires
        crate::audit::json_chars(x) + (seq!['"'] + s) == crate::audit::json_chars(y) + (seq!['"']
            + t),
    ensures
        x == y,
        s == t,
    decreases x.len(),
{
    let whole = crate::audit::json_chars(x) + (seq!['"'] + s);
    if x.len() == 0 {
        assert(whole[0] == '"');
        if y.len() > 0 {
            first_char_first(y);
            assert(whole[0] == crate::audit::json_char(y[0])[0]);
        }
        assert(y =~= x);
        assert(seq!['"'] + s =~= whole);
        assert(seq!['"'] + t =~= whole);
        same_behind(seq!['"'], s, t);
    } else if y.len() == 0 {
        first_char_first(x);
        assert(whole[0] == '"');
        assert(whole[0] == crate::audit::json_char(x[0])[0]);
    } else {
        first_char_first(x);
        first_char_first(y);
        together(
            crate::audit::json_char(x[0]),
            crate::audit::json_chars(x.skip(1)),
            seq!['"'] + s,
        );
        together(
            crate::audit::json_char(y[0]),
            crate::audit::json_chars(y.skip(1)),
            seq!['"'] + t,
        );
        chars_are_told_apart(
            x[0],
            y[0],
            crate::audit::json_chars(x.skip(1)) + (seq!['"'] + s),
            crate::audit::json_chars(y.skip(1)) + (seq!['"'] + t),
        );
        strings_end(x.skip(1), y.skip(1), s, t);
        assert(x =~= seq![x[0]] + x.skip(1));
        assert(y =~= seq![y[0]] + y.skip(1));
    }
}

/// Where two texts begin with strings and are the same, the strings are the same and so is what
/// stands behind them. So a string is read back as what it was written for.
pub proof fn strings_are_told_apart(x: Seq<char>, y: Seq<char>, s: Seq<char>, t: Seq<char>)
    requires
        crate::audit::json_string(x) + s == crate::audit::json_string(y) + t,
    ensures
        x == y,
        s == t,
{
    let quote = seq!['"'];
    together(quote + crate::audit::json_chars(x), quote, s);
    together(quote, crate::audit::json_chars(x), quote + s);
    together(quote + crate::audit::json_chars(y), quote, t);
    together(quote, crate::audit::json_chars(y), quote + t);
    same_behind(
        quote,
        crate::audit::json_chars(x) + (quote + s),
        crate::audit::json_chars(y) + (quote + t),
    );
    strings_end(x, y, s, t);
}

/// The same of strings that may be missing.
pub proof fn missing_strings_are_told_apart(
    x: Option<Seq<char>>,
    y: Option<Seq<char>>,
    s: Seq<char>,
    t: Seq<char>,
)
    requires
        crate::audit::json_option(x) + s == crate::audit::json_option(y) + t,
    ensures
        x == y,
        s == t,
{
    reveal_strlit("null");
    let a = crate::audit::json_option(x) + s;
    let b = crate::audit::json_option(y) + t;
    if x is Some && y is Some {
        strings_are_told_apart(x->0, y->0, s, t);
    } else if x is Some {
        assert(a[0] == '"');
        assert(b[0] == 'n');
    } else if y is Some {
        assert(b[0] == '"');
        assert(a[0] == 'n');
    } else {
        same_behind("null"@, s, t);
    }
}

/// The same of numbers with something behind them that is no digit.
pub proof fn numbers_are_told_apart(n: nat, m: nat, s: Seq<char>, t: Seq<char>)
    requires
        crate::text::decimal(n) + s == crate::text::decimal(m) + t,
        s.len() > 0,
        !('0' <= s[0] <= '9'),
        t.len() > 0,
        !('0' <= t[0] <= '9'),
    ensures
        n == m,
        s == t,
{
    let a = crate::text::decimal(n);
    let b = crate::text::decimal(m);
    crate::text::decimal_round_trip(n);
    crate::text::decimal_round_trip(m);
    if a.len() < b.len() {
        assert((a + s)[a.len() as int] == s[0]);
        assert((b + t)[a.len() as int] == b[a.len() as int]);
    } else if b.len() < a.len() {
        assert((b + t)[b.len() as int] == t[0]);
        assert((a + s)[b.len() as int] == a[b.len() as int]);
    } else {
        assert((a + s).take(a.len() as int) =~= a);
        assert((b + t).take(a.len() as int) =~= b);
    }
    same_behind(a, s, t);
}

/// What stands in the text of a record from one of its fields on, the fields counted in the order
/// in which they are written.
spec fn written_from(r: AuditView, k: nat) -> Seq<char>
    decreases 11 - k,
{
    if k == 0 {
        "{\"action\":"@ + (crate::audit::json_string(r.action) + written_from(r, 1))
    } else if k == 1 {
        ",\"actor\":"@ + (crate::audit::json_string(r.actor) + written_from(r, 2))
    } else if k == 2 {
        ",\"node_id\":"@ + (crate::audit::json_string(r.node_id) + written_from(r, 3))
    } else if k == 3 {
        ",\"outcome\":"@ + (crate::audit::json_string(r.outcome) + written_from(r, 4))
    } else if k == 4 {
        ",\"prev_hash\":"@ + (crate::audit::json_string(r.prev_hash) + written_from(r, 5))
    } else if k == 5 {
        ",\"reason\":"@ + (crate::audit::json_option(r.reason) + written_from(r, 6))
    } else if k == 6 {
        ",\"role\":"@ + (crate::audit::json_string(r.role) + written_from(r, 7))
    } else if k == 7 {
        ",\"seq\":"@ + (crate::text::decimal(r.seq as nat) + written_from(r, 8))
    } else if k == 8 {
        ",\"status\":"@ + (crate::text::decimal(r.status as nat) + written_from(r, 9))
    } else if k == 9 {
        ",\"tenant_id\":"@ + (crate::audit::json_option(r.tenant_id) + written_from(r, 10))
    } else if k == 10 {
        ",\"ts\":"@ + (crate::audit::json_string(
            crate::timestamp::rfc3339_text(r.ts.secs, r.ts.nanos),
        ) + written_from(r, 11))
    } else {
        "}"@
    }
}

/// The text of a record is what stands in it from its first field on.
proof fn text_is_written_in_order(r: AuditView)
    ensures
        r.canonical() == written_from(r, 0),
{
    reveal_with_fuel(written_from, 12);
    let v0 = crate::audit::json_string(r.action);
    let v1 = crate::audit::json_string(r.actor);
    let v2 = crate::audit::json_string(r.node_id);
    let v3 = crate::audit::json_string(r.outcome);
    let v4 = crate::audit::json_string(r.prev_hash);
    let v5 = crate::audit::json_option(r.reason);
    let v6 = crate::audit::json_string(r.role);
    let v7 = crate::text::decimal(r.seq as nat);
    let v8 = crate::text::decimal(r.status as nat);
    let v9 = crate::audit::json_option(r.tenant_id);
    let v10 = crate::audit::json_string(crate::timestamp::rfc3339_text(r.ts.secs, r.ts.nanos));
    let x0 = "{\"action\":"@ + v0;
    let x1 = x0 + ",\"actor\":"@ + v1;
    let x2 = x1 + ",\"node_id\":"@ + v2;
    let x3 = x2 + ",\"outcome\":"@ + v3;
    let x4 = x3 + ",\"prev_hash\":"@ + v4;
    let x5 = x4 + ",\"reason\":"@ + v5;
    let x6 = x5 + ",\"role\":"@ + v6;
    let x7 = x6 + ",\"seq\":"@ + v7;
    let x8 = x7 + ",\"status\":"@ + v8;
    let x9 = x8 + ",\"tenant_id\":"@ + v9;
    let x10 = x9 + ",\"ts\":"@ + v10;
    assert(r.canonical() == x10 + "}"@);
    together(x9 + ",\"ts\":"@, v10, written_from(r, 11));
    together(x9, ",\"ts\":"@, v10 + written_from(r, 11));
    assert(x10 + written_from(r, 11) == x9 + written_from(r, 10));
    together(x8 + ",\"tenant_id\":"@, v9, written_from(r, 10));
    together(x8, ",\"tenant_id\":"@, v9 + written_from(r, 10));
    assert(x9 + written_from(r, 10) == x8 + written_from(r, 9));
    together(x7 + ",\"status\":"@, v8, written_from(r, 9));
    together(x7, ",\"status\":"@, v8 + written_from(r, 9));
    assert(x8 + written_from(r, 9) == x7 + written_from(r, 8));
    together(x6 + ",\"seq\":"@, v7, written_from(r, 8));
    together(x6, ",\"seq\":"@, v7 + written_from(r, 8));
    assert(x7 + written_from(r, 8) == x6 + written_from(r, 7));
    together(x5 + ",\"role\":"@, v6, written_from(r, 7));
    together(x5, ",\"role\":"@, v6 + written_from(r, 7));
    assert(x6 + written_from(r, 7) == x5 + written_from(r, 6));
    together(x4 + ",\"reason\":"@, v5, written_from(r, 6));
    together(x4, ",\"reason\":"@, v5 + written_from(r, 6));
    assert(x5 + written_from(r, 6) == x4 + written_from(r, 5));
    together(x3 + ",\"prev_hash\":"@, v4, written_from(r, 5));
    together(x3, ",\"prev_hash\":"@, v4 + written_from(r, 5));
    assert(x4 + written_from(r, 5) == x3 + written_from(r, 4));
    together(x2 + ",\"outcome\":"@, v3, written_from(r, 4));
    together(x2, ",\"outcome\":"@, v3 + written_from(r, 4));
    assert(x3 + written_from(r, 4) == x2 + written_from(r, 3));
    together(x1 + ",\"node_id\":"@, v2, written_from(r, 3));
    together(x1, ",\"node_id\":"@, v2 + written_from(r, 3));
    assert(x2 + written_from(r, 3) == x1 + written_from(r, 2));
    together(x0 + ",\"actor\":"@, v1, written_from(r, 2));
    together(x0, ",\"actor\":"@, v1 + written_from(r, 2));
    assert(x1 + written_from(r, 2) == x0 + written_from(r, 1));
    together("{\"action\":"@, v0, written_from(r, 1));
}

/// Two records of an audit trail that have the same text, and so the same hash, are the same in
/// everything but their hashes, and were written at times that read alike. So nothing in a record
/// can be changed without a change of the text that is hashed.
pub proof fn records_are_told_apart(a: AuditView, b: AuditView)
    requires
        a.canonical() == b.canonical(),
    ensures
        a.action == b.action,
        a.actor == b.actor,
        a.node_id == b.node_id,
        a.outcome == b.outcome,
        a.prev_hash == b.prev_hash,
        a.reason == b.reason,
        a.role == b.role,
        a.seq == b.seq,
        a.status == b.status,
        a.tenant_id == b.tenant_id,
        crate::timestamp::rfc3339_text(a.ts.secs, a.ts.nanos) == crate::timestamp::rfc3339_text(
            b.ts.secs,
            b.ts.nanos,
        ),
{
    reveal_with_fuel(written_from, 12);
    text_is_written_in_order(a);
    text_is_written_in_order(b);
    same_behind(
        "{\"action\":"@,
        crate::audit::json_string(a.action) + written_from(a, 1),
        crate::audit::json_string(b.action) + written_from(b, 1),
    );
    strings_are_told_apart(a.action, b.action, written_from(a, 1), written_from(b, 1));
    same_behind(
        ",\"actor\":"@,
        crate::audit::json_string(a.actor) + written_from(a, 2),
        crate::audit::json_string(b.actor) + written_from(b, 2),
    );
    strings_are_told_apart(a.actor, b.actor, written_from(a, 2), written_from(b, 2));
    same_behind(
        ",\"node_id\":"@,
        crate::audit::json_string(a.node_id) + written_from(a, 3),
        crate::audit::json_string(b.node_id) + written_from(b, 3),
    );
    strings_are_told_apart(a.node_id, b.node_id, written_from(a, 3), written_from(b, 3));
    same_behind(
        ",\"outcome\":"@,
        crate::audit::json_string(a.outcome) + written_from(a, 4),
        crate::audit::json_string(b.outcome) + written_from(b, 4),
    );
    strings_are_told_apart(a.outcome, b.outcome, written_from(a, 4), written_from(b, 4));
    same_behind(
        ",\"prev_hash\":"@,
        crate::audit::json_string(a.prev_hash) + written_from(a, 5),
        crate::audit::json_string(b.prev_hash) + written_from(b, 5),
    );
    strings_are_told_apart(a.prev_hash, b.prev_hash, written_from(a, 5), written_from(b, 5));
    same_behind(
        ",\"reason\":"@,
        crate::audit::json_option(a.reason) + written_from(a, 6),
        crate::audit::json_option(b.reason) + written_from(b, 6),
    );
    missing_strings_are_told_apart(a.reason, b.reason, written_from(a, 6), written_from(b, 6));
    same_behind(
        ",\"role\":"@,
        crate::audit::json_string(a.role) + written_from(a, 7),
        crate::audit::json_string(b.role) + written_from(b, 7),
    );
    strings_are_told_apart(a.role, b.role, written_from(a, 7), written_from(b, 7));
    same_behind(
        ",\"seq\":"@,
        crate::text::decimal(a.seq as nat) + written_from(a, 8),
        crate::text::decimal(b.seq as nat) + written_from(b, 8),
    );
    reveal_strlit(",\"status\":");
    assert(written_from(a, 8)[0] == ',');
    assert(written_from(b, 8)[0] == ',');
    numbers_are_told_apart(a.seq as nat, b.seq as nat, written_from(a, 8), written_from(b, 8));
    same_behind(
        ",\"status\":"@,
        crate::text::decimal(a.status as nat) + written_from(a, 9),
        crate::text::decimal(b.status as nat) + written_from(b, 9),
    );
    reveal_strlit(",\"tenant_id\":");
    assert(written_from(a, 9)[0] == ',');
    assert(written_from(b, 9)[0] == ',');
    numbers_are_told_apart(
        a.status as nat,
        b.status as nat,
        written_from(a, 9),
        written_from(b, 9),
    );
    same_behind(
        ",\"tenant_id\":"@,
        crate::audit::json_option(a.tenant_id) + written_from(a, 10),
        crate::audit::json_option(b.tenant_id) + written_from(b, 10),
    );
    missing_strings_are_told_apart(
        a.tenant_id,
        b.tenant_id,
        written_from(a, 10),
        written_from(b, 10),
    );
    same_behind(
        ",\"ts\":"@,
        crate::audit::json_string(crate::timestamp::rfc3339_text(a.ts.secs, a.ts.nanos))
            + written_from(a, 11),
        crate::audit::json_string(crate::timestamp::rfc3339_text(b.ts.secs, b.ts.nanos))
            + written_from(b, 11),
    );
    strings_are_told_apart(
        crate::timestamp::rfc3339_text(a.ts.secs, a.ts.nanos),
        crate::timestamp::rfc3339_text(b.ts.secs, b.ts.nanos),
        written_from(a, 11),
        written_from(b, 11),
    );
}

/// What is asked of a server about a node names that node, with its addresses.
pub proof fn nodes_are_told_apart(
    node: Seq<char>,
    http: Seq<char>,
    raft: Seq<char>,
    other: Seq<char>,
    other_http: Seq<char>,
    other_raft: Seq<char>,
)
    ensures
        crate::commands::server::node_json(node, http, raft) == crate::commands::server::node_json(
            other,
            other_http,
            other_raft,
        ) ==> node == other && http == other_http && raft == other_raft,
        crate::commands::server::name_json(node) == crate::commands::server::name_json(other)
            ==> node == other,
{
    if crate::commands::server::node_json(node, http, raft)
        == crate::commands::server::node_json(other, other_http, other_raft) {
        three_strings_are_told_apart(
            "{\"http_addr\":"@,
            http,
            other_http,
            ",\"node_id\":"@,
            node,
            other,
            ",\"raft_addr\":"@,
            raft,
            other_raft,
        );
    }
    if crate::commands::server::name_json(node) == crate::commands::server::name_json(other) {
        together("{\"node_id\":"@, crate::audit::json_string(node), "}"@);
        together("{\"node_id\":"@, crate::audit::json_string(other), "}"@);
        same_behind(
            "{\"node_id\":"@,
            crate::audit::json_string(node) + "}"@,
            crate::audit::json_string(other) + "}"@,
        );
        strings_are_told_apart(node, other, "}"@, "}"@);
    }
}

/// Three strings, each behind a text of its own, are told apart.
proof fn three_strings_are_told_apart(
    p: Seq<char>,
    a: Seq<char>,
    x: Seq<char>,
    q: Seq<char>,
    b: Seq<char>,
    y: Seq<char>,
    r: Seq<char>,
    c: Seq<char>,
    z: Seq<char>,
)
    requires
        p + crate::audit::json_string(a) + q + crate::audit::json_string(b) + r
            + crate::audit::json_string(c) + "}"@ == p + crate::audit::json_string(x) + q
            + crate::audit::json_string(y) + r + crate::audit::json_string(z) + "}"@,
    ensures
        a == x,
        b == y,
        c == z,
{
    let third = r + (crate::audit::json_string(c) + "}"@);
    let other_third = r + (crate::audit::json_string(z) + "}"@);
    let second = q + (crate::audit::json_string(b) + third);
    let other_second = q + (crate::audit::json_string(y) + other_third);
    pieces_in_order(p, a, q, b, r, c);
    pieces_in_order(p, x, q, y, r, z);
    same_behind(
        p,
        crate::audit::json_string(a) + second,
        crate::audit::json_string(x) + other_second,
    );
    strings_are_told_apart(a, x, second, other_second);
    same_behind(
        q,
        crate::audit::json_string(b) + third,
        crate::audit::json_string(y) + other_third,
    );
    strings_are_told_apart(b, y, third, other_third);
    same_behind(r, crate::audit::json_string(c) + "}"@, crate::audit::json_string(z) + "}"@);
    strings_are_told_apart(c, z, "}"@, "}"@);
}

/// Three strings, each behind a text of its own, one behind the other.
proof fn pieces_in_order(
    p: Seq<char>,
    a: Seq<char>,
    q: Seq<char>,
    b: Seq<char>,
    r: Seq<char>,
    c: Seq<char>,
)
    ensures
        p + crate::audit::json_string(a) + q + crate::audit::json_string(b) + r
            + crate::audit::json_string(c) + "}"@ == p + (crate::audit::json_string(a) + (q + (
        crate::audit::json_string(b) + (r + (crate::audit::json_string(c) + "}"@))))),
{
    let x = p + crate::audit::json_string(a);
    let y = x + q + crate::audit::json_string(b);
    let third = crate::audit::json_string(c) + "}"@;
    together(y + r, crate::audit::json_string(c), "}"@);
    together(y, r, third);
    together(x + q, crate::audit::json_string(b), r + third);
    together(x, q, crate::audit::json_string(b) + (r + third));
    together(
        p,
        crate::audit::json_string(a),
        q + (crate::audit::json_string(b) + (r + third)),
    );
}

/// What a worker reports names the worker and its token and, exactly if the run failed, why.
pub proof fn reports_are_told_apart(
    worker: Seq<char>,
    token: u64,
    error: Option<Seq<char>>,
    other: Seq<char>,
    other_token: u64,
    other_error: Option<Seq<char>>,
)
    requires
        crate::binding::report_text(worker, token, error) == crate::binding::report_text(
            other,
            other_token,
            other_error,
        ),
    ensures
        worker == other,
        token == other_token,
        error == other_error,
{
    let a = crate::binding::report_text(worker, token, error);
    let b = crate::binding::report_text(other, other_token, other_error);
    let tail = report_tail(worker, token);
    let other_tail = report_tail(other, other_token);
    reveal_strlit("{\"error\":");
    reveal_strlit("{");
    reveal_strlit("\"fencing_token\":");
    report_is_in_order(worker, token, error);
    report_is_in_order(other, other_token, other_error);
    assert(tail[1] == 'f' && other_tail[1] == 'f');
    match (error, other_error) {
        (Some(x), Some(y)) => {
            same_behind(
                "{\"error\":"@,
                crate::audit::json_string(x) + (","@ + tail),
                crate::audit::json_string(y) + (","@ + other_tail),
            );
            strings_are_told_apart(x, y, ","@ + tail, ","@ + other_tail);
            same_behind(","@, tail, other_tail);
        },
        (None, None) => {
            same_behind("{"@, tail, other_tail);
        },
        (Some(_), None) => {
            assert(a[2] == 'e');
            assert(b[2] == other_tail[1]);
        },
        (None, Some(_)) => {
            assert(b[2] == 'e');
            assert(a[2] == tail[1]);
        },
    }
    let rest = ",\"worker_id\":"@ + (crate::audit::json_string(worker) + "}"@);
    let other_rest = ",\"worker_id\":"@ + (crate::audit::json_string(other) + "}"@);
    reveal_strlit(",\"worker_id\":");
    assert(rest[0] == ',' && other_rest[0] == ',');
    same_behind(
        "\"fencing_token\":"@,
        crate::text::decimal(token as nat) + rest,
        crate::text::decimal(other_token as nat) + other_rest,
    );
    numbers_are_told_apart(token as nat, other_token as nat, rest, other_rest);
    same_behind(
        ",\"worker_id\":"@,
        crate::audit::json_string(worker) + "}"@,
        crate::audit::json_string(other) + "}"@,
    );
    strings_are_told_apart(worker, other, "}"@, "}"@);
}

/// The part of a report that every report has.
spec fn report_tail(worker: Seq<char>, token: u64) -> Seq<char> {
    "\"fencing_token\":"@ + (crate::text::decimal(token as nat) + (",\"worker_id\":"@ + (
    crate::audit::json_string(worker) + "}"@)))
}

/// A report is its error, if it has one, and the part that every report has.
proof fn report_is_in_order(worker: Seq<char>, token: u64, error: Option<Seq<char>>)
    ensures
        crate::binding::report_text(worker, token, error) == match error {
            Some(message) => "{\"error\":"@ + (crate::audit::json_string(message) + (","@
                + report_tail(worker, token))),
            None => "{"@ + report_tail(worker, token),
        },
{
    let number = crate::text::decimal(token as nat);
    let name = crate::audit::json_string(worker);
    together("\"fencing_token\":"@ + number + ",\"worker_id\":"@, name, "}"@);
    together("\"fencing_token\":"@ + number, ",\"worker_id\":"@, name + "}"@);
    together("\"fencing_token\":"@, number, ",\"worker_id\":"@ + (name + "}"@));
    if error is Some {
        let text = crate::audit::json_string(error->0);
        together("{\"error\":"@ + text, ","@, report_tail(worker, token));
        together("{\"error\":"@, text, ","@ + report_tail(worker, token));
    }
}

/// The answer of a node that is not the leader names the leader and its address, as far as they
/// are known.
pub proof fn leaders_are_told_apart(
    id: Option<Seq<char>>,
    http: Option<Seq<char>>,
    other: Option<Seq<char>>,
    other_http: Option<Seq<char>>,
)
    requires
        crate::openraft_adapter::runtime::not_leader_text(id, http)
            == crate::openraft_adapter::runtime::not_leader_text(other, other_http),
    ensures
        id == other,
        http == other_http,
{
    let p = "{\"error\":\"not_leader\",\"leader_http\":"@;
    let q = ",\"leader_id\":"@;
    let rest = crate::audit::json_option(id) + "}"@;
    let other_rest = crate::audit::json_option(other) + "}"@;
    let first = crate::audit::json_option(http);
    let other_first = crate::audit::json_option(other_http);
    together(p + first + q, crate::audit::json_option(id), "}"@);
    together(p + first, q, rest);
    together(p, first, q + rest);
    together(p + other_first + q, crate::audit::json_option(other), "}"@);
    together(p + other_first, q, other_rest);
    together(p, other_first, q + other_rest);
    same_behind(p, first + (q + rest), other_first + (q + other_rest));
    missing_strings_are_told_apart(http, other_http, q + rest, q + other_rest);
    same_behind(q, rest, other_rest);
    missing_strings_are_told_apart(id, other, "}"@, "}"@);
}

} // verus!
