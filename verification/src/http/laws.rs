//! What is written is what is read: laws of the texts that servers and clients exchange.

use vstd::prelude::*;

use super::IntakeView;

verus! {

/// Whether a text has neither a carriage return nor a line feed.
pub open spec fn plain(s: Seq<char>) -> bool {
    forall|i: int| 0 <= i < s.len() ==> s[i] != '\r' && s[i] != '\n'
}

/// Whether a text has no white space.
pub open spec fn solid(s: Seq<char>) -> bool {
    forall|i: int| 0 <= i < s.len() ==> !crate::text::is_space(#[trigger] s[i])
}

/// The end of a line.
pub open spec fn end() -> Seq<char> {
    seq!['\r', '\n']
}

/// Lines with their ends.
pub open spec fn joined(lines: Seq<Seq<char>>) -> Seq<char>
    decreases lines.len(),
{
    if lines.len() == 0 {
        Seq::empty()
    } else {
        lines[0] + end() + joined(lines.skip(1))
    }
}

/// Whether the lines can make up a head: none is empty or holds the end of a line.
pub open spec fn head_lines(lines: Seq<Seq<char>>) -> bool {
    &&& lines.len() > 0
    &&& forall|i: int| 0 <= i < lines.len() ==> #[trigger] lines[i].len() > 0 && plain(lines[i])
}

proof fn plain_part_is_passed(a: Seq<char>, t: Seq<char>)
    requires
        plain(a),
    ensures
        super::head_len(a + t) == a.len() + super::head_len(t),
    decreases a.len(),
{
    let s = a + t;
    if a.len() == 0 {
        assert(s =~= t);
    } else {
        if crate::text::starts(s, seq!['\r', '\n', '\r', '\n']) {
            assert(s.take(4)[0] == s[0]);
        }
        assert(s[0] == a[0]);
        assert(s.skip(1) =~= a.skip(1) + t);
        plain_part_is_passed(a.skip(1), t);
    }
}

proof fn end_is_passed(t: Seq<char>)
    requires
        t.len() > 0,
        t[0] != '\r',
    ensures
        super::head_len(end() + t) == 2 + super::head_len(t),
{
    let s = end() + t;
    let empty_line = seq!['\r', '\n', '\r', '\n'];
    if crate::text::starts(s, empty_line) {
        assert(s.take(4)[2] == t[0]);
    }
    let rest = s.skip(1);
    assert(rest[0] == '\n');
    if crate::text::starts(rest, empty_line) {
        assert(rest.take(4)[0] == rest[0]);
    }
    assert(rest.skip(1) =~= t);
    assert(super::head_len(rest) == 1 + super::head_len(t));
}

/// The head ends where its last line does.
proof fn head_is_found(lines: Seq<Seq<char>>, body: Seq<char>)
    requires
        head_lines(lines),
    ensures
        super::head_len(joined(lines) + end() + body) == joined(lines).len() - 2,
        joined(lines).len() >= 2,
    decreases lines.len(),
{
    let s = joined(lines) + end() + body;
    let rest = lines.skip(1);
    let after = joined(rest) + end() + body;
    assert(s =~= lines[0] + (end() + after));
    plain_part_is_passed(lines[0], end() + after);
    if rest.len() == 0 {
        assert(joined(rest) =~= Seq::<char>::empty());
        assert((end() + after).take(4) =~= seq!['\r', '\n', '\r', '\n']);
    } else {
        assert forall|i: int| 0 <= i < rest.len() implies #[trigger] rest[i].len() > 0 && plain(
            rest[i],
        ) by {
            assert(rest[i] == lines[i + 1]);
        }
        head_is_found(rest, body);
        assert(after[0] == rest[0][0]);
        end_is_passed(after);
    }
}

proof fn first_line_is_cut(line: Seq<char>, t: Seq<char>)
    requires
        plain(line),
    ensures
        crate::split::lines_of(line + end() + t) == seq![line] + crate::split::lines_of(t),
{
    let s = line + end() + t;
    let n = line.len() + 1;
    assert(s[n as int] == '\n');
    crate::split::first_of_is_first(s, '\n');
    let first = crate::split::first_of(s, '\n') as int;
    if first < n {
        assert(s[first] == if first < line.len() {
            line[first]
        } else {
            '\r'
        });
    }
    assert(first == n);
    assert(s.take(first).last() == '\r');
    assert(s.take(first).drop_last() =~= line);
    assert(s.skip(first + 1) =~= t);
}

/// The lines of joined lines are the lines.
proof fn lines_are_found(lines: Seq<Seq<char>>)
    requires
        head_lines(lines),
    ensures
        crate::split::lines_of(joined(lines)) == lines,
    decreases lines.len(),
{
    let rest = lines.skip(1);
    first_line_is_cut(lines[0], joined(rest));
    if rest.len() > 0 {
        assert forall|i: int| 0 <= i < rest.len() implies #[trigger] rest[i].len() > 0 && plain(
            rest[i],
        ) by {
            assert(rest[i] == lines[i + 1]);
        }
        lines_are_found(rest);
    } else {
        assert(crate::split::lines_of(joined(rest)) =~= Seq::<Seq<char>>::empty());
    }
    assert(seq![lines[0]] + rest =~= lines);
}

/// The first line is found even if the last one has no end.
proof fn first_line_is_found(lines: Seq<Seq<char>>)
    requires
        head_lines(lines),
        lines.len() > 1,
    ensures
        joined(lines).len() >= 2,
        crate::split::lines_of(joined(lines).take(joined(lines).len() - 2)).len() > 0,
        crate::split::lines_of(joined(lines).take(joined(lines).len() - 2))[0] == lines[0],
{
    let all = joined(lines);
    let rest = joined(lines.skip(1));
    assert(lines.skip(1).len() > 0);
    assert(rest.len() >= 2);
    assert(all.take(all.len() - 2) =~= lines[0] + end() + rest.take(rest.len() - 2));
    first_line_is_cut(lines[0], rest.take(rest.len() - 2));
}

proof fn solid_part_is_a_word(w: Seq<char>, t: Seq<char>)
    requires
        solid(w),
        t.len() > 0 ==> crate::text::is_space(t[0]),
    ensures
        crate::split::word_len(w + t) == w.len(),
    decreases w.len(),
{
    let s = w + t;
    if w.len() == 0 {
        assert(s =~= t);
    } else {
        assert(s[0] == w[0]);
        assert(s.skip(1) =~= w.skip(1) + t);
        assert forall|i: int| 0 <= i < w.skip(1).len() implies !crate::text::is_space(
            #[trigger] w.skip(1)[i],
        ) by {
            assert(w.skip(1)[i] == w[i + 1]);
        }
        solid_part_is_a_word(w.skip(1), t);
    }
}

proof fn first_word_is_cut(w: Seq<char>, t: Seq<char>)
    requires
        solid(w),
        w.len() > 0,
    ensures
        crate::split::words_of(w + seq![' '] + t) == seq![w] + crate::split::words_of(t),
{
    let s = w + seq![' '] + t;
    let rest = seq![' '] + t;
    assert(s =~= w + rest);
    solid_part_is_a_word(w, rest);
    assert(s[0] == w[0]);
    assert(s.take(w.len() as int) =~= w);
    assert(s.skip(w.len() as int) =~= rest);
    assert(rest[0] == ' ');
    assert(rest.skip(1) =~= t);
    assert(crate::split::words_of(rest) == crate::split::words_of(t));
}

proof fn decimal_is_solid(n: nat)
    ensures
        crate::text::decimal(n).len() > 0,
        solid(crate::text::decimal(n)),
        plain(crate::text::decimal(n)),
{
    crate::text::decimal_round_trip(n);
    let d = crate::text::decimal(n);
    assert forall|i: int| 0 <= i < d.len() implies !crate::text::is_space(#[trigger] d[i]) && d[i]
        != '\r' && d[i] != '\n' by {
        assert('0' <= d[i] <= '9');
    }
}

/// The lines of the head of a response.
pub open spec fn response_lines(status: u16, body: Seq<char>) -> Seq<Seq<char>> {
    seq![
        "HTTP/1.1 "@ + crate::text::decimal(status as nat) + " "@ + super::reason(status),
        "Content-Type: application/json"@,
        "Content-Length: "@ + super::size_text(body),
        "Connection: close"@,
    ]
}

/// The two last headers, which requests and responses share, with what precedes them.
proof fn shared_headers(size: Seq<char>)
    ensures
        "\r\nContent-Type: application/json\r\nContent-Length: "@ == end()
            + "Content-Type: application/json"@ + end() + "Content-Length: "@,
        "\r\nConnection: close\r\n\r\n"@ == end() + "Connection: close"@ + end() + end(),
        plain("Content-Type: application/json"@),
        "Content-Type: application/json"@.len() > 0,
        plain(size) ==> plain("Content-Length: "@ + size),
        ("Content-Length: "@ + size).len() > 0,
        plain("Connection: close"@),
        "Connection: close"@.len() > 0,
{
    reveal_strlit("\r\nContent-Type: application/json\r\nContent-Length: ");
    reveal_strlit("Content-Type: application/json");
    reveal_strlit("Content-Length: ");
    reveal_strlit("\r\nConnection: close\r\n\r\n");
    reveal_strlit("Connection: close");
    assert("\r\nContent-Type: application/json\r\nContent-Length: "@ =~= end()
        + "Content-Type: application/json"@ + end() + "Content-Length: "@);
    assert("\r\nConnection: close\r\n\r\n"@ =~= end() + "Connection: close"@ + end() + end());
}

proof fn joined_four(a: Seq<char>, b: Seq<char>, c: Seq<char>, d: Seq<char>)
    ensures
        joined(seq![a, b, c, d]) == a + end() + b + end() + c + end() + d + end(),
{
    assert(seq![a, b, c, d].skip(1) =~= seq![b, c, d]);
    assert(seq![b, c, d].skip(1) =~= seq![c, d]);
    assert(seq![c, d].skip(1) =~= seq![d]);
    assert(seq![d].skip(1) =~= Seq::<Seq<char>>::empty());
    assert(joined(Seq::empty()) =~= Seq::<char>::empty());
    assert(joined(seq![d]) =~= d + end());
    assert(joined(seq![c, d]) =~= c + end() + d + end());
    assert(joined(seq![b, c, d]) =~= b + end() + c + end() + d + end());
    assert(joined(seq![a, b, c, d]) =~= a + end() + b + end() + c + end() + d + end());
}

proof fn response_has_a_head(status: u16, body: Seq<char>)
    ensures
        head_lines(response_lines(status, body)),
        super::response_text(status, body) == joined(response_lines(status, body)) + end() + body,
{
    let code = crate::text::decimal(status as nat);
    let size = super::size_text(body);
    let first = "HTTP/1.1 "@ + code + " "@ + super::reason(status);
    decimal_is_solid(status as nat);
    decimal_is_solid(vstd::utf8::encode_utf8(body).len());
    shared_headers(size);
    assert(plain(first) && first.len() > 0) by {
        reveal_strlit("HTTP/1.1 ");
        reveal_strlit(" ");
        reveal_strlit("Bad Request");
        reveal_strlit("Unauthorized");
        reveal_strlit("Not Found");
        reveal_strlit("OK");
    }
    let second = "Content-Type: application/json"@;
    let third = "Content-Length: "@ + size;
    let fourth = "Connection: close"@;
    joined_four(first, second, third, fourth);
    assert(super::response_text(status, body) =~= first + end() + second + end() + third + end()
        + fourth + end() + end() + body);
}

/// Reading a response gives the status and the body that it was written with.
pub proof fn written_response_is_read(status: u16, body: Seq<char>)
    ensures
        super::parsed_response(super::response_text(status, body)) == Ok::<
            (u16, Seq<char>),
            Seq<char>,
        >((status, body)),
{
    let lines = response_lines(status, body);
    let text = super::response_text(status, body);
    let all = joined(lines);
    let code = crate::text::decimal(status as nat);
    response_has_a_head(status, body);
    head_is_found(lines, body);
    first_line_is_found(lines);
    let n = all.len() - 2;
    assert(text.take(n) =~= all.take(n));
    assert(text.skip(n + 4) =~= body);
    decimal_is_solid(status as nat);
    crate::text::decimal_round_trip(status as nat);
    assert(crate::split::words_of(lines[0]).len() >= 2 && crate::split::words_of(lines[0])[1]
        == code) by {
        reveal_strlit("HTTP/1.1 ");
        reveal_strlit("HTTP/1.1");
        reveal_strlit(" ");
        let rest = code + seq![' '] + super::reason(status);
        assert(lines[0] =~= "HTTP/1.1"@ + seq![' '] + rest);
        first_word_is_cut("HTTP/1.1"@, rest);
        first_word_is_cut(code, super::reason(status));
    }
}

/// The lines of the head of a request.
pub open spec fn request_lines(
    method: Seq<char>,
    path: Seq<char>,
    host: Seq<char>,
    token: Seq<char>,
    body: Seq<char>,
) -> Seq<Seq<char>> {
    seq![
        method + " "@ + path + " HTTP/1.1"@,
        "Host: "@ + host,
        "Authorization: Bearer "@ + token,
        "Content-Type: application/json"@,
        "Content-Length: "@ + super::size_text(body),
        "Connection: close"@,
    ]
}

/// Whether what a request is written with fits into a head: the method and the path are
/// words, and the host and the token hold no end of a line.
pub open spec fn fits_head(
    method: Seq<char>,
    path: Seq<char>,
    host: Seq<char>,
    token: Seq<char>,
) -> bool {
    &&& method.len() > 0 && solid(method)
    &&& path.len() > 0 && solid(path)
    &&& plain(host)
    &&& plain(token)
}

proof fn solid_is_plain(s: Seq<char>)
    requires
        solid(s),
    ensures
        plain(s),
{
    assert forall|i: int| 0 <= i < s.len() implies s[i] != '\r' && s[i] != '\n' by {
        assert(!crate::text::is_space(s[i]));
    }
}

/// A request is its lines, an empty line and its body.
pub proof fn request_has_a_head(
    method: Seq<char>,
    path: Seq<char>,
    host: Seq<char>,
    token: Seq<char>,
    body: Seq<char>,
)
    requires
        fits_head(method, path, host, token),
    ensures
        head_lines(request_lines(method, path, host, token, body)),
        super::request_text(method, path, host, token, body) == joined(
            request_lines(method, path, host, token, body),
        ) + end() + body,
{
    let size = super::size_text(body);
    let first = method + " "@ + path + " HTTP/1.1"@;
    let second = "Host: "@ + host;
    let third = "Authorization: Bearer "@ + token;
    let a = "Content-Type: application/json"@;
    let b = "Content-Length: "@ + size;
    let c = "Connection: close"@;
    solid_is_plain(method);
    solid_is_plain(path);
    decimal_is_solid(vstd::utf8::encode_utf8(body).len());
    shared_headers(size);
    assert(plain(first) && plain(second) && plain(third) && second.len() > 0 && third.len() > 0)
        by {
        reveal_strlit(" ");
        reveal_strlit(" HTTP/1.1");
        reveal_strlit("Host: ");
        reveal_strlit("Authorization: Bearer ");
    }
    joined_four(third, a, b, c);
    let four = seq![third, a, b, c];
    let lines = request_lines(method, path, host, token, body);
    assert(lines.skip(1).skip(1) =~= four);
    assert(joined(lines.skip(1)) == second + end() + joined(four));
    assert(joined(lines) == first + end() + joined(lines.skip(1)));
    assert(" HTTP/1.1\r\nHost: "@ == " HTTP/1.1"@ + end() + "Host: "@) by {
        reveal_strlit(" HTTP/1.1\r\nHost: ");
        reveal_strlit(" HTTP/1.1");
        reveal_strlit("Host: ");
        assert(" HTTP/1.1\r\nHost: "@ =~= " HTTP/1.1"@ + end() + "Host: "@);
    }
    assert("\r\nAuthorization: Bearer "@ == end() + "Authorization: Bearer "@) by {
        reveal_strlit("\r\nAuthorization: Bearer ");
        reveal_strlit("Authorization: Bearer ");
        assert("\r\nAuthorization: Bearer "@ =~= end() + "Authorization: Bearer "@);
    }
    assert(super::request_text(method, path, host, token, body) =~= joined(lines) + end() + body);
}

proof fn header_is_parted(name: Seq<char>, value: Seq<char>, wanted: Seq<char>)
    requires
        forall|i: int| 0 <= i < name.len() ==> name[i] != ':',
    ensures
        super::header_value(name + seq![':'] + value, wanted) == if crate::text::lowered(name)
            == wanted {
            Some(crate::text::trimmed(value))
        } else {
            None
        },
{
    let line = name + seq![':'] + value;
    crate::split::first_of_is_first(line, ':');
    let n = crate::split::first_of(line, ':') as int;
    assert(line[name.len() as int] == ':');
    if n < name.len() {
        assert(line[n] == name[n]);
    }
    assert(n == name.len());
    assert(line.take(n) =~= name);
    assert(line.skip(n + 1) =~= value);
}

proof fn one_space_is_trimmed(value: Seq<char>)
    requires
        value.len() > 0,
        !crate::text::is_space(value[0]),
        !crate::text::is_space(value.last()),
    ensures
        crate::text::trimmed(seq![' '] + value) == value,
{
    let s = seq![' '] + value;
    assert(s[0] == ' ');
    assert(s.skip(1) =~= value);
    assert(crate::text::trim_front(value) == value);
    assert(crate::text::trim_front(s) == value);
}

/// What the headers of a request tell: the first that tells a length tells that of the
/// body, and the only one that shows a token shows the token of the request.
proof fn headers_are_read(
    host: Seq<char>,
    token: Seq<char>,
    body: Seq<char>,
    headers: Seq<Seq<char>>,
    other: Seq<char>,
)
    requires
        token.len() > 0,
        !crate::text::is_space(token.last()),
        vstd::utf8::encode_utf8(body).len() <= usize::MAX,
        headers =~= seq![
            "Host: "@ + host,
            "Authorization: Bearer "@ + token,
            "Content-Type: application/json"@,
            "Content-Length: "@ + super::size_text(body),
            "Connection: close"@,
        ],
    ensures
        super::body_length(headers) == vstd::utf8::encode_utf8(body).len(),
        super::shows_token(headers, other) == (other == token),
{
    let size = super::size_text(body);
    let count = vstd::utf8::encode_utf8(body).len();
    decimal_is_solid(count);
    crate::text::decimal_round_trip(count);
    reveal_strlit("Host: ");
    reveal_strlit("Host");
    reveal_strlit("Authorization: Bearer ");
    reveal_strlit("Authorization");
    reveal_strlit("Bearer ");
    reveal_strlit("Content-Type: application/json");
    reveal_strlit("Content-Type");
    reveal_strlit("Content-Length: ");
    reveal_strlit("Content-Length");
    reveal_strlit("Connection: close");
    reveal_strlit("Connection");
    reveal_strlit("content-length");
    reveal_strlit("authorization");
    let length = "content-length"@;
    let auth = "authorization"@;
    let shown = "Bearer "@ + token;
    // Each header is a name, a colon, a space and a value.
    assert(headers[0] =~= "Host"@ + seq![':'] + (seq![' '] + host));
    assert(headers[1] =~= "Authorization"@ + seq![':'] + (seq![' '] + shown));
    let kind = "Content-Type: application/json"@.skip(13);
    assert(headers[2] =~= "Content-Type"@ + seq![':'] + kind);
    assert(headers[3] =~= "Content-Length"@ + seq![':'] + (seq![' '] + size));
    let close = "Connection: close"@.skip(11);
    assert(headers[4] =~= "Connection"@ + seq![':'] + close);
    // The names differ but where they are meant to be the same.
    assert(crate::text::lowered("Host"@).len() == 4);
    assert(crate::text::lowered("Authorization"@) =~= auth);
    assert(crate::text::lowered("Content-Type"@).len() == 12);
    assert(crate::text::lowered("Content-Length"@) =~= length);
    assert(crate::text::lowered("Connection"@).len() == 10);
    header_is_parted("Host"@, seq![' '] + host, length);
    header_is_parted("Host"@, seq![' '] + host, auth);
    header_is_parted("Authorization"@, seq![' '] + shown, length);
    header_is_parted("Authorization"@, seq![' '] + shown, auth);
    header_is_parted("Content-Type"@, kind, length);
    header_is_parted("Content-Type"@, kind, auth);
    header_is_parted("Content-Length"@, seq![' '] + size, length);
    header_is_parted("Content-Length"@, seq![' '] + size, auth);
    header_is_parted("Connection"@, close, auth);
    assert(shown[0] == 'B' && shown.last() == token.last());
    one_space_is_trimmed(shown);
    one_space_is_trimmed(size);
    // The length.
    let second = headers.skip(1);
    let third = second.skip(1);
    let fourth = third.skip(1);
    assert(second[0] == headers[1] && third[0] == headers[2] && fourth[0] == headers[3]);
    assert(super::length_in(headers[3]) == Some(count));
    assert(super::body_length(fourth) == count);
    assert(super::body_length(third) == count);
    assert(super::body_length(second) == count);
    // The token.
    assert(super::header_value(headers[1], auth) == Some(shown));
    if super::shows_token(headers, other) {
        let i = choose|i: int|
            0 <= i < headers.len() && super::header_value(#[trigger] headers[i], auth) == Some(
                "Bearer "@ + other,
            );
        assert(i == 1);
        assert(other =~= ("Bearer "@ + other).skip(7));
        assert(token =~= shown.skip(7));
    }
}

/// A server takes in the head of a request as it was written: the method, the path and the
/// length of the body. It finds the request authorized if and only if its own token is the
/// one that the request was written with.
pub proof fn written_request_is_taken_in(
    method: Seq<char>,
    path: Seq<char>,
    host: Seq<char>,
    token: Seq<char>,
    body: Seq<char>,
    server_token: Seq<char>,
)
    requires
        fits_head(method, path, host, token),
        token.len() > 0,
        !crate::text::is_space(token.last()),
        vstd::utf8::encode_utf8(body).len() <= super::MAX_BODY,
    ensures
        super::taken_in(joined(request_lines(method, path, host, token, body)), server_token) == (
        IntakeView::Read {
            method,
            path,
            content_length: vstd::utf8::encode_utf8(body).len(),
            authorized: server_token == token,
        }),
{
    let lines = request_lines(method, path, host, token, body);
    request_has_a_head(method, path, host, token, body);
    lines_are_found(lines);
    headers_are_read(host, token, body, lines.skip(1), server_token);
    let words = crate::split::words_of(lines[0]);
    assert(words.len() >= 2 && words[0] == method && words[1] == path) by {
        reveal_strlit(" ");
        reveal_strlit(" HTTP/1.1");
        reveal_strlit("HTTP/1.1");
        let rest = path + seq![' '] + "HTTP/1.1"@;
        assert(lines[0] =~= method + seq![' '] + rest);
        first_word_is_cut(method, rest);
        first_word_is_cut(path, "HTTP/1.1"@);
    }
}

proof fn first_field_is_cut(a: Seq<char>, t: Seq<char>)
    requires
        !a.contains('/'),
    ensures
        crate::split::fields(a + seq!['/'] + t, '/') == seq![a] + crate::split::fields(t, '/'),
{
    let s = a + seq!['/'] + t;
    crate::split::first_of_is_first(s, '/');
    let n = crate::split::first_of(s, '/') as int;
    assert(s[a.len() as int] == '/');
    if n < a.len() {
        assert(s[n] == a[n]);
        assert(a.contains('/'));
    }
    assert(n == a.len());
    assert(s.take(n) =~= a);
    assert(s.skip(n + 1) =~= t);
}

proof fn last_field_is_left(a: Seq<char>)
    requires
        !a.contains('/'),
    ensures
        crate::split::fields(a, '/') == seq![a],
{
    crate::split::first_of_is_first(a, '/');
    let n = crate::split::first_of(a, '/') as int;
    if n < a.len() {
        assert(a[n] == '/');
        assert(a.contains('/'));
    }
}

/// The segments of a path that starts with a separator and does not end with one.
proof fn separators_are_trimmed(s: Seq<char>)
    requires
        s.len() > 0,
        s[0] != '/',
        s.last() != '/',
    ensures
        super::segments(seq!['/'] + s) == crate::split::fields(s, '/'),
{
    let path = seq!['/'] + s;
    assert(path[0] == '/');
    assert(path.skip(1) =~= s);
    assert(crate::split::trim_start_of(s, '/') == s);
    assert(crate::split::trim_start_of(path, '/') == s);
}

proof fn two_and(b: Seq<char>, t: Seq<char>)
    requires
        !b.contains('/'),
        t.len() > 0,
        t.last() != '/',
    ensures
        super::segments("/v1/"@ + b + seq!['/'] + t) == seq!["v1"@, b] + crate::split::fields(
            t,
            '/',
        ),
{
    reveal_strlit("/v1/");
    reveal_strlit("v1");
    let rest = b + seq!['/'] + t;
    let s = "v1"@ + seq!['/'] + rest;
    assert("/v1/"@ + b + seq!['/'] + t =~= seq!['/'] + s);
    assert(s[0] == 'v');
    assert(s.last() == t.last());
    separators_are_trimmed(s);
    assert(!"v1"@.contains('/'));
    first_field_is_cut("v1"@, rest);
    first_field_is_cut(b, t);
    assert(seq!["v1"@] + (seq![b] + crate::split::fields(t, '/')) =~= seq!["v1"@, b]
        + crate::split::fields(t, '/'));
}

/// What a worker reports of a run reaches that run at the server.
pub proof fn report_reaches_the_run(run_id: Seq<char>)
    requires
        !run_id.contains('/'),
    ensures
        super::routed("POST"@, super::segments("/v1/runs/"@ + run_id + "/succeed"@)) == (
        super::RouteView::CompleteRun { run_id }),
        super::routed("POST"@, super::segments("/v1/runs/"@ + run_id + "/fail"@)) == (
        super::RouteView::FailRun { run_id }),
{
    reveal_strlit("/v1/");
    reveal_strlit("/v1/runs/");
    reveal_strlit("/succeed");
    reveal_strlit("/fail");
    reveal_strlit("runs");
    reveal_strlit("succeed");
    reveal_strlit("fail");
    reveal_strlit("timers");
    reveal_strlit("GET");
    reveal_strlit("POST");
    assert("runs"@.len() == 4 && "timers"@.len() == 6);
    assert("GET"@.len() == 3 && "POST"@.len() == 4);
    assert("succeed"@.len() == 7 && "fail"@.len() == 4);
    assert(!"runs"@.contains('/') && !"succeed"@.contains('/') && !"fail"@.contains('/'));
    let done = run_id + seq!['/'] + "succeed"@;
    let failed = run_id + seq!['/'] + "fail"@;
    assert("/v1/runs/"@ + run_id + "/succeed"@ =~= "/v1/"@ + "runs"@ + seq!['/'] + done);
    assert("/v1/runs/"@ + run_id + "/fail"@ =~= "/v1/"@ + "runs"@ + seq!['/'] + failed);
    two_and("runs"@, done);
    two_and("runs"@, failed);
    first_field_is_cut(run_id, "succeed"@);
    first_field_is_cut(run_id, "fail"@);
    last_field_is_left("succeed"@);
    last_field_is_left("fail"@);
    assert(super::segments("/v1/runs/"@ + run_id + "/succeed"@) =~= seq![
        "v1"@,
        "runs"@,
        run_id,
        "succeed"@,
    ]);
    assert(super::segments("/v1/runs/"@ + run_id + "/fail"@) =~= seq![
        "v1"@,
        "runs"@,
        run_id,
        "fail"@,
    ]);
}

/// What is asked about a timer by its name is about that timer at the server.
pub proof fn asked_timer_is_found(name: Seq<char>)
    requires
        name.len() > 0,
        !name.contains('/'),
    ensures
        super::routed("GET"@, super::segments("/v1/timers/"@ + name)) == (
        super::RouteView::TimerStatus { name }),
        super::routed("GET"@, super::segments("/v1/timers/"@ + name + "/history"@)) == (
        super::RouteView::TimerHistory { name }),
{
    reveal_strlit("/v1/");
    reveal_strlit("/v1/timers/");
    reveal_strlit("/history");
    reveal_strlit("timers");
    reveal_strlit("history");
    assert(!"timers"@.contains('/') && !"history"@.contains('/'));
    let told = name + seq!['/'] + "history"@;
    assert("/v1/timers/"@ + name =~= "/v1/"@ + "timers"@ + seq!['/'] + name);
    assert("/v1/timers/"@ + name + "/history"@ =~= "/v1/"@ + "timers"@ + seq!['/'] + told);
    assert(name.contains(name.last()));
    two_and("timers"@, name);
    two_and("timers"@, told);
    first_field_is_cut(name, "history"@);
    last_field_is_left("history"@);
    last_field_is_left(name);
    assert(super::segments("/v1/timers/"@ + name) =~= seq!["v1"@, "timers"@, name]);
    assert(super::segments("/v1/timers/"@ + name + "/history"@) =~= seq![
        "v1"@,
        "timers"@,
        name,
        "history"@,
    ]);
}

/// A path of three words has these words as its segments.
proof fn three_words_are_segments(b: Seq<char>, c: Seq<char>)
    requires
        !b.contains('/'),
        !c.contains('/'),
        c.len() > 0,
    ensures
        super::segments("/v1/"@ + b + seq!['/'] + c) == seq!["v1"@, b, c],
{
    assert(c.contains(c.last()));
    two_and(b, c);
    last_field_is_left(c);
    assert(seq!["v1"@, b] + seq![c] =~= seq!["v1"@, b, c]);
}

/// What the commands about the nodes send reaches its place at the server.
pub proof fn commands_reach_the_server(command: crate::commands::server::ServerCommand)
    requires
        !(command is Start),
    ensures
        ({
            let step = crate::commands::server::step_of(command);
            let route = super::routed(step->method, super::segments(step->path));
            &&& step is Request
            &&& command is Status ==> route is ClusterStatus && step->body is None
            &&& command is Shutdown ==> route is Shutdown && step->body == Some("{}"@)
            &&& command is Join ==> route is JoinCluster && step->body == Some(
                crate::commands::server::node_json(
                    command->Join_node_id@,
                    command->Join_http@,
                    command->Join_raft@,
                ),
            )
            &&& command is Leave ==> route is LeaveCluster && step->body == Some(
                crate::commands::server::name_json(command->Leave_node_id@),
            )
        }),
{
    reveal_strlit("/v1/");
    reveal_strlit("/v1/cluster/status");
    reveal_strlit("/v1/cluster/join");
    reveal_strlit("/v1/cluster/leave");
    reveal_strlit("/v1/runtime/shutdown");
    reveal_strlit("cluster");
    reveal_strlit("runtime");
    reveal_strlit("status");
    reveal_strlit("join");
    reveal_strlit("leave");
    reveal_strlit("shutdown");
    reveal_strlit("GET");
    reveal_strlit("POST");
    reveal_strlit("timers");
    reveal_strlit("workers");
    reveal_strlit("raft");
    assert("GET"@.len() == 3 && "POST"@.len() == 4);
    assert("timers"@.len() == 6 && "cluster"@.len() == 7 && "runtime"@.len() == 7);
    assert("workers"@[0] == 'w' && "cluster"@[0] == 'c' && "runtime"@[0] == 'r');
    assert("raft"@.len() == 4 && "join"@[0] == 'j' && "leave"@[0] == 'l');
    assert("/v1/cluster/status"@ =~= "/v1/"@ + "cluster"@ + seq!['/'] + "status"@);
    assert("/v1/cluster/join"@ =~= "/v1/"@ + "cluster"@ + seq!['/'] + "join"@);
    assert("/v1/cluster/leave"@ =~= "/v1/"@ + "cluster"@ + seq!['/'] + "leave"@);
    assert("/v1/runtime/shutdown"@ =~= "/v1/"@ + "runtime"@ + seq!['/'] + "shutdown"@);
    three_words_are_segments("cluster"@, "status"@);
    three_words_are_segments("cluster"@, "join"@);
    three_words_are_segments("cluster"@, "leave"@);
    three_words_are_segments("runtime"@, "shutdown"@);
}

} // verus!
