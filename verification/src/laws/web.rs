//! Requests and answers: what a server takes in and where it goes, and what a client makes of
//! the answer.

use vstd::prelude::*;

use crate::client::{Answer, ClientToken, FieldView};
use crate::openraft_adapter::network::RaftCall;

verus! {

/// The words by which requests are told apart are all different.
proof fn words_differ()
    ensures
        "GET"@ != "POST"@,
        "timers"@ != "workers"@,
        "timers"@ != "cluster"@,
        "timers"@ != "raft"@,
        "timers"@ != "runtime"@,
        "timers"@ != "runs"@,
        "workers"@ != "cluster"@,
        "workers"@ != "raft"@,
        "workers"@ != "runtime"@,
        "cluster"@ != "raft"@,
        "cluster"@ != "runtime"@,
        "raft"@ != "runtime"@,
        "register"@ != "heartbeat"@,
        "register"@ != "poll"@,
        "heartbeat"@ != "poll"@,
        "join"@ != "leave"@,
        "succeed"@ != "fail"@,
{
    reveal_strlit("GET");
    reveal_strlit("POST");
    reveal_strlit("timers");
    reveal_strlit("workers");
    reveal_strlit("cluster");
    reveal_strlit("raft");
    reveal_strlit("runtime");
    reveal_strlit("runs");
    reveal_strlit("register");
    reveal_strlit("heartbeat");
    reveal_strlit("poll");
    reveal_strlit("join");
    reveal_strlit("leave");
    reveal_strlit("succeed");
    reveal_strlit("fail");
    assert("GET"@.len() != "POST"@.len());
    assert("register"@[0] != "heartbeat"@[0]);
    assert("join"@[0] != "leave"@[0]);
    assert("succeed"@[0] != "fail"@[0]);
    assert("timers"@[0] != "workers"@[0]);
    assert("workers"@[0] != "cluster"@[0]);
    assert("workers"@[0] != "runtime"@[0]);
    assert("cluster"@[0] != "runtime"@[0]);
    assert("raft"@[1] != "runs"@[1]);
}

/// A request goes to the one place that its method and its path name, and to no other.
pub proof fn requests_go_where_they_are_sent(method: Seq<char>, s: Seq<Seq<char>>)
    ensures
        ({
            let get = method == "GET"@;
            let post = method == "POST"@;
            let route = crate::http::routed(method, s);
            let v1 = "v1"@;
            let under = |first: Seq<char>| s.len() >= 2 && s[0] == v1 && s[1] == first;
            &&& route is CreateTimer <==> post && s == seq![v1, "timers"@]
            &&& route is ListTimers <==> get && s == seq![v1, "timers"@]
            &&& route is TimerStatus <==> get && under("timers"@) && s.len() == 3
            &&& route is TimerStatus ==> route->TimerStatus_name == s[2]
            &&& route is TimerHistory <==> get && under("timers"@) && s.len() == 4 && s[3]
                == "history"@
            &&& route is TimerHistory ==> route->TimerHistory_name == s[2]
            &&& route is RegisterWorker <==> post && s == seq![v1, "workers"@, "register"@]
            &&& route is HeartbeatWorker <==> post && s == seq![v1, "workers"@, "heartbeat"@]
            &&& route is PollWorker <==> post && s == seq![v1, "workers"@, "poll"@]
            &&& route is CompleteRun <==> post && under("runs"@) && s.len() == 4 && s[3]
                == "succeed"@
            &&& route is CompleteRun ==> route->CompleteRun_run_id == s[2]
            &&& route is FailRun <==> post && under("runs"@) && s.len() == 4 && s[3] == "fail"@
            &&& route is FailRun ==> route->FailRun_run_id == s[2]
            &&& route is ClusterStatus <==> get && s == seq![v1, "cluster"@, "status"@]
            &&& route is JoinCluster <==> post && s == seq![v1, "cluster"@, "join"@]
            &&& route is LeaveCluster <==> post && s == seq![v1, "cluster"@, "leave"@]
            &&& route is ApplyCommand <==> post && s == seq![v1, "raft"@, "apply"@]
            &&& route is Shutdown <==> post && s == seq![v1, "runtime"@, "shutdown"@]
        }),
{
    words_differ();
    let v1 = "v1"@;
    assert(seq![v1, "timers"@][0] == v1 && seq![v1, "timers"@][1] == "timers"@);
    if s.len() == 2 && s[0] == v1 && s[1] == "timers"@ {
        assert(s =~= seq![v1, "timers"@]);
    }
    three_words(s, "workers"@, "register"@);
    three_words(s, "workers"@, "heartbeat"@);
    three_words(s, "workers"@, "poll"@);
    three_words(s, "cluster"@, "status"@);
    three_words(s, "cluster"@, "join"@);
    three_words(s, "cluster"@, "leave"@);
    three_words(s, "raft"@, "apply"@);
    three_words(s, "runtime"@, "shutdown"@);
}

/// A list is one of three given words exactly if it has three words and these.
proof fn three_words(s: Seq<Seq<char>>, b: Seq<char>, c: Seq<char>)
    ensures
        s == seq!["v1"@, b, c] <==> s.len() == 3 && s[0] == "v1"@ && s[1] == b && s[2] == c,
{
    let t = seq!["v1"@, b, c];
    assert(t.len() == 3 && t[0] == "v1"@ && t[1] == b && t[2] == c);
    if s.len() == 3 && s[0] == "v1"@ && s[1] == b && s[2] == c {
        assert(s =~= t);
    }
}

/// A header has the value behind its first colon, without the white space round it, for
/// whoever asks for its name in small letters; for no one else.
pub proof fn header_has_its_value(name: Seq<char>, value: Seq<char>, wanted: Seq<char>)
    requires
        !name.contains(':'),
    ensures
        ({
            let found = crate::http::header_value(name + ":"@ + value, wanted);
            &&& crate::text::lowered(name) == wanted ==> found == Some(crate::text::trimmed(value))
            &&& crate::text::lowered(name) != wanted ==> found is None
        }),
{
    reveal_strlit(":");
    let line = name + ":"@ + value;
    let n = crate::split::first_of(line, ':');
    crate::split::first_of_is_first(line, ':');
    assert(line[name.len() as int] == ':');
    if n < name.len() {
        assert(name[n as int] == line[n as int]);
        assert(name.contains(':'));
    }
    assert(line.take(name.len() as int) =~= name);
    assert(line.skip(name.len() as int + 1) =~= value);
}

/// A line without a colon is no header.
pub proof fn line_without_colon_is_no_header(line: Seq<char>, wanted: Seq<char>)
    requires
        !line.contains(':'),
    ensures
        crate::http::header_value(line, wanted) is None,
{
    let n = crate::split::first_of(line, ':');
    crate::split::first_of_is_first(line, ':');
    if n < line.len() {
        assert(line[n as int] == ':');
        assert(line.contains(':'));
    }
}

/// A body is as long as the first header says that gives a length, and empty where none does.
pub proof fn first_length_counts(headers: Seq<Seq<char>>, i: int)
    requires
        0 <= i <= headers.len(),
        forall|k: int| 0 <= k < i ==> crate::http::length_in(#[trigger] headers[k]) is None,
        i < headers.len() ==> crate::http::length_in(headers[i]) is Some,
    ensures
        crate::http::body_length(headers) == if i < headers.len() {
            crate::http::length_in(headers[i])->0
        } else {
            0
        },
    decreases i,
{
    if i > 0 {
        let rest = headers.skip(1);
        assert(crate::http::length_in(headers[0]) is None);
        assert forall|k: int| 0 <= k < i - 1 implies crate::http::length_in(
            #[trigger] rest[k],
        ) is None by {
            assert(rest[k] == headers[k + 1]);
        }
        if i < headers.len() {
            assert(rest[i - 1] == headers[i]);
        }
        first_length_counts(rest, i - 1);
    }
}

/// The number that a length header gives is the length.
pub proof fn length_is_the_number_given(n: nat)
    requires
        n <= usize::MAX,
    ensures
        crate::http::length_in("Content-Length:"@ + crate::text::decimal(n)) == Some(n),
{
    reveal_strlit("Content-Length");
    reveal_strlit("Content-Length:");
    reveal_strlit("content-length");
    reveal_strlit(":");
    let value = crate::text::decimal(n);
    assert("Content-Length:"@ + value =~= "Content-Length"@ + ":"@ + value);
    assert(crate::text::lowered("Content-Length"@) =~= "content-length"@);
    crate::text::decimal_round_trip(n);
    header_has_its_value("Content-Length"@, value, "content-length"@);
    assert(!crate::text::is_space(value[0]));
    assert(!crate::text::is_space(value.last()));
}

/// A head is refused as malformed exactly if its first line has fewer than two words, and as
/// too large exactly if it is not and announces more than a mebibyte. Any other one is taken
/// in with its method, its path, its length, and whether one of its headers shows the token.
pub proof fn heads_are_taken_in(head: Seq<char>, token: Seq<char>)
    ensures
        ({
            let lines = crate::split::lines_of(head);
            let words = crate::split::words_of(lines[0]);
            let headers = lines.skip(1);
            let taken = crate::http::taken_in(head, token);
            let malformed = lines.len() == 0 || words.len() < 2;
            let length = crate::http::body_length(headers);
            let shown = exists|i: int|
                0 <= i < headers.len() && crate::http::header_value(
                    #[trigger] headers[i],
                    "authorization"@,
                ) == Some("Bearer "@ + token);
            &&& taken is Reject && taken->status == 400 <==> malformed
            &&& taken is Reject && taken->status == 413 <==> !malformed && length > 1024 * 1024
            &&& taken is Reject ==> taken->status == 400 || taken->status == 413
            &&& taken is Read ==> taken->method == words[0] && taken->path == words[1]
                && taken->content_length == length && (taken->authorized <==> shown)
        }),
{
    let lines = crate::split::lines_of(head);
    if lines.len() == 0 {
        assert(Seq::<Seq<char>>::empty().len() < 2);
    }
}

/// A client is done exactly if the answer is a success. It follows an answer to another node
/// exactly on the first answer that says that the node is not the leader and names one, and
/// goes to the one that is named.
pub proof fn client_follows_the_leader(
    first: bool,
    started_at: Seq<char>,
    endpoint: Seq<char>,
    answer: Answer,
    failure: Seq<char>,
)
    ensures
        ({
            let step = crate::client::next_step(first, started_at, endpoint, answer, failure);
            let success = 200 <= answer.status <= 299;
            let named = answer.error@ == FieldView::Text("not_leader"@) && answer.leader_http@
                is Text && crate::text::trimmed(answer.leader_http@->Text_0).len() > 0;
            let moved = crate::client::normalized(endpoint) != crate::client::normalized(
                started_at,
            );
            &&& step is Done <==> success
            &&& step is Done ==> step->moved_to == if moved {
                Some(crate::client::normalized(endpoint))
            } else {
                None
            }
            &&& step is Follow <==> !success && first && named
            &&& step is Follow ==> step->endpoint == crate::client::normalized(
                answer.leader_http@->Text_0,
            )
            &&& step is Fail ==> step->message == failure
        }),
{
}

/// An address without white space round it, and without a slash at its end, is the same one with
/// the scheme in front of it or a slash behind it.
pub proof fn address_is_the_same_with_scheme_and_slash(address: Seq<char>)
    requires
        address.len() > 0,
        !crate::text::is_space(address[0]),
        !crate::text::is_space(address.last()),
        address.last() != '/',
    ensures
        crate::client::normalized(address + "/"@) == crate::client::normalized(address),
        crate::client::normalized("http://"@ + address) == crate::client::normalized(address),
        !crate::text::starts(address, "http://"@) ==> crate::client::normalized(address) == address,
{
    reveal_strlit("/");
    reveal_strlit("http://");
    assert(crate::text::trimmed(address) == address);
    let with_slash = address + "/"@;
    assert(with_slash.last() == '/');
    assert(with_slash[0] == address[0]);
    assert(crate::text::trimmed(with_slash) == with_slash);
    let with_scheme = "http://"@ + address;
    assert(with_scheme[0] == 'h');
    assert(with_scheme.last() == address.last());
    assert(crate::text::trim_front(with_scheme) == with_scheme);
    assert(crate::text::trimmed(with_scheme) == with_scheme);
    assert(with_scheme.take(7) =~= "http://"@);
    assert(with_scheme.skip(7) =~= address);
    slash_behind(address, "http://"@);
}

/// A slash behind a text is taken off whatever prefixes come off first.
proof fn slash_behind(s: Seq<char>, p: Seq<char>)
    requires
        p == "http://"@,
        s.len() > 0 ==> s.last() != '/',
    ensures
        crate::split::trim_end_of(crate::split::trim_prefixes(s + "/"@, p), '/')
            == crate::split::trim_end_of(crate::split::trim_prefixes(s, p), '/'),
    decreases s.len(),
{
    reveal_strlit("/");
    reveal_strlit("http://");
    let t = s + "/"@;
    if crate::text::starts(s, p) {
        assert(t.take(7) =~= s.take(7));
        assert(t.skip(7) =~= s.skip(7) + "/"@);
        assert(s.skip(7).len() > 0 ==> s.skip(7).last() == s.last());
        slash_behind(s.skip(7), p);
    } else {
        if crate::text::starts(t, p) {
            if s.len() >= 7 {
                assert(t.take(7) =~= s.take(7));
            } else {
                assert(t.take(7) =~= t);
                assert(t[5] == s.last());
            }
        }
        assert(t.drop_last() =~= s);
    }
}

/// What went wrong is told by the error of an answer; where it has none, by its message; and
/// where neither tells it in words, by what is said otherwise.
pub proof fn answers_tell_what_went_wrong(
    error: FieldView,
    message: FieldView,
    otherwise: Seq<char>,
)
    ensures
        ({
            let told = crate::client::complaint(error, message, otherwise);
            &&& error is Text ==> told == error->Text_0
            &&& error is Missing && message is Text ==> told == message->Text_0
            &&& error is Other || (error is Missing && !(message is Text)) ==> told == otherwise
        }),
{
}

/// The token for a role is that of the first entry of the role that has one.
pub proof fn token_is_of_the_role(entries: Seq<ClientToken>, role: Seq<char>, i: int)
    requires
        0 <= i < entries.len(),
        entries[i].role@ == role,
        entries[i].token is Some,
        forall|k: int|
            0 <= k < i ==> (#[trigger] entries[k]).role@ != role || entries[k].token is None,
    ensures
        crate::client::token_for(entries, role) == Some(entries[i].token->0@),
    decreases i,
{
    if i > 0 {
        let rest = entries.skip(1);
        assert(entries[0].role@ != role || entries[0].token is None);
        assert(rest[i - 1] == entries[i]);
        assert forall|k: int| 0 <= k < i - 1 implies (#[trigger] rest[k]).role@ != role
            || rest[k].token is None by {
            assert(rest[k] == entries[k + 1]);
        }
        token_is_of_the_role(rest, role, i - 1);
    }
}

/// No entry of a role with a token, no token for the role.
pub proof fn no_entry_gives_no_token(entries: Seq<ClientToken>, role: Seq<char>)
    requires
        forall|k: int|
            0 <= k < entries.len() ==> (#[trigger] entries[k]).role@ != role || entries[k].token
                is None,
    ensures
        crate::client::token_for(entries, role) is None,
    decreases entries.len(),
{
    if entries.len() > 0 {
        let rest = entries.skip(1);
        assert(entries[0].role@ != role || entries[0].token is None);
        assert forall|k: int| 0 <= k < rest.len() implies (#[trigger] rest[k]).role@ != role
            || rest[k].token is None by {
            assert(rest[k] == entries[k + 1]);
        }
        no_entry_gives_no_token(rest, role);
    }
}

/// The token of the most powerful role is taken: an admin's before an operator's, that before
/// a reader's, that before a worker's, and a node's last.
pub proof fn most_powerful_token_is_taken(entries: Seq<ClientToken>)
    ensures
        ({
            let of = |role: Seq<char>| crate::client::token_for(entries, role);
            let best = crate::client::best_token(entries);
            &&& of("admin"@) is Some ==> best == of("admin"@)
            &&& of("admin"@) is None && of("operator"@) is Some ==> best == of("operator"@)
            &&& of("admin"@) is None && of("operator"@) is None && of("reader"@) is Some ==> best
                == of("reader"@)
            &&& of("admin"@) is None && of("operator"@) is None && of("reader"@) is None && of(
                "worker"@,
            ) is Some ==> best == of("worker"@)
            &&& best is None ==> of("admin"@) is None && of("operator"@) is None && of("reader"@)
                is None && of("worker"@) is None && of("raft"@) is None
            &&& of("raft"@) is Some ==> best is Some
        }),
{
}

/// Two calls between nodes that have the same target are the same call.
pub proof fn calls_have_their_own_targets(a: RaftCall, b: RaftCall)
    ensures
        a.target() == b.target() ==> a == b,
{
    reveal_strlit("/__kron/raft/append_entries");
    reveal_strlit("/__kron/raft/vote");
    reveal_strlit("/__kron/raft/install_snapshot");
    assert("/__kron/raft/append_entries"@.len() != "/__kron/raft/vote"@.len());
    assert("/__kron/raft/append_entries"@.len() != "/__kron/raft/install_snapshot"@.len());
    assert("/__kron/raft/vote"@.len() != "/__kron/raft/install_snapshot"@.len());
}

/// A header of another name gives no length.
pub proof fn other_headers_give_no_length(name: Seq<char>, value: Seq<char>)
    requires
        !name.contains(':'),
        crate::text::lowered(name) != "content-length"@,
    ensures
        crate::http::length_in(name + ":"@ + value) is None,
{
    header_has_its_value(name, value, "content-length"@);
}

/// An answer says in words what its status means: that the request was bad, not authorised or
/// for nothing that there is, and that all is well otherwise.
pub proof fn status_is_told_in_words(status: u16)
    ensures
        crate::http::reason(status) == match status {
            400 => "Bad Request"@,
            401 => "Unauthorized"@,
            404 => "Not Found"@,
            _ => "OK"@,
        },
{
}

} // verus!
