//! The audit trail: a chain of records, each of which carries the hash of the one before.

use vstd::prelude::*;

use crate::error::{KronError, KronErrorView};
use crate::log::{scan_lines, LineView, ParsedLine};
use crate::paths::join_path;
use crate::text::{concat, concat3, copy_option, decimal_of, hex_of, same};
use crate::timestamp::{parse_calendar_day, parse_rfc3339, to_rfc3339, TimeView, Timestamp};

verus! {

/// What was done, by whom, and how it went.
#[derive(Debug)]
pub struct AuditRecord {
    pub seq: u64,
    pub ts: Timestamp,
    pub node_id: String,
    pub action: String,
    pub outcome: String,
    pub status: u16,
    pub actor: String,
    pub role: String,
    pub tenant_id: Option<String>,
    pub reason: Option<String>,
    pub prev_hash: String,
    pub hash: String,
}

/// An [`AuditRecord`] as a mathematical value.
pub struct AuditView {
    pub seq: u64,
    pub ts: TimeView,
    pub node_id: Seq<char>,
    pub action: Seq<char>,
    pub outcome: Seq<char>,
    pub status: u16,
    pub actor: Seq<char>,
    pub role: Seq<char>,
    pub tenant_id: Option<Seq<char>>,
    pub reason: Option<Seq<char>>,
    pub prev_hash: Seq<char>,
    pub hash: Seq<char>,
}

impl View for AuditRecord {
    type V = AuditView;

    open spec fn view(&self) -> AuditView {
        AuditView {
            seq: self.seq,
            ts: self.ts@,
            node_id: self.node_id@,
            action: self.action@,
            outcome: self.outcome@,
            status: self.status,
            actor: self.actor@,
            role: self.role@,
            tenant_id: self.tenant_id.deep_view(),
            reason: self.reason.deep_view(),
            prev_hash: self.prev_hash@,
            hash: self.hash@,
        }
    }
}

impl DeepView for AuditRecord {
    type V = AuditView;

    open spec fn deep_view(&self) -> AuditView {
        self@
    }
}

impl Clone for AuditRecord {
    fn clone(&self) -> (r: Self)
        ensures
            r@ == self@,
    {
        AuditRecord {
            seq: self.seq,
            ts: self.ts,
            node_id: self.node_id.clone(),
            action: self.action.clone(),
            outcome: self.outcome.clone(),
            status: self.status,
            actor: self.actor.clone(),
            role: self.role.clone(),
            tenant_id: copy_option(&self.tenant_id),
            reason: copy_option(&self.reason),
            prev_hash: self.prev_hash.clone(),
            hash: self.hash.clone(),
        }
    }
}

/// Where a chain ends: the number and the hash of its last record.
#[derive(Debug, Clone, PartialEq, Eq)]
pub struct AuditState {
    pub seq: u64,
    pub hash: String,
}

/// What a verification has found to be in order.
#[derive(Debug, Clone, PartialEq, Eq)]
pub struct AuditVerification {
    pub records: u64,
}

/// What stands for a character in a JSON string: quotes, backslashes and control characters
/// are escaped.
pub open spec fn json_char(c: char) -> Seq<char> {
    let n = c as int;
    if c == '"' || c == '\\' {
        seq!['\\', c]
    } else if n == 8 {
        seq!['\\', 'b']
    } else if n == 9 {
        seq!['\\', 't']
    } else if n == 10 {
        seq!['\\', 'n']
    } else if n == 12 {
        seq!['\\', 'f']
    } else if n == 13 {
        seq!['\\', 'r']
    } else if n < 32 {
        seq!['\\', 'u', '0', '0'] + crate::text::hexadecimal(n as nat, 2)
    } else {
        seq![c]
    }
}

/// What stands for the characters of a text in a JSON string.
pub open spec fn json_chars(text: Seq<char>) -> Seq<char>
    decreases text.len(),
{
    if text.len() == 0 {
        Seq::empty()
    } else {
        json_chars(text.drop_last()) + json_char(text.last())
    }
}

/// The JSON string that stands for a text.
pub open spec fn json_string(text: Seq<char>) -> Seq<char> {
    seq!['"'] + json_chars(text) + seq!['"']
}

/// The SHA-256 digest of the UTF-8 bytes of a text.
pub uninterp spec fn sha256(text: Seq<char>) -> Seq<u8>;

/// `serde_json::to_string` of a string: its characters between quotes, with `"`, `\\` and
/// the control characters below the space escaped, the latter by their letter if they have
/// one and else by four hexadecimal digits in lower case. Strings can always be encoded.
#[verifier::external_body]
pub(crate) fn to_json_string(text: &str) -> (r: String)
    ensures
        r@ == json_string(text@),
{
    serde_json::to_string(text).unwrap()
}

/// `sha2::Sha256::digest`: the 32 bytes of the digest, which depend on the input alone.
#[verifier::external_body]
pub(crate) fn sha256_digest(text: &str) -> (r: Vec<u8>)
    ensures
        r@ == sha256(text@),
        r@.len() == 32,
{
    <sha2::Sha256 as sha2::Digest>::digest(text.as_bytes()).to_vec()
}

/// The SHA-256 digest of a text in hexadecimal.
pub open spec fn sha256_hex(text: Seq<char>) -> Seq<char> {
    crate::text::hex_bytes(sha256(text))
}

/// The SHA-256 digest of a text in hexadecimal.
pub fn sha256_hex_of(text: &str) -> (r: String)
    ensures
        r@ == sha256_hex(text@),
{
    hex_of(&sha256_digest(text))
}

/// The file of the audit trail.
pub fn audit_path(data_dir: &str) -> (r: String)
    ensures
        r@ == crate::paths::joined(data_dir@, "kron.audit.jsonl"@),
{
    join_path(data_dir, "kron.audit.jsonl")
}

/// The JSON text of an optional string.
pub open spec fn json_option(text: Option<Seq<char>>) -> Seq<char> {
    match text {
        Some(t) => json_string(t),
        None => "null"@,
    }
}

impl AuditView {
    /// The text that is hashed: all of the record but its hash, as a JSON object with its
    /// keys in order and no white space.
    pub open spec fn canonical(self) -> Seq<char> {
        "{\"action\":"@ + json_string(self.action) + ",\"actor\":"@ + json_string(self.actor)
            + ",\"node_id\":"@ + json_string(self.node_id) + ",\"outcome\":"@ + json_string(
            self.outcome,
        ) + ",\"prev_hash\":"@ + json_string(self.prev_hash) + ",\"reason\":"@ + json_option(
            self.reason,
        ) + ",\"role\":"@ + json_string(self.role) + ",\"seq\":"@ + crate::text::decimal(
            self.seq as nat,
        ) + ",\"status\":"@ + crate::text::decimal(self.status as nat) + ",\"tenant_id\":"@
            + json_option(self.tenant_id) + ",\"ts\":"@ + json_string(
            crate::timestamp::rfc3339_text(self.ts.secs, self.ts.nanos),
        ) + "}"@
    }

    /// The hash that the record has to carry.
    pub open spec fn computed_hash(self) -> Seq<char> {
        sha256_hex(self.canonical())
    }
}

fn json_option_of(text: &Option<String>) -> (r: String)
    ensures
        r@ == json_option(text.deep_view()),
{
    match text {
        Some(t) => to_json_string(t),
        None => "null".to_string(),
    }
}

/// The text of a record that is hashed.
fn canonical_of(record: &AuditRecord) -> (r: String)
    ensures
        r@ == record@.canonical(),
{
    let mut out = concat("{\"action\":", &to_json_string(&record.action));
    out.append(",\"actor\":");
    out.append(&to_json_string(&record.actor));
    out.append(",\"node_id\":");
    out.append(&to_json_string(&record.node_id));
    out.append(",\"outcome\":");
    out.append(&to_json_string(&record.outcome));
    out.append(",\"prev_hash\":");
    out.append(&to_json_string(&record.prev_hash));
    out.append(",\"reason\":");
    out.append(&json_option_of(&record.reason));
    out.append(",\"role\":");
    out.append(&to_json_string(&record.role));
    out.append(",\"seq\":");
    out.append(&decimal_of(record.seq));
    out.append(",\"status\":");
    out.append(&decimal_of(record.status as u64));
    out.append(",\"tenant_id\":");
    out.append(&json_option_of(&record.tenant_id));
    out.append(",\"ts\":");
    out.append(&to_json_string(&to_rfc3339(record.ts)));
    out.append("}");
    out
}

/// The hash that a record has to carry.
pub fn compute_hash(record: &AuditRecord) -> (r: String)
    ensures
        r@ == record@.computed_hash(),
{
    sha256_hex_of(&canonical_of(record))
}

/// The hash that the record at a position of a chain has to name as the one before.
pub open spec fn expected_prev(records: Seq<AuditView>, i: int) -> Seq<char> {
    if i == 0 {
        Seq::empty()
    } else {
        records[i - 1].hash
    }
}

/// What is wrong with a record, given the number and the hash that have to come before
/// and the hash that was computed for it.
pub open spec fn record_fault(
    record: AuditView,
    seq: u64,
    prev_hash: Seq<char>,
    computed: Seq<char>,
) -> Option<Seq<char>> {
    let start = "TAMPERED: record seq="@ + crate::text::decimal(record.seq as nat);
    if record.seq != seq {
        Some(start + " sequence mismatch, expected "@ + crate::text::decimal(seq as nat))
    } else if record.prev_hash != prev_hash {
        Some(start + " prev_hash mismatch"@)
    } else if record.hash != computed {
        Some(start + " hash mismatch"@)
    } else {
        None
    }
}

/// What is wrong with the record at a position of a chain.
pub open spec fn fault_at(records: Seq<AuditView>, i: int) -> Option<Seq<char>> {
    record_fault(
        records[i],
        (i + 1) as u64,
        expected_prev(records, i),
        records[i].computed_hash(),
    )
}

/// Whether the records are numbered from one on without a gap, each names the hash of the
/// one before, and each carries its own.
pub open spec fn chain_valid(records: Seq<AuditView>) -> bool {
    forall|i: int| 0 <= i < records.len() ==> #[trigger] fault_at(records, i) is None
}

/// What is wrong with a record, given the number and the hash that have to come before
/// and the hash that was computed for it.
pub fn check_record(record: &AuditRecord, seq: u64, prev_hash: &str, computed: &str) -> (r: Option<
    String,
>)
    ensures
        r.deep_view() == record_fault(record@, seq, prev_hash@, computed@),
{
    let start = concat("TAMPERED: record seq=", &decimal_of(record.seq));
    if record.seq != seq {
        Some(concat3(&start, " sequence mismatch, expected ", &decimal_of(seq)))
    } else if !same(&record.prev_hash, prev_hash) {
        Some(concat(&start, " prev_hash mismatch"))
    } else if !same(&record.hash, computed) {
        Some(concat(&start, " hash mismatch"))
    } else {
        None
    }
}

/// The records of the lines of an audit trail, up to the first that cannot be read.
pub open spec fn readable_records(lines: Seq<LineView<AuditView>>) -> Seq<AuditView> {
    if crate::log::all_readable(lines) {
        crate::log::values(lines)
    } else {
        crate::log::values(lines.take(choose|at: int| crate::log::first_broken(lines, at)))
    }
}

/// What is wrong with the lines of an audit trail, apart from its records: the first line
/// that cannot be read, unless it is a tail that a crash has cut off.
pub open spec fn line_fault(lines: Seq<LineView<AuditView>>) -> Option<(nat, Seq<char>)> {
    let at = choose|at: int| crate::log::first_broken(lines, at);
    if crate::log::all_readable(lines) || crate::log::is_cut_off(lines, at) {
        None
    } else {
        Some(((at + 1) as nat, lines[at]->message))
    }
}

/// Whether the position is that of the first record of a chain with a fault.
pub open spec fn first_fault(records: Seq<AuditView>, at: int) -> bool {
    &&& 0 <= at < records.len()
    &&& fault_at(records, at) is Some
    &&& forall|i: int| 0 <= i < at ==> #[trigger] fault_at(records, i) is None
}

/// The verdict on an audit trail: the number of its records, or what is wrong with it.
/// A fault of a record comes before a line behind it that cannot be read.
pub open spec fn verdict(lines: Seq<LineView<AuditView>>) -> Result<nat, Seq<char>> {
    let records = readable_records(lines);
    if !chain_valid(records) {
        Err(fault_at(records, choose|at: int| first_fault(records, at))->0)
    } else {
        match line_fault(lines) {
            Some((line, message)) => Err(
                "TAMPERED: line="@ + crate::text::decimal(line) + " invalid json: "@ + message,
            ),
            None => Ok(records.len()),
        }
    }
}

/// The first fault of a chain.
fn find_fault(records: &Vec<AuditRecord>) -> (r: Option<String>)
    ensures
        match r {
            Some(fault) => exists|at: int| #[trigger]
                first_fault(records.deep_view(), at) && fault_at(records.deep_view(), at) == Some(
                    fault@,
                ),
            None => chain_valid(records.deep_view()),
        },
{
    let ghost all = records.deep_view();
    let mut prev = String::new();
    assert(prev@ =~= Seq::<char>::empty());
    let mut i: usize = 0;
    while i < records.len()
        invariant
            all == records.deep_view(),
            i <= records@.len(),
            prev@ == expected_prev(all, i as int),
            forall|k: int| 0 <= k < i ==> #[trigger] fault_at(all, k) is None,
        decreases records@.len() - i,
    {
        assert(all[i as int] == records@[i as int]@);
        let computed = compute_hash(&records[i]);
        match check_record(&records[i], i as u64 + 1, &prev, &computed) {
            Some(fault) => {
                assert(first_fault(all, i as int));
                return Some(fault);
            },
            None => {},
        }
        prev = records[i].hash.clone();
        i = i + 1;
    }
    None
}

/// Verifies an audit trail, and hands out its records.
fn examine(lines: Vec<ParsedLine<AuditRecord>>) -> (r: (
    Result<AuditVerification, String>,
    Vec<AuditRecord>,
))
    ensures
        match r.0 {
            Ok(found) => verdict(lines.deep_view()) == Ok::<_, Seq<char>>(found.records as nat),
            Err(fault) => verdict(lines.deep_view()) == Err::<nat, _>(fault@),
        },
        r.1.deep_view() == readable_records(lines.deep_view()),
{
    let ghost all = lines.deep_view();
    let scan = scan_lines(lines);
    let ghost records = readable_records(all);
    proof {
        if scan.broken is Some {
            let at = scan.broken->0.line - 1;
            assert(crate::log::first_broken(all, at));
            let chosen = choose|at: int| crate::log::first_broken(all, at);
            assert(chosen == at);
        }
        assert(scan.values.deep_view() == records);
    }
    match find_fault(&scan.values) {
        Some(fault) => {
            proof {
                let at = choose|at: int| #[trigger]
                    first_fault(records, at) && fault_at(records, at) == Some(fault@);
                assert(!(fault_at(records, at) is None));
                let chosen = choose|at: int| first_fault(records, at);
                assert(chosen == at) by {
                    if chosen < at {
                        assert(fault_at(records, chosen) is None);
                    } else if at < chosen {
                        assert(fault_at(records, at) is None);
                    }
                }
            }
            return (Err(fault), scan.values);
        },
        None => {},
    }
    let count: u64 = scan.values.len() as u64;
    let found = match scan.broken {
        Some(broken) => {
            if scan.cut_off {
                Ok(AuditVerification { records: count })
            } else {
                let head = concat3(
                    "TAMPERED: line=",
                    &decimal_of(broken.line as u64),
                    " invalid json: ",
                );
                Err(concat(&head, &broken.message))
            }
        },
        None => Ok(AuditVerification { records: count }),
    };
    (found, scan.values)
}

/// Verifies an audit trail: its numbering, its chain and its hashes.
pub fn verify(lines: Vec<ParsedLine<AuditRecord>>) -> (r: Result<AuditVerification, String>)
    ensures
        match r {
            Ok(found) => verdict(lines.deep_view()) == Ok::<_, Seq<char>>(found.records as nat),
            Err(fault) => verdict(lines.deep_view()) == Err::<nat, _>(fault@),
        },
{
    examine(lines).0
}

/// Where an audit trail ends: at its last record, or before the first if it has none.
pub open spec fn end_of(records: Seq<AuditView>) -> (u64, Seq<char>) {
    if records.len() == 0 {
        (0, Seq::empty())
    } else {
        (records.last().seq, records.last().hash)
    }
}

/// Where an audit trail ends, without a verification of its chain.
pub fn read_last_state_unverified(lines: Vec<ParsedLine<AuditRecord>>) -> (r: Result<
    AuditState,
    KronError,
>)
    ensures
        match r {
            Ok(state) => line_fault(lines.deep_view()) is None && end_of(
                readable_records(lines.deep_view()),
            ) == (state.seq, state.hash@),
            Err(error) => line_fault(lines.deep_view()) is Some && error@
                == KronErrorView::LogSerde((line_fault(lines.deep_view())->0).1),
        },
{
    let ghost all = lines.deep_view();
    let scan = scan_lines(lines);
    let ghost records = readable_records(all);
    proof {
        if scan.broken is Some {
            let at = scan.broken->0.line - 1;
            assert(crate::log::first_broken(all, at));
            let chosen = choose|at: int| crate::log::first_broken(all, at);
            assert(chosen == at);
        }
        assert(scan.values.deep_view() == records);
    }
    if let Some(broken) = scan.broken {
        if !scan.cut_off {
            return Err(KronError::LogSerde(broken.message));
        }
    }
    Ok(state_of(&scan.values))
}

/// Where an audit trail ends, if its chain is in order.
pub fn read_last_state(lines: Vec<ParsedLine<AuditRecord>>) -> (r: Result<AuditState, KronError>)
    ensures
        match r {
            Ok(state) => verdict(lines.deep_view()) is Ok && end_of(
                readable_records(lines.deep_view()),
            ) == (state.seq, state.hash@),
            Err(error) => verdict(lines.deep_view()) is Err && error@
                == KronErrorView::IpcUnavailable(verdict(lines.deep_view())->Err_0),
        },
{
    let (found, records) = examine(lines);
    match found {
        Err(fault) => Err(KronError::IpcUnavailable(fault)),
        Ok(_) => Ok(state_of(&records)),
    }
}

/// Where a chain ends.
fn state_of(records: &Vec<AuditRecord>) -> (r: AuditState)
    ensures
        (r.seq, r.hash@) == end_of(records.deep_view()),
{
    let n: usize = records.len();
    if n == 0 {
        let hash = String::new();
        assert(hash@ =~= Seq::<char>::empty());
        AuditState { seq: 0, hash }
    } else {
        assert(records.deep_view()[n - 1] == records@[n - 1]@);
        AuditState { seq: records[n - 1].seq, hash: records[n - 1].hash.clone() }
    }
}

/// What is to be noted of a request.
pub struct AuditNote {
    pub node_id: String,
    pub action: String,
    pub outcome: String,
    pub status: u16,
    pub actor: String,
    pub role: String,
    pub tenant_id: Option<String>,
    pub reason: Option<String>,
}

/// The record of a note behind the end of a chain, without its hash.
pub open spec fn record_behind(
    end: (u64, Seq<char>),
    ts: TimeView,
    note: AuditNote,
) -> AuditView {
    AuditView {
        seq: (end.0 + 1) as u64,
        ts,
        node_id: note.node_id@,
        action: note.action@,
        outcome: note.outcome@,
        status: note.status,
        actor: note.actor@,
        role: note.role@,
        tenant_id: note.tenant_id.deep_view(),
        reason: note.reason.deep_view(),
        prev_hash: end.1,
        hash: Seq::empty(),
    }
}

/// The record of a note behind the end of a chain.
pub open spec fn next_record(end: (u64, Seq<char>), ts: TimeView, note: AuditNote) -> AuditView {
    let bare = record_behind(end, ts, note);
    AuditView { hash: bare.computed_hash(), ..bare }
}

/// The record of a note behind the end of a chain.
pub fn append(state: &AuditState, ts: Timestamp, note: AuditNote) -> (r: AuditRecord)
    requires
        state.seq < u64::MAX,
    ensures
        r@ == next_record((state.seq, state.hash@), ts@, note),
{
    let hash = String::new();
    assert(hash@ =~= Seq::<char>::empty());
    let mut record = AuditRecord {
        seq: state.seq + 1,
        ts,
        node_id: note.node_id,
        action: note.action,
        outcome: note.outcome,
        status: note.status,
        actor: note.actor,
        role: note.role,
        tenant_id: note.tenant_id,
        reason: note.reason,
        prev_hash: state.hash.clone(),
        hash,
    };
    assert(record@ == record_behind((state.seq, state.hash@), ts@, note));
    record.hash = compute_hash(&record);
    record
}

/// The hash of a record does not depend on the hash that it carries.
pub proof fn hash_is_of_the_rest(record: AuditView, hash: Seq<char>)
    ensures
        (AuditView { hash, ..record }).computed_hash() == record.computed_hash(),
{
}

/// A chain that is in order stays in order when a record is appended behind its end.
pub proof fn appending_keeps_the_chain(records: Seq<AuditView>, ts: TimeView, note: AuditNote)
    requires
        chain_valid(records),
        records.len() < u64::MAX,
    ensures
        chain_valid(records.push(next_record(end_of(records), ts, note))),
{
    let longer = records.push(next_record(end_of(records), ts, note));
    let n = records.len() as int;
    if n > 0 {
        assert(fault_at(records, n - 1) is None);
        assert(records.last().seq == n);
    }
    hash_is_of_the_rest(
        record_behind(end_of(records), ts, note),
        record_behind(end_of(records), ts, note).computed_hash(),
    );
    assert forall|i: int| 0 <= i < longer.len() implies #[trigger] fault_at(longer, i) is None by {
        if i < n {
            assert(fault_at(records, i) is None);
        }
    }
}

/// A trail that is verified stays so when a record is written behind it, once a tail that
/// a crash has cut off is dropped: it then has one record more, which has the next number,
/// the hash of the record before it and its own hash.
pub proof fn appending_keeps_the_trail(
    lines: Seq<LineView<AuditView>>,
    ts: TimeView,
    note: AuditNote,
)
    requires
        verdict(lines) is Ok,
        verdict(lines)->Ok_0 < u64::MAX,
    ensures
        ({
            let n = verdict(lines)->Ok_0;
            let records = readable_records(lines);
            let record = next_record(end_of(records), ts, note);
            let longer = crate::log::kept(lines).push(LineView::Value(record));
            &&& record.seq == n + 1
            &&& record.prev_hash == if n == 0 {
                Seq::empty()
            } else {
                records.last().hash
            }
            &&& record.hash == record.computed_hash()
            &&& verdict(longer) == Ok::<_, Seq<char>>(n + 1)
            &&& readable_records(longer) == records.push(record)
        }),
{
    let records = readable_records(lines);
    let record = next_record(end_of(records), ts, note);
    let before = crate::log::kept(lines);
    let longer = before.push(LineView::Value(record));
    let n = records.len() as int;
    if n > 0 {
        assert(fault_at(records, n - 1) is None);
    }
    if !crate::log::all_readable(lines) {
        some_line_is_the_first_broken(lines, lines.len() as int);
    }
    assert(crate::log::all_readable(before));
    assert forall|i: int| 0 <= i < longer.len() implies !((#[trigger] longer[i]) is Broken) by {
        if i < before.len() {
            assert(longer[i] == before[i]);
        }
    }
    assert(crate::log::all_readable(longer));
    assert(longer.drop_last() =~= before);
    assert(crate::log::values(longer) == crate::log::values(before).push(record));
    assert(crate::log::values(before) == records);
    appending_keeps_the_chain(records, ts, note);
    hash_is_of_the_rest(
        record_behind(end_of(records), ts, note),
        record_behind(end_of(records), ts, note).computed_hash(),
    );
}

proof fn some_line_is_the_first_broken(lines: Seq<LineView<AuditView>>, n: int)
    requires
        0 <= n <= lines.len(),
        exists|i: int| 0 <= i < n && (#[trigger] lines[i]) is Broken,
    ensures
        exists|at: int| crate::log::first_broken(lines, at),
    decreases n,
{
    let i = choose|i: int| 0 <= i < n && (#[trigger] lines[i]) is Broken;
    if exists|k: int| 0 <= k < i && (#[trigger] lines[k]) is Broken {
        some_line_is_the_first_broken(lines, i);
    } else {
        assert(crate::log::first_broken(lines, i));
    }
}

/// A record that no longer has the hash it carries is found out.
pub proof fn changed_record_is_found(records: Seq<AuditView>, i: int, changed: AuditView)
    requires
        0 <= i < records.len(),
        changed.computed_hash() != changed.hash,
    ensures
        !chain_valid(records.update(i, changed)),
{
    assert(fault_at(records.update(i, changed), i) is Some);
}

/// A record that is taken out of a chain before its end is missed.
pub proof fn removed_record_is_found(records: Seq<AuditView>, i: int)
    requires
        chain_valid(records),
        0 <= i < records.len() - 1,
        records.len() <= u64::MAX,
    ensures
        !chain_valid(records.remove(i)),
{
    let shorter = records.remove(i);
    assert(fault_at(records, i + 1) is None);
    assert(shorter[i] == records[i + 1]);
    assert(records[i + 1].seq == i + 2);
    assert(fault_at(shorter, i) is Some);
}

/// A record whose hash is replaced along with its contents breaks the chain at the record
/// behind it.
pub proof fn replaced_record_is_found(records: Seq<AuditView>, i: int, replaced: AuditView)
    requires
        chain_valid(records),
        0 <= i < records.len() - 1,
        replaced.hash != records[i].hash,
    ensures
        !chain_valid(records.update(i, replaced)),
{
    let other = records.update(i, replaced);
    assert(fault_at(records, i + 1) is None);
    assert(other[i + 1] == records[i + 1]);
    assert(fault_at(other, i + 1) is Some);
}

/// Which records are asked for.
pub struct AuditQuery {
    pub actor: Option<String>,
    pub action: Option<String>,
    pub from: Option<Timestamp>,
    pub to: Option<Timestamp>,
}

impl AuditQuery {
    /// Whether a record is asked for.
    pub open spec fn wants(self, record: AuditView) -> bool {
        &&& self.actor is Some ==> record.actor == self.actor->0@
        &&& self.action is Some ==> record.action == self.action->0@
        &&& self.from is Some ==> self.from->0@.not_after(record.ts)
        &&& self.to is Some ==> record.ts.not_after(self.to->0@)
    }

    /// Whether a record is asked for.
    pub fn matches(&self, record: &AuditRecord) -> (r: bool)
        ensures
            r == self.wants(record@),
    {
        if let Some(actor) = &self.actor {
            if !same(&record.actor, actor) {
                return false;
            }
        }
        if let Some(action) = &self.action {
            if !same(&record.action, action) {
                return false;
            }
        }
        if let Some(from) = &self.from {
            if record.ts.before(from) {
                return false;
            }
        }
        if let Some(to) = &self.to {
            if to.before(&record.ts) {
                return false;
            }
        }
        true
    }
}

/// The records that are asked for, in order.
pub open spec fn answered(records: Seq<AuditView>, query: AuditQuery) -> Seq<AuditView>
    decreases records.len(),
{
    if records.len() == 0 {
        Seq::empty()
    } else {
        let front = answered(records.drop_last(), query);
        if query.wants(records.last()) {
            front.push(records.last())
        } else {
            front
        }
    }
}

/// The records that are asked for, in order.
pub fn query(records: &Vec<AuditRecord>, wanted: &AuditQuery) -> (r: Vec<AuditRecord>)
    ensures
        r.deep_view() == answered(records.deep_view(), *wanted),
{
    let ghost all = records.deep_view();
    let mut out: Vec<AuditRecord> = Vec::new();
    let mut i: usize = 0;
    assert(all.take(0) == Seq::<AuditView>::empty());
    assert(out.deep_view() =~= answered(all.take(0), *wanted));
    while i < records.len()
        invariant
            all == records.deep_view(),
            i <= records@.len(),
            out.deep_view() == answered(all.take(i as int), *wanted),
        decreases records@.len() - i,
    {
        let ghost front = out.deep_view();
        proof {
            assert(all.take(i + 1).drop_last() == all.take(i as int));
            assert(all.take(i + 1).last() == records@[i as int]@);
        }
        if wanted.matches(&records[i]) {
            out.push(records[i].clone());
            assert(out.deep_view() =~= front.push(records@[i as int]@));
        }
        i = i + 1;
    }
    assert(all.take(all.len() as int) == all);
    out
}

/// From which position on the last records are, at most as many as the limit.
pub fn tail_start(len: usize, limit: usize) -> (r: usize)
    ensures
        r == (if limit < len {
            len - limit
        } else {
            0
        }),
{
    len.saturating_sub(limit)
}

/// The instant that bounds a query, given what its text denotes as an instant and as a
/// day. A day bounds by its first second, or by its last.
pub open spec fn bound_given(
    text: Seq<char>,
    instant: Option<TimeView>,
    day: Result<int, Seq<char>>,
    end_of_day: bool,
) -> Result<TimeView, Seq<char>> {
    match instant {
        Some(t) => Ok(t),
        None => match day {
            Ok(d) => Ok(
                TimeView {
                    secs: d * 86400 + (if end_of_day {
                        86399int
                    } else {
                        0int
                    }),
                    nanos: 0,
                },
            ),
            Err(message) => Err("invalid date `"@ + text + "`: "@ + message),
        },
    }
}

/// The instant that bounds a query.
pub open spec fn parsed_bound(text: Seq<char>, end_of_day: bool) -> Result<TimeView, Seq<char>> {
    let instant = match crate::timestamp::rfc3339_instant(text) {
        Ok((secs, nanos)) => Some(TimeView { secs, nanos }),
        Err(_) => None,
    };
    bound_given(text, instant, crate::timestamp::calendar_day(text), end_of_day)
}

/// The instant that bounds a query, given what its text denotes as an instant and as a
/// day.
pub fn bound_from(
    text: &str,
    instant: Option<Timestamp>,
    day: Result<i64, String>,
    end_of_day: bool,
) -> (r: Result<Timestamp, String>)
    requires
        day is Ok ==> crate::timestamp::MIN_SECS <= day->Ok_0 * 86400 && day->Ok_0 * 86400 + 86399
            <= crate::timestamp::MAX_SECS,
    ensures
        ({
            let day_view = match day {
                Ok(d) => Ok(d as int),
                Err(message) => Err(message@),
            };
            match r {
                Ok(t) => bound_given(text@, instant.deep_view(), day_view, end_of_day) == Ok::<
                    _,
                    Seq<char>,
                >(t@),
                Err(message) => bound_given(text@, instant.deep_view(), day_view, end_of_day)
                    == Err::<TimeView, _>(message@),
            }
        }),
{
    match instant {
        Some(t) => Ok(t),
        None => match day {
            Ok(d) => {
                let secs: i64 = d * 86400 + (if end_of_day {
                    86399
                } else {
                    0
                });
                match Timestamp::new(secs, 0) {
                    Some(t) => Ok(t),
                    None => Err(String::new()),
                }
            },
            Err(message) => {
                let head = concat3("invalid date `", text, "`: ");
                Err(concat(&head, &message))
            },
        },
    }
}

/// The instant that bounds a query, if a bound is given: an RFC 3339 instant, or a day of
/// the form `%Y-%m-%d`.
pub fn parse_bound(value: &Option<String>, end_of_day: bool) -> (r: Result<
    Option<Timestamp>,
    String,
>)
    ensures
        match value {
            None => r is Ok && r->Ok_0 is None,
            Some(text) => match r {
                Ok(t) => t is Some && parsed_bound(text@, end_of_day) == Ok::<_, Seq<char>>(t->0@),
                Err(message) => parsed_bound(text@, end_of_day) == Err::<TimeView, _>(message@),
            },
        },
{
    match value {
        None => Ok(None),
        Some(text) => {
            let instant = match parse_rfc3339(text) {
                Ok(t) => Some(t),
                Err(_) => None,
            };
            match bound_from(text, instant, parse_calendar_day(text), end_of_day) {
                Ok(t) => Ok(Some(t)),
                Err(message) => Err(message),
            }
        },
    }
}

} // verus!
