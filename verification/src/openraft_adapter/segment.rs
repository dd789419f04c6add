//! The files of the replicated log: segments of records, each with a header and a
//! checksum in front of its payload.

use vstd::prelude::*;

use crate::text::hexadecimal_of;

verus! {

/// The version of the storage that is written and read.
pub const STORE_FORMAT_VERSION: u32 = 1;

/// The size from which on a segment takes no further record: 64 MiB.
pub const LOG_SEGMENT_MAX_BYTES: usize = 67_108_864;

/// The bytes in front of the payload of a record.
pub const LOG_RECORD_HEADER_BYTES: usize = 40;

/// The bytes with which every record begins: `KRLOG001`.
pub open spec fn magic() -> Seq<u8> {
    seq![0x4bu8, 0x52u8, 0x4cu8, 0x4fu8, 0x47u8, 0x30u8, 0x30u8, 0x31u8]
}

/// The `width` lowest bytes of a number, least significant first.
pub open spec fn le_bytes(n: nat, width: nat) -> Seq<u8>
    decreases width,
{
    if width == 0 {
        Seq::empty()
    } else {
        seq![(n % 256) as u8] + le_bytes(n / 256, (width - 1) as nat)
    }
}

/// The number that bytes denote, least significant first.
pub open spec fn le_value(bytes: Seq<u8>) -> nat
    decreases bytes.len(),
{
    if bytes.len() == 0 {
        0
    } else {
        bytes[0] as nat + 256 * le_value(bytes.skip(1))
    }
}

/// Two hundred fifty-six to a power.
pub open spec fn pow256(width: nat) -> nat
    decreases width,
{
    if width == 0 {
        1
    } else {
        256 * pow256((width - 1) as nat)
    }
}

proof fn le_bytes_len(n: nat, width: nat)
    ensures
        le_bytes(n, width).len() == width,
    decreases width,
{
    if width > 0 {
        le_bytes_len(n / 256, (width - 1) as nat);
    }
}

/// A number that fits into the width is read back from its bytes.
pub proof fn le_round_trip(n: nat, width: nat)
    requires
        n < pow256(width),
    ensures
        le_bytes(n, width).len() == width,
        le_value(le_bytes(n, width)) == n,
    decreases width,
{
    le_bytes_len(n, width);
    if width > 0 {
        le_round_trip(n / 256, (width - 1) as nat);
        assert(le_bytes(n, width).skip(1) =~= le_bytes(n / 256, (width - 1) as nat));
    }
}

proof fn le_value_bound(bytes: Seq<u8>)
    ensures
        le_value(bytes) < pow256(bytes.len()),
    decreases bytes.len(),
{
    if bytes.len() > 0 {
        le_value_bound(bytes.skip(1));
    }
}

proof fn pow256_values()
    ensures
        pow256(4) == 0x1_0000_0000,
        pow256(8) == 0x1_0000_0000_0000_0000,
{
    reveal_with_fuel(pow256, 9);
}

/// Appends the lowest bytes of a number, least significant first.
fn push_le(out: &mut Vec<u8>, n: u64, width: usize)
    ensures
        final(out)@ == old(out)@ + le_bytes(n as nat, width as nat),
    decreases width,
{
    if width == 0 {
        assert(out@ + Seq::<u8>::empty() =~= out@);
        return;
    }
    let ghost before = out@;
    out.push((n % 256) as u8);
    push_le(out, n / 256, width - 1);
    assert(out@ =~= before + le_bytes(n as nat, width as nat));
}

/// Reads a number of at most eight bytes, least significant first.
fn read_le(bytes: &Vec<u8>, offset: usize, width: usize) -> (r: u64)
    requires
        width <= 8,
        offset + width <= bytes.len(),
    ensures
        r == le_value(bytes@.subrange(offset as int, offset + width)),
    decreases width,
{
    let ghost part = bytes@.subrange(offset as int, offset + width);
    proof {
        le_value_bound(part);
        reveal_with_fuel(pow256, 9);
    }
    if width == 0 {
        return 0;
    }
    let rest: u64 = read_le(bytes, offset + 1, width - 1);
    assert(part.skip(1) =~= bytes@.subrange(offset + 1, offset + width));
    bytes[offset] as u64 + 256 * rest
}

/// The checksum of the payload of a record: 32-bit FNV-1a.
pub open spec fn fnv32(bytes: Seq<u8>) -> u32
    decreases bytes.len(),
{
    if bytes.len() == 0 {
        0x811c9dc5
    } else {
        (fnv32(bytes.drop_last()) ^ (bytes.last() as u32)).wrapping_mul(0x01000193)
    }
}

/// The checksum of the payload of a record.
pub fn checksum32(bytes: &Vec<u8>) -> (r: u32)
    ensures
        r == fnv32(bytes@),
{
    let mut hash: u32 = 0x811c9dc5;
    let mut i: usize = 0;
    while i < bytes.len()
        invariant
            i <= bytes@.len(),
            hash == fnv32(bytes@.take(i as int)),
        decreases bytes@.len() - i,
    {
        proof {
            assert(bytes@.take(i + 1).drop_last() =~= bytes@.take(i as int));
        }
        hash = (hash ^ (bytes[i] as u32)).wrapping_mul(0x01000193);
        i = i + 1;
    }
    assert(bytes@.take(bytes@.len() as int) =~= bytes@);
    hash
}

/// A record of the replicated log: the term and the index of its entry, and the entry in
/// encoded form.
#[derive(Debug, PartialEq, Eq)]
pub struct LogRecord {
    pub term: u64,
    pub index: u64,
    pub payload: Vec<u8>,
}

/// A [`LogRecord`] as a mathematical value.
pub struct RecordView {
    pub term: u64,
    pub index: u64,
    pub payload: Seq<u8>,
}

impl View for LogRecord {
    type V = RecordView;

    open spec fn view(&self) -> RecordView {
        RecordView { term: self.term, index: self.index, payload: self.payload@ }
    }
}

impl DeepView for LogRecord {
    type V = RecordView;

    open spec fn deep_view(&self) -> RecordView {
        self@
    }
}

/// The bytes of a record.
pub open spec fn encoded(record: RecordView) -> Seq<u8> {
    magic() + le_bytes(STORE_FORMAT_VERSION as nat, 4) + le_bytes(record.term as nat, 8) + le_bytes(
        record.index as nat,
        8,
    ) + le_bytes(fnv32(record.payload) as nat, 4) + le_bytes(record.payload.len(), 8)
        + record.payload
}

/// The bytes of records, one after the other.
pub open spec fn encoded_all(records: Seq<RecordView>) -> Seq<u8>
    decreases records.len(),
{
    if records.len() == 0 {
        Seq::empty()
    } else {
        encoded(records[0]) + encoded_all(records.skip(1))
    }
}

/// Appends the bytes of a record.
pub fn encode_log_record(record: &LogRecord, out: &mut Vec<u8>)
    ensures
        final(out)@ == old(out)@ + encoded(record@),
{
    let ghost before = out@;
    out.push(0x4b);
    out.push(0x52);
    out.push(0x4c);
    out.push(0x4f);
    out.push(0x47);
    out.push(0x30);
    out.push(0x30);
    out.push(0x31);
    assert(out@ =~= before + magic());
    push_le(out, STORE_FORMAT_VERSION as u64, 4);
    push_le(out, record.term, 8);
    push_le(out, record.index, 8);
    push_le(out, checksum32(&record.payload) as u64, 4);
    push_le(out, record.payload.len() as u64, 8);
    let ghost header = out@;
    let mut i: usize = 0;
    assert(header + record.payload@.take(0) =~= header);
    while i < record.payload.len()
        invariant
            i <= record.payload@.len(),
            out@ == header + record.payload@.take(i as int),
        decreases record.payload@.len() - i,
    {
        out.push(record.payload[i]);
        assert(record.payload@.take(i + 1) =~= record.payload@.take(i as int).push(
            record.payload@[i as int],
        ));
        assert(out@ =~= header + record.payload@.take(i + 1));
        i = i + 1;
    }
    assert(record.payload@.take(record.payload@.len() as int) =~= record.payload@);
    assert(out@ =~= before + encoded(record@));
}

/// Why a segment cannot be read.
#[derive(Debug, Clone, Copy, PartialEq, Eq, Structural)]
pub enum SegmentFault {
    TruncatedHeader,
    BadMagic,
    BadVersion,
    TruncatedPayload,
    BadChecksum,
    HeaderMismatch,
}

impl SegmentFault {
    /// What the fault says.
    pub open spec fn text(self) -> Seq<char> {
        match self {
            SegmentFault::TruncatedHeader => "truncated raft log record header"@,
            SegmentFault::BadMagic => "invalid raft log record magic"@,
            SegmentFault::BadVersion => "unsupported raft log record version"@,
            SegmentFault::TruncatedPayload => "truncated raft log record payload"@,
            SegmentFault::BadChecksum => "raft log record checksum mismatch"@,
            SegmentFault::HeaderMismatch => "raft log record header does not match entry"@,
        }
    }

    /// What the fault says.
    pub fn message(&self) -> (r: &'static str)
        ensures
            r@ == self.text(),
    {
        match self {
            SegmentFault::TruncatedHeader => "truncated raft log record header",
            SegmentFault::BadMagic => "invalid raft log record magic",
            SegmentFault::BadVersion => "unsupported raft log record version",
            SegmentFault::TruncatedPayload => "truncated raft log record payload",
            SegmentFault::BadChecksum => "raft log record checksum mismatch",
            SegmentFault::HeaderMismatch => "raft log record header does not match entry",
        }
    }
}

/// The length of the payload that the header of a record announces.
pub open spec fn payload_len(bytes: Seq<u8>) -> nat {
    le_value(bytes.subrange(32, 40))
}

/// The record at the start of the bytes.
pub open spec fn record_at_start(bytes: Seq<u8>) -> RecordView {
    RecordView {
        term: le_value(bytes.subrange(12, 20)) as u64,
        index: le_value(bytes.subrange(20, 28)) as u64,
        payload: bytes.subrange(40, 40int + payload_len(bytes)),
    }
}

/// What the bytes begin with.
pub enum Start {
    /// There are no bytes.
    End,
    /// The bytes stop within a record, in its header or in its payload.
    CutOff(SegmentFault),
    /// The bytes are not those of a record.
    Fault(SegmentFault),
    /// A whole record.
    Record,
}

/// What the bytes begin with.
pub open spec fn start_of(bytes: Seq<u8>) -> Start {
    if bytes.len() == 0 {
        Start::End
    } else if bytes.len() < LOG_RECORD_HEADER_BYTES {
        Start::CutOff(SegmentFault::TruncatedHeader)
    } else if bytes.subrange(0, 8) != magic() {
        Start::Fault(SegmentFault::BadMagic)
    } else if le_value(bytes.subrange(8, 12)) != STORE_FORMAT_VERSION {
        Start::Fault(SegmentFault::BadVersion)
    } else if bytes.len() - LOG_RECORD_HEADER_BYTES < payload_len(bytes) {
        Start::CutOff(SegmentFault::TruncatedPayload)
    } else if fnv32(record_at_start(bytes).payload) != le_value(bytes.subrange(28, 32)) {
        Start::Fault(SegmentFault::BadChecksum)
    } else {
        Start::Record
    }
}

/// The records of a segment and the fault at which the reading ended, if it did. A record
/// that is cut off at the end of the segment is ignored, unless it is the first.
pub open spec fn decoded(bytes: Seq<u8>, first: bool) -> (Seq<RecordView>, Option<SegmentFault>)
    decreases bytes.len(),
{
    match start_of(bytes) {
        Start::End => (Seq::empty(), None),
        Start::CutOff(fault) => (
            Seq::empty(),
            if first {
                Some(fault)
            } else {
                None
            },
        ),
        Start::Fault(fault) => (Seq::empty(), Some(fault)),
        Start::Record => {
            if bytes.len() < 40 {
                (Seq::empty(), None)
            } else {
                let rest = decoded(bytes.skip(40int + payload_len(bytes)), false);
                (seq![record_at_start(bytes)] + rest.0, rest.1)
            }
        },
    }
}

/// How the last record of a segment is cut off, if it is.
pub open spec fn cut_off(bytes: Seq<u8>) -> Option<SegmentFault>
    decreases bytes.len(),
{
    match start_of(bytes) {
        Start::CutOff(fault) => Some(fault),
        Start::Record => {
            if bytes.len() < 40 {
                None
            } else {
                cut_off(bytes.skip(40int + payload_len(bytes)))
            }
        },
        _ => None,
    }
}

/// The records of one of the segments of a log and the fault at which the reading ended,
/// if it did. Only the last segment may end in a record that is cut off.
pub open spec fn decoded_in_log(bytes: Seq<u8>, last: bool) -> (
    Seq<RecordView>,
    Option<SegmentFault>,
) {
    let (records, fault) = decoded(bytes, true);
    (
        records,
        if fault is None && !last {
            cut_off(bytes)
        } else {
            fault
        },
    )
}

/// The records of a log and the fault at which the reading of its segments ended, if it
/// did.
pub open spec fn decoded_log(segments: Seq<Seq<u8>>) -> (Seq<RecordView>, Option<SegmentFault>)
    decreases segments.len(),
{
    if segments.len() == 0 {
        (Seq::empty(), None)
    } else {
        let (records, fault) = decoded_in_log(segments[0], segments.len() == 1);
        if fault is Some {
            (records, fault)
        } else {
            let rest = decoded_log(segments.skip(1));
            (records + rest.0, rest.1)
        }
    }
}

/// What was read of a segment, or of all segments of a log.
pub struct SegmentScan {
    /// The records up to the end or to the fault.
    pub records: Vec<LogRecord>,
    pub fault: Option<SegmentFault>,
}

/// The bytes of a part of a list.
fn copy_range(bytes: &Vec<u8>, from: usize, to: usize) -> (r: Vec<u8>)
    requires
        from <= to <= bytes@.len(),
    ensures
        r@ == bytes@.subrange(from as int, to as int),
{
    let mut out: Vec<u8> = Vec::new();
    let mut i: usize = from;
    while i < to
        invariant
            from <= i <= to <= bytes@.len(),
            out@ == bytes@.subrange(from as int, i as int),
        decreases to - i,
    {
        out.push(bytes[i]);
        i = i + 1;
    }
    out
}

/// Whether the magic bytes stand at a position.
fn has_magic(bytes: &Vec<u8>, offset: usize) -> (r: bool)
    requires
        offset + 8 <= bytes.len(),
    ensures
        r == (bytes@.subrange(offset as int, offset + 8) == magic()),
{
    let r = bytes[offset] == 0x4b && bytes[offset + 1] == 0x52 && bytes[offset + 2] == 0x4c
        && bytes[offset + 3] == 0x4f && bytes[offset + 4] == 0x47 && bytes[offset + 5] == 0x30
        && bytes[offset + 6] == 0x30 && bytes[offset + 7] == 0x31;
    proof {
        let part = bytes@.subrange(offset as int, offset + 8);
        if r {
            assert(part =~= magic());
        } else if part == magic() {
            assert(part[0] == 0x4b && part[1] == 0x52 && part[2] == 0x4c && part[3] == 0x4f
                && part[4] == 0x47 && part[5] == 0x30 && part[6] == 0x30 && part[7] == 0x31);
        }
    }
    r
}

/// Reads the records of a segment.
pub fn read_segment_file(bytes: &Vec<u8>) -> (r: SegmentScan)
    ensures
        (r.records.deep_view(), r.fault) == decoded(bytes@, true),
{
    scan_segment(bytes).0
}

/// The bytes of segments as a mathematical value.
pub open spec fn files_view(files: Seq<Vec<u8>>) -> Seq<Seq<u8>> {
    Seq::new(files.len(), |i: int| files[i]@)
}

/// Reads the records of a log from the bytes of its segments, in order.
pub fn read_log_segments(files: &Vec<Vec<u8>>) -> (r: SegmentScan)
    ensures
        (r.records.deep_view(), r.fault) == decoded_log(files_view(files@)),
{
    let ghost all = files_view(files@);
    let ghost whole = decoded_log(all);
    let mut records: Vec<LogRecord> = Vec::new();
    let mut i: usize = 0;
    proof {
        assert(all.skip(0) =~= all);
        assert(records.deep_view() + whole.0 =~= whole.0);
    }
    while i < files.len()
        invariant
            i <= files@.len(),
            all == files_view(files@),
            whole == decoded_log(all),
            whole.0 == records.deep_view() + decoded_log(all.skip(i as int)).0,
            whole.1 == decoded_log(all.skip(i as int)).1,
        decreases files@.len() - i,
    {
        let ghost before = records.deep_view();
        let ghost rest = all.skip(i as int);
        let (scan, cut) = scan_segment(&files[i]);
        let mut found = scan.records;
        let ghost read = found.deep_view();
        proof {
            assert(rest[0] == files@[i as int]@);
            assert(rest.skip(1) =~= all.skip(i + 1));
        }
        records.append(&mut found);
        assert(records.deep_view() =~= before + read);
        let fault = if scan.fault.is_none() && i + 1 < files.len() {
            cut
        } else {
            scan.fault
        };
        if fault.is_some() {
            return SegmentScan { records, fault };
        }
        i = i + 1;
        proof {
            let tail = decoded_log(all.skip(i as int)).0;
            assert(before + (read + tail) =~= (before + read) + tail);
        }
    }
    proof {
        assert(all.skip(i as int) =~= Seq::<Seq<u8>>::empty());
        assert(records.deep_view() + Seq::<RecordView>::empty() =~= records.deep_view());
    }
    SegmentScan { records, fault: None }
}

/// Reads the records of a segment, and how the last one is cut off, if it is.
fn scan_segment(bytes: &Vec<u8>) -> (r: (SegmentScan, Option<SegmentFault>))
    ensures
        (r.0.records.deep_view(), r.0.fault) == decoded(bytes@, true),
        r.1 == cut_off(bytes@),
{
    let ghost all = decoded(bytes@, true);
    let mut records: Vec<LogRecord> = Vec::new();
    let mut offset: usize = 0;
    proof {
        assert(bytes@.skip(0) =~= bytes@);
        assert(records.deep_view() + all.0 =~= all.0);
    }
    while offset < bytes.len()
        invariant
            offset <= bytes@.len(),
            all == decoded(bytes@, true),
            all.0 == records.deep_view() + decoded(
                bytes@.skip(offset as int),
                records@.len() == 0,
            ).0,
            all.1 == decoded(bytes@.skip(offset as int), records@.len() == 0).1,
            cut_off(bytes@) == cut_off(bytes@.skip(offset as int)),
        decreases bytes@.len() - offset,
    {
        let ghost rest = bytes@.skip(offset as int);
        let first = records.len() == 0;
        let ghost before = records.deep_view();
        proof {
            assert(before + Seq::<RecordView>::empty() =~= before);
        }
        if bytes.len() - offset < LOG_RECORD_HEADER_BYTES {
            let cut = Some(SegmentFault::TruncatedHeader);
            let fault = if first {
                cut
            } else {
                None
            };
            return (SegmentScan { records, fault }, cut);
        }
        proof {
            assert(rest.subrange(0, 8) =~= bytes@.subrange(offset as int, offset + 8));
            assert(rest.subrange(8, 12) =~= bytes@.subrange(offset + 8, offset + 12));
            assert(rest.subrange(12, 20) =~= bytes@.subrange(offset + 12, offset + 20));
            assert(rest.subrange(20, 28) =~= bytes@.subrange(offset + 20, offset + 28));
            assert(rest.subrange(28, 32) =~= bytes@.subrange(offset + 28, offset + 32));
            assert(rest.subrange(32, 40) =~= bytes@.subrange(offset + 32, offset + 40));
        }
        if !has_magic(bytes, offset) {
            return (SegmentScan { records, fault: Some(SegmentFault::BadMagic) }, None);
        }
        if read_le(bytes, offset + 8, 4) != STORE_FORMAT_VERSION as u64 {
            return (SegmentScan { records, fault: Some(SegmentFault::BadVersion) }, None);
        }
        let term: u64 = read_le(bytes, offset + 12, 8);
        let index: u64 = read_le(bytes, offset + 20, 8);
        let checksum: u64 = read_le(bytes, offset + 28, 4);
        let len: u64 = read_le(bytes, offset + 32, 8);
        let start: usize = offset + LOG_RECORD_HEADER_BYTES;
        if ((bytes.len() - start) as u64) < len {
            let cut = Some(SegmentFault::TruncatedPayload);
            let fault = if first {
                cut
            } else {
                None
            };
            return (SegmentScan { records, fault }, cut);
        }
        let end: usize = start + len as usize;
        let payload = copy_range(bytes, start, end);
        assert(rest.subrange(40, 40int + payload_len(rest)) =~= payload@);
        if checksum32(&payload) as u64 != checksum {
            return (SegmentScan { records, fault: Some(SegmentFault::BadChecksum) }, None);
        }
        let record = LogRecord { term, index, payload };
        let ghost view = record@;
        proof {
            assert(view == record_at_start(rest));
            assert(rest.skip(40int + payload_len(rest)) =~= bytes@.skip(end as int));
            let tail = decoded(bytes@.skip(end as int), false);
            assert(before + (seq![view] + tail.0) =~= before.push(view) + tail.0);
        }
        records.push(record);
        assert(records.deep_view() =~= before.push(view));
        offset = end;
    }
    proof {
        assert(bytes@.skip(offset as int) =~= Seq::<u8>::empty());
        assert(records.deep_view() + Seq::<RecordView>::empty() =~= records.deep_view());
    }
    (SegmentScan { records, fault: None }, None)
}

/// Whether the header of a record tells the term and the index of the entry in its
/// payload.
pub fn check_entry(record: &LogRecord, term: u64, index: u64) -> (r: Result<(), SegmentFault>)
    ensures
        match r {
            Ok(_) => record@.term == term && record@.index == index,
            Err(fault) => (record@.term != term || record@.index != index) && fault
                == SegmentFault::HeaderMismatch,
        },
{
    if record.index != index || record.term != term {
        Err(SegmentFault::HeaderMismatch)
    } else {
        Ok(())
    }
}

proof fn encoded_starts_with_its_record(record: RecordView, behind: Seq<u8>)
    requires
        record.payload.len() <= u64::MAX,
    ensures
        ({
            let bytes = encoded(record) + behind;
            &&& start_of(bytes) is Record
            &&& record_at_start(bytes) == record
            &&& payload_len(bytes) == record.payload.len()
            &&& encoded(record).len() == 40int + record.payload.len()
            &&& bytes.skip(40int + record.payload.len()) == behind
        }),
{
    pow256_values();
    le_round_trip(STORE_FORMAT_VERSION as nat, 4);
    le_round_trip(record.term as nat, 8);
    le_round_trip(record.index as nat, 8);
    le_round_trip(fnv32(record.payload) as nat, 4);
    le_round_trip(record.payload.len(), 8);
    let bytes = encoded(record) + behind;
    assert(bytes.subrange(0, 8) =~= magic());
    assert(bytes.subrange(8, 12) =~= le_bytes(STORE_FORMAT_VERSION as nat, 4));
    assert(bytes.subrange(12, 20) =~= le_bytes(record.term as nat, 8));
    assert(bytes.subrange(20, 28) =~= le_bytes(record.index as nat, 8));
    assert(bytes.subrange(28, 32) =~= le_bytes(fnv32(record.payload) as nat, 4));
    assert(bytes.subrange(32, 40) =~= le_bytes(record.payload.len(), 8));
    assert(bytes.subrange(40, 40int + record.payload.len()) =~= record.payload);
    assert(bytes.skip(40int + record.payload.len()) =~= behind);
}

/// What was written to a segment is read back from it.
pub proof fn segment_round_trip(records: Seq<RecordView>, first: bool)
    requires
        forall|i: int| 0 <= i < records.len() ==> (#[trigger] records[i]).payload.len() <= u64::MAX,
    ensures
        decoded(encoded_all(records), first) == (records, None::<SegmentFault>),
        cut_off(encoded_all(records)) is None,
    decreases records.len(),
{
    if records.len() > 0 {
        let rest = records.skip(1);
        assert forall|i: int| 0 <= i < rest.len() implies (#[trigger] rest[i]).payload.len()
            <= u64::MAX by {
            assert(rest[i] == records[i + 1]);
        }
        encoded_starts_with_its_record(records[0], encoded_all(rest));
        segment_round_trip(rest, false);
        assert(seq![records[0]] + rest =~= records);
    } else {
        assert(records =~= Seq::empty());
    }
}

/// A segment that a crash has cut off within its last record gives the records before
/// that one, if there are any; of a segment that is cut off within its only record
/// nothing is left, and that is an error.
pub proof fn cut_off_segment_keeps_its_records(
    records: Seq<RecordView>,
    last: RecordView,
    kept: int,
    first: bool,
)
    requires
        forall|i: int| 0 <= i < records.len() ==> (#[trigger] records[i]).payload.len() <= u64::MAX,
        last.payload.len() <= u64::MAX,
        0 < kept < encoded(last).len(),
    ensures
        ({
            let (read, fault) = decoded(encoded_all(records) + encoded(last).take(kept), first);
            &&& read == records
            &&& fault is Some <==> records.len() == 0 && first
        }),
        cut_off(encoded_all(records) + encoded(last).take(kept)) is Some,
    decreases records.len(),
{
    let tail = encoded(last).take(kept);
    if records.len() > 0 {
        let rest = records.skip(1);
        assert forall|i: int| 0 <= i < rest.len() implies (#[trigger] rest[i]).payload.len()
            <= u64::MAX by {
            assert(rest[i] == records[i + 1]);
        }
        encoded_starts_with_its_record(records[0], encoded_all(rest) + tail);
        assert(encoded_all(records) + tail =~= encoded(records[0]) + (encoded_all(rest) + tail));
        cut_off_segment_keeps_its_records(rest, last, kept, false);
        assert(seq![records[0]] + rest =~= records);
    } else {
        assert(encoded_all(records) + tail =~= tail);
        assert(records =~= Seq::empty());
        let whole = encoded(last) + Seq::<u8>::empty();
        encoded_starts_with_its_record(last, Seq::empty());
        if kept >= 40 {
            assert(tail.subrange(0, 8) =~= whole.subrange(0, 8));
            assert(tail.subrange(8, 12) =~= whole.subrange(8, 12));
            assert(tail.subrange(32, 40) =~= whole.subrange(32, 40));
        }
    }
}

/// A segment that is cut off within its last record is a fault wherever another segment
/// follows it; at the end of the log it is one only if nothing else is in it.
pub proof fn only_the_end_of_a_log_may_be_cut_off(
    records: Seq<RecordView>,
    last: RecordView,
    kept: int,
    others: Seq<Seq<u8>>,
)
    requires
        forall|i: int| 0 <= i < records.len() ==> (#[trigger] records[i]).payload.len() <= u64::MAX,
        last.payload.len() <= u64::MAX,
        0 < kept < encoded(last).len(),
    ensures
        ({
            let bytes = encoded_all(records) + encoded(last).take(kept);
            let (read, fault) = decoded_log(seq![bytes] + others);
            &&& read == records
            &&& fault is Some <==> records.len() == 0 || others.len() > 0
        }),
{
    let bytes = encoded_all(records) + encoded(last).take(kept);
    cut_off_segment_keeps_its_records(records, last, kept, true);
    let files = seq![bytes] + others;
    assert(files[0] == bytes);
    assert(files.skip(1) =~= others);
    if others.len() == 0 {
        assert(files.len() == 1);
        assert(decoded_log(others) == (Seq::<RecordView>::empty(), None::<SegmentFault>));
        assert(records + Seq::<RecordView>::empty() =~= records);
    }
}

proof fn step_is_undone(a: int)
    requires
        0 <= a < 0x1_0000_0000,
    ensures
        ((a * 0x01000193) % 0x1_0000_0000 * 0x359c449b) % 0x1_0000_0000 == a,
{
    vstd::arithmetic::div_mod::lemma_mul_mod_noop_left(a * 0x01000193, 0x359c449b, 0x1_0000_0000);
    assert(a * 0x01000193 * 0x359c449b == 0x1_0000_0000 * (3513497 * a) + a) by (nonlinear_arith);
    vstd::arithmetic::div_mod::lemma_mod_multiples_vanish(3513497 * a, a, 0x1_0000_0000);
    vstd::arithmetic::div_mod::lemma_small_mod(a as nat, 0x1_0000_0000);
}

proof fn step_differs(a: u32, b: u32)
    requires
        a != b,
    ensures
        a.wrapping_mul(0x01000193) != b.wrapping_mul(0x01000193),
{
    step_is_undone(a as int);
    step_is_undone(b as int);
}

/// Two payloads of the same length that differ in one byte have different checksums.
pub proof fn changed_byte_changes_checksum(payload: Seq<u8>, at: int, byte: u8)
    requires
        0 <= at < payload.len(),
        byte != payload[at],
    ensures
        fnv32(payload.update(at, byte)) != fnv32(payload),
    decreases payload.len(),
{
    let changed = payload.update(at, byte);
    let (h, g) = (fnv32(payload.drop_last()), fnv32(changed.drop_last()));
    let (x, y) = (payload.last() as u32, changed.last() as u32);
    if at == payload.len() - 1 {
        assert(changed.drop_last() =~= payload.drop_last());
        assert(h ^ x != h ^ y) by (bit_vector)
            requires
                x != y,
        ;
    } else {
        assert(changed.drop_last() =~= payload.drop_last().update(at, byte));
        changed_byte_changes_checksum(payload.drop_last(), at, byte);
        assert(h ^ x != g ^ x) by (bit_vector)
            requires
                h != g,
        ;
    }
    step_differs(h ^ x, g ^ y);
}

proof fn changed_start_is_no_record(bytes: Seq<u8>, at: int, byte: u8)
    requires
        start_of(bytes) is Record,
        0 <= at < 8 || 40 <= at < 40int + payload_len(bytes),
        byte != bytes[at],
    ensures
        start_of(bytes.update(at, byte)) == Start::Fault(
            if at < 8 {
                SegmentFault::BadMagic
            } else {
                SegmentFault::BadChecksum
            },
        ),
{
    let changed = bytes.update(at, byte);
    if at < 8 {
        assert(changed.subrange(0, 8)[at] == byte);
        assert(bytes.subrange(0, 8)[at] == bytes[at]);
    } else {
        let end = 40int + payload_len(bytes);
        let payload = bytes.subrange(40, end);
        assert(changed.subrange(0, 8) =~= bytes.subrange(0, 8));
        assert(changed.subrange(8, 12) =~= bytes.subrange(8, 12));
        assert(changed.subrange(28, 32) =~= bytes.subrange(28, 32));
        assert(changed.subrange(32, 40) =~= bytes.subrange(32, 40));
        assert(payload[at - 40] == bytes[at]);
        assert(changed.subrange(40, end) =~= payload.update(at - 40, byte));
        changed_byte_changes_checksum(payload, at - 40, byte);
    }
}

proof fn record_before_is_read(record: RecordView, behind: Seq<u8>, first: bool)
    requires
        record.payload.len() <= u64::MAX,
    ensures
        decoded(encoded(record) + behind, first) == (
            seq![record] + decoded(behind, false).0,
            decoded(behind, false).1,
        ),
{
    encoded_starts_with_its_record(record, behind);
}

/// A byte of the magic or of the payload of a record that is changed is reported, wherever
/// in the segment the record stands and whatever follows it; the records before it are
/// read.
pub proof fn changed_byte_is_reported(
    records: Seq<RecordView>,
    record: RecordView,
    at: int,
    byte: u8,
    behind: Seq<u8>,
    first: bool,
)
    requires
        forall|i: int| 0 <= i < records.len() ==> (#[trigger] records[i]).payload.len() <= u64::MAX,
        record.payload.len() <= u64::MAX,
        0 <= at < 8 || LOG_RECORD_HEADER_BYTES <= at < encoded(record).len(),
        byte != encoded(record)[at],
    ensures
        decoded(encoded_all(records) + encoded(record).update(at, byte) + behind, first) == (
            records,
            Some(
                if at < 8 {
                    SegmentFault::BadMagic
                } else {
                    SegmentFault::BadChecksum
                },
            ),
        ),
    decreases records.len(),
{
    let changed = encoded(record).update(at, byte);
    let bytes = encoded_all(records) + changed + behind;
    if records.len() > 0 {
        let rest = records.skip(1);
        assert forall|i: int| 0 <= i < rest.len() implies (#[trigger] rest[i]).payload.len()
            <= u64::MAX by {
            assert(rest[i] == records[i + 1]);
        }
        changed_byte_is_reported(rest, record, at, byte, behind, false);
        let later = encoded_all(rest) + changed + behind;
        assert(bytes =~= encoded(records[0]) + later);
        record_before_is_read(records[0], later, first);
        assert(seq![records[0]] + rest =~= records);
    } else {
        let whole = encoded(record) + behind;
        encoded_starts_with_its_record(record, behind);
        assert(bytes =~= whole.update(at, byte));
        assert(whole[at] == encoded(record)[at]);
        changed_start_is_no_record(whole, at, byte);
        assert(records =~= Seq::empty());
    }
}

/// The name of the file of a segment.
pub open spec fn segment_name(first: u64, last: u64) -> Seq<char> {
    crate::text::hexadecimal(first as nat, 16) + "-"@ + crate::text::hexadecimal(last as nat, 16)
        + ".seg"@
}

/// The name of the file of a segment.
pub fn segment_file_name(first: u64, last: u64) -> (r: String)
    ensures
        r@ == segment_name(first, last),
{
    crate::text::concat4(&hexadecimal_of(first, 16), "-", &hexadecimal_of(last, 16), ".seg")
}

/// A segment as it is written to disk.
pub struct Segment {
    pub first_index: u64,
    pub last_index: u64,
    pub file: String,
    pub bytes: Vec<u8>,
}

/// A [`Segment`] as a mathematical value.
pub struct SegmentView {
    pub first_index: u64,
    pub last_index: u64,
    pub file: Seq<char>,
    pub bytes: Seq<u8>,
}

impl View for Segment {
    type V = SegmentView;

    open spec fn view(&self) -> SegmentView {
        SegmentView {
            first_index: self.first_index,
            last_index: self.last_index,
            file: self.file@,
            bytes: self.bytes@,
        }
    }
}

impl DeepView for Segment {
    type V = SegmentView;

    open spec fn deep_view(&self) -> SegmentView {
        self@
    }
}

/// The segment of some records.
pub open spec fn segment_of(records: Seq<RecordView>) -> SegmentView {
    SegmentView {
        first_index: records[0].index,
        last_index: records.last().index,
        file: segment_name(records[0].index, records.last().index),
        bytes: encoded_all(records),
    }
}

/// How many of the records go into the segment that begins with the first of them, which
/// has the given size so far: a segment takes records until it has reached its size.
pub open spec fn segment_take(records: Seq<RecordView>, size: nat) -> nat
    decreases records.len(),
{
    if records.len() == 0 || size >= LOG_SEGMENT_MAX_BYTES {
        0
    } else {
        1 + segment_take(records.skip(1), size + encoded(records[0]).len())
    }
}

/// The segments of the records of a log.
pub open spec fn segments_of(records: Seq<RecordView>) -> Seq<SegmentView>
    decreases records.len(),
{
    if records.len() == 0 {
        Seq::empty()
    } else {
        let n = segment_take(records, 0);
        if 0 < n <= records.len() {
            seq![segment_of(records.take(n as int))] + segments_of(records.skip(n as int))
        } else {
            Seq::empty()
        }
    }
}

proof fn segment_take_bound(records: Seq<RecordView>, size: nat)
    ensures
        segment_take(records, size) <= records.len(),
    decreases records.len(),
{
    if records.len() > 0 && size < LOG_SEGMENT_MAX_BYTES {
        segment_take_bound(records.skip(1), size + encoded(records[0]).len());
    }
}

proof fn encoded_all_push(records: Seq<RecordView>, last: RecordView)
    ensures
        encoded_all(records.push(last)) == encoded_all(records) + encoded(last),
    decreases records.len(),
{
    let longer = records.push(last);
    if records.len() > 0 {
        encoded_all_push(records.skip(1), last);
        assert(longer.skip(1) =~= records.skip(1).push(last));
        assert(encoded_all(longer) =~= encoded_all(records) + encoded(last));
    } else {
        assert(longer.skip(1) =~= Seq::<RecordView>::empty());
        assert(longer[0] == last);
        assert(encoded_all(longer.skip(1)) =~= Seq::<u8>::empty());
        assert(encoded_all(longer) =~= encoded(last));
        assert(encoded_all(records) + encoded(last) =~= encoded(last));
    }
}

/// Lays out the records of a log in segments.
pub fn rewrite_log_segments(records: &Vec<LogRecord>) -> (r: Vec<Segment>)
    ensures
        r.deep_view() == segments_of(records.deep_view()),
{
    let ghost all = records.deep_view();
    let mut segments: Vec<Segment> = Vec::new();
    let mut i: usize = 0;
    proof {
        assert(all.skip(0) =~= all);
        assert(segments.deep_view() + segments_of(all) =~= segments_of(all));
    }
    while i < records.len()
        invariant
            i <= records@.len(),
            all == records.deep_view(),
            segments_of(all) == segments.deep_view() + segments_of(all.skip(i as int)),
        decreases records@.len() - i,
    {
        let ghost rest = all.skip(i as int);
        let ghost n = segment_take(rest, 0);
        let start: usize = i;
        let mut bytes: Vec<u8> = Vec::new();
        proof {
            segment_take_bound(rest, 0);
            assert(rest.skip(0) =~= rest);
            assert(encoded_all(rest.take(0)) =~= bytes@);
        }
        while i < records.len() && bytes.len() < LOG_SEGMENT_MAX_BYTES
            invariant
                start <= i <= records@.len(),
                all == records.deep_view(),
                rest == all.skip(start as int),
                bytes@ == encoded_all(rest.take(i - start)),
                n == (i - start) + segment_take(all.skip(i as int), bytes@.len()),
            decreases records@.len() - i,
        {
            proof {
                let later = all.skip(i as int);
                assert(later[0] == records@[i as int]@);
                assert(later.skip(1) =~= all.skip(i + 1));
                assert(rest.take(i - start + 1) =~= rest.take(i - start).push(
                    records@[i as int]@,
                ));
                encoded_all_push(rest.take(i - start), records@[i as int]@);
            }
            encode_log_record(&records[i], &mut bytes);
            i = i + 1;
        }
        let first_index: u64 = records[start].index;
        let last_index: u64 = records[i - 1].index;
        let segment = Segment {
            first_index,
            last_index,
            file: segment_file_name(first_index, last_index),
            bytes,
        };
        let ghost view = segment@;
        let ghost before = segments.deep_view();
        proof {
            let part = rest.take(n as int);
            assert(n == i - start);
            assert(part[0] == records@[start as int]@);
            assert(part.last() == records@[i - 1]@);
            assert(view == segment_of(part));
            assert(rest.skip(n as int) =~= all.skip(i as int));
            let tail = segments_of(all.skip(i as int));
            assert(segments_of(rest) == seq![view] + tail);
            assert(before + (seq![view] + tail) =~= before.push(view) + tail);
        }
        segments.push(segment);
        assert(segments.deep_view() =~= before.push(view));
    }
    proof {
        assert(all.skip(i as int) =~= Seq::<RecordView>::empty());
        assert(segments.deep_view() + Seq::<SegmentView>::empty() =~= segments.deep_view());
    }
    segments
}

/// The bytes of segments.
pub open spec fn bytes_of(segments: Seq<SegmentView>) -> Seq<Seq<u8>> {
    Seq::new(segments.len(), |i: int| segments[i].bytes)
}

/// The records of a log are read back from the segments that they were laid out in,
/// whatever their number and size.
pub proof fn segments_round_trip(records: Seq<RecordView>)
    requires
        forall|i: int| 0 <= i < records.len() ==> (#[trigger] records[i]).payload.len() <= u64::MAX,
    ensures
        decoded_log(bytes_of(segments_of(records))) == (records, None::<SegmentFault>),
    decreases records.len(),
{
    if records.len() > 0 {
        let n = segment_take(records, 0) as int;
        first_segment_reads_back(records);
        let tail = records.skip(n);
        assert forall|i: int| 0 <= i < tail.len() implies (#[trigger] tail[i]).payload.len()
            <= u64::MAX by {
            assert(tail[i] == records[n + i]);
        }
        segments_round_trip(tail);
        let first = segment_of(records.take(n));
        let all = bytes_of(segments_of(records));
        assert(all[0] == first.bytes);
        assert(all.skip(1) =~= bytes_of(segments_of(tail)));
        assert(records.take(n) + tail =~= records);
    } else {
        assert(records =~= Seq::empty());
    }
}

proof fn first_segment_reads_back(records: Seq<RecordView>)
    requires
        records.len() > 0,
        forall|i: int| 0 <= i < records.len() ==> (#[trigger] records[i]).payload.len() <= u64::MAX,
    ensures
        ({
            let n = segment_take(records, 0) as int;
            &&& 0 < n <= records.len()
            &&& segments_of(records) == seq![segment_of(records.take(n))] + segments_of(
                records.skip(n),
            )
            &&& decoded(segment_of(records.take(n)).bytes, true) == (
                records.take(n),
                None::<SegmentFault>,
            )
            &&& cut_off(segment_of(records.take(n)).bytes) is None
        }),
{
    let n = segment_take(records, 0) as int;
    segment_take_bound(records, 0);
    let head = records.take(n);
    assert forall|i: int| 0 <= i < head.len() implies (#[trigger] head[i]).payload.len()
        <= u64::MAX by {
        assert(head[i] == records[i]);
    }
    segment_round_trip(head, true);
}

/// Where the indexes of the records rise, the ranges of the segments that they are laid out
/// in rise too, and no two of them overlap.
pub proof fn segment_ranges_rise(records: Seq<RecordView>, i: int, j: int)
    requires
        forall|a: int, b: int|
            0 <= a < b < records.len() ==> (#[trigger] records[a]).index < (#[trigger] records[b]).index,
        0 <= i < j < segments_of(records).len() || 0 <= i == j < segments_of(records).len(),
    ensures
        records[0].index <= segments_of(records)[i].first_index,
        segments_of(records)[i].first_index <= segments_of(records)[i].last_index,
        i < j ==> segments_of(records)[i].last_index < segments_of(records)[j].first_index,
    decreases records.len(),
{
    let n = segment_take(records, 0) as int;
    segment_take_bound(records, 0);
    let head = records.take(n);
    let tail = records.skip(n);
    let all = segments_of(records);
    assert(all =~= seq![segment_of(head)] + segments_of(tail));
    assert(head[0] == records[0]);
    assert(head.last() == records[n - 1]);
    assert forall|a: int, b: int| 0 <= a < b < tail.len() implies (#[trigger] tail[a]).index < (
    #[trigger] tail[b]).index by {
        assert(tail[a] == records[n + a]);
        assert(tail[b] == records[n + b]);
    }
    if i > 0 {
        assert(all[i] == segments_of(tail)[i - 1]);
        assert(all[j] == segments_of(tail)[j - 1]);
        segment_ranges_rise(tail, i - 1, j - 1);
        assert(tail[0] == records[n]);
    } else if j > 0 {
        assert(all[j] == segments_of(tail)[j - 1]);
        segment_ranges_rise(tail, j - 1, j - 1);
        assert(tail[0] == records[n]);
    }
}

} // verus!
