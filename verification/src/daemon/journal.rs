//! The durable journal: its events, and the record framing that lets replay
//! find each appended payload again and detect torn or corrupted records.
//!
//! A record is the magic `EXMJ`, a version byte, the payload length and its
//! CRC-32 as little-endian `u32`s, then the payload.

use vstd::prelude::*;
use crate::contracts::{ExecutionId, ProjectionState, RetentionClass};
use crate::daemon::launch::{ExecutionMode, LaunchPolicyOutcome};
use crate::daemon::ownership::RuntimeOwnership;
use crate::daemon::records::{BlobReference, EnvironmentSnapshotRecord, HistorySnapshotManifest};
use crate::daemon::views::{GhostView, PortView, ServiceView};
use crate::platform::GovernanceSnapshot;
use crate::text::{decimal, u64_to_string};

verus! {

#[derive(Debug, Clone, PartialEq, Eq)]
pub enum JournalEvent {
    LaunchRequested { exec_id: ExecutionId, original_command: String, mode: ExecutionMode },
    LaunchPolicyEvaluated {
        exec_id: ExecutionId,
        rewritten_command: Option<String>,
        outcome: LaunchPolicyOutcome,
    },
    LaunchAdmitted { exec_id: ExecutionId, mode: ExecutionMode },
    ProcessSpawned {
        exec_id: ExecutionId,
        state: ProjectionState,
        mode: ExecutionMode,
        ownership: RuntimeOwnership,
        stdout: Option<BlobReference>,
        stderr: Option<BlobReference>,
    },
    ExecutionRegistered {
        exec_id: ExecutionId,
        state: ProjectionState,
        command: String,
        stdout: Option<BlobReference>,
        stderr: Option<BlobReference>,
    },
    ExecutionStateUpdated { exec_id: ExecutionId, state: ProjectionState },
    ServiceObserved { exec_id: ExecutionId, service: ServiceView },
    ServiceOverrideApplied { exec_id: ExecutionId, state: ProjectionState },
    PortObserved { exec_id: ExecutionId, port: PortView },
    GhostStateRecorded { exec_id: ExecutionId, ghost_view: GhostView },
    ResourceGovernanceRecorded { exec_id: ExecutionId, snapshot: GovernanceSnapshot },
    HistorySnapshotRecorded {
        exec_id: ExecutionId,
        env_snapshot: EnvironmentSnapshotRecord,
        manifest: Box<HistorySnapshotManifest>,
    },
}

#[derive(Debug, Clone, PartialEq, Eq)]
pub struct RecordedJournalEvent {
    pub offset: u64,
    pub retention: RetentionClass,
    pub event: JournalEvent,
}

#[derive(Debug, Clone, PartialEq, Eq)]
pub enum CorruptionKind {
    TruncatedHeader,
    InvalidMagic,
    UnsupportedVersion(u8),
    TruncatedPayload { expected: usize, actual: usize },
    ChecksumMismatch,
    InvalidJson(String),
}

#[derive(Debug, Clone, PartialEq, Eq)]
pub enum ReplayError {
    Io(String),
    CorruptRecord { offset: u64, kind: CorruptionKind },
}

pub open spec fn corruption_text(kind: CorruptionKind) -> Seq<char> {
    match kind {
        CorruptionKind::TruncatedHeader => "truncated header"@,
        CorruptionKind::InvalidMagic => "invalid record magic"@,
        CorruptionKind::UnsupportedVersion(v) => "unsupported record version "@ + decimal(v as nat),
        CorruptionKind::TruncatedPayload { expected, actual } => "truncated payload (expected "@
            + decimal(expected as nat) + " bytes, got "@ + decimal(actual as nat) + ")"@,
        CorruptionKind::ChecksumMismatch => "checksum mismatch"@,
        CorruptionKind::InvalidJson(m) => "invalid JSON payload: "@ + m@,
    }
}

pub open spec fn replay_error_text(e: ReplayError) -> Seq<char> {
    match e {
        ReplayError::Io(m) => "journal replay IO failed: "@ + m@,
        ReplayError::CorruptRecord { offset, kind } => "journal corruption at offset "@ + decimal(
            offset as nat,
        ) + ": "@ + corruption_text(kind),
    }
}

impl CorruptionKind {
    /// The corruption as it is displayed.
    pub fn message(&self) -> (r: String)
        ensures
            r@ == corruption_text(*self),
    {
        match self {
            CorruptionKind::TruncatedHeader => "truncated header".to_owned(),
            CorruptionKind::InvalidMagic => "invalid record magic".to_owned(),
            CorruptionKind::UnsupportedVersion(v) => {
                let mut r = "unsupported record version ".to_owned();
                r.append(u64_to_string(*v as u64).as_str());
                r
            },
            CorruptionKind::TruncatedPayload { expected, actual } => {
                let mut r = "truncated payload (expected ".to_owned();
                r.append(u64_to_string(*expected as u64).as_str());
                r.append(" bytes, got ");
                r.append(u64_to_string(*actual as u64).as_str());
                r.append(")");
                r
            },
            CorruptionKind::ChecksumMismatch => "checksum mismatch".to_owned(),
            CorruptionKind::InvalidJson(m) => {
                let mut r = "invalid JSON payload: ".to_owned();
                r.append(m.as_str());
                r
            },
        }
    }
}

impl ReplayError {
    /// The error as it is displayed.
    pub fn message(&self) -> (r: String)
        ensures
            r@ == replay_error_text(*self),
    {
        match self {
            ReplayError::Io(m) => {
                let mut r = "journal replay IO failed: ".to_owned();
                r.append(m.as_str());
                r
            },
            ReplayError::CorruptRecord { offset, kind } => {
                let mut r = "journal corruption at offset ".to_owned();
                r.append(u64_to_string(*offset).as_str());
                r.append(": ");
                r.append(kind.message().as_str());
                r
            },
        }
    }
}

pub const RECORD_VERSION: u8 = 1;

pub const HEADER_LEN: usize = 13;

pub open spec fn magic() -> Seq<u8> {
    seq![0x45u8, 0x58u8, 0x4du8, 0x4au8]
}

/// One step of the reflected CRC-32 (polynomial `0xEDB88320`) over a bit.
pub open spec fn crc_round(c: u32) -> u32 {
    if c & 1 == 1 {
        (c >> 1) ^ 0xEDB8_8320u32
    } else {
        c >> 1
    }
}

pub open spec fn crc_rounds(c: u32, n: nat) -> u32
    decreases n,
{
    if n == 0 {
        c
    } else {
        crc_round(crc_rounds(c, (n - 1) as nat))
    }
}

pub open spec fn crc_byte(c: u32, b: u8) -> u32 {
    crc_rounds(c ^ (b as u32), 8)
}

pub open spec fn crc_fold(bytes: Seq<u8>) -> u32
    decreases bytes.len(),
{
    if bytes.len() == 0 {
        0xffff_ffffu32
    } else {
        crc_byte(crc_fold(bytes.drop_last()), bytes.last())
    }
}

/// CRC-32 (IEEE) of a byte sequence.
pub open spec fn crc32_spec(bytes: Seq<u8>) -> u32 {
    !crc_fold(bytes)
}

pub fn crc32(bytes: &[u8]) -> (r: u32)
    ensures
        r == crc32_spec(bytes@),
{
    let mut crc: u32 = 0xffff_ffff;
    let mut i: usize = 0;
    while i < bytes.len()
        invariant
            i <= bytes@.len(),
            crc == crc_fold(bytes@.take(i as int)),
        decreases bytes.len() - i,
    {
        let start = crc ^ (bytes[i] as u32);
        crc = start;
        let mut k: usize = 0;
        while k < 8
            invariant
                k <= 8,
                crc == crc_rounds(start, k as nat),
            decreases 8 - k,
        {
            let mask: u32 = if crc & 1 == 1 {
                0xEDB8_8320
            } else {
                0
            };
            proof {
                if crc & 1 == 1 {
                } else {
                    assert((crc >> 1) ^ 0u32 == crc >> 1) by (bit_vector);
                }
            }
            crc = (crc >> 1) ^ mask;
            k = k + 1;
        }
        assert(bytes@.take(i + 1).drop_last() =~= bytes@.take(i as int));
        i = i + 1;
    }
    assert(bytes@.take(bytes@.len() as int) =~= bytes@);
    !crc
}

pub open spec fn le_bytes(n: u32) -> Seq<u8> {
    seq![
        (n & 0xff) as u8,
        ((n >> 8) & 0xff) as u8,
        ((n >> 16) & 0xff) as u8,
        ((n >> 24) & 0xff) as u8,
    ]
}

pub open spec fn le_value(b0: u8, b1: u8, b2: u8, b3: u8) -> u32 {
    (b0 as u32) | ((b1 as u32) << 8) | ((b2 as u32) << 16) | ((b3 as u32) << 24)
}

pub proof fn lemma_le_round_trip(n: u32)
    ensures
        le_value(le_bytes(n)[0], le_bytes(n)[1], le_bytes(n)[2], le_bytes(n)[3]) == n,
{
    let b0 = (n & 0xff) as u8;
    let b1 = ((n >> 8) & 0xff) as u8;
    let b2 = ((n >> 16) & 0xff) as u8;
    let b3 = ((n >> 24) & 0xff) as u8;
    assert((b0 as u32) | ((b1 as u32) << 8) | ((b2 as u32) << 16) | ((b3 as u32) << 24) == n)
        by (bit_vector)
        requires
            b0 == (n & 0xff) as u8,
            b1 == ((n >> 8) & 0xff) as u8,
            b2 == ((n >> 16) & 0xff) as u8,
            b3 == ((n >> 24) & 0xff) as u8,
    ;
}

fn push_le_u32(out: &mut Vec<u8>, n: u32)
    ensures
        final(out)@ == old(out)@ + le_bytes(n),
{
    out.push((n & 0xff) as u8);
    out.push(((n >> 8) & 0xff) as u8);
    out.push(((n >> 16) & 0xff) as u8);
    out.push(((n >> 24) & 0xff) as u8);
    assert(out@ =~= old(out)@ + le_bytes(n));
}

/// The bytes of one journal record carrying `payload`.
pub open spec fn record_bytes(payload: Seq<u8>) -> Seq<u8> {
    magic() + seq![RECORD_VERSION] + le_bytes(payload.len() as u32) + le_bytes(crc32_spec(payload))
        + payload
}

/// Frames a payload as one journal record.
pub fn encode_record(payload: &[u8]) -> (r: Result<Vec<u8>, crate::daemon::launch::AppendError>)
    ensures
        r is Ok <==> payload@.len() <= u32::MAX,
        r matches Ok(bytes) ==> bytes@ == record_bytes(payload@),
        r matches Err(e) ==> e == crate::daemon::launch::AppendError::PayloadTooLarge,
{
    if payload.len() > 0xffff_ffff {
        return Err(crate::daemon::launch::AppendError::PayloadTooLarge);
    }
    let checksum = crc32(payload);
    let len = payload.len() as u32;
    let mut out: Vec<u8> = Vec::new();
    out.push(0x45);
    out.push(0x58);
    out.push(0x4d);
    out.push(0x4a);
    out.push(RECORD_VERSION);
    push_le_u32(&mut out, len);
    push_le_u32(&mut out, checksum);
    let mut i: usize = 0;
    let ghost head = out@;
    while i < payload.len()
        invariant
            i <= payload@.len(),
            out@ == head + payload@.take(i as int),
        decreases payload.len() - i,
    {
        out.push(payload[i]);
        assert(payload@.take(i + 1) =~= payload@.take(i as int).push(payload@[i as int]));
        i = i + 1;
    }
    assert(payload@.take(payload@.len() as int) =~= payload@);
    assert(out@ =~= record_bytes(payload@));
    Ok(out)
}

/// Where a record's payload lies in the journal bytes.
#[derive(Debug, Clone, Copy, PartialEq, Eq, Structural)]
pub struct RecordFrame {
    pub offset: u64,
    pub payload_start: usize,
    pub payload_len: usize,
}

/// What reading at `offset` finds: the end, a whole record (its payload
/// start and length), or the corruption that stops replay there.
pub enum FrameStep {
    End,
    Frame { start: int, len: int },
    Corrupt { kind: CorruptionKind },
}

pub open spec fn frame_at(b: Seq<u8>, offset: int) -> FrameStep {
    if offset >= b.len() {
        FrameStep::End
    } else if b.len() - offset < HEADER_LEN {
        FrameStep::Corrupt { kind: CorruptionKind::TruncatedHeader }
    } else if b.subrange(offset, offset + 4) != magic() {
        FrameStep::Corrupt { kind: CorruptionKind::InvalidMagic }
    } else if b[offset + 4] != RECORD_VERSION {
        FrameStep::Corrupt { kind: CorruptionKind::UnsupportedVersion(b[offset + 4]) }
    } else {
        let len = le_value(b[offset + 5], b[offset + 6], b[offset + 7], b[offset + 8]);
        let sum = le_value(b[offset + 9], b[offset + 10], b[offset + 11], b[offset + 12]);
        let start = offset + HEADER_LEN;
        if b.len() - start < len {
            FrameStep::Corrupt {
                kind: CorruptionKind::TruncatedPayload {
                    expected: len as usize,
                    actual: (b.len() - start) as usize,
                },
            }
        } else if crc32_spec(b.subrange(start, start + len)) != sum {
            FrameStep::Corrupt { kind: CorruptionKind::ChecksumMismatch }
        } else {
            FrameStep::Frame { start, len: len as int }
        }
    }
}

/// The records found by reading the journal from `offset` on, and the
/// corruption that stopped the reading, if any.
pub open spec fn scan_from(b: Seq<u8>, offset: int) -> (Seq<RecordFrame>, Option<ReplayError>)
    decreases b.len() - offset,
{
    if offset < 0 || offset >= b.len() {
        (seq![], None)
    } else {
        match frame_at(b, offset) {
            FrameStep::End => (seq![], None),
            FrameStep::Corrupt { kind } => (
                seq![],
                Some(ReplayError::CorruptRecord { offset: offset as u64, kind }),
            ),
            FrameStep::Frame { start, len } => {
                let (rest, err) = scan_from(b, start + len);
                (
                    seq![
                        RecordFrame {
                            offset: offset as u64,
                            payload_start: start as usize,
                            payload_len: len as usize,
                        },
                    ] + rest,
                    err,
                )
            },
        }
    }
}

pub struct ScanResult {
    pub frames: Vec<RecordFrame>,
    pub error: Option<ReplayError>,
}

fn read_le_u32(b: &[u8], at: usize) -> (r: u32)
    requires
        at + 4 <= b@.len(),
    ensures
        r == le_value(b@[at as int], b@[at + 1], b@[at + 2], b@[at + 3]),
{
    (b[at] as u32) | ((b[at + 1] as u32) << 8) | ((b[at + 2] as u32) << 16) | ((b[at + 3] as u32)
        << 24)
}

/// Reads the journal bytes record by record.
pub fn scan_records(bytes: &[u8]) -> (r: ScanResult)
    requires
        bytes@.len() <= u64::MAX,
    ensures
        (r.frames@, r.error) == scan_from(bytes@, 0),
{
    let mut frames: Vec<RecordFrame> = Vec::new();
    let mut offset: usize = 0;
    let n = bytes.len();
    loop
        invariant
            n == bytes@.len(),
            bytes@.len() <= u64::MAX,
            offset <= n,
            scan_from(bytes@, 0) == (frames@ + scan_from(bytes@, offset as int).0, scan_from(
                bytes@,
                offset as int,
            ).1),
        decreases n - offset,
    {
        if offset >= n {
            assert(frames@ + seq![] =~= frames@);
            return ScanResult { frames, error: None };
        }
        let ghost here = scan_from(bytes@, offset as int);
        if n - offset < HEADER_LEN {
            return ScanResult {
                frames,
                error: Some(
                    ReplayError::CorruptRecord {
                        offset: offset as u64,
                        kind: CorruptionKind::TruncatedHeader,
                    },
                ),
            };
        }
        if !(bytes[offset] == 0x45 && bytes[offset + 1] == 0x58 && bytes[offset + 2] == 0x4d
            && bytes[offset + 3] == 0x4a) {
            proof {
                let m = bytes@.subrange(offset as int, offset + 4);
                if m == magic() {
                    assert(m[0] == bytes@[offset as int]);
                    assert(m[1] == bytes@[offset + 1]);
                    assert(m[2] == bytes@[offset + 2]);
                    assert(m[3] == bytes@[offset + 3]);
                }
            }
            return ScanResult {
                frames,
                error: Some(
                    ReplayError::CorruptRecord {
                        offset: offset as u64,
                        kind: CorruptionKind::InvalidMagic,
                    },
                ),
            };
        }
        assert(bytes@.subrange(offset as int, offset + 4) =~= magic());
        let version = bytes[offset + 4];
        if version != RECORD_VERSION {
            return ScanResult {
                frames,
                error: Some(
                    ReplayError::CorruptRecord {
                        offset: offset as u64,
                        kind: CorruptionKind::UnsupportedVersion(version),
                    },
                ),
            };
        }
        let payload_len = read_le_u32(bytes, offset + 5);
        let checksum = read_le_u32(bytes, offset + 9);
        let start = offset + HEADER_LEN;
        let len = payload_len as usize;
        if n - start < len {
            return ScanResult {
                frames,
                error: Some(
                    ReplayError::CorruptRecord {
                        offset: offset as u64,
                        kind: CorruptionKind::TruncatedPayload { expected: len, actual: n - start },
                    },
                ),
            };
        }
        let payload = vstd::slice::slice_subrange(bytes, start, start + len);
        if crc32(payload) != checksum {
            return ScanResult {
                frames,
                error: Some(
                    ReplayError::CorruptRecord {
                        offset: offset as u64,
                        kind: CorruptionKind::ChecksumMismatch,
                    },
                ),
            };
        }
        let frame = RecordFrame { offset: offset as u64, payload_start: start, payload_len: len };
        let ghost before = frames@;
        frames.push(frame);
        proof {
            assert(here.0 == seq![frame] + scan_from(bytes@, (start + len) as int).0);
            assert(frames@ + scan_from(bytes@, (start + len) as int).0 =~= before + here.0);
        }
        offset = start + len;
    }
}

/// The payloads that a sequence of records carries.
pub open spec fn records_of(payloads: Seq<Seq<u8>>) -> Seq<u8>
    decreases payloads.len(),
{
    if payloads.len() == 0 {
        seq![]
    } else {
        record_bytes(payloads[0]) + records_of(payloads.drop_first())
    }
}

pub open spec fn payloads_fit(payloads: Seq<Seq<u8>>) -> bool {
    forall|i: int| 0 <= i < payloads.len() ==> (#[trigger] payloads[i]).len() <= u32::MAX
}

proof fn lemma_frame_at_record(payload: Seq<u8>, rest: Seq<u8>, pre: Seq<u8>)
    requires
        payload.len() <= u32::MAX,
    ensures
        ({
            let b = pre + record_bytes(payload) + rest;
            frame_at(b, pre.len() as int) == FrameStep::Frame {
                start: pre.len() + HEADER_LEN,
                len: payload.len() as int,
            }
        }),
{
    let b = pre + record_bytes(payload) + rest;
    let o = pre.len() as int;
    let r = record_bytes(payload);
    assert(b.subrange(o, o + r.len()) =~= r);
    assert(b.subrange(o, o + 4) =~= magic());
    assert(b[o + 4] == RECORD_VERSION);
    lemma_le_round_trip(payload.len() as u32);
    lemma_le_round_trip(crc32_spec(payload));
    assert(b[o + 5] == le_bytes(payload.len() as u32)[0]);
    assert(b[o + 6] == le_bytes(payload.len() as u32)[1]);
    assert(b[o + 7] == le_bytes(payload.len() as u32)[2]);
    assert(b[o + 8] == le_bytes(payload.len() as u32)[3]);
    assert(b[o + 9] == le_bytes(crc32_spec(payload))[0]);
    assert(b[o + 10] == le_bytes(crc32_spec(payload))[1]);
    assert(b[o + 11] == le_bytes(crc32_spec(payload))[2]);
    assert(b[o + 12] == le_bytes(crc32_spec(payload))[3]);
    assert(b.subrange(o + 13, o + 13 + payload.len()) =~= payload);
}

#[verifier::spinoff_prover]
proof fn lemma_scan_records_of(pre: Seq<u8>, payloads: Seq<Seq<u8>>, i: int)
    requires
        payloads_fit(payloads),
        0 <= i <= payloads.len(),
        pre.len() + records_of(payloads.skip(i)).len() <= usize::MAX,
    ensures
        ({
            let b = pre + records_of(payloads.skip(i));
            let (frames, err) = scan_from(b, pre.len() as int);
            &&& err is None
            &&& frames.len() == payloads.len() - i
            &&& forall|k: int|
                0 <= k < frames.len() ==> b.subrange(
                    (#[trigger] frames[k]).payload_start as int,
                    frames[k].payload_start + frames[k].payload_len,
                ) == payloads[i + k]
        }),
    decreases payloads.len() - i,
{
    let b = pre + records_of(payloads.skip(i));
    if i == payloads.len() {
        assert(payloads.skip(i).len() == 0);
        assert(b =~= pre);
    } else {
        let p = payloads[i];
        assert(payloads.skip(i)[0] == p);
        assert(payloads.skip(i).drop_first() =~= payloads.skip(i + 1));
        let tail = records_of(payloads.skip(i + 1));
        assert(records_of(payloads.skip(i)) == record_bytes(p) + tail);
        assert(b =~= pre + record_bytes(p) + tail);
        lemma_frame_at_record(p, tail, pre);
        let pre2 = pre + record_bytes(p);
        assert(pre2 + tail =~= b);
        lemma_scan_records_of(pre2, payloads, i + 1);
        let (frames, err) = scan_from(b, pre.len() as int);
        let (rest, err2) = scan_from(b, pre2.len() as int);
        assert(pre.len() + HEADER_LEN + p.len() == pre2.len());
        assert(frames == seq![
            RecordFrame {
                offset: pre.len() as u64,
                payload_start: (pre.len() + HEADER_LEN) as usize,
                payload_len: p.len() as usize,
            },
        ] + rest);
        assert forall|k: int| 0 <= k < frames.len() implies b.subrange(
            (#[trigger] frames[k]).payload_start as int,
            frames[k].payload_start + frames[k].payload_len,
        ) == payloads[i + k] by {
            if k == 0 {
                assert(b.subrange(pre.len() + HEADER_LEN, pre.len() + HEADER_LEN + p.len()) =~= p);
            } else {
                assert(frames[k] == rest[k - 1]);
            }
        }
    }
}

/// Reading a journal written as a sequence of appended records gives
/// back exactly the appended payloads, in order, with no corruption.
/// One step of scanning: a record at the front is one frame, followed by
/// the frames of what follows it.
proof fn lemma_scan_step(pre: Seq<u8>, p: Seq<u8>, tail: Seq<u8>)
    requires
        p.len() <= u32::MAX,
        pre.len() + record_bytes(p).len() + tail.len() <= usize::MAX,
    ensures
        ({
            let b = pre + record_bytes(p) + tail;
            let pre2 = pre + record_bytes(p);
            &&& pre2.len() == pre.len() + HEADER_LEN + p.len()
            &&& scan_from(b, pre.len() as int).0 == seq![
                RecordFrame {
                    offset: pre.len() as u64,
                    payload_start: (pre.len() + HEADER_LEN) as usize,
                    payload_len: p.len() as usize,
                },
            ] + scan_from(pre2 + tail, pre2.len() as int).0
        }),
{
    let b = pre + record_bytes(p) + tail;
    let pre2 = pre + record_bytes(p);
    lemma_frame_at_record(p, tail, pre);
    assert(pre2 + tail =~= b);
}

#[verifier::spinoff_prover]
proof fn lemma_scan_offsets(pre: Seq<u8>, payloads: Seq<Seq<u8>>, i: int)
    requires
        payloads_fit(payloads),
        0 <= i <= payloads.len(),
        pre.len() + records_of(payloads.skip(i)).len() <= usize::MAX,
    ensures
        ({
            let frames = scan_from(pre + records_of(payloads.skip(i)), pre.len() as int).0;
            &&& frames.len() == payloads.len() - i
            &&& frames.len() > 0 ==> frames[0].offset == pre.len()
            &&& forall|k: int|
                0 <= k < frames.len() ==> (#[trigger] frames[k]).payload_len == payloads[i
                    + k].len() && frames[k].payload_start == frames[k].offset + HEADER_LEN
            &&& forall|k: int|
                0 <= k < frames.len() - 1 ==> #[trigger] frames[k + 1].offset == frames[k].offset
                    + HEADER_LEN + payloads[i + k].len()
        }),
    decreases payloads.len() - i,
{
    let b = pre + records_of(payloads.skip(i));
    if i == payloads.len() {
        assert(payloads.skip(i).len() == 0);
        assert(b =~= pre);
    } else {
        let p = payloads[i];
        let tail = records_of(payloads.skip(i + 1));
        assert(records_of(payloads.skip(i)) == record_bytes(p) + tail) by {
            assert(payloads.skip(i)[0] == p);
            assert(payloads.skip(i).drop_first() =~= payloads.skip(i + 1));
        }
        assert(b =~= pre + record_bytes(p) + tail);
        let pre2 = pre + record_bytes(p);
        lemma_scan_step(pre, p, tail);
        lemma_scan_offsets(pre2, payloads, i + 1);
        let frames = scan_from(b, pre.len() as int).0;
        let rest = scan_from(pre2 + tail, pre2.len() as int).0;
        assert forall|k: int| 0 <= k < frames.len() - 1 implies #[trigger] frames[k + 1].offset
            == frames[k].offset + HEADER_LEN + payloads[i + k].len() by {
            assert(frames[k + 1] == rest[k]);
            if k > 0 {
                assert(frames[k] == rest[k - 1]);
                assert(rest[(k - 1) + 1].offset == rest[k - 1].offset + HEADER_LEN + payloads[(i
                    + 1) + (k - 1)].len());
            } else {
                assert(rest[0].offset == pre2.len());
            }
        }
        assert forall|k: int| 0 <= k < frames.len() implies (#[trigger] frames[k]).payload_len
            == payloads[i + k].len() && frames[k].payload_start == frames[k].offset + HEADER_LEN by {
            if k > 0 {
                assert(frames[k] == rest[k - 1]);
                assert(rest[k - 1].payload_len == payloads[(i + 1) + (k - 1)].len());
            }
        }
    }
}

/// Where the records of a journal that holds exactly the appended payloads
/// stand: the first at offset 0, each payload right after its 13-byte
/// header, and each record right after the one before.
pub proof fn lemma_record_offsets(payloads: Seq<Seq<u8>>)
    requires
        payloads_fit(payloads),
        records_of(payloads).len() <= usize::MAX,
    ensures
        ({
            let frames = scan_from(records_of(payloads), 0).0;
            &&& frames.len() == payloads.len()
            &&& frames.len() > 0 ==> frames[0].offset == 0
            &&& forall|k: int|
                0 <= k < frames.len() ==> (#[trigger] frames[k]).payload_len == payloads[k].len()
                    && frames[k].payload_start == frames[k].offset + HEADER_LEN
            &&& forall|k: int|
                0 <= k < frames.len() - 1 ==> #[trigger] frames[k + 1].offset == frames[k].offset
                    + HEADER_LEN + payloads[k].len()
        }),
{
    assert(payloads.skip(0) =~= payloads);
    assert(Seq::<u8>::empty() + records_of(payloads) =~= records_of(payloads));
    lemma_scan_offsets(Seq::<u8>::empty(), payloads, 0);
}

pub proof fn lemma_scan_returns_appended_payloads(payloads: Seq<Seq<u8>>)
    requires
        payloads_fit(payloads),
        records_of(payloads).len() <= usize::MAX,
    ensures
        ({
            let b = records_of(payloads);
            let (frames, err) = scan_from(b, 0);
            &&& err is None
            &&& frames.len() == payloads.len()
            &&& forall|k: int|
                0 <= k < frames.len() ==> b.subrange(
                    (#[trigger] frames[k]).payload_start as int,
                    frames[k].payload_start + frames[k].payload_len,
                ) == payloads[k]
        }),
{
    assert(payloads.skip(0) =~= payloads);
    assert(Seq::<u8>::empty() + records_of(payloads) =~= records_of(payloads));
    lemma_scan_records_of(Seq::<u8>::empty(), payloads, 0);
}

/// A record whose payload no longer matches its checksum is reported as
/// corrupt at its own offset, and replay does not read past it.
pub proof fn lemma_checksum_mismatch_is_detected(b: Seq<u8>, offset: int)
    requires
        0 <= offset < b.len(),
        b.len() - offset >= HEADER_LEN,
        b.subrange(offset, offset + 4) == magic(),
        b[offset + 4] == RECORD_VERSION,
        ({
            let len = le_value(b[offset + 5], b[offset + 6], b[offset + 7], b[offset + 8]);
            let sum = le_value(b[offset + 9], b[offset + 10], b[offset + 11], b[offset + 12]);
            b.len() - (offset + HEADER_LEN) >= len && crc32_spec(
                b.subrange(offset + HEADER_LEN, offset + HEADER_LEN + len),
            ) != sum
        }),
    ensures
        scan_from(b, offset) == (
            Seq::<RecordFrame>::empty(),
            Some(
                ReplayError::CorruptRecord {
                    offset: offset as u64,
                    kind: CorruptionKind::ChecksumMismatch,
                },
            ),
        ),
{
}

} // verus!
