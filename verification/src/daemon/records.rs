//! Persisted records of an execution: retained output blobs, the redacted
//! environment snapshot, and the history snapshot manifest. Secrets in
//! commands and environment names never reach the journal in plain text.

use vstd::prelude::*;
use sha2::{Digest, Sha256};
use crate::contracts::{ExecutionId, ProjectionState, RedactionMarker, RetentionClass};
use crate::text::{
    chars_of, concat2, contains_chars, find, first_occurrence, occurs_at, push_char,
    split_whitespace, str_eq, string_from_chars, u64_to_string, views, words, decimal,
};

verus! {

#[derive(Debug, PartialEq, Eq)]
pub struct BlobReference {
    pub blob_id: String,
    pub sha256: String,
    pub size_bytes: u64,
    pub media_type: String,
    pub storage_path: String,
}

impl Clone for BlobReference {
    fn clone(&self) -> (r: Self)
        ensures
            r == *self,
    {
        BlobReference {
            blob_id: self.blob_id.clone(),
            sha256: self.sha256.clone(),
            size_bytes: self.size_bytes,
            media_type: self.media_type.clone(),
            storage_path: self.storage_path.clone(),
        }
    }
}

#[derive(Debug, PartialEq, Eq)]
pub struct RetainedArtifact {
    pub blob: BlobReference,
    pub retention: RetentionClass,
    pub truncated: bool,
}

impl Clone for RetainedArtifact {
    fn clone(&self) -> (r: Self)
        ensures
            r == *self,
    {
        RetainedArtifact { blob: self.blob.clone(), retention: self.retention, truncated: self.truncated }
    }
}

#[derive(Debug, PartialEq, Eq)]
pub struct EnvironmentEntryRecord {
    pub name: String,
    pub value: Option<String>,
    pub name_redaction: RedactionMarker,
    pub value_redaction: RedactionMarker,
}

impl Clone for EnvironmentEntryRecord {
    fn clone(&self) -> (r: Self)
        ensures
            r == *self,
    {
        let value = match &self.value {
            Some(v) => Some(v.clone()),
            None => None,
        };
        EnvironmentEntryRecord {
            name: self.name.clone(),
            value,
            name_redaction: self.name_redaction,
            value_redaction: self.value_redaction,
        }
    }
}

#[derive(Debug, Clone, PartialEq, Eq)]
pub struct EnvironmentSnapshotRecord {
    pub record_id: String,
    pub redaction: RedactionMarker,
    pub retention: RetentionClass,
    pub entries: Vec<EnvironmentEntryRecord>,
}

#[derive(Debug, Clone, PartialEq, Eq)]
pub struct SnapshotExecutionIdentity {
    pub exec_id: ExecutionId,
    pub lineage_root_exec_id: ExecutionId,
}

#[derive(Debug, Clone, PartialEq, Eq)]
pub struct SnapshotIntentRecord {
    pub original_command: String,
}

#[derive(Debug, Clone, PartialEq, Eq)]
pub struct SnapshotLaunchRecord {
    pub rewritten_command: Option<String>,
}

#[derive(Debug, Clone, Copy, PartialEq, Eq, Structural)]
pub struct SnapshotObservedFacts {
    pub final_state: ProjectionState,
    pub exit_code: Option<i32>,
    pub success: bool,
}

#[derive(Debug, Clone, PartialEq, Eq)]
pub struct SnapshotEnvironmentReference {
    pub record_id: String,
    pub redaction: RedactionMarker,
}

#[derive(Debug, Clone, PartialEq, Eq)]
pub struct SnapshotArtifacts {
    pub stdout: Option<RetainedArtifact>,
    pub stderr: Option<RetainedArtifact>,
}

#[derive(Debug, Clone, PartialEq, Eq)]
pub struct SnapshotHostMetadata {
    pub platform: String,
    pub arch: String,
}

#[derive(Debug, Clone, PartialEq, Eq)]
pub struct HistorySnapshotManifest {
    pub snapshot_id: String,
    pub schema_version: u32,
    pub captured_at_epoch_ms: u64,
    pub execution: SnapshotExecutionIdentity,
    pub intent: SnapshotIntentRecord,
    pub launch: SnapshotLaunchRecord,
    pub observed: SnapshotObservedFacts,
    pub environment: SnapshotEnvironmentReference,
    pub artifacts: SnapshotArtifacts,
    pub host: SnapshotHostMetadata,
    pub retention: RetentionClass,
}

pub const HISTORY_SNAPSHOT_SCHEMA_VERSION: u32 = 1;

/// Command-line flags whose next argument is a secret.
pub open spec fn is_secret_flag_spec(part: Seq<char>) -> bool {
    part == "--token"@ || part == "--password"@ || part == "--secret"@ || part == "--api-key"@
        || part == "--auth-token"@ || part == "-p"@
}

pub fn is_secret_flag(part: &str) -> (r: bool)
    ensures
        r == is_secret_flag_spec(part@),
{
    str_eq(part, "--token") || str_eq(part, "--password") || str_eq(part, "--secret") || str_eq(
        part,
        "--api-key",
    ) || str_eq(part, "--auth-token") || str_eq(part, "-p")
}

pub open spec fn ascii_upper_char(c: char) -> char {
    if 'a' <= c && c <= 'z' {
        ((c as u32) - 32) as char
    } else {
        c
    }
}

pub open spec fn ascii_upper(s: Seq<char>) -> Seq<char> {
    s.map_values(|c: char| ascii_upper_char(c))
}

pub open spec fn has_sub(s: Seq<char>, p: Seq<char>) -> bool {
    exists|i: int| occurs_at(s, p, i)
}

/// Names that look like they hold a secret: their ASCII upper case contains
/// one of the usual credential words.
pub open spec fn is_secret_name_spec(name: Seq<char>) -> bool {
    let u = ascii_upper(name);
    has_sub(u, "TOKEN"@) || has_sub(u, "SECRET"@) || has_sub(u, "PASSWORD"@) || has_sub(u, "PASS"@)
        || has_sub(u, "API_KEY"@) || has_sub(u, "ACCESS_KEY"@) || has_sub(u, "SECRET_KEY"@)
        || has_sub(u, "AUTH"@) || has_sub(u, "COOKIE"@) || has_sub(u, "SESSION"@)
}

fn upper_char(c: char) -> (r: char)
    ensures
        r == ascii_upper_char(c),
{
    if 'a' <= c && c <= 'z' {
        let b = (c as u8) - 32;
        b as char
    } else {
        c
    }
}

fn has_needle(u: &Vec<char>, needle: &str) -> (r: bool)
    ensures
        r == has_sub(u@, needle@),
{
    let n = chars_of(needle);
    contains_chars(u.as_slice(), n.as_slice())
}

pub fn is_secret_name(name: &str) -> (r: bool)
    ensures
        r == is_secret_name_spec(name@),
{
    let v = chars_of(name);
    let mut u: Vec<char> = Vec::new();
    let mut i: usize = 0;
    while i < v.len()
        invariant
            v@ == name@,
            i <= v@.len(),
            u@ == ascii_upper(v@.take(i as int)),
        decreases v.len() - i,
    {
        u.push(upper_char(v[i]));
        assert(ascii_upper(v@.take(i + 1)) =~= ascii_upper(v@.take(i as int)).push(
            ascii_upper_char(v@[i as int]),
        ));
        i = i + 1;
    }
    assert(v@.take(v@.len() as int) =~= v@);
    has_needle(&u, "TOKEN") || has_needle(&u, "SECRET") || has_needle(&u, "PASSWORD")
        || has_needle(&u, "PASS") || has_needle(&u, "API_KEY") || has_needle(&u, "ACCESS_KEY")
        || has_needle(&u, "SECRET_KEY") || has_needle(&u, "AUTH") || has_needle(&u, "COOKIE")
        || has_needle(&u, "SESSION")
}

/// One word of a command as persisted, and whether the next word is a secret.
#[verifier::opaque]
pub open spec fn redact_step(prev_secret_flag: bool, w: Seq<char>) -> (Seq<char>, bool) {
    if prev_secret_flag {
        ("<redacted>"@, false)
    } else if first_occurrence(w, seq!['=']) is Some && is_secret_name_spec(
        w.take(first_occurrence(w, seq!['='])->0),
    ) {
        (w.take(first_occurrence(w, seq!['='])->0) + "=<redacted>"@, false)
    } else if is_secret_flag_spec(w) {
        (w, true)
    } else {
        (w, false)
    }
}

pub open spec fn redact_words(ws: Seq<Seq<char>>, prev_secret_flag: bool) -> Seq<Seq<char>>
    decreases ws.len(),
{
    if ws.len() == 0 {
        seq![]
    } else {
        let (out, next) = redact_step(prev_secret_flag, ws[0]);
        seq![out] + redact_words(ws.drop_first(), next)
    }
}

/// Words joined by single spaces.
pub open spec fn join_space(ws: Seq<Seq<char>>) -> Seq<char>
    decreases ws.len(),
{
    if ws.len() == 0 {
        seq![]
    } else if ws.len() == 1 {
        ws[0]
    } else {
        join_space(ws.drop_last()) + " "@ + ws.last()
    }
}

/// The command as it may be persisted: whitespace-normalized, with the value
/// after a secret flag and the value of a secret-looking `NAME=value`
/// replaced by `<redacted>`.
pub open spec fn redacted_command(command: Seq<char>) -> Seq<char> {
    join_space(redact_words(words(command), false))
}

pub fn join_with_space(v: &Vec<String>) -> (r: String)
    ensures
        r@ == join_space(views(v@)),
{
    let mut out = String::new();
    let mut i: usize = 0;
    while i < v.len()
        invariant
            i <= v@.len(),
            out@ == join_space(views(v@).take(i as int)),
        decreases v.len() - i,
    {
        let ghost pre = views(v@).take(i as int);
        let ghost next = views(v@).take(i + 1);
        assert(next.drop_last() =~= pre);
        if i > 0 {
            out.append(" ");
        } else {
            assert(next =~= seq![v@[0]@]);
        }
        out.append(v[i].as_str());
        i = i + 1;
    }
    assert(views(v@).take(v@.len() as int) =~= views(v@));
    out
}

fn redact_word(prev: bool, w: &String) -> (r: (String, bool))
    ensures
        (r.0@, r.1) == redact_step(prev, w@),
{
    reveal(redact_step);
    if prev {
        return ("<redacted>".to_owned(), false);
    }
    let chars = chars_of(w.as_str());
    let eq = ['='];
    let pos = find(chars.as_slice(), eq.as_slice());
    assert(eq@ =~= seq!['=']);
    if let Some(i) = pos {
        let name = string_from_chars(chars.as_slice(), 0, i);
        assert(chars@.subrange(0, i as int) =~= w@.take(i as int));
        if is_secret_name(name.as_str()) {
            let mut out = name;
            out.append("=<redacted>");
            return (out, false);
        }
    }
    if is_secret_flag(w.as_str()) {
        (w.clone(), true)
    } else {
        (w.clone(), false)
    }
}

pub fn redact_command_string_for_persistence(command: &str) -> (r: String)
    ensures
        r@ == redacted_command(command@),
{
    let ws = split_whitespace(command);
    let mut out: Vec<String> = Vec::new();
    let mut prev = false;
    let mut i: usize = 0;
    assert(views(ws@).skip(0) =~= views(ws@));
    while i < ws.len()
        invariant
            i <= ws@.len(),
            views(out@) + redact_words(views(ws@).skip(i as int), prev) == redact_words(
                views(ws@),
                false,
            ),
        decreases ws.len() - i,
    {
        let ghost rest = views(ws@).skip(i as int);
        assert(rest[0] == ws@[i as int]@);
        assert(rest.drop_first() =~= views(ws@).skip(i + 1));
        let (word, next) = redact_word(prev, &ws[i]);
        let ghost before = views(out@);
        out.push(word);
        proof {
            assert(views(out@) =~= before + seq![word@]);
            assert(redact_words(rest, prev) == seq![word@] + redact_words(rest.drop_first(), next));
            assert(views(out@) + redact_words(views(ws@).skip(i + 1), next) =~= before
                + redact_words(rest, prev));
        }
        prev = next;
        i = i + 1;
    }
    assert(views(out@) =~= redact_words(views(ws@), false));
    join_with_space(&out)
}

pub open spec fn env_entry_ok(index: int, source: (String, String), e: EnvironmentEntryRecord) -> bool {
    if is_secret_name_spec(source.0@) {
        &&& e.name@ == "redacted-env-"@ + decimal(index as nat)
        &&& e.value is None
        &&& e.name_redaction == RedactionMarker::Redacted
        &&& e.value_redaction == RedactionMarker::Omitted
    } else {
        &&& e.name@ == source.0@
        &&& e.value == Some(source.1)
        &&& e.name_redaction == RedactionMarker::Plaintext
        &&& e.value_redaction == RedactionMarker::Plaintext
    }
}

/// The environment of a launch as it is recorded: secret-looking names are
/// replaced by their position and their values omitted, and the snapshot is
/// marked redacted when any entry was.
pub fn build_environment_snapshot(exec_id: &ExecutionId, environment: &Vec<(String, String)>) -> (r:
    EnvironmentSnapshotRecord)
    ensures
        r.record_id@ == "env-"@ + exec_id@,
        r.retention == RetentionClass::MetadataLongLived,
        r.entries@.len() == environment@.len(),
        forall|i: int|
            0 <= i < environment@.len() ==> env_entry_ok(i, environment@[i], #[trigger] r.entries@[i]),
        r.redaction == (if exists|i: int|
            0 <= i < environment@.len() && is_secret_name_spec((#[trigger] environment@[i]).0@) {
            RedactionMarker::Redacted
        } else {
            RedactionMarker::Plaintext
        }),
{
    let mut redaction = RedactionMarker::Plaintext;
    let mut entries: Vec<EnvironmentEntryRecord> = Vec::new();
    let mut i: usize = 0;
    while i < environment.len()
        invariant
            i <= environment@.len(),
            entries@.len() == i,
            forall|j: int| 0 <= j < i ==> env_entry_ok(j, environment@[j], #[trigger] entries@[j]),
            redaction == (if exists|j: int| 0 <= j < i && is_secret_name_spec((#[trigger] environment@[j]).0@) {
                RedactionMarker::Redacted
            } else {
                RedactionMarker::Plaintext
            }),
        decreases environment.len() - i,
    {
        let (name, value) = &environment[i];
        if is_secret_name(name.as_str()) {
            redaction = RedactionMarker::Redacted;
            let idx = u64_to_string(i as u64);
            let entry_name = concat2("redacted-env-", idx.as_str());
            entries.push(
                EnvironmentEntryRecord {
                    name: entry_name,
                    value: None,
                    name_redaction: RedactionMarker::Redacted,
                    value_redaction: RedactionMarker::Omitted,
                },
            );
        } else {
            entries.push(
                EnvironmentEntryRecord {
                    name: name.clone(),
                    value: Some(value.clone()),
                    name_redaction: RedactionMarker::Plaintext,
                    value_redaction: RedactionMarker::Plaintext,
                },
            );
        }
        i = i + 1;
    }
    EnvironmentSnapshotRecord {
        record_id: concat2("env-", exec_id.as_str()),
        redaction,
        retention: RetentionClass::MetadataLongLived,
        entries,
    }
}

/// No secret-looking environment name, and no value of one, reaches the
/// recorded snapshot.
pub proof fn lemma_snapshot_never_keeps_secret_values(
    environment: Seq<(String, String)>,
    entries: Seq<EnvironmentEntryRecord>,
    i: int,
)
    requires
        entries.len() == environment.len(),
        forall|j: int| 0 <= j < environment.len() ==> env_entry_ok(j, environment[j], #[trigger] entries[j]),
        0 <= i < environment.len(),
        is_secret_name_spec(environment[i].0@),
    ensures
        entries[i].value is None,
        entries[i].name@ != environment[i].0@ || environment[i].0@ == "redacted-env-"@ + decimal(
            i as nat,
        ),
{
    assert(env_entry_ok(i, environment[i], entries[i]));
}

/// The execution-independent inputs of a history snapshot manifest.
pub struct HistorySnapshotManifestInput {
    pub persisted_original_command: String,
    pub persisted_rewritten_command: Option<String>,
    pub observed: SnapshotObservedFacts,
    pub artifacts: SnapshotArtifacts,
}

/// The manifest recorded when an execution finishes. The capture time and the
/// host description come from the caller.
pub fn build_history_snapshot_manifest(
    exec_id: &ExecutionId,
    env_snapshot: &EnvironmentSnapshotRecord,
    input: HistorySnapshotManifestInput,
    captured_at_epoch_ms: u64,
    host: SnapshotHostMetadata,
) -> (r: HistorySnapshotManifest)
    ensures
        r.snapshot_id@ == "snapshot-"@ + exec_id@,
        r.schema_version == HISTORY_SNAPSHOT_SCHEMA_VERSION,
        r.captured_at_epoch_ms == captured_at_epoch_ms,
        r.execution.exec_id == *exec_id,
        r.execution.lineage_root_exec_id == *exec_id,
        r.intent.original_command == input.persisted_original_command,
        r.launch.rewritten_command == input.persisted_rewritten_command,
        r.observed == input.observed,
        r.environment.record_id == env_snapshot.record_id,
        r.environment.redaction == env_snapshot.redaction,
        r.artifacts == input.artifacts,
        r.host == host,
        r.retention == RetentionClass::MetadataLongLived,
{
    HistorySnapshotManifest {
        snapshot_id: concat2("snapshot-", exec_id.as_str()),
        schema_version: HISTORY_SNAPSHOT_SCHEMA_VERSION,
        captured_at_epoch_ms,
        execution: SnapshotExecutionIdentity {
            exec_id: exec_id.duplicate(),
            lineage_root_exec_id: exec_id.duplicate(),
        },
        intent: SnapshotIntentRecord { original_command: input.persisted_original_command },
        launch: SnapshotLaunchRecord { rewritten_command: input.persisted_rewritten_command },
        observed: input.observed,
        environment: SnapshotEnvironmentReference {
            record_id: env_snapshot.record_id.clone(),
            redaction: env_snapshot.redaction,
        },
        artifacts: input.artifacts,
        host,
        retention: RetentionClass::MetadataLongLived,
    }
}

pub open spec fn hex_char(n: nat) -> char {
    if n < 10 {
        ((n + 48) as u32) as char
    } else {
        ((n + 87) as u32) as char
    }
}

/// Two lowercase hexadecimal digits per byte.
pub open spec fn hex_text(bytes: Seq<u8>) -> Seq<char>
    decreases bytes.len(),
{
    if bytes.len() == 0 {
        seq![]
    } else {
        hex_text(bytes.drop_last()) + seq![
            hex_char((bytes.last() / 16) as nat),
            hex_char((bytes.last() % 16) as nat),
        ]
    }
}

fn hex_nibble(n: u8) -> (c: char)
    requires
        n < 16,
    ensures
        c == hex_char(n as nat),
{
    if n < 10 {
        (n + 48) as char
    } else {
        (n + 87) as char
    }
}

pub fn hex_digest(bytes: &[u8]) -> (r: String)
    ensures
        r@ == hex_text(bytes@),
{
    let mut out = String::new();
    let mut i: usize = 0;
    while i < bytes.len()
        invariant
            i <= bytes@.len(),
            out@ == hex_text(bytes@.take(i as int)),
        decreases bytes.len() - i,
    {
        let b = bytes[i];
        push_char(&mut out, hex_nibble(b / 16));
        push_char(&mut out, hex_nibble(b % 16));
        assert(bytes@.take(i + 1).drop_last() =~= bytes@.take(i as int));
        i = i + 1;
    }
    assert(bytes@.take(bytes@.len() as int) =~= bytes@);
    out
}

/// The SHA-256 digest of a byte sequence.
pub uninterp spec fn sha256_of(data: Seq<u8>) -> Seq<u8>;

/// A `sha2::Sha256` hasher, held opaquely: Verus refuses a declaration of
/// that type, whose parts are bounded by traits of `digest` and `typenum`.
#[verifier::external_body]
pub struct Sha256Hasher {
    inner: Sha256,
}

/// An incremental SHA-256 computation, with the bytes fed into it so far.
pub struct OutputDigest {
    hasher: Sha256Hasher,
    fed: Ghost<Seq<u8>>,
}

impl OutputDigest {
    /// The bytes fed into the digest so far.
    pub closed spec fn fed(&self) -> Seq<u8> {
        self.fed@
    }
}

/// `sha2::Sha256::new`: a hasher that has been fed nothing.
#[verifier::external_body]
fn digest_new() -> (d: OutputDigest)
    ensures
        d.fed() == Seq::<u8>::empty(),
{
    OutputDigest { hasher: Sha256Hasher { inner: Sha256::new() }, fed: Ghost(Seq::empty()) }
}

/// `sha2::Digest::update`: feeds `chunk` after what was fed before.
#[verifier::external_body]
fn digest_update(d: &mut OutputDigest, chunk: &[u8])
    ensures
        final(d).fed() == old(d).fed() + chunk@,
{
    d.hasher.inner.update(chunk);
    d.fed = Ghost(d.fed@ + chunk@);
}

/// `sha2::Digest::finalize`: the SHA-256 digest of all that was fed, which
/// is the 32-byte digest of those bytes taken as one message; the digest
/// itself is named, not restated.
#[verifier::external_body]
fn digest_finish(d: OutputDigest) -> (r: Vec<u8>)
    ensures
        r@ == sha256_of(d.fed()),
        r@.len() == 32,
{
    d.hasher.inner.finalize().to_vec()
}

/// The lowercase hex SHA-256 digest of `data`.
pub fn sha256_hex(data: &[u8]) -> (r: String)
    ensures
        r@ == hex_text(sha256_of(data@)),
{
    let mut d = digest_new();
    digest_update(&mut d, data);
    assert(d.fed() =~= data@);
    let digest = digest_finish(d);
    hex_digest(digest.as_slice())
}

/// A captured output stream: where it was spooled, its digest and size, and
/// the head of it that was kept in memory.
#[derive(Debug)]
pub struct SpooledOutput {
    pub blob_id: String,
    pub path: String,
    pub sha256: String,
    pub size_bytes: u64,
    pub truncated: bool,
    pub memory: Vec<u8>,
}

impl SpooledOutput {
    pub fn empty(blob_id: String, path: String) -> (r: Self)
        ensures
            r.blob_id == blob_id,
            r.path == path,
            r.sha256@ == hex_text(sha256_of(Seq::<u8>::empty())),
            r.size_bytes == 0,
            !r.truncated,
            r.memory@.len() == 0,
    {
        let nothing: [u8; 0] = [];
        assert(nothing@ =~= Seq::<u8>::empty());
        SpooledOutput {
            blob_id,
            path,
            sha256: sha256_hex(&nothing),
            size_bytes: 0,
            truncated: false,
            memory: Vec::new(),
        }
    }

    /// Nothing is retained of an empty stream.
    pub fn as_retained_artifact(&self, retention: RetentionClass) -> (r: Option<RetainedArtifact>)
        ensures
            r is None <==> self.size_bytes == 0,
            r matches Some(a) ==> a.blob.blob_id == self.blob_id && a.blob.sha256 == self.sha256
                && a.blob.size_bytes == self.size_bytes && a.blob.media_type@ == "text/plain"@
                && a.blob.storage_path == self.path && a.retention == retention && a.truncated
                == self.truncated,
    {
        if self.size_bytes == 0 {
            return None;
        }
        Some(
            RetainedArtifact {
                blob: BlobReference {
                    blob_id: self.blob_id.clone(),
                    sha256: self.sha256.clone(),
                    size_bytes: self.size_bytes,
                    media_type: "text/plain".to_owned(),
                    storage_path: self.path.clone(),
                },
                retention,
                truncated: self.truncated,
            },
        )
    }

    pub fn into_memory_bytes(self) -> (r: Vec<u8>)
        ensures
            r == self.memory,
    {
        self.memory
    }
}

/// How much of a stream is kept in memory, beside the spooled file.
pub const OUTPUT_MEMORY_CAPTURE_LIMIT: usize = 262144;

/// A chunk read from a stream: the part that still fits under the memory
/// limit is kept, and the output is marked truncated once anything is left
/// out.
pub fn capture_chunk(memory: &mut Vec<u8>, truncated: &mut bool, chunk: &[u8])
    requires
        old(memory)@.len() <= OUTPUT_MEMORY_CAPTURE_LIMIT,
    ensures
        ({
            let room = OUTPUT_MEMORY_CAPTURE_LIMIT - old(memory)@.len();
            let kept = if chunk@.len() < room { chunk@.len() as int } else { room as int };
            &&& final(memory)@ == old(memory)@ + chunk@.take(kept)
            &&& *final(truncated) == (*old(truncated) || kept < chunk@.len())
        }),
        final(memory)@.len() <= OUTPUT_MEMORY_CAPTURE_LIMIT,
{
    let room = OUTPUT_MEMORY_CAPTURE_LIMIT - memory.len();
    let to_copy = if chunk.len() < room { chunk.len() } else { room };
    let ghost before = memory@;
    let mut i: usize = 0;
    while i < to_copy
        invariant
            to_copy <= chunk@.len(),
            i <= to_copy,
            memory@ == before + chunk@.take(i as int),
        decreases to_copy - i,
    {
        memory.push(chunk[i]);
        assert(chunk@.take(i + 1) =~= chunk@.take(i as int).push(chunk@[i as int]));
        i = i + 1;
    }
    if to_copy < chunk.len() {
        *truncated = true;
    }
}

/// What of a stream is kept in memory: its head, up to the memory limit.
pub open spec fn kept_head(data: Seq<u8>) -> Seq<u8> {
    if data.len() <= OUTPUT_MEMORY_CAPTURE_LIMIT {
        data
    } else {
        data.take(OUTPUT_MEMORY_CAPTURE_LIMIT as int)
    }
}

/// A stream being spooled: the digest of what was read so far, its size,
/// and the head kept in memory.
pub struct SpoolState {
    digest: OutputDigest,
    total: u64,
    memory: Vec<u8>,
    truncated: bool,
}

impl SpoolState {
    /// The bytes read from the stream so far.
    pub closed spec fn read_so_far(&self) -> Seq<u8> {
        self.digest.fed()
    }

    /// The size, the kept head and the truncation mark agree with what was
    /// read.
    pub closed spec fn wf(&self) -> bool {
        &&& self.total == self.digest.fed().len()
        &&& self.memory@ == kept_head(self.digest.fed())
        &&& self.truncated == (self.digest.fed().len() > OUTPUT_MEMORY_CAPTURE_LIMIT)
    }

    /// Nothing read yet.
    pub fn new() -> (r: Self)
        ensures
            r.wf(),
            r.read_so_far() == Seq::<u8>::empty(),
    {
        let r = SpoolState { digest: digest_new(), total: 0, memory: Vec::new(), truncated: false };
        assert(r.memory@ =~= kept_head(r.digest.fed()));
        r
    }

    /// How many bytes were read so far.
    pub fn size(&self) -> (r: u64)
        requires
            self.wf(),
        ensures
            r == self.read_so_far().len(),
    {
        self.total
    }

    /// Takes in the next chunk read from the stream: it is digested, counted
    /// and kept in memory as far as the limit allows.
    pub fn step(&mut self, chunk: &[u8])
        requires
            old(self).wf(),
            old(self).read_so_far().len() + chunk@.len() <= u64::MAX,
        ensures
            final(self).wf(),
            final(self).read_so_far() == old(self).read_so_far() + chunk@,
    {
        let ghost before = self.digest.fed();
        digest_update(&mut self.digest, chunk);
        self.total = self.total + chunk.len() as u64;
        capture_chunk(&mut self.memory, &mut self.truncated, chunk);
        proof {
            let after = self.digest.fed();
            assert(after == before + chunk@);
            if before.len() >= OUTPUT_MEMORY_CAPTURE_LIMIT {
                assert(chunk@.take(0) =~= Seq::<u8>::empty());
                if before.len() > OUTPUT_MEMORY_CAPTURE_LIMIT {
                    assert(kept_head(after) =~= kept_head(before));
                } else {
                    assert(before.take(OUTPUT_MEMORY_CAPTURE_LIMIT as int) =~= before);
                    if chunk@.len() > 0 {
                        assert(kept_head(after) =~= before);
                    } else {
                        assert(after =~= before);
                    }
                }
            } else {
                let room = OUTPUT_MEMORY_CAPTURE_LIMIT - before.len();
                let kept = if chunk@.len() < room { chunk@.len() as int } else { room as int };
                assert(before + chunk@.take(kept) =~= kept_head(after));
            }
        }
    }

    /// The spooled output of everything that was read: its digest, size,
    /// kept head and truncation mark.
    pub fn finish(self, blob_id: String, path: String) -> (r: SpooledOutput)
        requires
            self.wf(),
        ensures
            r.blob_id == blob_id,
            r.path == path,
            r.sha256@ == hex_text(sha256_of(self.read_so_far())),
            r.size_bytes == self.read_so_far().len(),
            r.memory@ == kept_head(self.read_so_far()),
            r.truncated == (self.read_so_far().len() > OUTPUT_MEMORY_CAPTURE_LIMIT),
    {
        let digest = digest_finish(self.digest);
        SpooledOutput {
            blob_id,
            path,
            sha256: hex_digest(digest.as_slice()),
            size_bytes: self.total,
            truncated: self.truncated,
            memory: self.memory,
        }
    }
}

} // verus!
