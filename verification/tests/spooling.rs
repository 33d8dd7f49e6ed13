use execmanager::contracts::{ExecutionId, RetentionClass};
use execmanager::daemon::journal::{CorruptionKind, JournalEvent, ReplayError};
use execmanager::daemon::launch::ExecutionMode;
use execmanager::daemon::projection::{recorded_history, DecodedJournal, RuntimeProjection};
use execmanager::daemon::records::{sha256_hex, SpoolState, OUTPUT_MEMORY_CAPTURE_LIMIT};
use execmanager::daemon::views::ViewerHandleError;
use execmanager::tui::sections::selection_summary_lines;

fn launch(id: &str) -> JournalEvent {
    JournalEvent::LaunchRequested {
        exec_id: ExecutionId::new(id),
        original_command: "echo hi".to_string(),
        mode: ExecutionMode::BatchPipes,
    }
}

#[test]
fn spooled_output_digests_and_counts_every_chunk() {
    let mut state = SpoolState::new();
    state.step(b"hello ");
    state.step(b"");
    state.step(b"world");
    assert_eq!(state.size(), 11);
    let out = state.finish("blob-1".to_string(), "/spool/out.log".to_string());
    assert_eq!(out.sha256, sha256_hex(b"hello world"));
    assert_eq!(
        out.sha256,
        "b94d27b9934d3e08a52e52d7da7dabfac484efe37a5380ee9088f7ace2efcde9"
    );
    assert_eq!(out.size_bytes, 11);
    assert!(!out.truncated);
    assert_eq!(out.memory, b"hello world".to_vec());
    assert_eq!(out.blob_id, "blob-1");
    assert_eq!(out.path, "/spool/out.log");
}

#[test]
fn spooled_output_keeps_only_the_head_in_memory() {
    let mut state = SpoolState::new();
    let big = vec![b'a'; OUTPUT_MEMORY_CAPTURE_LIMIT - 1];
    state.step(&big);
    state.step(b"bc");
    let out = state.finish("blob".to_string(), "p".to_string());
    assert_eq!(out.size_bytes, (OUTPUT_MEMORY_CAPTURE_LIMIT + 1) as u64);
    assert!(out.truncated);
    assert_eq!(out.memory.len(), OUTPUT_MEMORY_CAPTURE_LIMIT);
    assert_eq!(out.memory[OUTPUT_MEMORY_CAPTURE_LIMIT - 1], b'b');
    let mut all = big.clone();
    all.extend_from_slice(b"bc");
    assert_eq!(out.sha256, sha256_hex(&all));
}

#[test]
fn exactly_the_limit_is_not_truncated() {
    let mut state = SpoolState::new();
    state.step(&vec![b'x'; OUTPUT_MEMORY_CAPTURE_LIMIT]);
    let out = state.finish("b".to_string(), "p".to_string());
    assert!(!out.truncated);
    assert_eq!(out.memory.len(), OUTPUT_MEMORY_CAPTURE_LIMIT);
}

#[test]
fn history_lists_decoded_records_with_their_offsets() {
    let history = recorded_history(
        &vec![0, 40],
        DecodedJournal { events: vec![Ok(launch("a")), Ok(launch("b"))], scan_error: None },
    )
    .expect("clean journal");
    assert_eq!(history.len(), 2);
    assert_eq!(history[0].offset, 0);
    assert_eq!(history[1].offset, 40);
    assert_eq!(history[1].event, launch("b"));
    assert!(history.iter().all(|r| r.retention == RetentionClass::MetadataLongLived));
}

#[test]
fn history_fails_on_the_first_bad_record_then_on_framing() {
    let bad = ReplayError::CorruptRecord {
        offset: 40,
        kind: CorruptionKind::InvalidJson("eof".to_string()),
    };
    let framing = ReplayError::CorruptRecord { offset: 90, kind: CorruptionKind::ChecksumMismatch };
    assert_eq!(
        recorded_history(
            &vec![0, 40],
            DecodedJournal {
                events: vec![Ok(launch("a")), Err(bad.clone())],
                scan_error: Some(framing.clone()),
            },
        ),
        Err(bad)
    );
    assert_eq!(
        recorded_history(
            &vec![0],
            DecodedJournal { events: vec![Ok(launch("a"))], scan_error: Some(framing.clone()) },
        ),
        Err(framing)
    );
    assert_eq!(
        recorded_history(&vec![], DecodedJournal { events: vec![], scan_error: None }),
        Ok(vec![])
    );
}

#[test]
fn viewer_handle_is_unavailable_without_ownership() {
    let projection = RuntimeProjection::replay_from_path(
        "/state/events.journal",
        DecodedJournal { events: vec![Ok(launch("exec-no-owner"))], scan_error: None },
    )
    .expect("replay");
    match projection.viewer_handle(&ExecutionId::new("exec-no-owner")) {
        Err(ViewerHandleError::Unavailable { exec_id, reason }) => {
            assert_eq!(exec_id.as_str(), "exec-no-owner");
            assert_eq!(reason, "execution has no daemon-owned runtime ownership proof");
        }
        _ => panic!("an execution without ownership has no viewer handle"),
    }
}

#[test]
fn selection_summary_prefers_notes_then_summary_then_events() {
    assert_eq!(
        selection_summary_lines(&vec![]),
        vec![
            "Select a running instance to inspect its runtime, resources, services, and recent output."
                .to_string()
        ]
    );
    let detail: Vec<String> = [
        "Identity",
        "ghost detached: gone",
        "Selection Summary / Recent State",
        "state: running",
        "Logs",
        "out",
        "Recent events",
        "launch_requested",
    ]
    .iter()
    .map(|s| s.to_string())
    .collect();
    assert_eq!(
        selection_summary_lines(&detail),
        vec!["ghost detached: gone".to_string(), "state: running".to_string()]
    );
    let events_only: Vec<String> =
        ["Identity", "Recent events", "launch_requested"].iter().map(|s| s.to_string()).collect();
    assert_eq!(selection_summary_lines(&events_only), vec!["launch_requested".to_string()]);
    let nothing: Vec<String> = vec!["Identity".to_string()];
    assert_eq!(
        selection_summary_lines(&nothing),
        vec!["No recent state changes captured yet.".to_string()]
    );
}
