use execmanager::contracts::{ExecutionId, ProjectionState, RetentionClass};
use execmanager::daemon::journal::{JournalEvent, RecordedJournalEvent, ReplayError};
use execmanager::daemon::launch::ExecutionMode;
use execmanager::daemon::ownership::RuntimeOwnership;
use execmanager::daemon::projection::RuntimeProjection;
use execmanager::daemon::views::{GhostView, ServiceView};
use execmanager::tui::keys::{action_for_key, journal_changed, KeyInput};
use execmanager::tui::app::AppAction;
use execmanager::tui::labels::{
    abbreviate_path, format_duration, parse_uptime_centis, read_blob_tail_lines,
    runtime_from_start_ticks, summarize_command, UptimeClock,
};
use execmanager::tui::model::{DashboardView, PressureLevel};
use execmanager::tui::runtime::{build_dashboard_model, detail_for_exec, BlobRead, RenderError};
use execmanager::tui::sections::{
    compact_runtime_section, count_high_pressure, extract_logs, extract_section,
    global_load_label, metadata_fragment, runtime_fragment,
};

fn record(offset: u64, event: JournalEvent) -> RecordedJournalEvent {
    RecordedJournalEvent { offset, retention: RetentionClass::MetadataLongLived, event }
}

fn launch(id: &str, command: &str) -> JournalEvent {
    JournalEvent::LaunchRequested {
        exec_id: ExecutionId::new(id),
        original_command: command.to_string(),
        mode: ExecutionMode::BatchPipes,
    }
}

fn history() -> Vec<RecordedJournalEvent> {
    vec![
        record(0, launch("exec-1", "npm run dev")),
        record(
            40,
            JournalEvent::ProcessSpawned {
                exec_id: ExecutionId::new("exec-1"),
                state: ProjectionState::Managed,
                mode: ExecutionMode::BatchPipes,
                ownership: RuntimeOwnership {
                    root_pid: 10,
                    process_group_id: 10,
                    session_id: None,
                    start_time_ticks: Some(500),
                },
                stdout: None,
                stderr: None,
            },
        ),
        record(80, launch("exec-2", "python server.py")),
        record(
            120,
            JournalEvent::ServiceObserved {
                exec_id: ExecutionId::new("exec-1"),
                service: ServiceView {
                    name: "observed_service".to_string(),
                    state: ProjectionState::Service,
                    port_ids: vec!["tcp:3000".to_string()],
                },
            },
        ),
        record(160, launch("exec-3", "true")),
        record(
            200,
            JournalEvent::ExecutionStateUpdated {
                exec_id: ExecutionId::new("exec-3"),
                state: ProjectionState::Exited,
            },
        ),
        record(
            240,
            JournalEvent::GhostStateRecorded {
                exec_id: ExecutionId::new("exec-2"),
                ghost_view: GhostView {
                    state: ProjectionState::Detached,
                    detail: "stale runtime".to_string(),
                },
            },
        ),
    ]
}

fn projection() -> RuntimeProjection {
    let mut projection = RuntimeProjection::empty(None);
    for r in history() {
        projection.apply(r.event.clone());
    }
    projection
}

#[test]
fn running_instances_come_newest_first_and_exited_ones_are_left_out() {
    let model = build_dashboard_model(&projection(), Ok(history()), &vec![], None).expect("model");
    let keys: Vec<&str> = model.instances.iter().map(|v| v.key()).collect();
    assert_eq!(keys, vec!["exec-2", "exec-1"]);
    assert_eq!(model.instances[1].title, "npm run dev");
    assert_eq!(model.instances[1].subtitle, "unknown | unknown | unknown | unknown");
    assert_eq!(model.history.len(), 7);
    assert_eq!(model.history[0].key(), "history:240");
    assert_eq!(model.history[0].title, "ghost_state_recorded");
    assert_eq!(model.services.len(), 1);
    assert_eq!(model.services[0].key(), "exec-1:observed_service");
    assert_eq!(model.services[0].subtitle, "exec-1 | tcp:3000");
    assert_eq!(model.ghosts.len(), 1);
    assert_eq!(model.ghosts[0].subtitle, "detached | stale runtime");
}

#[test]
fn instance_detail_lists_identity_runtime_services_and_events() {
    let detail = detail_for_exec(&projection(), Ok(history()), "exec-1", &vec![], None)
        .expect("detail")
        .expect("known execution");
    assert_eq!(detail[0], "Identity");
    assert_eq!(detail[1], "exec id: exec-1");
    assert!(detail.contains(&"service observed_service -> tcp:3000 [service]".to_string()));
    assert!(detail.contains(&"no retained stdout/stderr".to_string()));
    assert_eq!(detail.last().unwrap(), "service_observed");
    assert!(detail_for_exec(&projection(), Ok(history()), "nope", &vec![], None)
        .expect("detail")
        .is_none());
}

#[test]
fn unreadable_history_is_an_error_unless_the_projection_is_degraded() {
    let error = ReplayError::Io("gone".to_string());
    match build_dashboard_model(&projection(), Err(error), &vec![], None) {
        Err(e) => assert_eq!(e.message(), "unable to render history pane: journal replay IO failed: gone"),
        Ok(_) => panic!("expected error"),
    }
    assert!(matches!(
        RenderError::Terminal("tty".to_string()).message().as_str(),
        "unable to run dashboard terminal: tty"
    ));
}

#[test]
fn labels_shorten_and_format() {
    assert_eq!(summarize_command("short"), "short");
    let long = "x".repeat(60);
    let summary = summarize_command(&long);
    assert_eq!(summary.chars().count(), 48);
    assert!(summary.ends_with('…'));
    let path = format!("/{}", "d".repeat(40));
    let abbreviated = abbreviate_path(&path);
    assert_eq!(abbreviated.chars().count(), 32);
    assert!(abbreviated.starts_with('…'));
    assert_eq!(format_duration(3725), "1h 2m");
    assert_eq!(format_duration(122), "2m 2s");
    assert_eq!(format_duration(5), "5s");
    assert_eq!(parse_uptime_centis("12345.67 54321.00\n"), Some(1234567));
    assert_eq!(parse_uptime_centis("garbage"), None);
    let clock = UptimeClock { ticks_per_second: 100, uptime_centis: 10_000 };
    assert_eq!(runtime_from_start_ticks(2_000, Some(clock)), Some("1m 20s".to_string()));
    assert_eq!(runtime_from_start_ticks(20_000, Some(clock)), Some("0s".to_string()));
    assert_eq!(runtime_from_start_ticks(1, None), None);
}

#[test]
fn log_tails_keep_the_last_eight_lines() {
    let lines: Vec<String> = (1..=10).map(|i| format!("line {i}")).collect();
    let tail = read_blob_tail_lines(Ok(lines));
    assert_eq!(tail.len(), 8);
    assert_eq!(tail[0], "line 3");
    assert_eq!(read_blob_tail_lines(Ok(vec![])), vec!["<empty>".to_string()]);
    assert_eq!(
        read_blob_tail_lines(Err("denied".to_string())),
        vec!["unable to read log tail: denied".to_string()]
    );
    let _ = BlobRead { storage_path: "p".to_string(), lines: Ok(vec![]) };
}

#[test]
fn sections_and_fragments_of_a_row() {
    let detail: Vec<String> = ["Runtime", "effective state: managed", "", "Logs", "stdout:", "hi", "Recent events", "x"]
        .iter()
        .map(|s| s.to_string())
        .collect();
    assert_eq!(
        extract_section(&detail, "Runtime", &["Logs"]),
        vec!["effective state: managed".to_string()]
    );
    assert_eq!(extract_logs(&detail), vec!["stdout:".to_string(), "hi".to_string()]);
    assert_eq!(
        compact_runtime_section(vec![
            "Resources".to_string(),
            "pressure: healthy".to_string(),
            "effective state: managed".to_string(),
        ]),
        vec!["effective state: managed".to_string(), "pressure: healthy".to_string()]
    );
    assert_eq!(runtime_fragment(" 12s | shell | /repo | healthy"), "12s");
    assert_eq!(metadata_fragment("12s | shell | /repo | healthy"), "shell • /repo • healthy");
    let rows = vec![
        DashboardView::new("a", "a", "", PressureLevel::Elevated, vec![]),
        DashboardView::new("b", "b", "", PressureLevel::Constrained, vec![]),
        DashboardView::new("c", "c", "", PressureLevel::Healthy, vec![]),
    ];
    assert_eq!(count_high_pressure(&rows), 2);
    assert_eq!(global_load_label(&rows), "Global load: 1 constrained / 1 elevated");
}

#[test]
fn keys_and_journal_changes_drive_the_loop() {
    assert_eq!(action_for_key(KeyInput::Char('q'), true), Some(AppAction::Quit));
    assert_eq!(action_for_key(KeyInput::Up, false), None);
    assert_eq!(action_for_key(KeyInput::Char('x'), true), None);
    let names = vec![None, Some("events.journal".to_string())];
    assert!(journal_changed(true, &names, &Some("events.journal".to_string())));
    assert!(!journal_changed(false, &names, &Some("events.journal".to_string())));
    assert!(!journal_changed(true, &names, &None));
}
