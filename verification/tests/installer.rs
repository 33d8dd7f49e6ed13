use execmanager::cli::adapters::kimi::KimiAdapter;
use execmanager::cli::app_dirs::{AppDirs, HostOs};
use execmanager::cli::commands::ServiceCommand;
use execmanager::cli::entry::{
    auto_confirm, init_message, noninteractive_init_guidance, resolve_selected_adapter,
    smart_entry_action, InitOutcome, SmartEntryAction,
};
use execmanager::cli::init::{build_init_plan, InitMode, ServiceDefinitionSnapshot};
use execmanager::cli::metadata::{InitMetadata, InstallState};
use execmanager::cli::recovery::{HookInstallMode, HookInstallOutcome};
use execmanager::cli::service::{service_outcome_message, ServiceKind, ServiceManagerCommand};
use execmanager::cli::status::render_status;

const ROOT: &str = "/tmp/execmanager-test-root";

fn no_service_definition() -> ServiceDefinitionSnapshot {
    ServiceDefinitionSnapshot { present: false, contents: None }
}

fn installed(adapter: Option<&str>) -> InitMetadata {
    InitMetadata {
        initialized: true,
        selected_adapter: adapter.map(str::to_string),
        service_kind: Some("systemd --user".to_string()),
        install_state: InstallState::Installed,
        install_version: None,
    }
}

#[test]
fn render_status_reports_initialized_adapter_service_and_paths() {
    let dirs = AppDirs::for_test(ROOT);
    let rendered = render_status(&dirs, &installed(Some("kimi")));

    assert!(rendered.contains("initialized: yes"));
    assert!(rendered.contains("adapter: kimi"));
    assert!(rendered.contains("service: systemd --user"));
    assert!(rendered.contains(&format!("config dir: {}", dirs.config_dir)));
    assert!(rendered.contains(&format!("runtime dir: {}", dirs.runtime_dir)));
    assert!(rendered.contains(&format!("state dir: {}", dirs.state_dir)));
}

#[test]
fn status_reports_failed_partial_install_state_and_version() {
    let dirs = AppDirs::for_test(ROOT);
    let rendered = render_status(
        &dirs,
        &InitMetadata {
            initialized: false,
            selected_adapter: Some("kimi".to_string()),
            service_kind: Some("systemd --user".to_string()),
            install_state: InstallState::FailedPartial,
            install_version: Some("0.1.0".to_string()),
        },
    );

    assert!(rendered.contains("install state: failed-partial"));
    assert!(rendered.contains("install version: 0.1.0"));
}

#[test]
fn reports_uninitialized_when_metadata_file_is_missing() {
    let state = InitMetadata::default();
    assert!(!state.initialized);
    assert_eq!(state.install_state, InstallState::NotInstalled);
}

#[test]
fn hooks_install_requires_selected_adapter_metadata() {
    let error = resolve_selected_adapter(&InitMetadata::default())
        .expect_err("hooks install should require selected adapter metadata");
    assert!(error.contains("selected adapter"));
}

#[test]
fn hooks_install_rejects_unsupported_selected_adapter() {
    let error = resolve_selected_adapter(&installed(Some("other")))
        .expect_err("hooks install should reject unsupported adapter");
    assert!(error.contains("unsupported adapter: other"));
}

#[test]
fn service_start_stop_and_restart_dispatch_to_platform_runner() {
    let definition = format!("{ROOT}/.config/systemd/user/dev.execmanager.daemon.service");
    let mut recorded = Vec::new();
    for command in [ServiceCommand::Start, ServiceCommand::Stop, ServiceCommand::Restart] {
        recorded.extend(
            ServiceKind::SystemdUser
                .control_commands(command, HostOs::Linux, 1000, &definition)
                .expect("systemd commands"),
        );
    }

    assert_eq!(service_outcome_message(ServiceCommand::Start), "started execmanager service");
    assert_eq!(service_outcome_message(ServiceCommand::Stop), "stopped execmanager service");
    assert_eq!(service_outcome_message(ServiceCommand::Restart), "restarted execmanager service");
    let systemctl = |args: &[&str]| ServiceManagerCommand {
        program: "systemctl".to_string(),
        args: args.iter().map(|arg| arg.to_string()).collect(),
    };
    assert_eq!(
        recorded,
        vec![
            systemctl(&["--user", "daemon-reload"]),
            systemctl(&["--user", "start", "dev.execmanager.daemon.service"]),
            systemctl(&["--user", "stop", "dev.execmanager.daemon.service"]),
            systemctl(&["--user", "restart", "dev.execmanager.daemon.service"]),
        ]
    );

    let launch_agent = format!("{ROOT}/Library/LaunchAgents/dev.execmanager.daemon.plist");
    let launchctl = |args: &[&str]| ServiceManagerCommand {
        program: "launchctl".to_string(),
        args: args.iter().map(|arg| arg.to_string()).collect(),
    };
    assert_eq!(
        ServiceKind::LaunchAgent
            .control_commands(ServiceCommand::Start, HostOs::MacOs, 501, &launch_agent)
            .expect("launchctl commands"),
        vec![launchctl(&["bootstrap", "gui/501", &launch_agent])]
    );
    assert_eq!(
        ServiceKind::LaunchAgent
            .control_commands(ServiceCommand::Stop, HostOs::MacOs, 501, &launch_agent)
            .expect("launchctl commands"),
        vec![launchctl(&["bootout", "gui/501/dev.execmanager.daemon"])]
    );
    assert_eq!(
        ServiceKind::LaunchAgent
            .control_commands(ServiceCommand::Restart, HostOs::MacOs, 501, &launch_agent)
            .expect("launchctl commands"),
        vec![launchctl(&["kickstart", "-k", "gui/501/dev.execmanager.daemon"])]
    );
    assert_eq!(
        ServiceKind::LaunchAgent.control_commands(ServiceCommand::Start, HostOs::Linux, 501, &launch_agent),
        Err("LaunchAgent control is only supported on macOS".to_string())
    );
}

#[test]
fn install_reports_new_file_mode_when_hook_was_missing() {
    let hook_path = format!("{ROOT}/kimi-hook.sh");
    let adapter = KimiAdapter::for_test(hook_path.clone());
    let install = adapter
        .install_managed_hook_with_outcome(None)
        .expect("install with outcome");

    assert_eq!(
        install.outcome,
        HookInstallOutcome {
            hook_path,
            previous_contents: None,
            install_mode: HookInstallMode::NewFile,
        }
    );
    assert_eq!(install.contents, KimiAdapter::managed_region());
}

#[test]
fn init_plan_previews_hook_service_and_paths_before_apply() {
    let plan = build_init_plan(InitMode::InteractivePreview, ROOT, HostOs::Linux, no_service_definition());

    assert!(plan.preview.contains("adapter: kimi"));
    assert!(plan.preview.contains("service:"));
    assert!(plan.preview.contains("runtime dir:"));
    assert!(plan.preview.contains("state dir:"));
}

#[test]
fn apply_init_plan_uses_the_reviewed_plan_context() {
    let plan = build_init_plan(InitMode::InteractivePreview, ROOT, HostOs::Linux, no_service_definition());
    let metadata = plan.install_metadata(InstallState::Installed, true, "0.1.0".to_string());

    assert_eq!(plan.context.adapter.hook_path(), format!("{ROOT}/kimi-hook.sh"));
    assert_eq!(plan.context.dirs, AppDirs::for_test(ROOT));
    assert!(metadata.initialized);
    assert_eq!(metadata.selected_adapter.as_deref(), Some("kimi"));
    assert_eq!(metadata.service_kind.as_deref(), Some(plan.service_kind.as_str()));
}

#[test]
fn apply_init_plan_persists_metadata_from_reviewed_context_not_mutated_public_fields() {
    let mut plan =
        build_init_plan(InitMode::InteractivePreview, ROOT, HostOs::Linux, no_service_definition());
    plan.adapter_key = "mutated-adapter".to_string();
    plan.service_kind = "mutated-service".to_string();

    let metadata = plan.install_metadata(InstallState::Installed, true, "0.1.0".to_string());

    assert!(metadata.initialized);
    assert_eq!(metadata.selected_adapter.as_deref(), Some("kimi"));
    assert_ne!(metadata.selected_adapter.as_deref(), Some("mutated-adapter"));
    assert_ne!(metadata.service_kind.as_deref(), Some("mutated-service"));
}

#[test]
fn smart_entry_prints_init_guidance_when_non_interactive_and_uninitialized() {
    assert_eq!(
        smart_entry_action(false, false),
        SmartEntryAction::Guidance {
            message: "ExecManager is not initialized. Run `execmanager init`.".to_string()
        }
    );
}

#[test]
fn init_command_requires_interactive_terminal() {
    assert_eq!(
        noninteractive_init_guidance(),
        "ExecManager init requires an interactive terminal. Re-run `execmanager init` from an interactive terminal to review and apply installation changes."
    );
}

#[test]
fn smart_entry_prints_operational_summary_when_initialized_and_non_interactive() {
    assert_eq!(smart_entry_action(true, false), SmartEntryAction::ShowStatus);
    let output = render_status(&AppDirs::for_test(ROOT), &installed(Some("kimi")));
    assert!(output.contains("initialized: yes"));
    assert!(output.contains("adapter: kimi"));
    assert!(output.contains("service: systemd --user"));
}

#[test]
fn init_command_uses_auto_confirm_env_to_reach_real_confirmation_path() {
    assert!(auto_confirm(Some("true".to_string())));
    let output = init_message("mode: interactive-preview\n", InitOutcome::Completed).expect("report");
    assert!(output.contains("installation completed"));
}

#[test]
fn init_command_does_not_install_when_auto_confirm_env_is_falsey() {
    assert!(!auto_confirm(Some("no".to_string())));
    let output = init_message("mode: interactive-preview\n", InitOutcome::Cancelled).expect("report");
    assert!(output.contains("installation cancelled"));
}

#[test]
fn init_command_reports_failed_partial_when_daemon_readiness_fails() {
    let plan = build_init_plan(InitMode::InteractivePreview, ROOT, HostOs::Linux, no_service_definition());
    let metadata = plan.install_metadata(InstallState::FailedPartial, false, "0.1.0".to_string());
    let output = init_message(
        &plan.preview,
        InitOutcome::Failed {
            error: "daemon socket is still missing".to_string(),
            initialized: metadata.initialized,
        },
    )
    .expect("a recoverable failure is reported");

    assert!(output.contains("installation requires attention"));
    assert!(output.contains("recoverable failure"));
    assert!(!metadata.initialized);
    assert_eq!(metadata.install_state, InstallState::FailedPartial);
}

#[test]
fn a_finished_install_is_recorded_as_installed_or_failed_partial() {
    let plan = build_init_plan(InitMode::Apply, ROOT, HostOs::Linux, no_service_definition());
    let done = plan.finished_metadata(true, "0.1.0-snapshot".to_string());
    assert!(done.initialized);
    assert_eq!(done.install_state, InstallState::Installed);
    assert_eq!(done.install_version.as_deref(), Some("0.1.0-snapshot"));
    let failed = plan.finished_metadata(false, "0.1.0".to_string());
    assert!(!failed.initialized);
    assert_eq!(failed.install_state, InstallState::FailedPartial);
    assert_eq!(failed.selected_adapter.as_deref(), Some("kimi"));
    assert_eq!(failed.service_kind.as_deref(), Some("systemd --user"));
}

#[test]
fn derives_stable_user_categories_from_home_on_linux() {
    let home = "/tmp/execmanager-home";
    let dirs = AppDirs::from_home(home, HostOs::Linux);

    assert_eq!(dirs.config_dir, format!("{home}/.config/execmanager"));
    assert_eq!(dirs.runtime_dir, format!("{home}/.local/run/execmanager"));
    assert_eq!(dirs.state_dir, format!("{home}/.local/state/execmanager"));
}

#[test]
fn derives_stable_user_categories_from_home_on_macos() {
    let home = "/tmp/execmanager-home";
    let dirs = AppDirs::from_home(home, HostOs::MacOs);

    assert_eq!(dirs.config_dir, format!("{home}/Library/Application Support/execmanager"));
    assert_eq!(
        dirs.runtime_dir,
        format!("{home}/Library/Application Support/execmanager/runtime")
    );
    assert_eq!(
        dirs.state_dir,
        format!("{home}/Library/Application Support/execmanager/state")
    );
}

#[test]
fn prefers_explicit_env_overrides_over_home_defaults() {
    let dirs = AppDirs::from_home_with_overrides(
        "/tmp/root/home",
        HostOs::Linux,
        Some("/tmp/root/custom-config".to_string()),
        Some("/tmp/root/custom-runtime".to_string()),
        Some("/tmp/root/custom-state".to_string()),
    );

    assert_eq!(dirs.config_dir, "/tmp/root/custom-config");
    assert_eq!(dirs.runtime_dir, "/tmp/root/custom-runtime");
    assert_eq!(dirs.state_dir, "/tmp/root/custom-state");
}

#[test]
fn falls_back_to_home_defaults_when_overrides_are_absent() {
    let dirs = AppDirs::from_home_with_overrides(
        "/tmp/root/home",
        HostOs::Linux,
        None,
        Some(String::new()),
        None,
    );
    let defaults = AppDirs::from_home("/tmp/root/home", HostOs::Linux);

    assert_eq!(dirs.config_dir, defaults.config_dir);
    assert_eq!(dirs.runtime_dir, defaults.runtime_dir);
    assert_eq!(dirs.state_dir, defaults.state_dir);
}
