use execmanager::cli::adapters::kimi::KimiAdapter;
use execmanager::cli::adapters::AdapterError;
use execmanager::cli::app_dirs::{AppDirs, HostOs};
use execmanager::cli::commands::{Command, HooksCommand, ServiceCommand, UninstallMode};
use execmanager::cli::doctor::run_doctor;
use execmanager::cli::entry::{
    auto_confirm, hooks_message, init_message, is_affirmative, resolve_selected_adapter,
    smart_entry_action, InitOutcome, SelectedAdapter, SmartEntryAction,
};
use execmanager::cli::init::{build_init_plan, install_version_for, InitMode, ServiceDefinitionSnapshot};
use execmanager::cli::metadata::{InitMetadata, InstallState};
use execmanager::cli::recovery::{HookInstallMode, RecoveryMetadata};
use execmanager::cli::service::{LaunchSpec, ServiceKind};
use execmanager::cli::status::render_status;
use execmanager::cli::uninstall::{
    hook_restore_action, restore_message, safe_removal_message, service_restore_action, test_root,
    RestoreAction,
};

#[test]
fn new_fails_closed_when_home_is_missing() {
    let adapter = KimiAdapter::new(None);
    assert!(adapter.is_err(), "adapter construction should fail without HOME");
}

#[test]
fn new_fails_closed_when_home_is_empty_and_uses_the_kimi_hook_path_otherwise() {
    assert!(KimiAdapter::new(Some(String::new())).is_err());
    let adapter = KimiAdapter::new(Some("/home/u".to_string())).expect("adapter");
    assert_eq!(adapter.hook_path(), "/home/u/.config/kimi/hooks/execmanager-hook.sh");
}

#[test]
fn parses_top_level_help_flags() {
    assert_eq!(Command::parse_from(["execmanager", "-h"]), Command::Help);
    assert_eq!(Command::parse_from(["execmanager", "--help"]), Command::Help);
}

#[test]
fn parses_safe_uninstall_without_flag() {
    let command = Command::parse_from(["execmanager", "uninstall"]);

    assert_eq!(command, Command::Uninstall(UninstallMode::Safe));
}

#[test]
fn parses_restore_uninstall_with_flag() {
    let command = Command::parse_from(["execmanager", "uninstall", "--restore"]);

    assert_eq!(command, Command::Uninstall(UninstallMode::Restore));
}

#[test]
fn parses_public_commands_and_hidden_daemon_run() {
    assert_eq!(Command::parse_from(["execmanager", "init"]), Command::Init);
    assert_eq!(Command::parse_from(["execmanager", "status"]), Command::Status);
    assert_eq!(
        Command::parse_from(["execmanager", "service", "restart"]),
        Command::Service(ServiceCommand::Restart)
    );
    assert_eq!(Command::parse_from(["execmanager", "daemon", "run"]), Command::DaemonRun);
}

#[test]
fn unknown_words_are_reported() {
    let error = Command::from_env(vec!["execmanager".to_string(), "nope".to_string()])
        .expect_err("unknown");
    assert_eq!(error.message(), "unknown command: nope");
    let error = Command::from_env(vec![
        "execmanager".to_string(),
        "service".to_string(),
        "jump".to_string(),
    ])
    .expect_err("unknown");
    assert_eq!(error.message(), "unknown service command: jump");
    assert_eq!(
        Command::from_env(vec!["execmanager".to_string()]).expect("bare"),
        Command::SmartEntry
    );
}

fn spec() -> LaunchSpec {
    LaunchSpec {
        execmanager_path: "/tmp/execmanager".into(),
        config_dir: "/tmp/config".into(),
        runtime_dir: "/tmp/runtime".into(),
        state_dir: "/tmp/state".into(),
    }
}

#[test]
fn renders_systemd_user_unit_for_same_binary() {
    let rendered = ServiceKind::SystemdUser.render(&spec());

    assert!(rendered.contains("ExecStart=/tmp/execmanager daemon run"));
}

#[test]
fn renders_launch_agent_for_same_binary() {
    let rendered = ServiceKind::LaunchAgent.render(&spec());

    assert!(rendered.contains("daemon"));
    assert!(rendered.contains("run"));
}

#[test]
fn unit_values_are_escaped() {
    let rendered = ServiceKind::SystemdUser.render(&LaunchSpec {
        execmanager_path: "/opt/my tools/execmanager".into(),
        config_dir: "/tmp/c".into(),
        runtime_dir: "/tmp/r".into(),
        state_dir: "/tmp/s".into(),
    });
    assert!(rendered.contains("ExecStart=/opt/my\\ tools/execmanager daemon run\n"));
    let plist = ServiceKind::LaunchAgent.render(&LaunchSpec {
        execmanager_path: "/a&b".into(),
        config_dir: "/c".into(),
        runtime_dir: "/r".into(),
        state_dir: "/s".into(),
    });
    assert!(plist.contains("<string>/a&amp;b</string>"));
}

#[test]
fn service_control_commands_follow_the_service_manager() {
    let start = ServiceKind::SystemdUser
        .control_commands(ServiceCommand::Start, HostOs::Linux, 1000, "/unused")
        .expect("commands");
    assert_eq!(start.len(), 2);
    assert_eq!(start[0].args, vec!["--user".to_string(), "daemon-reload".to_string()]);
    assert_eq!(
        start[1].args,
        vec!["--user".to_string(), "start".to_string(), "dev.execmanager.daemon.service".to_string()]
    );
    let restart = ServiceKind::LaunchAgent
        .control_commands(ServiceCommand::Restart, HostOs::MacOs, 501, "/p.plist")
        .expect("commands");
    assert_eq!(restart[0].program, "launchctl");
    assert_eq!(
        restart[0].args,
        vec!["kickstart".to_string(), "-k".to_string(), "gui/501/dev.execmanager.daemon".to_string()]
    );
    assert_eq!(
        ServiceKind::LaunchAgent
            .control_commands(ServiceCommand::Stop, HostOs::Linux, 1, "/p")
            .err(),
        Some("LaunchAgent control is only supported on macOS".to_string())
    );
}

#[test]
fn app_dirs_follow_the_platform_layout_and_overrides() {
    let linux = AppDirs::from_home("/home/u", HostOs::Linux);
    assert_eq!(linux.config_dir, "/home/u/.config/execmanager");
    assert_eq!(linux.runtime_dir, "/home/u/.local/run/execmanager");
    assert_eq!(linux.state_dir, "/home/u/.local/state/execmanager");
    let mac = AppDirs::from_home("/Users/u", HostOs::MacOs);
    assert_eq!(mac.config_dir, "/Users/u/Library/Application Support/execmanager");
    assert_eq!(mac.runtime_dir, "/Users/u/Library/Application Support/execmanager/runtime");
    let overridden = AppDirs::from_home_with_overrides(
        "/home/u",
        HostOs::Linux,
        Some("/custom-config".to_string()),
        Some(String::new()),
        None,
    );
    assert_eq!(overridden.config_dir, "/custom-config");
    assert_eq!(overridden.runtime_dir, "/home/u/.local/run/execmanager");
    let test = AppDirs::for_test("/tmp/root");
    assert_eq!(test.metadata_file(), "/tmp/root/config/execmanager.json");
    assert_eq!(test_root(&test), Some("/tmp/root".to_string()));
    assert_eq!(test_root(&linux), None);
}

const MANAGED: &str = "# BEGIN EXECMANAGER MANAGED HOOK\n# execmanager-managed-hook-version: 1\nexecmanager daemon run\n# END EXECMANAGER MANAGED HOOK\n";

#[test]
fn install_appends_the_managed_region_and_keeps_the_hook() {
    let adapter = KimiAdapter::for_test("/tmp/kimi-hook.sh".to_string());
    let install = adapter
        .install_managed_hook_with_outcome(Some("#!/bin/sh\n# original hook\n".to_string()))
        .expect("install");
    assert_eq!(install.contents, format!("#!/bin/sh\n# original hook\n{MANAGED}"));
    assert_eq!(install.outcome.install_mode, HookInstallMode::AppendManagedRegion);
    assert_eq!(
        install.outcome.previous_contents,
        Some("#!/bin/sh\n# original hook\n".to_string())
    );
    let fresh = adapter.install_managed_hook_with_outcome(None).expect("install");
    assert_eq!(fresh.contents, MANAGED);
    assert_eq!(fresh.outcome.install_mode, HookInstallMode::NewFile);
    assert_eq!(KimiAdapter::append_managed_region("#!/bin/sh"), format!("#!/bin/sh\n{MANAGED}"));
}

#[test]
fn install_twice_writes_the_same_hook_and_uninstall_restores_it() {
    let original = "#!/bin/sh\necho hi\n";
    let once = KimiAdapter::render_installed_contents(Some(original)).expect("once");
    let twice = KimiAdapter::render_installed_contents(Some(&once)).expect("twice");
    assert_eq!(once, twice);
    assert_eq!(KimiAdapter::remove_managed_region(&once).expect("remove"), original);
    assert_eq!(KimiAdapter::remove_managed_region(MANAGED).expect("remove"), "");
}

#[test]
fn modified_managed_region_is_a_conflict() {
    let hook = "#!/bin/sh\n# BEGIN EXECMANAGER MANAGED HOOK\n# modified\n# END EXECMANAGER MANAGED HOOK\n";
    let error = KimiAdapter::render_installed_contents(Some(hook)).expect_err("conflict");
    assert_eq!(
        error,
        AdapterError::Conflict {
            message: "managed Kimi hook was modified outside execmanager; manual resolution required"
                .to_string()
        }
    );
    assert!(error.message().contains("manual resolution"));
    assert!(KimiAdapter::remove_managed_region(hook).is_err());
    let adapter = KimiAdapter::for_test("/tmp/h".to_string());
    assert!(adapter.install_managed_hook_with_outcome(Some(hook.to_string())).is_err());
    assert!(adapter.plan_hook_install(Some(hook.to_string())).managed_region_present);
    assert!(!adapter.plan_hook_install(None).managed_region_present);
}

fn metadata(state: InstallState, initialized: bool) -> InitMetadata {
    InitMetadata {
        initialized,
        selected_adapter: Some("kimi".to_string()),
        service_kind: Some("systemd --user".to_string()),
        install_state: state,
        install_version: None,
    }
}

#[test]
fn status_lists_the_installation() {
    let dirs = AppDirs::for_test("/r");
    let text = render_status(&dirs, &metadata(InstallState::Installed, true));
    assert_eq!(
        text,
        "initialized: yes\nadapter: kimi\nservice: systemd --user\ninstall state: installed\ninstall version: unknown\nconfig dir: /r/config\nruntime dir: /r/runtime\nstate dir: /r/state"
    );
}

#[test]
fn doctor_reports_what_to_run() {
    let missing = run_doctor(&InitMetadata::default(), &None, &Ok(()));
    assert_eq!(
        missing,
        "install state: not-installed\ninit metadata missing -> run `execmanager init`"
    );
    let recovery = RecoveryMetadata {
        selected_adapter: "kimi".to_string(),
        hook_install_mode: HookInstallMode::NewFile,
        hook_backup_contents: None,
        service_definition_path: "/p".to_string(),
        service_previously_present: false,
        service_definition_backup_contents: None,
        fully_restorable: true,
    };
    let partial = run_doctor(
        &metadata(InstallState::FailedPartial, false),
        &Some(recovery),
        &Err("ignored".to_string()),
    );
    assert_eq!(
        partial,
        "install state: failed-partial\nrestore available: yes\npartial install detected -> run `execmanager uninstall --restore` to roll back or `execmanager init` to retry installation"
    );
    let unreachable = run_doctor(
        &metadata(InstallState::Installed, true),
        &None,
        &Err("socket missing".to_string()),
    );
    assert_eq!(
        unreachable,
        "install state: installed\ndaemon not reachable (socket missing) -> re-run `execmanager init` to repair setup or launch `execmanager daemon run` directly"
    );
}

#[test]
fn init_plan_previews_paths_before_apply() {
    let plan = build_init_plan(
        InitMode::InteractivePreview,
        "/t",
        HostOs::Linux,
        ServiceDefinitionSnapshot { present: false, contents: None },
    );
    assert_eq!(plan.adapter_key, "kimi");
    assert_eq!(plan.service_kind, "systemd --user");
    assert!(!plan.should_start_daemon);
    assert_eq!(
        plan.preview,
        "mode: interactive-preview\nadapter: kimi\nservice: systemd --user\nconfig dir: /t/config\nruntime dir: /t/runtime\nstate dir: /t/state\nhook path: /t/kimi-hook.sh\nservice definition: /t/.config/systemd/user/dev.execmanager.daemon.service\nmetadata file: /t/config/execmanager.json\ndaemon start: deferred\n"
    );
    let recovery = plan.recovery_metadata_for(HookInstallMode::NewFile, None);
    assert!(recovery.fully_restorable);
    assert_eq!(install_version_for("0.1.0", Some(" snapshot\n".to_string())), "0.1.0-snapshot");
    assert_eq!(install_version_for("0.1.0", Some("stable".to_string())), "0.1.0");
}

#[test]
fn restore_uninstall_writes_back_backups_and_reports_limitations() {
    let recovery = RecoveryMetadata {
        selected_adapter: "other".to_string(),
        hook_install_mode: HookInstallMode::AppendManagedRegion,
        hook_backup_contents: None,
        service_definition_path: "/elsewhere".to_string(),
        service_previously_present: true,
        service_definition_backup_contents: Some("unit".to_string()),
        fully_restorable: true,
    };
    let hook = hook_restore_action(&recovery);
    let service = service_restore_action(&recovery, "/expected");
    let mut limitations = Vec::new();
    for action in [hook, service] {
        match action {
            RestoreAction::Remove { limitation: Some(l) } => limitations.push(l),
            other => panic!("unexpected {other:?}"),
        }
    }
    let message = restore_message(&AppDirs::for_test("/r"), &limitations);
    assert_eq!(
        message,
        "restored original artifacts where possible and removed execmanager-managed state from /r/config; adapter `other` is not restorable here, so the hook fell back to safe removal; recovery metadata service path /elsewhere did not match the expected managed service path /expected, so the service fell back to safe removal at the validated managed path only"
    );
    let matching = RecoveryMetadata { service_definition_path: "/expected".to_string(), ..recovery };
    assert_eq!(
        service_restore_action(&matching, "/expected"),
        RestoreAction::Write { contents: "unit".to_string() }
    );
}

#[test]
fn hooks_commands_need_the_kimi_adapter() {
    assert_eq!(
        resolve_selected_adapter(&InitMetadata::default()),
        Err("hooks command requires a selected adapter in init metadata".to_string())
    );
    let mut other = metadata(InstallState::Installed, true);
    other.selected_adapter = Some("other".to_string());
    assert_eq!(
        resolve_selected_adapter(&other),
        Err("hooks command has unsupported adapter: other".to_string())
    );
    assert_eq!(
        resolve_selected_adapter(&metadata(InstallState::Installed, true)),
        Ok(SelectedAdapter::Kimi)
    );
    assert_eq!(
        hooks_message(HooksCommand::Repair, "/h"),
        "repaired managed hook at /h"
    );
}

#[test]
fn interactive_install_reports_how_it_ended() {
    assert_eq!(
        init_message("P", InitOutcome::Completed),
        Ok("Installation plan\nP\ninstallation completed\nExecManager is ready.".to_string())
    );
    assert_eq!(
        init_message("P", InitOutcome::Failed { error: "boom".to_string(), initialized: true }),
        Err("boom".to_string())
    );
    assert!(init_message("P", InitOutcome::Failed { error: "boom".to_string(), initialized: false })
        .expect("recoverable")
        .contains("recoverable failure: boom"));
    assert!(is_affirmative("  YeS \n"));
    assert!(!is_affirmative("no"));
    assert!(auto_confirm(Some("TRUE".to_string())));
    assert!(!auto_confirm(Some(" 1".to_string())));
    assert!(!auto_confirm(None));
}

#[test]
fn bare_entry_installs_guides_opens_the_dashboard_or_summarises() {
    assert_eq!(smart_entry_action(false, true), SmartEntryAction::RunInit);
    assert_eq!(
        smart_entry_action(false, false),
        SmartEntryAction::Guidance {
            message: "ExecManager is not initialized. Run `execmanager init`.".to_string()
        }
    );
    assert_eq!(smart_entry_action(true, true), SmartEntryAction::ShowDashboard);
    assert_eq!(smart_entry_action(true, false), SmartEntryAction::ShowStatus);
}

#[test]
fn restore_without_backups_falls_back_to_safe_removal() {
    let recovery = RecoveryMetadata {
        selected_adapter: "kimi".to_string(),
        hook_install_mode: HookInstallMode::AppendManagedRegion,
        hook_backup_contents: None,
        service_definition_path: "/expected".to_string(),
        service_previously_present: true,
        service_definition_backup_contents: None,
        fully_restorable: false,
    };
    assert_eq!(
        hook_restore_action(&recovery),
        RestoreAction::Remove {
            limitation: Some(
                "hook backup metadata was unavailable, so the hook fell back to safe removal"
                    .to_string()
            )
        }
    );
    assert_eq!(
        service_restore_action(&recovery, "/expected"),
        RestoreAction::Remove {
            limitation: Some(
                "service definition backup metadata was unavailable, so the service file fell back to safe removal"
                    .to_string()
            )
        }
    );
    let fresh = RecoveryMetadata {
        hook_install_mode: HookInstallMode::NewFile,
        service_previously_present: false,
        ..recovery
    };
    assert_eq!(hook_restore_action(&fresh), RestoreAction::Remove { limitation: None });
    assert_eq!(
        service_restore_action(&fresh, "/expected"),
        RestoreAction::Remove { limitation: None }
    );
    assert_eq!(
        safe_removal_message(&AppDirs::for_test("/r")),
        "recovery metadata was unavailable, so execmanager performed safe removal in /r/config"
    );
}
