//! `execmanager init`: the installation plan that is shown before anything is
//! written, and the records that the installation leaves behind.

use vstd::prelude::*;
use crate::cli::adapters::kimi::KimiAdapter;
use crate::cli::app_dirs::{AppDirs, HostOs};
use crate::paths::{join_path, path_join};
use crate::cli::metadata::{InitMetadata, InstallState};
use crate::cli::recovery::{HookInstallMode, RecoveryMetadata};
use crate::cli::service::{LaunchSpec, ServiceKind, service_definition_path_for_root};
use crate::text::{copy_string, owned, str_eq, trim, trim_str};

verus! {

#[derive(Debug, Clone, Copy, PartialEq, Eq, Structural)]
pub enum InitMode {
    InteractivePreview,
    Apply,
}

/// What the installer found on the machine.
#[derive(Debug, Clone, PartialEq, Eq)]
pub struct InitContext {
    pub dirs: AppDirs,
    pub adapter: KimiAdapter,
    pub adapter_key: String,
    pub service_kind: ServiceKind,
    pub service_label: String,
    pub service_definition_path: String,
    pub service_previously_present: bool,
    pub service_definition_backup_contents: Option<String>,
    pub execmanager_path: String,
}

#[derive(Debug, Clone, PartialEq, Eq)]
pub struct InitPlan {
    pub adapter_key: String,
    pub service_kind: String,
    pub preview: String,
    pub should_start_daemon: bool,
    pub context: InitContext,
}

/// What a service definition file held before the install: whether it was
/// there, and its contents where they could be read.
#[derive(Debug, Clone, PartialEq, Eq)]
pub struct ServiceDefinitionSnapshot {
    pub present: bool,
    pub contents: Option<String>,
}

pub open spec fn service_label_text(os: HostOs) -> Seq<char> {
    if os == HostOs::MacOs {
        "LaunchAgent"@
    } else {
        "systemd --user"@
    }
}

/// The service manager of the operating system, with the label under which
/// it is recorded.
pub fn detect_service_kind(os: HostOs) -> (r: (ServiceKind, &'static str))
    ensures
        r.0 == (if os == HostOs::MacOs { ServiceKind::LaunchAgent } else { ServiceKind::SystemdUser }),
        r.1@ == service_label_text(os),
{
    match os {
        HostOs::MacOs => (ServiceKind::LaunchAgent, "LaunchAgent"),
        _ => (ServiceKind::SystemdUser, "systemd --user"),
    }
}

/// Everything the installer needs to know, from what it found.
pub fn detect_context(
    dirs: AppDirs,
    adapter: KimiAdapter,
    service_definition_path: String,
    execmanager_path: String,
    os: HostOs,
    snapshot: ServiceDefinitionSnapshot,
) -> (r: InitContext)
    ensures
        r.dirs == dirs,
        r.adapter == adapter,
        r.adapter_key@ == "kimi"@,
        r.service_kind == (if os == HostOs::MacOs { ServiceKind::LaunchAgent } else { ServiceKind::SystemdUser }),
        r.service_label@ == service_label_text(os),
        r.service_definition_path == service_definition_path,
        r.service_previously_present == snapshot.present,
        r.service_definition_backup_contents == snapshot.contents,
        r.execmanager_path == execmanager_path,
{
    let (service_kind, label) = detect_service_kind(os);
    let key = owned(adapter.key());
    InitContext {
        dirs,
        adapter,
        adapter_key: key,
        service_kind,
        service_label: owned(label),
        service_definition_path,
        service_previously_present: snapshot.present,
        service_definition_backup_contents: snapshot.contents,
        execmanager_path,
    }
}

pub open spec fn mode_text(mode: InitMode) -> Seq<char> {
    match mode {
        InitMode::InteractivePreview => "interactive-preview"@,
        InitMode::Apply => "apply"@,
    }
}

/// The plan as it is shown before anything is written.
pub open spec fn preview_text(
    mode: InitMode,
    service_label: Seq<char>,
    dirs: AppDirs,
    hook_path: Seq<char>,
    service_definition_path: Seq<char>,
) -> Seq<char> {
    "mode: "@ + mode_text(mode) + "\nadapter: kimi\nservice: "@ + service_label
        + "\nconfig dir: "@ + dirs.config_dir@ + "\nruntime dir: "@ + dirs.runtime_dir@
        + "\nstate dir: "@ + dirs.state_dir@ + "\nhook path: "@ + hook_path
        + "\nservice definition: "@ + service_definition_path + "\nmetadata file: "@
        + path_join(dirs.config_dir@, "execmanager.json"@) + "\ndaemon start: deferred\n"@
}

pub fn render_preview(
    mode: InitMode,
    service_label: &str,
    dirs: &AppDirs,
    hook_path: &str,
    service_definition_path: &str,
) -> (r: String)
    ensures
        r@ == preview_text(mode, service_label@, *dirs, hook_path@, service_definition_path@),
{
    let mut r = owned("mode: ");
    match mode {
        InitMode::InteractivePreview => r.append("interactive-preview"),
        InitMode::Apply => r.append("apply"),
    }
    r.append("\nadapter: kimi\nservice: ");
    r.append(service_label);
    r.append("\nconfig dir: ");
    r.append(dirs.config_dir.as_str());
    r.append("\nruntime dir: ");
    r.append(dirs.runtime_dir.as_str());
    r.append("\nstate dir: ");
    r.append(dirs.state_dir.as_str());
    r.append("\nhook path: ");
    r.append(hook_path);
    r.append("\nservice definition: ");
    r.append(service_definition_path);
    r.append("\nmetadata file: ");
    r.append(dirs.metadata_file().as_str());
    r.append("\ndaemon start: deferred\n");
    r
}

/// The plan for what the installer found.
pub fn build_plan(mode: InitMode, context: InitContext) -> (r: InitPlan)
    ensures
        r.adapter_key == context.adapter_key,
        r.service_kind == context.service_label,
        r.preview@ == preview_text(
            mode,
            context.service_label@,
            context.dirs,
            context.adapter.hook_path_view(),
            context.service_definition_path@,
        ),
        !r.should_start_daemon,
        r.context == context,
{
    let preview = render_preview(
        mode,
        context.service_label.as_str(),
        &context.dirs,
        context.adapter.hook_path(),
        context.service_definition_path.as_str(),
    );
    InitPlan {
        adapter_key: copy_string(&context.adapter_key),
        service_kind: copy_string(&context.service_label),
        preview,
        should_start_daemon: false,
        context,
    }
}

/// The plan for an installation under the test root `root`: directories,
/// hook and service definition all live below it.
pub fn build_init_plan(
    mode: InitMode,
    root: &str,
    os: HostOs,
    snapshot: ServiceDefinitionSnapshot,
) -> (r: InitPlan)
    ensures
        r.context.dirs.config_dir@ == path_join(root@, "config"@),
        r.context.dirs.runtime_dir@ == path_join(root@, "runtime"@),
        r.context.dirs.state_dir@ == path_join(root@, "state"@),
        r.context.adapter.hook_path_view() == path_join(root@, "kimi-hook.sh"@),
        r.context.service_definition_path@ == crate::cli::service::definition_path_text(root@, os),
        r.context.execmanager_path@ == path_join(root@, "execmanager"@),
        r.context.service_previously_present == snapshot.present,
        r.context.service_definition_backup_contents == snapshot.contents,
        r.adapter_key@ == "kimi"@,
        r.service_kind@ == service_label_text(os),
        r.preview@ == preview_text(
            mode,
            service_label_text(os),
            r.context.dirs,
            path_join(root@, "kimi-hook.sh"@),
            crate::cli::service::definition_path_text(root@, os),
        ),
        !r.should_start_daemon,
{
    let dirs = AppDirs::for_test(root);
    let adapter = KimiAdapter::for_test(join_path(root, "kimi-hook.sh"));
    let context = detect_context(
        dirs,
        adapter,
        service_definition_path_for_root(root, os),
        join_path(root, "execmanager"),
        os,
        snapshot,
    );
    build_plan(mode, context)
}

pub open spec fn fully_restorable_spec(context: InitContext) -> bool {
    !context.service_previously_present || context.service_definition_backup_contents is Some
}

impl InitContext {
    /// How the service runs this installation.
    pub fn launch_spec(&self) -> (r: LaunchSpec)
        ensures
            r.execmanager_path == self.execmanager_path,
            r.config_dir == self.dirs.config_dir,
            r.runtime_dir == self.dirs.runtime_dir,
            r.state_dir == self.dirs.state_dir,
    {
        LaunchSpec {
            execmanager_path: copy_string(&self.execmanager_path),
            config_dir: copy_string(&self.dirs.config_dir),
            runtime_dir: copy_string(&self.dirs.runtime_dir),
            state_dir: copy_string(&self.dirs.state_dir),
        }
    }
}

impl InitPlan {
    /// What an uninstall needs to put the machine back: the hook as it was,
    /// the service definition as it was, and whether both can be restored.
    pub fn recovery_metadata_for(
        &self,
        hook_install_mode: HookInstallMode,
        hook_backup_contents: Option<String>,
    ) -> (r: RecoveryMetadata)
        ensures
            r.selected_adapter == self.context.adapter_key,
            r.hook_install_mode == hook_install_mode,
            r.hook_backup_contents == hook_backup_contents,
            r.service_definition_path == self.context.service_definition_path,
            r.service_previously_present == self.context.service_previously_present,
            r.service_definition_backup_contents == self.context.service_definition_backup_contents,
            r.fully_restorable == fully_restorable_spec(self.context),
    {
        let backup = match &self.context.service_definition_backup_contents {
            Some(c) => Some(copy_string(c)),
            None => None,
        };
        let fully_restorable = !self.context.service_previously_present || backup.is_some();
        RecoveryMetadata {
            selected_adapter: copy_string(&self.context.adapter_key),
            hook_install_mode,
            hook_backup_contents,
            service_definition_path: copy_string(&self.context.service_definition_path),
            service_previously_present: self.context.service_previously_present,
            service_definition_backup_contents: backup,
            fully_restorable,
        }
    }

    /// The installation metadata written at each stage of an install.
    pub fn install_metadata(&self, install_state: InstallState, initialized: bool, version: String) -> (r:
        InitMetadata)
        ensures
            r.initialized == initialized,
            r.selected_adapter == Some(self.context.adapter_key),
            r.service_kind == Some(self.context.service_label),
            r.install_state == install_state,
            r.install_version == Some(version),
    {
        InitMetadata {
            initialized,
            selected_adapter: Some(copy_string(&self.context.adapter_key)),
            service_kind: Some(copy_string(&self.context.service_label)),
            install_state,
            install_version: Some(version),
        }
    }

    /// The installation metadata once the install transaction has ended:
    /// installed and initialized after a success, failed-partial and not
    /// initialized after a failure.
    pub fn finished_metadata(&self, succeeded: bool, version: String) -> (r: InitMetadata)
        ensures
            r.initialized == succeeded,
            r.selected_adapter == Some(self.context.adapter_key),
            r.service_kind == Some(self.context.service_label),
            r.install_state == (if succeeded {
                InstallState::Installed
            } else {
                InstallState::FailedPartial
            }),
            r.install_version == Some(version),
    {
        let state = if succeeded {
            InstallState::Installed
        } else {
            InstallState::FailedPartial
        };
        self.install_metadata(state, succeeded, version)
    }
}

pub open spec fn install_version_text(base: Seq<char>, channel_marker: Option<Seq<char>>) -> Seq<char> {
    match channel_marker {
        Some(m) => if trim(m) == "snapshot"@ {
            base + "-snapshot"@
        } else {
            base
        },
        None => base,
    }
}

/// The version recorded for an install: the package version, marked as a
/// snapshot where the install channel marker beside the binary says so.
pub fn install_version_for(base_version: &str, channel_marker: Option<String>) -> (r: String)
    ensures
        r@ == install_version_text(
            base_version@,
            match channel_marker {
                Some(m) => Some(m@),
                None => None,
            },
        ),
{
    match channel_marker {
        Some(m) => {
            let t = trim_str(m.as_str());
            if str_eq(t.as_str(), "snapshot") {
                let mut r = owned(base_version);
                r.append("-snapshot");
                r
            } else {
                owned(base_version)
            }
        },
        None => owned(base_version),
    }
}

} // verus!
