//! The decisions of the command line around its commands: which adapter the
//! hooks commands use, what a bare `execmanager` does, how an interactive
//! install ends, and what each command reports.

use vstd::prelude::*;
use crate::cli::commands::HooksCommand;
use crate::cli::metadata::InitMetadata;
use crate::text::{eq_ignore_ascii_case, owned, same_ignoring_ascii_case, str_eq, trim, trim_str};

verus! {

/// The adapters that the hooks commands can work with.
#[derive(Debug, Clone, Copy, PartialEq, Eq, Structural)]
pub enum SelectedAdapter {
    Kimi,
}

/// The adapter recorded at install time, for the hooks commands.
pub fn resolve_selected_adapter(metadata: &InitMetadata) -> (r: Result<SelectedAdapter, String>)
    ensures
        match metadata.selected_adapter {
            None => r matches Err(e) && e@ == "hooks command requires a selected adapter in init metadata"@,
            Some(a) => if a@ == "kimi"@ {
                r == Ok::<SelectedAdapter, String>(SelectedAdapter::Kimi)
            } else {
                r matches Err(e) && e@ == "hooks command has unsupported adapter: "@ + a@
            },
        },
{
    match &metadata.selected_adapter {
        None => Err(owned("hooks command requires a selected adapter in init metadata")),
        Some(a) => {
            if str_eq(a.as_str(), "kimi") {
                Ok(SelectedAdapter::Kimi)
            } else {
                let mut e = owned("hooks command has unsupported adapter: ");
                e.append(a.as_str());
                Err(e)
            }
        },
    }
}

/// What a hooks command reports once the hook at `hook_path` is written.
pub fn hooks_message(command: HooksCommand, hook_path: &str) -> (r: String)
    ensures
        r@ == (match command {
            HooksCommand::Install => "installed managed hook at "@,
            HooksCommand::Repair => "repaired managed hook at "@,
        }) + hook_path@,
{
    let mut r = match command {
        HooksCommand::Install => owned("installed managed hook at "),
        HooksCommand::Repair => owned("repaired managed hook at "),
    };
    r.append(hook_path);
    r
}

/// What a bare `execmanager` does.
#[derive(Debug, Clone, PartialEq, Eq)]
pub enum SmartEntryAction {
    /// Run the interactive installer.
    RunInit,
    /// Tell the user to install first.
    Guidance { message: String },
    /// Open the dashboard on a terminal.
    ShowDashboard,
    /// Print the operational summary.
    ShowStatus,
}

pub fn smart_entry_action(initialized: bool, interactive: bool) -> (r: SmartEntryAction)
    ensures
        !initialized && interactive ==> r == SmartEntryAction::RunInit,
        !initialized && !interactive ==> (r matches SmartEntryAction::Guidance { message: m } && m@
            == "ExecManager is not initialized. Run `execmanager init`."@),
        initialized && interactive ==> r == SmartEntryAction::ShowDashboard,
        initialized && !interactive ==> r == SmartEntryAction::ShowStatus,
{
    if !initialized && interactive {
        SmartEntryAction::RunInit
    } else if !initialized {
        SmartEntryAction::Guidance {
            message: owned("ExecManager is not initialized. Run `execmanager init`."),
        }
    } else if interactive {
        SmartEntryAction::ShowDashboard
    } else {
        SmartEntryAction::ShowStatus
    }
}

/// What `execmanager init` says without an interactive terminal.
pub fn noninteractive_init_guidance() -> (r: String)
    ensures
        r@
            == "ExecManager init requires an interactive terminal. Re-run `execmanager init` from an interactive terminal to review and apply installation changes."@,
{
    owned(
        "ExecManager init requires an interactive terminal. Re-run `execmanager init` from an interactive terminal to review and apply installation changes.",
    )
}

/// How an interactive install ended.
#[derive(Debug, Clone, PartialEq, Eq)]
pub enum InitOutcome {
    /// The user declined the plan.
    Cancelled,
    /// The plan was applied.
    Completed,
    /// Applying the plan failed with `error`; `initialized` tells whether the
    /// installation metadata read afterwards says the install is complete.
    Failed { error: String, initialized: bool },
}

pub open spec fn plan_summary(preview: Seq<char>) -> Seq<char> {
    "Installation plan\n"@ + preview
}

/// The report of an interactive install: a failure that left the machine
/// uninitialized is reported as recoverable, any other failure is the error.
pub fn init_message(preview: &str, outcome: InitOutcome) -> (r: Result<String, String>)
    ensures
        match outcome {
            InitOutcome::Cancelled => r matches Ok(m) && m@ == plan_summary(preview@)
                + "\ninstallation cancelled\nRe-run `execmanager init` when you are ready to apply these changes."@,
            InitOutcome::Completed => r matches Ok(m) && m@ == plan_summary(preview@)
                + "\ninstallation completed\nExecManager is ready."@,
            InitOutcome::Failed { error, initialized } => if initialized {
                r matches Err(e) && e@ == error@
            } else {
                r matches Ok(m) && m@ == plan_summary(preview@)
                    + "\ninstallation requires attention\nrecoverable failure: "@ + error@
                    + "\nRun `execmanager doctor` for recovery guidance."@
            },
        },
{
    let mut summary = owned("Installation plan\n");
    summary.append(preview);
    match outcome {
        InitOutcome::Cancelled => {
            summary.append(
                "\ninstallation cancelled\nRe-run `execmanager init` when you are ready to apply these changes.",
            );
            Ok(summary)
        },
        InitOutcome::Completed => {
            summary.append("\ninstallation completed\nExecManager is ready.");
            Ok(summary)
        },
        InitOutcome::Failed { error, initialized } => {
            if initialized {
                Err(error)
            } else {
                summary.append("\ninstallation requires attention\nrecoverable failure: ");
                summary.append(error.as_str());
                summary.append("\nRun `execmanager doctor` for recovery guidance.");
                Ok(summary)
            }
        },
    }
}

/// Whether the answer to the installer's question is yes.
pub fn is_affirmative(response: &str) -> (r: bool)
    ensures
        r == (same_ignoring_ascii_case(trim(response@), "y"@) || same_ignoring_ascii_case(
            trim(response@),
            "yes"@,
        )),
{
    let t = trim_str(response);
    eq_ignore_ascii_case(t.as_str(), "y") || eq_ignore_ascii_case(t.as_str(), "yes")
}

/// Whether the `EXECMANAGER_AUTO_CONFIRM` setting answers the installer's
/// question in advance.
pub fn auto_confirm(value: Option<String>) -> (r: bool)
    ensures
        r == (match value {
            Some(v) => same_ignoring_ascii_case(v@, "1"@) || same_ignoring_ascii_case(v@, "true"@)
                || same_ignoring_ascii_case(v@, "yes"@) || same_ignoring_ascii_case(v@, "y"@),
            None => false,
        }),
{
    match value {
        Some(v) => eq_ignore_ascii_case(v.as_str(), "1") || eq_ignore_ascii_case(v.as_str(), "true")
            || eq_ignore_ascii_case(v.as_str(), "yes") || eq_ignore_ascii_case(v.as_str(), "y"),
        None => false,
    }
}

} // verus!
