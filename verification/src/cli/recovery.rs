//! What the installer keeps so that an uninstall can restore the machine.

use vstd::prelude::*;

verus! {

#[derive(Debug, Clone, Copy, PartialEq, Eq, Structural)]
pub enum HookInstallMode {
    NewFile,
    AppendManagedRegion,
}

#[derive(Debug, Clone, PartialEq, Eq)]
pub struct HookInstallOutcome {
    pub hook_path: String,
    pub previous_contents: Option<String>,
    pub install_mode: HookInstallMode,
}

#[derive(Debug, Clone, PartialEq, Eq)]
pub struct RecoveryMetadata {
    pub selected_adapter: String,
    pub hook_install_mode: HookInstallMode,
    pub hook_backup_contents: Option<String>,
    pub service_definition_path: String,
    pub service_previously_present: bool,
    pub service_definition_backup_contents: Option<String>,
    pub fully_restorable: bool,
}

} // verus!
