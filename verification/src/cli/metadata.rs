//! What the installer records about the installation.

use vstd::prelude::*;

verus! {

#[derive(Debug, Clone, Copy, PartialEq, Eq, Structural)]
pub enum InstallState {
    NotInstalled,
    Installing,
    Installed,
    RepairNeeded,
    FailedPartial,
}

impl Default for InstallState {
    fn default() -> (r: Self)
        ensures
            r == InstallState::NotInstalled,
    {
        InstallState::NotInstalled
    }
}

#[derive(Debug, Clone, PartialEq, Eq)]
pub struct InitMetadata {
    pub initialized: bool,
    pub selected_adapter: Option<String>,
    pub service_kind: Option<String>,
    pub install_state: InstallState,
    pub install_version: Option<String>,
}

impl Default for InitMetadata {
    /// The metadata of a machine where nothing was installed.
    fn default() -> (r: Self)
        ensures
            !r.initialized,
            r.selected_adapter is None,
            r.service_kind is None,
            r.install_state == InstallState::NotInstalled,
            r.install_version is None,
    {
        InitMetadata {
            initialized: false,
            selected_adapter: None,
            service_kind: None,
            install_state: InstallState::NotInstalled,
            install_version: None,
        }
    }
}

/// The label under which an installation state is displayed.
pub open spec fn install_state_text(state: InstallState) -> Seq<char> {
    match state {
        InstallState::NotInstalled => "not-installed"@,
        InstallState::Installing => "installing"@,
        InstallState::Installed => "installed"@,
        InstallState::RepairNeeded => "repair-needed"@,
        InstallState::FailedPartial => "failed-partial"@,
    }
}

pub fn install_state_label(state: InstallState) -> (r: &'static str)
    ensures
        r@ == install_state_text(state),
{
    match state {
        InstallState::NotInstalled => "not-installed",
        InstallState::Installing => "installing",
        InstallState::Installed => "installed",
        InstallState::RepairNeeded => "repair-needed",
        InstallState::FailedPartial => "failed-partial",
    }
}

} // verus!
