//! `execmanager status`: what is installed and where.

use vstd::prelude::*;
use crate::cli::app_dirs::AppDirs;
use crate::cli::metadata::{InitMetadata, install_state_label, install_state_text};
use crate::text::owned;

verus! {

/// The text of an optional value, `unknown` where it is absent.
pub open spec fn or_unknown(value: Option<String>) -> Seq<char> {
    match value {
        Some(v) => v@,
        None => "unknown"@,
    }
}

pub open spec fn yes_no(b: bool) -> Seq<char> {
    if b {
        "yes"@
    } else {
        "no"@
    }
}

pub open spec fn status_text(dirs: AppDirs, metadata: InitMetadata) -> Seq<char> {
    "initialized: "@ + yes_no(metadata.initialized) + "\nadapter: "@ + or_unknown(
        metadata.selected_adapter,
    ) + "\nservice: "@ + or_unknown(metadata.service_kind) + "\ninstall state: "@
        + install_state_text(metadata.install_state) + "\ninstall version: "@ + or_unknown(
        metadata.install_version,
    ) + "\nconfig dir: "@ + dirs.config_dir@ + "\nruntime dir: "@ + dirs.runtime_dir@
        + "\nstate dir: "@ + dirs.state_dir@
}

pub fn yes_or_no(b: bool) -> (r: &'static str)
    ensures
        r@ == yes_no(b),
{
    if b {
        "yes"
    } else {
        "no"
    }
}

pub fn value_or_unknown(value: &Option<String>) -> (r: &str)
    ensures
        r@ == or_unknown(*value),
{
    match value {
        Some(v) => v.as_str(),
        None => "unknown",
    }
}

/// The status report for the installation recorded in `metadata`.
pub fn render_status(dirs: &AppDirs, metadata: &InitMetadata) -> (r: String)
    ensures
        r@ == status_text(*dirs, *metadata),
{
    let mut r = owned("initialized: ");
    r.append(yes_or_no(metadata.initialized));
    r.append("\nadapter: ");
    r.append(value_or_unknown(&metadata.selected_adapter));
    r.append("\nservice: ");
    r.append(value_or_unknown(&metadata.service_kind));
    r.append("\ninstall state: ");
    r.append(install_state_label(metadata.install_state));
    r.append("\ninstall version: ");
    r.append(value_or_unknown(&metadata.install_version));
    r.append("\nconfig dir: ");
    r.append(dirs.config_dir.as_str());
    r.append("\nruntime dir: ");
    r.append(dirs.runtime_dir.as_str());
    r.append("\nstate dir: ");
    r.append(dirs.state_dir.as_str());
    r
}

} // verus!
