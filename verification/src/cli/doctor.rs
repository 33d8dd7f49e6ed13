//! `execmanager doctor`: what is wrong with the installation and what to run.

use vstd::prelude::*;
use crate::cli::metadata::{InitMetadata, InstallState, install_state_label, install_state_text};
use crate::cli::recovery::RecoveryMetadata;
use crate::cli::status::{yes_no, yes_or_no};
use crate::text::owned;

verus! {

pub open spec fn restore_available(recovery: Option<RecoveryMetadata>) -> bool {
    match recovery {
        Some(r) => r.fully_restorable,
        None => false,
    }
}

/// The doctor's report. `recovery` is what was recorded for a restore and
/// `readiness` the outcome of probing the daemon; the first counts only for a
/// partial install, the second only for any other state.
pub open spec fn doctor_text(
    metadata: InitMetadata,
    recovery: Option<RecoveryMetadata>,
    readiness: Result<(), String>,
) -> Seq<char> {
    let failed = metadata.install_state == InstallState::FailedPartial;
    let restore = restore_available(recovery);
    "install state: "@ + install_state_text(metadata.install_state) + (if !metadata.initialized
        && !failed {
        "\ninit metadata missing -> run `execmanager init`"@
    } else {
        Seq::<char>::empty()
    }) + (if failed {
        "\nrestore available: "@ + yes_no(restore) + (if restore {
            "\npartial install detected -> run `execmanager uninstall --restore` to roll back or `execmanager init` to retry installation"@
        } else {
            "\npartial install detected -> run `execmanager init` to repair the installation state"@
        })
    } else {
        Seq::<char>::empty()
    }) + (match readiness {
        Err(e) => if !failed {
            "\ndaemon not reachable ("@ + e@
                + ") -> re-run `execmanager init` to repair setup or launch `execmanager daemon run` directly"@
        } else {
            Seq::<char>::empty()
        },
        Ok(_) => Seq::<char>::empty(),
    })
}

pub fn run_doctor(
    metadata: &InitMetadata,
    recovery: &Option<RecoveryMetadata>,
    readiness: &Result<(), String>,
) -> (r: String)
    ensures
        r@ == doctor_text(*metadata, *recovery, *readiness),
{
    let failed = match metadata.install_state {
        InstallState::FailedPartial => true,
        _ => false,
    };
    let mut r = owned("install state: ");
    r.append(install_state_label(metadata.install_state));
    let ghost after_state = r@;
    if !metadata.initialized && !failed {
        r.append("\ninit metadata missing -> run `execmanager init`");
    }
    let ghost after_missing = r@;
    if failed {
        let restore = match recovery {
            Some(data) => data.fully_restorable,
            None => false,
        };
        r.append("\nrestore available: ");
        r.append(yes_or_no(restore));
        if restore {
            r.append(
                "\npartial install detected -> run `execmanager uninstall --restore` to roll back or `execmanager init` to retry installation",
            );
        } else {
            r.append(
                "\npartial install detected -> run `execmanager init` to repair the installation state",
            );
        }
    }
    let ghost after_failed = r@;
    if !failed {
        match readiness {
            Err(e) => {
                r.append("\ndaemon not reachable (");
                r.append(e.as_str());
                r.append(
                    ") -> re-run `execmanager init` to repair setup or launch `execmanager daemon run` directly",
                );
            },
            Ok(_) => {},
        }
    }
    proof {
        assert(after_missing =~= after_state + (if !metadata.initialized && !failed {
            "\ninit metadata missing -> run `execmanager init`"@
        } else {
            Seq::<char>::empty()
        }));
    }
    assert(r@ =~= doctor_text(*metadata, *recovery, *readiness));
    r
}

} // verus!
