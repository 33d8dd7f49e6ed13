//! `execmanager uninstall [--restore]`: which files go, which are written
//! back from the recovery records, and what the user is told.

use vstd::prelude::*;
use crate::cli::app_dirs::AppDirs;
use crate::paths::{join_path, path_join, path_name, path_parent, split_path};
use crate::cli::recovery::{HookInstallMode, RecoveryMetadata};
use crate::text::{copy_string, owned, str_eq};

verus! {

pub open spec fn test_root_spec(dirs: AppDirs) -> Option<Seq<char>> {
    let c = dirs.config_dir@;
    let r = dirs.runtime_dir@;
    let s = dirs.state_dir@;
    if path_name(c) == "config"@ && path_name(r) == "runtime"@ && path_name(s) == "state"@
        && path_parent(c) == path_parent(r) && path_parent(c) == path_parent(s) {
        Some(path_parent(c))
    } else {
        None
    }
}

/// The test root that `dirs` were laid out under by `AppDirs::for_test`:
/// the common parent of directories named `config`, `runtime` and `state`.
pub fn test_root(dirs: &AppDirs) -> (r: Option<String>)
    ensures
        match r {
            Some(root) => test_root_spec(*dirs) == Some(root@),
            None => test_root_spec(*dirs) is None,
        },
{
    let (config_parent, config_name) = split_path(dirs.config_dir.as_str());
    let (runtime_parent, runtime_name) = split_path(dirs.runtime_dir.as_str());
    let (state_parent, state_name) = split_path(dirs.state_dir.as_str());
    if str_eq(config_name.as_str(), "config") && str_eq(runtime_name.as_str(), "runtime")
        && str_eq(state_name.as_str(), "state") && str_eq(
        config_parent.as_str(),
        runtime_parent.as_str(),
    ) && str_eq(config_parent.as_str(), state_parent.as_str()) {
        Some(config_parent)
    } else {
        None
    }
}

/// What an uninstall does with one file.
#[derive(Debug, Clone, PartialEq, Eq)]
pub enum RestoreAction {
    /// Write these contents back.
    Write { contents: String },
    /// Remove the managed copy; where a limitation is given, the user is told
    /// why the file could not be restored.
    Remove { limitation: Option<String> },
}

pub open spec fn hook_limitation_text(adapter: Seq<char>) -> Seq<char> {
    "adapter `"@ + adapter + "` is not restorable here, so the hook fell back to safe removal"@
}

pub open spec fn restore_write(action: RestoreAction, contents: Seq<char>) -> bool {
    action matches RestoreAction::Write { contents: c } && c@ == contents
}

pub open spec fn restore_remove(action: RestoreAction, limitation: Option<Seq<char>>) -> bool {
    action matches RestoreAction::Remove { limitation: l } && match (l, limitation) {
        (Some(a), Some(b)) => a@ == b,
        (None, None) => true,
        _ => false,
    }
}

/// What a restoring uninstall does with the hook.
pub fn hook_restore_action(recovery: &RecoveryMetadata) -> (r: RestoreAction)
    ensures
        if recovery.selected_adapter@ == "kimi"@ {
            match recovery.hook_backup_contents {
                Some(c) => restore_write(r, c@),
                None => if recovery.hook_install_mode == HookInstallMode::NewFile {
                    restore_remove(r, None)
                } else {
                    restore_remove(
                        r,
                        Some(
                            "hook backup metadata was unavailable, so the hook fell back to safe removal"@,
                        ),
                    )
                },
            }
        } else {
            restore_remove(r, Some(hook_limitation_text(recovery.selected_adapter@)))
        },
{
    if str_eq(recovery.selected_adapter.as_str(), "kimi") {
        match &recovery.hook_backup_contents {
            Some(contents) => RestoreAction::Write { contents: copy_string(contents) },
            None => match recovery.hook_install_mode {
                HookInstallMode::NewFile => RestoreAction::Remove { limitation: None },
                HookInstallMode::AppendManagedRegion => RestoreAction::Remove {
                    limitation: Some(
                        owned(
                            "hook backup metadata was unavailable, so the hook fell back to safe removal",
                        ),
                    ),
                },
            },
        }
    } else {
        let mut l = owned("adapter `");
        l.append(recovery.selected_adapter.as_str());
        l.append("` is not restorable here, so the hook fell back to safe removal");
        RestoreAction::Remove { limitation: Some(l) }
    }
}

pub open spec fn service_mismatch_text(recorded: Seq<char>, expected: Seq<char>) -> Seq<char> {
    "recovery metadata service path "@ + recorded
        + " did not match the expected managed service path "@ + expected
        + ", so the service fell back to safe removal at the validated managed path only"@
}

/// What a restoring uninstall does with the service definition, which lives
/// at `expected_path`: a recorded path elsewhere is never written.
pub fn service_restore_action(recovery: &RecoveryMetadata, expected_path: &str) -> (r:
    RestoreAction)
    ensures
        if recovery.service_definition_path@ != expected_path@ {
            restore_remove(
                r,
                Some(service_mismatch_text(recovery.service_definition_path@, expected_path@)),
            )
        } else {
            match recovery.service_definition_backup_contents {
                Some(c) => restore_write(r, c@),
                None => if recovery.service_previously_present {
                    restore_remove(
                        r,
                        Some(
                            "service definition backup metadata was unavailable, so the service file fell back to safe removal"@,
                        ),
                    )
                } else {
                    restore_remove(r, None)
                },
            }
        },
{
    if !str_eq(recovery.service_definition_path.as_str(), expected_path) {
        let mut l = owned("recovery metadata service path ");
        l.append(recovery.service_definition_path.as_str());
        l.append(" did not match the expected managed service path ");
        l.append(expected_path);
        l.append(", so the service fell back to safe removal at the validated managed path only");
        return RestoreAction::Remove { limitation: Some(l) };
    }
    match &recovery.service_definition_backup_contents {
        Some(contents) => RestoreAction::Write { contents: copy_string(contents) },
        None => {
            if recovery.service_previously_present {
                RestoreAction::Remove {
                    limitation: Some(
                        owned(
                            "service definition backup metadata was unavailable, so the service file fell back to safe removal",
                        ),
                    ),
                }
            } else {
                RestoreAction::Remove { limitation: None }
            }
        },
    }
}

/// Texts joined by `"; "`.
pub open spec fn join_semicolon(ws: Seq<Seq<char>>) -> Seq<char>
    decreases ws.len(),
{
    if ws.len() == 0 {
        seq![]
    } else if ws.len() == 1 {
        ws[0]
    } else {
        join_semicolon(ws.drop_last()) + "; "@ + ws.last()
    }
}

pub open spec fn texts(v: Seq<String>) -> Seq<Seq<char>> {
    v.map_values(|s: String| s@)
}

pub open spec fn restore_message_text(config_dir: Seq<char>, limitations: Seq<Seq<char>>) -> Seq<
    char,
> {
    "restored original artifacts where possible and removed execmanager-managed state from "@
        + config_dir + if limitations.len() == 0 {
        Seq::<char>::empty()
    } else {
        "; "@ + join_semicolon(limitations)
    }
}

/// What a restoring uninstall tells the user, with each limitation met.
pub fn restore_message(dirs: &AppDirs, limitations: &Vec<String>) -> (r: String)
    ensures
        r@ == restore_message_text(dirs.config_dir@, texts(limitations@)),
{
    let mut r = owned(
        "restored original artifacts where possible and removed execmanager-managed state from ",
    );
    r.append(dirs.config_dir.as_str());
    let ghost head = r@;
    if limitations.len() > 0 {
        r.append("; ");
    }
    let ghost sep = r@;
    let mut i: usize = 0;
    while i < limitations.len()
        invariant
            i <= limitations@.len(),
            limitations@.len() > 0 ==> sep == head + "; "@,
            limitations@.len() == 0 ==> sep == head,
            r@ == sep + join_semicolon(texts(limitations@).take(i as int)),
        decreases limitations.len() - i,
    {
        let ghost pre = texts(limitations@).take(i as int);
        let ghost next = texts(limitations@).take(i + 1);
        assert(next.drop_last() =~= pre);
        if i > 0 {
            r.append("; ");
        } else {
            assert(next =~= seq![limitations@[0]@]);
        }
        r.append(limitations[i].as_str());
        proof {
            if i > 0 {
                assert(r@ =~= sep + join_semicolon(next));
            } else {
                assert(r@ =~= sep + join_semicolon(next));
            }
        }
        i = i + 1;
    }
    assert(texts(limitations@).take(limitations@.len() as int) =~= texts(limitations@));
    assert(r@ =~= restore_message_text(dirs.config_dir@, texts(limitations@)));
    r
}

/// What a restoring uninstall tells the user where no recovery records
/// could be read, so that it fell back to a safe uninstall.
pub fn safe_removal_message(dirs: &AppDirs) -> (r: String)
    ensures
        r@ == "recovery metadata was unavailable, so execmanager performed safe removal in "@
            + dirs.config_dir@,
{
    let mut r = owned(
        "recovery metadata was unavailable, so execmanager performed safe removal in ",
    );
    r.append(dirs.config_dir.as_str());
    r
}

/// What a safe uninstall tells the user.
pub fn removed_artifacts_message(dirs: &AppDirs) -> (r: String)
    ensures
        r@ == "removed execmanager-managed artifacts from "@ + dirs.config_dir@,
{
    let mut r = owned("removed execmanager-managed artifacts from ");
    r.append(dirs.config_dir.as_str());
    r
}

/// The recovery records, `config_dir/recovery.json`.
pub fn recovery_metadata_path(dirs: &AppDirs) -> (r: String)
    ensures
        r@ == path_join(dirs.config_dir@, "recovery.json"@),
{
    join_path(&dirs.config_dir, "recovery.json")
}

pub open spec fn common_artifacts_spec(dirs: AppDirs) -> Seq<Seq<char>> {
    seq![
        path_join(dirs.config_dir@, "execmanager.json"@),
        path_join(dirs.config_dir@, "recovery.json"@),
        path_join(dirs.runtime_dir@, "execmanager.sock"@),
        path_join(dirs.state_dir@, "events.journal"@),
    ]
}

/// The files that every uninstall removes: the installation metadata, the
/// recovery records, the daemon socket and the event journal.
pub fn common_uninstall_artifacts(dirs: &AppDirs) -> (r: Vec<String>)
    ensures
        texts(r@) == common_artifacts_spec(*dirs),
{
    let mut v: Vec<String> = Vec::new();
    v.push(dirs.metadata_file());
    v.push(recovery_metadata_path(dirs));
    v.push(join_path(&dirs.runtime_dir, "execmanager.sock"));
    v.push(join_path(&dirs.state_dir, "events.journal"));
    assert(texts(v@) =~= common_artifacts_spec(*dirs));
    v
}

} // verus!
