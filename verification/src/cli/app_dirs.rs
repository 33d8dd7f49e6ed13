//! Where the installation keeps its configuration, runtime and state files.

use vstd::prelude::*;
use crate::paths::{join_path, path_join};

verus! {

/// The operating system whose conventions decide the directory layout.
#[derive(Debug, Clone, Copy, PartialEq, Eq, Structural)]
pub enum HostOs {
    Linux,
    MacOs,
    Other,
}

#[derive(Debug, Clone, PartialEq, Eq)]
pub struct AppDirs {
    pub config_dir: String,
    pub runtime_dir: String,
    pub state_dir: String,
}

pub open spec fn app_support_dir(home: Seq<char>) -> Seq<char> {
    path_join(path_join(path_join(home, "Library"@), "Application Support"@), "execmanager"@)
}

pub open spec fn default_config_dir(home: Seq<char>, os: HostOs) -> Seq<char> {
    match os {
        HostOs::MacOs => app_support_dir(home),
        _ => path_join(path_join(home, ".config"@), "execmanager"@),
    }
}

pub open spec fn default_runtime_dir(home: Seq<char>, os: HostOs) -> Seq<char> {
    match os {
        HostOs::MacOs => path_join(app_support_dir(home), "runtime"@),
        _ => path_join(path_join(path_join(home, ".local"@), "run"@), "execmanager"@),
    }
}

pub open spec fn default_state_dir(home: Seq<char>, os: HostOs) -> Seq<char> {
    match os {
        HostOs::MacOs => path_join(app_support_dir(home), "state"@),
        _ => path_join(path_join(path_join(home, ".local"@), "state"@), "execmanager"@),
    }
}

/// An override taken from the environment counts only when it is set and not empty.
pub open spec fn override_or(value: Option<Seq<char>>, default: Seq<char>) -> Seq<char> {
    match value {
        Some(v) => if v.len() > 0 { v } else { default },
        None => default,
    }
}

pub open spec fn opt_view(value: Option<String>) -> Option<Seq<char>> {
    match value {
        Some(v) => Some(v@),
        None => None,
    }
}

impl AppDirs {
    /// The per-user layout under `home` on the given operating system.
    pub fn from_home(home: &str, os: HostOs) -> (r: Self)
        ensures
            r.config_dir@ == default_config_dir(home@, os),
            r.runtime_dir@ == default_runtime_dir(home@, os),
            r.state_dir@ == default_state_dir(home@, os),
    {
        match os {
            HostOs::MacOs => {
                let library = join_path(home, "Library");
                let support = join_path(&library, "Application Support");
                let app_support = join_path(&support, "execmanager");
                let runtime_dir = join_path(&app_support, "runtime");
                let state_dir = join_path(&app_support, "state");
                AppDirs { config_dir: app_support, runtime_dir, state_dir }
            },
            _ => {
                let config = join_path(home, ".config");
                let config_dir = join_path(&config, "execmanager");
                let local = join_path(home, ".local");
                let run = join_path(&local, "run");
                let runtime_dir = join_path(&run, "execmanager");
                let state = join_path(&local, "state");
                let state_dir = join_path(&state, "execmanager");
                AppDirs { config_dir, runtime_dir, state_dir }
            },
        }
    }

    /// The layout used by tests: `root/config`, `root/runtime`, `root/state`.
    pub fn for_test(root: &str) -> (r: Self)
        ensures
            r.config_dir@ == path_join(root@, "config"@),
            r.runtime_dir@ == path_join(root@, "runtime"@),
            r.state_dir@ == path_join(root@, "state"@),
    {
        AppDirs {
            config_dir: join_path(root, "config"),
            runtime_dir: join_path(root, "runtime"),
            state_dir: join_path(root, "state"),
        }
    }

    /// The installation metadata file, `config_dir/execmanager.json`.
    pub fn metadata_file(&self) -> (r: String)
        ensures
            r@ == path_join(self.config_dir@, "execmanager.json"@),
    {
        join_path(&self.config_dir, "execmanager.json")
    }

    /// The layout under `home`, where each directory given by a non-empty
    /// override replaces the default one.
    pub fn from_home_with_overrides(
        home: &str,
        os: HostOs,
        config_dir: Option<String>,
        runtime_dir: Option<String>,
        state_dir: Option<String>,
    ) -> (r: Self)
        ensures
            r.config_dir@ == override_or(opt_view(config_dir), default_config_dir(home@, os)),
            r.runtime_dir@ == override_or(opt_view(runtime_dir), default_runtime_dir(home@, os)),
            r.state_dir@ == override_or(opt_view(state_dir), default_state_dir(home@, os)),
    {
        let defaults = Self::from_home(home, os);
        AppDirs {
            config_dir: choose_override(config_dir, defaults.config_dir),
            runtime_dir: choose_override(runtime_dir, defaults.runtime_dir),
            state_dir: choose_override(state_dir, defaults.state_dir),
        }
    }
}

fn choose_override(value: Option<String>, default: String) -> (r: String)
    ensures
        r@ == override_or(opt_view(value), default@),
{
    match value {
        Some(v) => {
            if v.unicode_len() > 0 {
                v
            } else {
                default
            }
        },
        None => default,
    }
}

} // verus!
