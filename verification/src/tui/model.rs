//! The dashboard's rows: one per running instance, service, history event or
//! reconciliation ghost.

use vstd::prelude::*;
use crate::contracts::ExecutionId;
use crate::tui::app::ViewMode;

verus! {

#[derive(Debug, Clone, Copy, PartialEq, Eq, Structural)]
pub enum PressureLevel {
    Healthy,
    Elevated,
    Constrained,
    Unknown,
}

impl PressureLevel {
    pub open spec fn label_spec(self) -> Seq<char> {
        match self {
            PressureLevel::Healthy => "healthy"@,
            PressureLevel::Elevated => "elevated"@,
            PressureLevel::Constrained => "constrained"@,
            PressureLevel::Unknown => "unknown"@,
        }
    }

    pub fn label(self) -> (r: &'static str)
        ensures
            r@ == self.label_spec(),
    {
        match self {
            PressureLevel::Healthy => "healthy",
            PressureLevel::Elevated => "elevated",
            PressureLevel::Constrained => "constrained",
            PressureLevel::Unknown => "unknown",
        }
    }

    pub fn ansi_color(self) -> (r: &'static str)
        ensures
            r@ == (match self {
                PressureLevel::Healthy => "\x1b[32m"@,
                PressureLevel::Elevated => "\x1b[33m"@,
                PressureLevel::Constrained => "\x1b[31m"@,
                PressureLevel::Unknown => "\x1b[90m"@,
            }),
    {
        match self {
            PressureLevel::Healthy => "\x1b[32m",
            PressureLevel::Elevated => "\x1b[33m",
            PressureLevel::Constrained => "\x1b[31m",
            PressureLevel::Unknown => "\x1b[90m",
        }
    }
}

#[derive(Debug, Clone, PartialEq, Eq)]
pub struct DashboardView {
    pub key: String,
    pub title: String,
    pub subtitle: String,
    pub pressure: PressureLevel,
    pub detail_lines: Vec<String>,
}

impl DashboardView {
    pub open spec fn key_spec(&self) -> Seq<char> {
        self.key@
    }

    pub fn new(key: &str, title: &str, subtitle: &str, pressure: PressureLevel, detail_lines: Vec<String>) -> (r:
        Self)
        ensures
            r.key_spec() == key@,
            r.title@ == title@,
            r.subtitle@ == subtitle@,
            r.pressure == pressure,
            r.detail_lines == detail_lines,
    {
        DashboardView {
            key: key.to_owned(),
            title: title.to_owned(),
            subtitle: subtitle.to_owned(),
            pressure,
            detail_lines,
        }
    }

    pub fn key(&self) -> (r: &str)
        ensures
            r@ == self.key_spec(),
    {
        self.key.as_str()
    }
}

#[derive(Debug, Clone)]
pub struct DashboardModel {
    pub instances: Vec<DashboardView>,
    pub services: Vec<DashboardView>,
    pub history: Vec<DashboardView>,
    pub ghosts: Vec<DashboardView>,
}

impl DashboardModel {
    pub open spec fn rows(&self, mode: ViewMode) -> Seq<DashboardView> {
        match mode {
            ViewMode::Instances => self.instances@,
            ViewMode::Services => self.services@,
            ViewMode::History => self.history@,
            ViewMode::Ghosts => self.ghosts@,
        }
    }

    pub fn empty() -> (r: Self)
        ensures
            r.instances@.len() == 0,
            r.services@.len() == 0,
            r.history@.len() == 0,
            r.ghosts@.len() == 0,
    {
        DashboardModel {
            instances: Vec::new(),
            services: Vec::new(),
            history: Vec::new(),
            ghosts: Vec::new(),
        }
    }

    pub fn view(&self, mode: ViewMode) -> (r: &[DashboardView])
        ensures
            r@ == self.rows(mode),
    {
        match mode {
            ViewMode::Instances => self.instances.as_slice(),
            ViewMode::Services => self.services.as_slice(),
            ViewMode::History => self.history.as_slice(),
            ViewMode::Ghosts => self.ghosts.as_slice(),
        }
    }
}

/// The panes of the dashboard.
#[derive(Debug, Clone, Copy, PartialEq, Eq, Structural)]
pub enum PrimaryView {
    Instances,
    Services,
    History,
    GhostsReconcile,
    InstanceDetail,
}

/// Which execution is selected, which pane has focus, and how far each list
/// is scrolled.
#[derive(Debug, Clone, PartialEq, Eq)]
pub struct PaneUiState {
    pub selected_exec_id: Option<ExecutionId>,
    pub focused_view: PrimaryView,
    pub instance_scroll: usize,
    pub service_scroll: usize,
    pub history_scroll: usize,
    pub ghost_scroll: usize,
}

impl Default for PaneUiState {
    /// Nothing selected, the instances in focus, every list at its top.
    fn default() -> (r: Self)
        ensures
            r.selected_exec_id is None,
            r.focused_view == PrimaryView::Instances,
            r.instance_scroll == 0,
            r.service_scroll == 0,
            r.history_scroll == 0,
            r.ghost_scroll == 0,
    {
        PaneUiState {
            selected_exec_id: None,
            focused_view: PrimaryView::Instances,
            instance_scroll: 0,
            service_scroll: 0,
            history_scroll: 0,
            ghost_scroll: 0,
        }
    }
}

} // verus!
