//! The dashboard's navigation: which view is shown and which row is
//! selected, kept within the rows of the current view.

use vstd::prelude::*;
use crate::text::str_eq;
use crate::tui::model::{DashboardModel, DashboardView, PrimaryView};

verus! {

#[derive(Debug, Clone, Copy, PartialEq, Eq, Structural)]
pub enum AppAction {
    Up,
    Down,
    Left,
    Right,
    Quit,
    Refresh,
}

#[derive(Debug, Clone, Copy, PartialEq, Eq, Structural)]
pub enum ViewMode {
    Instances,
    Services,
    History,
    Ghosts,
}

impl ViewMode {
    pub const ALL: [ViewMode; 4] = [
        ViewMode::Instances,
        ViewMode::Services,
        ViewMode::History,
        ViewMode::Ghosts,
    ];

    pub open spec fn title_spec(self) -> Seq<char> {
        match self {
            ViewMode::Instances => "Instances"@,
            ViewMode::Services => "Services"@,
            ViewMode::History => "History"@,
            ViewMode::Ghosts => "Ghosts/Reconcile"@,
        }
    }

    pub fn title(self) -> (r: &'static str)
        ensures
            r@ == self.title_spec(),
    {
        match self {
            ViewMode::Instances => "Instances",
            ViewMode::Services => "Services",
            ViewMode::History => "History",
            ViewMode::Ghosts => "Ghosts/Reconcile",
        }
    }
}

#[derive(Debug, Clone, PartialEq, Eq)]
pub struct DashboardState {
    pub view: ViewMode,
    pub selected_index: usize,
    pub should_quit: bool,
}

impl Default for DashboardState {
    fn default() -> (r: Self)
        ensures
            r.view == ViewMode::Instances,
            r.selected_index == 0,
            !r.should_quit,
    {
        DashboardState { view: ViewMode::Instances, selected_index: 0, should_quit: false }
    }
}

/// The list that a focused pane shows: the detail of an instance is shown
/// beside the instances.
pub fn view_for_pane(focused: PrimaryView) -> (r: ViewMode)
    ensures
        r == match focused {
            PrimaryView::Instances | PrimaryView::InstanceDetail => ViewMode::Instances,
            PrimaryView::Services => ViewMode::Services,
            PrimaryView::History => ViewMode::History,
            PrimaryView::GhostsReconcile => ViewMode::Ghosts,
        },
{
    match focused {
        PrimaryView::Instances | PrimaryView::InstanceDetail => ViewMode::Instances,
        PrimaryView::Services => ViewMode::Services,
        PrimaryView::History => ViewMode::History,
        PrimaryView::GhostsReconcile => ViewMode::Ghosts,
    }
}

/// The view after `current` in the tab order, wrapping around.
pub open spec fn next_view_spec(current: ViewMode) -> ViewMode {
    match current {
        ViewMode::Instances => ViewMode::Services,
        ViewMode::Services => ViewMode::History,
        ViewMode::History => ViewMode::Ghosts,
        ViewMode::Ghosts => ViewMode::Instances,
    }
}

/// The view before `current` in the tab order, wrapping around.
pub open spec fn prev_view_spec(current: ViewMode) -> ViewMode {
    match current {
        ViewMode::Instances => ViewMode::Ghosts,
        ViewMode::Services => ViewMode::Instances,
        ViewMode::History => ViewMode::Services,
        ViewMode::Ghosts => ViewMode::History,
    }
}

pub fn next_view(current: ViewMode) -> (r: ViewMode)
    ensures
        r == next_view_spec(current),
{
    let all = ViewMode::ALL;
    let mut index: usize = 0;
    while index < 4
        invariant
            all@ == seq![ViewMode::Instances, ViewMode::Services, ViewMode::History, ViewMode::Ghosts],
            index <= 4,
            forall|j: int| 0 <= j < index ==> all@[j] != current,
        ensures
            index <= 4,
            index < 4 ==> all@[index as int] == current,
            forall|j: int| 0 <= j < index ==> all@[j] != current,
        decreases 4 - index,
    {
        if all[index] == current {
            break;
        }
        index = index + 1;
    }
    if index == 4 {
        index = 0;
    }
    all[(index + 1) % 4]
}

pub fn prev_view(current: ViewMode) -> (r: ViewMode)
    ensures
        r == prev_view_spec(current),
{
    let all = ViewMode::ALL;
    let mut index: usize = 0;
    while index < 4
        invariant
            all@ == seq![ViewMode::Instances, ViewMode::Services, ViewMode::History, ViewMode::Ghosts],
            index <= 4,
            forall|j: int| 0 <= j < index ==> all@[j] != current,
        ensures
            index <= 4,
            index < 4 ==> all@[index as int] == current,
            forall|j: int| 0 <= j < index ==> all@[j] != current,
        decreases 4 - index,
    {
        if all[index] == current {
            break;
        }
        index = index + 1;
    }
    if index == 4 {
        index = 0;
    }
    all[(index + 4 - 1) % 4]
}

/// Stepping to the next view and back, or back and then forward, returns
/// to the view one started from.
pub proof fn lemma_view_steps_are_inverse(v: ViewMode)
    ensures
        prev_view_spec(next_view_spec(v)) == v,
        next_view_spec(prev_view_spec(v)) == v,
{
}

/// The selection kept within `len` rows.
pub open spec fn clamp_spec(index: usize, len: nat) -> usize {
    if len == 0 {
        0
    } else if index >= len {
        (len - 1) as usize
    } else {
        index
    }
}

#[derive(Debug, Clone)]
pub struct DashboardApp {
    pub state: DashboardState,
    pub model: DashboardModel,
}

/// The first index of a row with the given key.
pub open spec fn first_key_index(rows: Seq<DashboardView>, key: Seq<char>) -> Option<int> {
    if exists|i: int| 0 <= i < rows.len() && rows[i].key_spec() == key {
        Some(
            choose|i: int|
                0 <= i < rows.len() && rows[i].key_spec() == key && forall|j: int|
                    0 <= j < i ==> rows[j].key_spec() != key,
        )
    } else {
        None
    }
}

impl DashboardApp {
    pub open spec fn rows(&self) -> Seq<DashboardView> {
        self.model.rows(self.state.view)
    }

    /// The selection is a row of the current view, or 0 when it has none.
    pub open spec fn selection_valid(&self) -> bool {
        if self.rows().len() == 0 {
            self.state.selected_index == 0
        } else {
            self.state.selected_index < self.rows().len()
        }
    }

    pub open spec fn apply_spec(state: DashboardState, len_of: spec_fn(ViewMode) -> nat, action: AppAction) -> DashboardState {
        let idx = state.selected_index;
        let len = len_of(state.view);
        match action {
            AppAction::Up => DashboardState {
                selected_index: clamp_spec(if idx == 0 { 0 } else { (idx - 1) as usize }, len),
                ..state
            },
            AppAction::Down => DashboardState {
                selected_index: clamp_spec(
                    if len > 0 {
                        if idx + 1 > len - 1 {
                            (len - 1) as usize
                        } else {
                            (idx + 1) as usize
                        }
                    } else {
                        idx
                    },
                    len,
                ),
                ..state
            },
            AppAction::Left => DashboardState {
                view: prev_view_spec(state.view),
                selected_index: 0,
                ..state
            },
            AppAction::Right => DashboardState {
                view: next_view_spec(state.view),
                selected_index: 0,
                ..state
            },
            AppAction::Quit => DashboardState {
                should_quit: true,
                selected_index: clamp_spec(idx, len),
                ..state
            },
            AppAction::Refresh => DashboardState { selected_index: clamp_spec(idx, len), ..state },
        }
    }

    pub open spec fn len_of(&self) -> spec_fn(ViewMode) -> nat {
        |m: ViewMode| self.model.rows(m).len()
    }

    pub fn new(model: DashboardModel) -> (r: Self)
        ensures
            r.model == model,
            r.state.view == ViewMode::Instances,
            r.state.selected_index == 0,
            !r.state.should_quit,
            r.selection_valid(),
    {
        let mut app = DashboardApp { state: DashboardState::default(), model };
        app.clamp_selection();
        app
    }

    /// Applies a key action: up and down move the selection by one within
    /// the rows, left and right switch views and select the first row, quit
    /// asks to leave.
    pub fn apply(&mut self, action: AppAction)
        ensures
            final(self).model == old(self).model,
            final(self).state == Self::apply_spec(old(self).state, old(self).len_of(), action),
            final(self).selection_valid(),
    {
        match action {
            AppAction::Up => {
                if self.state.selected_index > 0 {
                    self.state.selected_index = self.state.selected_index - 1;
                }
            },
            AppAction::Down => {
                let len = self.active_len();
                if len > 0 {
                    if self.state.selected_index >= len - 1 {
                        self.state.selected_index = len - 1;
                    } else {
                        self.state.selected_index = self.state.selected_index + 1;
                    }
                }
            },
            AppAction::Left => {
                self.state.view = prev_view(self.state.view);
                self.state.selected_index = 0;
            },
            AppAction::Right => {
                self.state.view = next_view(self.state.view);
                self.state.selected_index = 0;
            },
            AppAction::Quit => {
                self.state.should_quit = true;
            },
            AppAction::Refresh => {},
        }
        self.clamp_selection();
    }

    /// Replaces the rows: the selection follows the selected row's key when
    /// the new rows still have it, and is otherwise kept within them.
    pub fn replace_model(&mut self, model: DashboardModel)
        ensures
            final(self).model == model,
            final(self).state.view == old(self).state.view,
            final(self).state.should_quit == old(self).state.should_quit,
            final(self).selection_valid(),
            ({
                let old_rows = old(self).rows();
                let new_rows = model.rows(old(self).state.view);
                let idx = old(self).state.selected_index;
                if idx < old_rows.len() && first_key_index(new_rows, old_rows[idx as int].key_spec()) is Some {
                    final(self).state.selected_index as int == first_key_index(
                        new_rows,
                        old_rows[idx as int].key_spec(),
                    )->0
                } else {
                    final(self).state.selected_index == clamp_spec(idx, new_rows.len())
                }
            }),
    {
        let ghost old_rows = self.rows();
        let ghost st = self.state;
        let ghost new_model = model;
        let selected_key: Option<String> = match self.selected() {
            Some(row) => Some(row.key().to_owned()),
            None => None,
        };
        self.model = model;
        let mut found: Option<usize> = None;
        if let Some(key) = selected_key {
            let rows = self.active_view();
            let mut i: usize = 0;
            while i < rows.len()
                invariant_except_break
                    found is None,
                invariant
                    rows@ == self.rows(),
                    i <= rows@.len(),
                    forall|j: int| 0 <= j < i ==> rows@[j].key_spec() != key@,
                ensures
                    found is None ==> forall|j: int| 0 <= j < rows@.len() ==> rows@[j].key_spec() != key@,
                    found matches Some(x) ==> x < rows@.len() && first_key_index(rows@, key@) == Some(x as int),
                decreases rows.len() - i,
            {
                if str_eq(rows[i].key(), key.as_str()) {
                    proof {
                        let c = choose|c: int|
                            0 <= c < rows@.len() && rows@[c].key_spec() == key@ && forall|j: int|
                                0 <= j < c ==> rows@[j].key_spec() != key@;
                        if c < i {
                        } else if c > i {
                        }
                        assert(first_key_index(rows@, key@) == Some(i as int));
                    }
                    found = Some(i);
                    break;
                }
                i = i + 1;
            }
            proof {
                if found is None {
                    assert(first_key_index(self.rows(), key@) is None);
                }
            }
        }
        match found {
            Some(i) => {
                self.state.selected_index = i;
            },
            None => {
                self.clamp_selection();
            },
        }
    }

    pub fn active_view(&self) -> (r: &[DashboardView])
        ensures
            r@ == self.rows(),
    {
        self.model.view(self.state.view)
    }

    pub fn active_len(&self) -> (r: usize)
        ensures
            r == self.rows().len(),
    {
        self.active_view().len()
    }

    pub fn selected(&self) -> (r: Option<&DashboardView>)
        ensures
            r is Some <==> self.state.selected_index < self.rows().len(),
            r matches Some(row) ==> *row == self.rows()[self.state.selected_index as int],
    {
        let rows = self.active_view();
        if self.state.selected_index < rows.len() {
            Some(&rows[self.state.selected_index])
        } else {
            None
        }
    }

    pub fn selected_key(&self) -> (r: Option<&str>)
        ensures
            r is Some <==> self.state.selected_index < self.rows().len(),
            r matches Some(k) ==> k@ == self.rows()[self.state.selected_index as int].key_spec(),
    {
        match self.selected() {
            Some(row) => Some(row.key()),
            None => None,
        }
    }

    fn clamp_selection(&mut self)
        ensures
            final(self).model == old(self).model,
            final(self).state == (DashboardState {
                selected_index: clamp_spec(old(self).state.selected_index, old(self).rows().len()),
                ..old(self).state
            }),
            final(self).selection_valid(),
    {
        let len = self.active_len();
        if len == 0 {
            self.state.selected_index = 0;
        } else if self.state.selected_index >= len {
            self.state.selected_index = len - 1;
        }
    }
}

} // verus!
