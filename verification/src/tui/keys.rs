//! The dashboard loop's decisions: which key does what, and which journal
//! changes call for a reload. The terminal and the file watcher are the
//! caller's.

use vstd::prelude::*;
use crate::text::str_eq;
use crate::tui::app::{AppAction, DashboardApp, DashboardState, ViewMode, next_view_spec, prev_view_spec};

verus! {

/// A key as the terminal reports it.
#[derive(Debug, Clone, Copy, PartialEq, Eq, Structural)]
pub enum KeyInput {
    Up,
    Down,
    Left,
    Right,
    Char(char),
    Other,
}

pub open spec fn key_action(key: KeyInput) -> Option<AppAction> {
    match key {
        KeyInput::Up => Some(AppAction::Up),
        KeyInput::Down => Some(AppAction::Down),
        KeyInput::Left => Some(AppAction::Left),
        KeyInput::Right => Some(AppAction::Right),
        KeyInput::Char(c) => if c == 'q' {
            Some(AppAction::Quit)
        } else {
            None
        },
        KeyInput::Other => None,
    }
}

/// The action of a key press: the arrows move and switch views, `q` quits;
/// releases and repeats do nothing.
pub fn action_for_key(key: KeyInput, is_press: bool) -> (r: Option<AppAction>)
    ensures
        r == (if is_press {
            key_action(key)
        } else {
            None
        }),
{
    if !is_press {
        return None;
    }
    match key {
        KeyInput::Up => Some(AppAction::Up),
        KeyInput::Down => Some(AppAction::Down),
        KeyInput::Left => Some(AppAction::Left),
        KeyInput::Right => Some(AppAction::Right),
        KeyInput::Char(c) => {
            if c == 'q' {
                Some(AppAction::Quit)
            } else {
                None
            }
        },
        KeyInput::Other => None,
    }
}

/// Each arrow moves the dashboard its own way: up selects the row above and
/// down the row below (staying put at either end), left shows the tab
/// before and right the tab after, each starting at its first row; `q`
/// quits, and no other key does anything.
pub proof fn lemma_arrows_move_their_own_way(
    state: DashboardState,
    len_of: spec_fn(ViewMode) -> nat,
    c: char,
)
    requires
        state.selected_index < len_of(state.view) <= usize::MAX,
    ensures
        ({
            let i = state.selected_index;
            let up = DashboardApp::apply_spec(state, len_of, key_action(KeyInput::Up)->0);
            let down = DashboardApp::apply_spec(state, len_of, key_action(KeyInput::Down)->0);
            let left = DashboardApp::apply_spec(state, len_of, key_action(KeyInput::Left)->0);
            let right = DashboardApp::apply_spec(state, len_of, key_action(KeyInput::Right)->0);
            &&& key_action(KeyInput::Up) is Some && key_action(KeyInput::Down) is Some
            &&& key_action(KeyInput::Left) is Some && key_action(KeyInput::Right) is Some
            &&& up.view == state.view && up.selected_index == (if i > 0 { i - 1 } else { 0 })
            &&& down.view == state.view && down.selected_index == (if i + 1 < len_of(state.view) {
                i + 1
            } else {
                i as int
            })
            &&& next_view_spec(left.view) == state.view && left.selected_index == 0
            &&& prev_view_spec(right.view) == state.view && right.selected_index == 0
            &&& !up.should_quit || state.should_quit
            &&& !down.should_quit || state.should_quit
            &&& key_action(KeyInput::Char('q')) matches Some(q) && DashboardApp::apply_spec(
                state,
                len_of,
                q,
            ).should_quit
            &&& c != 'q' ==> key_action(KeyInput::Char(c)) is None
            &&& key_action(KeyInput::Other) is None
        }),
{
}

/// Whether an action asks for the model to be rebuilt from the journal.
pub fn reloads_model(action: AppAction) -> (r: bool)
    ensures
        r == (action == AppAction::Refresh),
{
    match action {
        AppAction::Refresh => true,
        _ => false,
    }
}

pub open spec fn name_is(n: Option<String>, name: Seq<char>) -> bool {
    match n {
        Some(s) => s@ == name,
        None => false,
    }
}

/// Whether a file system event is a change to the journal: a creation or
/// modification of a path whose file name is the journal's.
pub fn journal_changed(creates_or_modifies: bool, file_names: &Vec<Option<String>>, journal_name: &Option<String>) -> (r:
    bool)
    ensures
        r == (creates_or_modifies && match journal_name {
            Some(j) => exists|i: int|
                0 <= i < file_names@.len() && name_is(#[trigger] file_names@[i], j@),
            None => false,
        }),
{
    let name = match journal_name {
        Some(j) => j,
        None => return false,
    };
    if !creates_or_modifies {
        return false;
    }
    let mut i: usize = 0;
    while i < file_names.len()
        invariant
            creates_or_modifies,
            *journal_name == Some(*name),
            i <= file_names@.len(),
            forall|k: int| 0 <= k < i ==> !name_is(#[trigger] file_names@[k], name@),
        decreases file_names.len() - i,
    {
        match &file_names[i] {
            Some(n) => {
                if str_eq(n.as_str(), name.as_str()) {
                    assert(name_is(file_names@[i as int], name@));
                    return true;
                }
            },
            None => {},
        }
        i = i + 1;
    }
    false
}

} // verus!
