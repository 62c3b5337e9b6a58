//! The system tray menu: the only way to show, hide or quit the window,
//! which has neither a title bar nor a taskbar entry.

use vstd::prelude::*;

verus! {

/// Menu id of "Show/Hide".
pub const TOGGLE_VISIBILITY_ID: &'static str = "toggle-visibility";

/// Menu id of "Settings...".
pub const SETTINGS_ID: &'static str = "settings";

/// Menu id of "Quit".
pub const QUIT_ID: &'static str = "quit";

/// What a click on a tray menu item does.
#[derive(Clone, Copy, PartialEq, Eq, Structural, Debug)]
pub enum TrayAction {
    ToggleVisibility,
    OpenSettings,
    Quit,
}

/// The action of the menu item with id `id`; none for an unknown id.
pub open spec fn tray_action_for(id: Seq<char>) -> Option<TrayAction> {
    if id == TOGGLE_VISIBILITY_ID@ {
        Some(TrayAction::ToggleVisibility)
    } else if id == SETTINGS_ID@ {
        Some(TrayAction::OpenSettings)
    } else if id == QUIT_ID@ {
        Some(TrayAction::Quit)
    } else {
        None
    }
}

fn same_text(a: &str, b: &str) -> (r: bool)
    ensures
        r == (a@ == b@),
{
    let n = a.unicode_len();
    if n != b.unicode_len() {
        return false;
    }
    let mut i: usize = 0;
    while i < n
        invariant
            n == a@.len(),
            n == b@.len(),
            i <= n,
            forall|j: int| 0 <= j < i ==> a@[j] == b@[j],
        decreases n - i,
    {
        if a.get_char(i) != b.get_char(i) {
            return false;
        }
        i = i + 1;
    }
    proof {
        assert(a@ =~= b@);
    }
    true
}

/// Decides what a click on the tray menu item with id `id` does.
pub fn tray_action(id: &str) -> (a: Option<TrayAction>)
    ensures
        a == tray_action_for(id@),
{
    if same_text(id, TOGGLE_VISIBILITY_ID) {
        Some(TrayAction::ToggleVisibility)
    } else if same_text(id, SETTINGS_ID) {
        Some(TrayAction::OpenSettings)
    } else if same_text(id, QUIT_ID) {
        Some(TrayAction::Quit)
    } else {
        None
    }
}

/// What "Show/Hide" does to the main window.
#[derive(Clone, Copy, PartialEq, Eq, Structural, Debug)]
pub enum VisibilityChange {
    Hide,
    Show,
}

/// The change "Show/Hide" makes, given whether the window is visible (none
/// where that could not be read; the window then counts as visible).
pub open spec fn visibility_change(is_visible: Option<bool>) -> VisibilityChange {
    if is_visible == Some(false) {
        VisibilityChange::Show
    } else {
        VisibilityChange::Hide
    }
}

/// Decides what "Show/Hide" does to the main window.
pub fn toggle_visibility(is_visible: Option<bool>) -> (c: VisibilityChange)
    ensures
        c == visibility_change(is_visible),
{
    match is_visible {
        Some(false) => VisibilityChange::Show,
        _ => VisibilityChange::Hide,
    }
}

/// "Show/Hide" turns a visible window invisible and an invisible one visible,
/// so that choosing it twice restores the window.
pub proof fn lemma_toggle_flips(visible: bool)
    ensures
        (visibility_change(Some(visible)) == VisibilityChange::Show) == !visible,
        (visibility_change(Some(visibility_change(Some(visible)) == VisibilityChange::Show))
            == VisibilityChange::Show) == visible,
{
}

/// "Show/Hide", "Settings..." and "Quit" have the ids `toggle-visibility`,
/// `settings` and `quit`, each does its own thing, and any other id does
/// nothing.
pub proof fn lemma_tray_actions(id: Seq<char>)
    ensures
        TOGGLE_VISIBILITY_ID@ == "toggle-visibility"@,
        SETTINGS_ID@ == "settings"@,
        QUIT_ID@ == "quit"@,
        tray_action_for("toggle-visibility"@) == Some(TrayAction::ToggleVisibility),
        tray_action_for("settings"@) == Some(TrayAction::OpenSettings),
        tray_action_for("quit"@) == Some(TrayAction::Quit),
        id != "toggle-visibility"@ && id != "settings"@ && id != "quit"@ ==> tray_action_for(id)
            is None,
{
    reveal_strlit("toggle-visibility");
    reveal_strlit("settings");
    reveal_strlit("quit");
    assert("settings"@[0] != "toggle-visibility"@[0]);
    assert("quit"@[0] != "toggle-visibility"@[0]);
    assert("quit"@[0] != "settings"@[0]);
}

/// Where the window's visibility cannot be read it counts as visible, so
/// "Show/Hide" hides it.
pub proof fn lemma_unknown_visibility_hides()
    ensures
        visibility_change(None) == VisibilityChange::Hide,
{
}

} // verus!
