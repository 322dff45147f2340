//! What a request to show, switch or hide the device popup does, given
//! whether an animation runs and whether the popup window exists and shows.

use vstd::prelude::*;

verus! {

/// What to do with the popup window.
#[derive(Debug, Clone, Copy, PartialEq, Eq, Structural)]
pub enum PopupAction {
    /// Nothing: an animation runs, or there is nothing to hide.
    Nothing,
    /// Slide the popup out.
    Close,
    /// Switch to the requested tab and slide the popup in.
    Show,
    /// Switch to the requested tab of the shown popup.
    SwitchTab,
    /// Create the popup window on the requested tab.
    Create,
}

/// A click on the tray icon: a shown popup is hidden, a hidden one shown,
/// a missing one created; nothing happens during an animation.
pub open spec fn spec_toggle(animating: bool, exists: bool, visible: bool) -> PopupAction {
    if animating {
        PopupAction::Nothing
    } else if !exists {
        PopupAction::Create
    } else if visible {
        PopupAction::Close
    } else {
        PopupAction::Show
    }
}

/// A request for a tab of the popup: a shown popup switches tab, a hidden
/// one is shown on that tab, a missing one created.
pub open spec fn spec_open_popup(animating: bool, exists: bool, visible: bool) -> PopupAction {
    if animating {
        PopupAction::Nothing
    } else if !exists {
        PopupAction::Create
    } else if visible {
        PopupAction::SwitchTab
    } else {
        PopupAction::Show
    }
}

/// A request to hide the popup: only a shown popup is hidden.
pub open spec fn spec_close_popup(animating: bool, exists: bool, visible: bool) -> PopupAction {
    if !animating && exists && visible {
        PopupAction::Close
    } else {
        PopupAction::Nothing
    }
}

/// What a click on the tray icon does to the popup.
pub fn toggle(animating: bool, exists: bool, visible: bool) -> (r: PopupAction)
    ensures
        r == spec_toggle(animating, exists, visible),
{
    if animating {
        PopupAction::Nothing
    } else if !exists {
        PopupAction::Create
    } else if visible {
        PopupAction::Close
    } else {
        PopupAction::Show
    }
}

/// What a request for a tab does to the popup.
pub fn open_popup(animating: bool, exists: bool, visible: bool) -> (r: PopupAction)
    ensures
        r == spec_open_popup(animating, exists, visible),
{
    if animating {
        PopupAction::Nothing
    } else if !exists {
        PopupAction::Create
    } else if visible {
        PopupAction::SwitchTab
    } else {
        PopupAction::Show
    }
}

/// What a request to hide does to the popup.
pub fn close_popup(animating: bool, exists: bool, visible: bool) -> (r: PopupAction)
    ensures
        r == spec_close_popup(animating, exists, visible),
{
    if !animating && exists && visible {
        PopupAction::Close
    } else {
        PopupAction::Nothing
    }
}

} // verus!
