//! What each key does, in the list and in the search field.

use vstd::prelude::*;
use crate::text::str_equal;

verus! {

/// What a key pressed in the list asks for.
#[derive(PartialEq, Eq, Structural, Clone, Copy, Debug)]
pub enum BrowseAction {
    /// Close the window.
    Close,
    /// Move the selection down, loading the rest of the history first when it
    /// is at the end.
    MoveDown,
    /// Move the selection up.
    MoveUp,
    /// Advance the detail panel.
    ToggleDetail,
    /// Open the selected entry in an outside application.
    OpenExternal,
    /// Load everything, show the big detail panel and start searching.
    EnterSearch,
    /// Copy the selected entry, or only its path, and close.
    Copy { path_only: bool },
    /// Show the list of keys.
    ShowHelp,
    /// Not a key of the list.
    Ignore,
}

/// What a key pressed in the search field asks for.
#[derive(PartialEq, Eq, Structural, Clone, Copy, Debug)]
pub enum SearchKeyAction {
    /// Empty the field and go back to the list.
    ClearSearch,
    /// Go to the first result.
    FocusResults,
    /// Copy the selected entry and close.
    Copy,
    /// Move the selection down and stay in the field.
    MoveDown,
    /// Move the selection up and stay in the field.
    MoveUp,
    /// Open the selected entry in an outside application.
    OpenExternal,
    /// Not a key of the field.
    Ignore,
}

/// The action of key `name` in the list, with Control held or not.
pub open spec fn browse_action(name: Seq<char>, ctrl: bool) -> BrowseAction {
    if ctrl && name == "c"@ {
        BrowseAction::Close
    } else if name == "j"@ {
        BrowseAction::MoveDown
    } else if name == "k"@ {
        BrowseAction::MoveUp
    } else if name == "i"@ {
        BrowseAction::ToggleDetail
    } else if name == "e"@ || name == "o"@ {
        BrowseAction::OpenExternal
    } else if name == "s"@ {
        BrowseAction::EnterSearch
    } else if name == "Return"@ || name == "y"@ {
        BrowseAction::Copy { path_only: false }
    } else if name == "p"@ {
        BrowseAction::Copy { path_only: true }
    } else if name == "F1"@ {
        BrowseAction::ShowHelp
    } else if name == "Escape"@ || name == "q"@ {
        BrowseAction::Close
    } else {
        BrowseAction::Ignore
    }
}

/// The action of key `name` in the search field, with Control held or not.
pub open spec fn search_action(name: Seq<char>, ctrl: bool) -> SearchKeyAction {
    if name == "Escape"@ || (ctrl && name == "c"@) {
        SearchKeyAction::ClearSearch
    } else if name == "Return"@ {
        SearchKeyAction::FocusResults
    } else if ctrl && (name == "y"@ || name == "p"@) {
        SearchKeyAction::Copy
    } else if ctrl && name == "j"@ {
        SearchKeyAction::MoveDown
    } else if ctrl && name == "k"@ {
        SearchKeyAction::MoveUp
    } else if ctrl && (name == "e"@ || name == "o"@) {
        SearchKeyAction::OpenExternal
    } else {
        SearchKeyAction::Ignore
    }
}

/// The action of key `name` pressed in the list.
pub fn browse_key_action(name: &str, ctrl: bool) -> (r: BrowseAction)
    ensures
        r == browse_action(name@, ctrl),
{
    if ctrl && str_equal(name, "c") {
        BrowseAction::Close
    } else if str_equal(name, "j") {
        BrowseAction::MoveDown
    } else if str_equal(name, "k") {
        BrowseAction::MoveUp
    } else if str_equal(name, "i") {
        BrowseAction::ToggleDetail
    } else if str_equal(name, "e") || str_equal(name, "o") {
        BrowseAction::OpenExternal
    } else if str_equal(name, "s") {
        BrowseAction::EnterSearch
    } else if str_equal(name, "Return") || str_equal(name, "y") {
        BrowseAction::Copy { path_only: false }
    } else if str_equal(name, "p") {
        BrowseAction::Copy { path_only: true }
    } else if str_equal(name, "F1") {
        BrowseAction::ShowHelp
    } else if str_equal(name, "Escape") || str_equal(name, "q") {
        BrowseAction::Close
    } else {
        BrowseAction::Ignore
    }
}

/// The action of key `name` pressed in the search field.
pub fn search_key_action(name: &str, ctrl: bool) -> (r: SearchKeyAction)
    ensures
        r == search_action(name@, ctrl),
{
    if str_equal(name, "Escape") || (ctrl && str_equal(name, "c")) {
        SearchKeyAction::ClearSearch
    } else if str_equal(name, "Return") {
        SearchKeyAction::FocusResults
    } else if ctrl && (str_equal(name, "y") || str_equal(name, "p")) {
        SearchKeyAction::Copy
    } else if ctrl && str_equal(name, "j") {
        SearchKeyAction::MoveDown
    } else if ctrl && str_equal(name, "k") {
        SearchKeyAction::MoveUp
    } else if ctrl && (str_equal(name, "e") || str_equal(name, "o")) {
        SearchKeyAction::OpenExternal
    } else {
        SearchKeyAction::Ignore
    }
}

} // verus!
