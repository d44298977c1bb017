//! Moving the selection, showing the detail panel, and the actions on the
//! selected entry.

use vstd::prelude::*;
use crate::app_state::{AppModel, AppState, DetailsVisibility};
use crate::constants::{APP_HEIGHT, INFO_BOX_BIG_HEIGHT, INFO_BOX_BIG_WIDTH, INFO_BOX_WIDTH};
use crate::entry::{CopyRequest, DetailModel, DetailView, OpenRequest};

verus! {

/// The position that moving the selection by `offset` aims at: from the
/// selected position, or the first one when nothing is selected.
pub open spec fn cursor_target(m: AppModel, offset: i32) -> int {
    match m.selected {
        Some(p) => p + offset,
        None => 0,
    }
}

/// The state after moving the selection by `offset`: a target outside the
/// list leaves it as it is.
pub open spec fn after_move(m: AppModel, offset: i32) -> AppModel {
    let t = cursor_target(m, offset);
    if 0 <= t < m.visible().len() {
        m.select(t as usize)
    } else {
        m
    }
}

/// Moves the selection by `offset` rows, staying within the list. Returns
/// whether the selection moved to a row, whose focus the caller then takes
/// once the layout has settled.
pub fn move_cursor(app_state: &mut AppState, offset: i32) -> (r: bool)
    requires
        old(app_state).wf(),
    ensures
        final(app_state).wf(),
        final(app_state).model() == after_move(old(app_state).model(), offset),
        r == (0 <= cursor_target(old(app_state).model(), offset) < old(
            app_state,
        ).model().visible().len()),
{
    let len = app_state.visible_len();
    let target: i128 = match app_state.selected_position() {
        Some(p) => p as i128 + offset as i128,
        None => 0,
    };
    if target < 0 || target >= len as i128 {
        return false;
    }
    app_state.select_row(target as usize);
    true
}

/// The visibility that follows `v` when the panel is toggled.
pub open spec fn next_visibility(v: DetailsVisibility) -> DetailsVisibility {
    match v {
        DetailsVisibility::Hidden => DetailsVisibility::Normal,
        DetailsVisibility::Normal => DetailsVisibility::Big,
        DetailsVisibility::Big => DetailsVisibility::Hidden,
    }
}

/// The visibility that follows `v` when the panel is toggled.
pub fn next_details_visibility(v: DetailsVisibility) -> (r: DetailsVisibility)
    ensures
        r == next_visibility(v),
{
    match v {
        DetailsVisibility::Hidden => DetailsVisibility::Normal,
        DetailsVisibility::Normal => DetailsVisibility::Big,
        DetailsVisibility::Big => DetailsVisibility::Hidden,
    }
}

/// The size of the panel for a shown visibility: (width, height).
pub open spec fn panel_size(v: DetailsVisibility) -> (i32, i32) {
    match v {
        DetailsVisibility::Big => (INFO_BOX_BIG_WIDTH, INFO_BOX_BIG_HEIGHT),
        _ => (INFO_BOX_WIDTH, APP_HEIGHT),
    }
}

/// What happens to the detail panel's container.
#[derive(PartialEq, Eq, Structural, Clone, Copy, Debug)]
pub enum PanelChange {
    /// It leaves the layout.
    Detach,
    /// It joins the layout at this size.
    Attach { width: i32, height: i32 },
    /// It stays and takes this size.
    Resize { width: i32, height: i32 },
}

/// A change of the detail panel, and the detail view to put in it, if an
/// entry is selected.
pub struct PanelUpdate {
    pub change: PanelChange,
    pub detail: Option<DetailView>,
}

/// The detail view of the selected entry at the size of `v`, with the active
/// query.
pub open spec fn selected_detail(m: AppModel, v: DetailsVisibility) -> Option<DetailModel> {
    match m.selected_row() {
        Some(row) => Some(
            m.entries[row as int].detail_for(panel_size(v).0, panel_size(v).1, m.query),
        ),
        None => None,
    }
}

/// The detail view of a panel update, as a value.
pub open spec fn detail_model(d: Option<DetailView>) -> Option<DetailModel> {
    match d {
        Some(v) => Some(v@),
        None => None,
    }
}

/// The detail view of the selected entry at the size of `v`.
fn build_selected_detail(app_state: &AppState, v: DetailsVisibility) -> (r: Option<DetailView>)
    requires
        app_state.wf(),
    ensures
        detail_model(r) == selected_detail(app_state.model(), v),
{
    let (width, height) = match v {
        DetailsVisibility::Big => (INFO_BOX_BIG_WIDTH, INFO_BOX_BIG_HEIGHT),
        _ => (INFO_BOX_WIDTH, APP_HEIGHT),
    };
    let query = match app_state.search_query() {
        Some(q) => Some(String::from_str(q)),
        None => None,
    };
    match app_state.current_entry() {
        Some(e) => Some(e.create_more_info_widget(width, height, query)),
        None => None,
    }
}

/// The detail view for the row just selected: `None` while the panel is
/// hidden or nothing is selected.
pub fn detail_for_selection(app_state: &AppState) -> (r: Option<DetailView>)
    requires
        app_state.wf(),
    ensures
        detail_model(r) == if app_state.model().visibility == DetailsVisibility::Hidden {
            None
        } else {
            selected_detail(app_state.model(), app_state.model().visibility)
        },
{
    let v = app_state.details_visibility();
    if v == DetailsVisibility::Hidden {
        None
    } else {
        build_selected_detail(app_state, v)
    }
}

/// Hides the detail panel.
pub fn hide_detail(app_state: &mut AppState) -> (r: PanelUpdate)
    requires
        old(app_state).wf(),
    ensures
        final(app_state).wf(),
        final(app_state).model() == (AppModel {
            visibility: DetailsVisibility::Hidden,
            ..old(app_state).model()
        }),
        r.change == PanelChange::Detach,
        (r.detail is None),
{
    app_state.details_visibility = DetailsVisibility::Hidden;
    PanelUpdate { change: PanelChange::Detach, detail: None }
}

/// Shows the detail panel at the size of `v`: it joins the layout if it was
/// hidden and is resized otherwise, and shows the selected entry.
fn show_detail(app_state: &mut AppState, v: DetailsVisibility) -> (r: PanelUpdate)
    requires
        old(app_state).wf(),
        v != DetailsVisibility::Hidden,
    ensures
        final(app_state).wf(),
        final(app_state).model() == (AppModel { visibility: v, ..old(app_state).model() }),
        r.change == if old(app_state).model().visibility == DetailsVisibility::Hidden {
            PanelChange::Attach { width: panel_size(v).0, height: panel_size(v).1 }
        } else {
            PanelChange::Resize { width: panel_size(v).0, height: panel_size(v).1 }
        },
        detail_model(r.detail) == selected_detail(old(app_state).model(), v),
{
    let (width, height) = match v {
        DetailsVisibility::Big => (INFO_BOX_BIG_WIDTH, INFO_BOX_BIG_HEIGHT),
        _ => (INFO_BOX_WIDTH, APP_HEIGHT),
    };
    let change = if app_state.details_visibility == DetailsVisibility::Hidden {
        PanelChange::Attach { width, height }
    } else {
        PanelChange::Resize { width, height }
    };
    let detail = build_selected_detail(app_state, v);
    app_state.details_visibility = v;
    PanelUpdate { change, detail }
}

/// Shows the detail panel at its normal size.
pub fn show_normal_detail(app_state: &mut AppState) -> (r: PanelUpdate)
    requires
        old(app_state).wf(),
    ensures
        final(app_state).wf(),
        final(app_state).model() == (AppModel {
            visibility: DetailsVisibility::Normal,
            ..old(app_state).model()
        }),
        r.change == if old(app_state).model().visibility == DetailsVisibility::Hidden {
            PanelChange::Attach { width: INFO_BOX_WIDTH, height: APP_HEIGHT }
        } else {
            PanelChange::Resize { width: INFO_BOX_WIDTH, height: APP_HEIGHT }
        },
        detail_model(r.detail) == selected_detail(old(app_state).model(), DetailsVisibility::Normal),
{
    show_detail(app_state, DetailsVisibility::Normal)
}

/// Shows the detail panel at its big size.
pub fn show_big_detail(app_state: &mut AppState) -> (r: PanelUpdate)
    requires
        old(app_state).wf(),
    ensures
        final(app_state).wf(),
        final(app_state).model() == (AppModel {
            visibility: DetailsVisibility::Big,
            ..old(app_state).model()
        }),
        r.change == if old(app_state).model().visibility == DetailsVisibility::Hidden {
            PanelChange::Attach { width: INFO_BOX_BIG_WIDTH, height: INFO_BOX_BIG_HEIGHT }
        } else {
            PanelChange::Resize { width: INFO_BOX_BIG_WIDTH, height: INFO_BOX_BIG_HEIGHT }
        },
        detail_model(r.detail) == selected_detail(old(app_state).model(), DetailsVisibility::Big),
{
    show_detail(app_state, DetailsVisibility::Big)
}

/// Advances the detail panel: hidden, then normal, then big, then hidden
/// again.
pub fn toggle_detail(app_state: &mut AppState) -> (r: PanelUpdate)
    requires
        old(app_state).wf(),
    ensures
        final(app_state).wf(),
        final(app_state).model() == (AppModel {
            visibility: next_visibility(old(app_state).model().visibility),
            ..old(app_state).model()
        }),
        old(app_state).model().visibility == DetailsVisibility::Hidden ==> r.change
            == (PanelChange::Attach { width: INFO_BOX_WIDTH, height: APP_HEIGHT }),
        old(app_state).model().visibility == DetailsVisibility::Normal ==> r.change
            == (PanelChange::Resize { width: INFO_BOX_BIG_WIDTH, height: INFO_BOX_BIG_HEIGHT }),
        old(app_state).model().visibility == DetailsVisibility::Big ==> r.change
            == PanelChange::Detach,
        next_visibility(old(app_state).model().visibility) == DetailsVisibility::Hidden
            ==> (r.detail is None),
        next_visibility(old(app_state).model().visibility) != DetailsVisibility::Hidden
            ==> detail_model(r.detail) == selected_detail(
            old(app_state).model(),
            next_visibility(old(app_state).model().visibility),
        ),
{
    match next_details_visibility(app_state.details_visibility) {
        DetailsVisibility::Hidden => hide_detail(app_state),
        DetailsVisibility::Normal => show_normal_detail(app_state),
        DetailsVisibility::Big => show_big_detail(app_state),
    }
}

/// What copying the selected entry asks of the backend; `None` when nothing
/// is selected. The window closes afterwards either way.
pub fn handle_copy_and_close(app_state: &AppState, copy_path: bool) -> (r: Option<CopyRequest>)
    requires
        app_state.wf(),
    ensures
        match r {
            Some(c) => app_state.model().selected_row() matches Some(row) && c@ == app_state.model().entries[row as int].copy_for(
                copy_path,
            ),
            None => app_state.model().selected is None,
        },
{
    match app_state.current_entry() {
        Some(e) => Some(e.copy_to_clipboard(copy_path)),
        None => None,
    }
}

/// How to open the selected entry outside; `None` when nothing is selected.
pub fn handle_open_in_external_app(app_state: &AppState) -> (r: Option<OpenRequest>)
    requires
        app_state.wf(),
    ensures
        match r {
            Some(o) => app_state.model().selected_row() matches Some(row) && o@ == app_state.model().entries[row as int].open_for(),
            None => app_state.model().selected is None,
        },
{
    match app_state.current_entry() {
        Some(e) => Some(e.open_in_external_app()),
        None => None,
    }
}

} // verus!
