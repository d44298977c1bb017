use clipboard_manager::app_state::{AppState, DetailsVisibility};
use clipboard_manager::entry::{ClipboardEntry, ClipboardTextEntry, RowView};
use clipboard_manager::loading::{load_all_entries, load_all_entries_if_reached_end};
use clipboard_manager::markup::{HIGHLIGHT_CLOSE, HIGHLIGHT_OPEN, HIGHLIGHT_OPEN_SELECTED};
use clipboard_manager::navigation::{move_cursor, toggle_detail, PanelChange};
use clipboard_manager::constants::{APP_HEIGHT, INFO_BOX_BIG_HEIGHT, INFO_BOX_BIG_WIDTH, INFO_BOX_WIDTH};
use clipboard_manager::search::rebuild_list;

fn text_entry(id: &str, content: &str) -> ClipboardEntry {
    ClipboardEntry::Text(ClipboardTextEntry::new(content.to_string(), id.to_string(), 3))
}

fn corpus(texts: &[&str]) -> Vec<ClipboardEntry> {
    texts
        .iter()
        .enumerate()
        .map(|(i, t)| text_entry(&format!("id{}", i), t))
        .collect()
}

fn label_of(state: &AppState, row: usize) -> (bool, String) {
    match state.lookup(row).unwrap().get_row() {
        RowView::Label(l) => (l.is_markup(), l.text().to_string()),
        RowView::Image { .. } => panic!("not a label"),
    }
}

#[test]
fn query_keeps_matching_rows_in_order() {
    let mut state = AppState::new(corpus(&["hello world", "goodbye", "HELLO again"]));
    rebuild_list(&mut state, "hello");
    assert_eq!(state.visible_rows(), vec![0, 2]);
    assert_eq!(state.selected_position(), Some(0));
    assert_eq!(
        label_of(&state, 0),
        (true, format!("{}hello{} world", HIGHLIGHT_OPEN_SELECTED, HIGHLIGHT_CLOSE))
    );
    assert_eq!(
        label_of(&state, 2),
        (true, format!("{}HELLO{} again", HIGHLIGHT_OPEN, HIGHLIGHT_CLOSE))
    );
    assert_eq!(label_of(&state, 1), (false, "goodbye".to_string()));
    assert!(!state.has_search_error());
}

#[test]
fn query_without_match_marks_error() {
    let mut state = AppState::new(corpus(&["alpha", "beta"]));
    rebuild_list(&mut state, "zzz");
    assert!(state.visible_rows().is_empty());
    assert!(state.has_search_error());
    assert_eq!(state.selected_position(), None);
}

#[test]
fn narrowing_query_never_adds_rows() {
    let mut state = AppState::new(corpus(&["hello", "help", "shell", "yellow"]));
    rebuild_list(&mut state, "el");
    let wide = state.visible_rows();
    assert_eq!(wide, vec![0, 1, 2, 3]);
    rebuild_list(&mut state, "ell");
    let narrow = state.visible_rows();
    assert_eq!(narrow, vec![0, 2, 3]);
    assert!(narrow.iter().all(|r| wide.contains(r)));
    rebuild_list(&mut state, "ello");
    assert_eq!(state.visible_rows(), vec![0, 3]);
}

#[test]
fn repeated_query_is_served_from_cache() {
    let mut state = AppState::new(corpus(&["hello world", "goodbye", "HELLO again"]));
    rebuild_list(&mut state, "hello");
    let first = state.visible_rows();
    assert_eq!(state.scan_count(), 1);
    rebuild_list(&mut state, "hello");
    assert_eq!(state.visible_rows(), first);
    assert_eq!(state.scan_count(), 1);
    rebuild_list(&mut state, "hell");
    assert_eq!(state.scan_count(), 2);
    rebuild_list(&mut state, "hello");
    assert_eq!(state.scan_count(), 2);
    assert_eq!(state.visible_rows(), first);
}

#[test]
fn clearing_query_restores_everything() {
    let mut state = AppState::new(corpus(&["hello world", "goodbye", "HELLO again"]));
    rebuild_list(&mut state, "hello");
    rebuild_list(&mut state, "");
    assert_eq!(state.visible_rows(), vec![0, 1, 2]);
    assert_eq!(state.search_query(), None);
    assert_eq!(label_of(&state, 0), (false, "hello world".to_string()));
    assert_eq!(label_of(&state, 2), (false, "HELLO again".to_string()));
    assert!(!state.has_search_error());
}

#[test]
fn reaching_last_row_triggers_full_load() {
    let all = corpus(&["a", "b", "c", "d", "e"]);
    let first = corpus(&["a", "b"]);
    let mut state = AppState::new(first);
    assert!(move_cursor(&mut state, 1));
    assert_eq!(state.selected_position(), Some(0));
    assert!(!load_all_entries_if_reached_end(&state));
    assert!(move_cursor(&mut state, 1));
    assert_eq!(state.selected_position(), Some(1));
    assert!(load_all_entries_if_reached_end(&state));
    let added = load_all_entries(&mut state, all);
    assert_eq!(added, vec![2, 3, 4]);
    assert_eq!(state.row_count(), 5);
    assert!(state.all_entries_loaded());
    assert_eq!(state.selected_position(), Some(1));
    assert_eq!(state.current_entry().unwrap().uuid(), "id1");
    assert!(!load_all_entries_if_reached_end(&state));
    let again = load_all_entries(&mut state, corpus(&["a", "b", "c", "d", "e", "f"]));
    assert!(again.is_empty());
    assert_eq!(state.row_count(), 5);
}

#[test]
fn cursor_stays_within_list() {
    let mut state = AppState::new(corpus(&["a", "b"]));
    assert!(move_cursor(&mut state, -1));
    assert_eq!(state.selected_position(), Some(0));
    assert!(!move_cursor(&mut state, -1));
    assert_eq!(state.selected_position(), Some(0));
    assert!(move_cursor(&mut state, 1));
    assert!(!move_cursor(&mut state, 1));
    assert_eq!(state.selected_position(), Some(1));
}

#[test]
fn load_during_search_extends_results() {
    let mut state = AppState::new(corpus(&["apple", "berry"]));
    rebuild_list(&mut state, "app");
    assert_eq!(state.visible_rows(), vec![0]);
    load_all_entries(&mut state, corpus(&["apple", "berry", "pineapple", "grape"]));
    assert_eq!(state.visible_rows(), vec![0, 2]);
    assert_eq!(
        label_of(&state, 2),
        (true, format!("pine{}app{}le", HIGHLIGHT_OPEN, HIGHLIGHT_CLOSE))
    );
}

#[test]
fn detail_panel_cycles() {
    let mut state = AppState::new(corpus(&["hello"]));
    move_cursor(&mut state, 1);
    assert_eq!(state.details_visibility(), DetailsVisibility::Hidden);
    let u1 = toggle_detail(&mut state);
    assert_eq!(u1.change, PanelChange::Attach { width: INFO_BOX_WIDTH, height: APP_HEIGHT });
    assert!(u1.detail.is_some());
    assert_eq!(state.details_visibility(), DetailsVisibility::Normal);
    let u2 = toggle_detail(&mut state);
    assert_eq!(
        u2.change,
        PanelChange::Resize { width: INFO_BOX_BIG_WIDTH, height: INFO_BOX_BIG_HEIGHT }
    );
    assert_eq!(state.details_visibility(), DetailsVisibility::Big);
    let u3 = toggle_detail(&mut state);
    assert_eq!(u3.change, PanelChange::Detach);
    assert!(u3.detail.is_none());
    assert_eq!(state.details_visibility(), DetailsVisibility::Hidden);
}
