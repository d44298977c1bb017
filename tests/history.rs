use clipboard_manager::history::{
    add_command, classify_content, get_entry_path, history_command, is_image, parse_clipboard_line,
    parse_history, select_command, EntryKind,
};
use clipboard_manager::keys::{browse_key_action, search_key_action, BrowseAction, SearchKeyAction};

#[test]
fn image_previews() {
    assert!(is_image(" [Image, 640 × 480 (12 KB)]"));
    assert!(is_image(" [Files] /home/me/photo.PNG"));
    assert!(is_image(" [Files]  [Files] /home/me/photo.jpg  "));
    assert!(!is_image(" [Files] /home/me/notes.txt"));
    assert!(!is_image(" [Files] /home/me/.png"));
    assert!(!is_image("photo.png"));
}

#[test]
fn classification_of_previews() {
    assert_eq!(classify_content(""), EntryKind::Skip);
    assert_eq!(classify_content(" [Image, 1x1]"), EntryKind::Image);
    assert_eq!(classify_content(" [Files] /a/b.gif"), EntryKind::Image);
    assert_eq!(classify_content(" [Files] /a/b.rs"), EntryKind::File);
    assert_eq!(classify_content("plain"), EntryKind::Text);
}

#[test]
fn record_splits_at_first_colon() {
    assert_eq!(
        parse_clipboard_line("abc:def:g"),
        Some(("abc".to_string(), "def:g".to_string()))
    );
    assert_eq!(parse_clipboard_line("abc:"), Some(("abc".to_string(), "".to_string())));
    assert_eq!(parse_clipboard_line("nocolon"), None);
}

#[test]
fn history_takes_first_records() {
    let items = parse_history("a:x\0\0b:y\0bad\0c:z", 3);
    let got: Vec<(String, String)> = items.into_iter().map(|i| (i.uuid, i.content)).collect();
    assert_eq!(got, vec![("a".to_string(), "x".to_string()), ("b".to_string(), "y".to_string())]);
    let all = parse_history("a:x\0b:y\0c:z\0", 10);
    assert_eq!(all.len(), 3);
    assert_eq!(all[2].content, "z");
    assert!(parse_history("", 5).is_empty());
}

#[test]
fn backend_commands() {
    assert_eq!(get_entry_path("u1"), vec!["--raw", "get", "u1"]);
    assert_eq!(history_command(), vec!["history", "--zero"]);
    assert_eq!(select_command("u2"), vec!["select", "u2"]);
    assert_eq!(add_command(), vec!["add"]);
}

#[test]
fn list_keys() {
    assert_eq!(browse_key_action("c", true), BrowseAction::Close);
    assert_eq!(browse_key_action("j", false), BrowseAction::MoveDown);
    assert_eq!(browse_key_action("k", false), BrowseAction::MoveUp);
    assert_eq!(browse_key_action("i", false), BrowseAction::ToggleDetail);
    assert_eq!(browse_key_action("o", false), BrowseAction::OpenExternal);
    assert_eq!(browse_key_action("s", false), BrowseAction::EnterSearch);
    assert_eq!(browse_key_action("Return", false), BrowseAction::Copy { path_only: false });
    assert_eq!(browse_key_action("p", false), BrowseAction::Copy { path_only: true });
    assert_eq!(browse_key_action("F1", false), BrowseAction::ShowHelp);
    assert_eq!(browse_key_action("q", false), BrowseAction::Close);
    assert_eq!(browse_key_action("x", false), BrowseAction::Ignore);
    assert_eq!(browse_key_action("c", false), BrowseAction::Ignore);
}

#[test]
fn search_field_keys() {
    assert_eq!(search_key_action("Escape", false), SearchKeyAction::ClearSearch);
    assert_eq!(search_key_action("c", true), SearchKeyAction::ClearSearch);
    assert_eq!(search_key_action("Return", false), SearchKeyAction::FocusResults);
    assert_eq!(search_key_action("y", true), SearchKeyAction::Copy);
    assert_eq!(search_key_action("j", true), SearchKeyAction::MoveDown);
    assert_eq!(search_key_action("k", true), SearchKeyAction::MoveUp);
    assert_eq!(search_key_action("e", true), SearchKeyAction::OpenExternal);
    assert_eq!(search_key_action("j", false), SearchKeyAction::Ignore);
}
