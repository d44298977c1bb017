use clipboard_manager::entry::{
    ClipboardEntry, ClipboardFileEntry, ClipboardImageEntry, ClipboardTextEntry, CopyRequest,
    DetailView, OpenRequest, RowLabel, RowView,
};
use clipboard_manager::markup::{escape_text, highlight_in_text, HIGHLIGHT_CLOSE, HIGHLIGHT_OPEN};
use clipboard_manager::summary::{format_dimensions, format_extension, format_size, Dimensions, ImageInfo};
use clipboard_manager::text::{contains_folded, fold_str};
use clipboard_manager::lines::create_shorten_content;

fn plain(l: &RowLabel) -> Option<String> {
    match l {
        RowLabel::Plain(s) => Some(s.clone()),
        RowLabel::Markup(_) => None,
    }
}

fn markup(l: &RowLabel) -> Option<String> {
    match l {
        RowLabel::Markup(s) => Some(s.clone()),
        RowLabel::Plain(_) => None,
    }
}

#[test]
fn row_is_the_same_on_every_call() {
    let e = ClipboardEntry::Text(ClipboardTextEntry::new("abc".to_string(), "u".to_string(), 3));
    let a = e.get_row();
    let b = e.get_row();
    match (a, b) {
        (RowView::Label(x), RowView::Label(y)) => {
            assert_eq!(x.text(), y.text());
            assert_eq!(x.is_markup(), y.is_markup());
        }
        _ => panic!("text rows are labels"),
    }
}

#[test]
fn matching_ignores_case() {
    let e = ClipboardTextEntry::new("Hello World".to_string(), "u".to_string(), 3);
    assert!(e.contains_text("hello"));
    assert!(e.contains_text("WORLD"));
    assert!(e.contains_text("o w"));
    assert!(!e.contains_text("worlds"));
    assert!(e.contains_text(""));
}

#[test]
fn contains_folded_on_folded_forms() {
    assert!(contains_folded(&fold_str("ABCdef"), &fold_str("cD")));
    assert!(!contains_folded(&fold_str("abc"), &fold_str("abcd")));
}

#[test]
fn empty_query_highlights_nothing() {
    assert_eq!(highlight_in_text("hello", "", "<b>", "</b>"), None);
    assert_eq!(highlight_in_text("hello", "xyz", "<b>", "</b>"), None);
}

#[test]
fn highlight_escapes_and_marks_every_match() {
    assert_eq!(
        highlight_in_text("Hello <hello>", "HELLO", "<b>", "</b>"),
        Some("<b>Hello</b> &lt;<b>hello</b>&gt;".to_string())
    );
    assert_eq!(
        highlight_in_text("aaaa", "aa", "[", "]"),
        Some("[aa][aa]".to_string())
    );
    assert_eq!(
        highlight_in_text("aaa", "aa", "[", "]"),
        Some("[aa]a".to_string())
    );
}

#[test]
fn escaping_follows_markup_rules() {
    assert_eq!(
        escape_text("a<b>&'\"\u{1}\t\u{1f}\u{7f}é"),
        "a&lt;b&gt;&amp;&#39;&quot;&#x1;\t&#x1f;&#x7f;é"
    );
}

#[test]
fn long_text_row_is_abbreviated() {
    let mut e = ClipboardTextEntry::new("one\ntwo\nthree\nfour".to_string(), "u".to_string(), 2);
    assert_eq!(plain(e.get_row()), Some("one\ntwo\n...".to_string()));
    e.set_highlight_in_row(Some("TWO".to_string()), false);
    assert_eq!(
        markup(e.get_row()),
        Some(format!("one\n{}two{}\n...", HIGHLIGHT_OPEN, HIGHLIGHT_CLOSE))
    );
    e.set_highlight_in_row(Some("four".to_string()), false);
    assert_eq!(plain(e.get_row()), Some("one\ntwo\n...".to_string()));
    e.set_highlight_in_row(None, false);
    assert_eq!(plain(e.get_row()), Some("one\ntwo\n...".to_string()));
}

#[test]
fn shortening_counts_lines() {
    assert_eq!(create_shorten_content("a\nb\r\nc\nd", 2), Some("a\nb".to_string()));
    assert_eq!(create_shorten_content("a\nb\n", 2), None);
    assert_eq!(create_shorten_content("", 0), None);
    assert_eq!(create_shorten_content("x", 0), Some("".to_string()));
}

#[test]
fn text_detail_and_actions() {
    let e = ClipboardTextEntry::new("some text".to_string(), "u7".to_string(), 3);
    match e.create_more_info_widget(10, 10, Some("TEXT".to_string())) {
        DetailView::Label { text, is_error } => {
            assert!(!is_error);
            assert_eq!(markup(&text), Some(format!("some {}text{}", HIGHLIGHT_OPEN, HIGHLIGHT_CLOSE)));
        }
        _ => panic!("text detail is a label"),
    }
    assert!(matches!(e.copy_to_clipboard(true), CopyRequest::Nothing));
    match e.copy_to_clipboard(false) {
        CopyRequest::Select(id) => assert_eq!(id, "u7"),
        _ => panic!("select expected"),
    }
    match e.open_in_external_app() {
        OpenRequest::OpenText(t) => assert_eq!(t, "some text"),
        _ => panic!("text is written out first"),
    }
}

#[test]
fn file_entry_reports_read_error() {
    let f = ClipboardFileEntry::new("/tmp/x.txt".to_string(), "f1".to_string(), Err("missing".to_string()));
    match f.create_more_info_widget(1, 1, None) {
        DetailView::Label { text, is_error } => {
            assert!(is_error);
            assert_eq!(plain(&text), Some("Error reading file: missing".to_string()));
        }
        _ => panic!("file detail is a label"),
    }
    match f.copy_to_clipboard(true) {
        CopyRequest::AddText(t) => assert_eq!(t, "/tmp/x.txt"),
        _ => panic!("path expected"),
    }
    assert!(f.contains_text("X.TXT"));
}

#[test]
fn file_row_highlights_path() {
    let mut f = ClipboardFileEntry::new("/home/Doc.txt".to_string(), "f".to_string(), Ok("hi".to_string()));
    f.set_highlight_in_row(Some("doc".to_string()), false);
    assert_eq!(
        markup(f.get_row()),
        Some(format!("/home/{}Doc{}.txt", HIGHLIGHT_OPEN, HIGHLIGHT_CLOSE))
    );
}

#[test]
fn undecodable_image_still_works() {
    let info = ImageInfo { file_size: None, dimensions: None };
    let img = ClipboardImageEntry::new("/pics/broken.png".to_string(), "img1".to_string(), info);
    let row = img.get_row();
    assert_eq!(row.size_text, "Unknown size");
    assert_eq!(row.dimensions_text, "Unknown dimensions");
    assert_eq!(row.extension_text, ".PNG");
    assert!(matches!(img.create_more_info_widget(300, 200, None), DetailView::Nothing));
    match img.copy_to_clipboard(false) {
        CopyRequest::Select(id) => assert_eq!(id, "img1"),
        _ => panic!("select expected"),
    }
}

#[test]
fn decoded_image_detail_is_a_picture() {
    let info = ImageInfo { file_size: Some(2048), dimensions: Some(Dimensions { width: 640, height: 480 }) };
    let img = ClipboardImageEntry::new("/pics/a.jpeg".to_string(), "i".to_string(), info);
    assert_eq!(img.get_row().size_text, "2.0 KB");
    assert_eq!(img.get_row().dimensions_text, "640×480 px");
    match img.create_more_info_widget(300, 200, None) {
        DetailView::Picture { path, width, height } => {
            assert_eq!(path, "/pics/a.jpeg");
            assert_eq!((width, height), (300, 200));
        }
        _ => panic!("picture expected"),
    }
}

#[test]
fn sizes_round_half_to_even() {
    assert_eq!(format_size(Some(0)), "0 B");
    assert_eq!(format_size(Some(1023)), "1023 B");
    assert_eq!(format_size(Some(1024)), "1.0 KB");
    assert_eq!(format_size(Some(1280)), "1.2 KB");
    assert_eq!(format_size(Some(1792)), "1.8 KB");
    assert_eq!(format_size(Some(1048575)), "1024.0 KB");
    assert_eq!(format_size(Some(5 * 1024 * 1024)), "5.0 MB");
    assert_eq!(format_size(None), "Unknown size");
    assert_eq!(format_dimensions(Some(Dimensions { width: 1, height: 22 })), "1×22 px");
}

#[test]
fn extensions_as_shown() {
    assert_eq!(format_extension("/a/b.webp"), ".WEBP");
    assert_eq!(format_extension("/a/.hidden"), ".UNKNOWN");
    assert_eq!(format_extension("/a/b.tar.gz/"), ".GZ");
}
