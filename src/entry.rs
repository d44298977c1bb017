//! Clipboard entries: text, images and files behind one set of operations.
//!
//! Each entry is built once from its content. Only the emphasis on its row's
//! label changes afterwards, as searches come and go.

use vstd::prelude::*;
use crate::lines::{create_shorten_content, shortened_of};
use crate::markup::{
    highlight_in_text, highlighted, HIGHLIGHT_CLOSE, HIGHLIGHT_OPEN, HIGHLIGHT_OPEN_SELECTED,
};
use crate::summary::{
    dimensions_text, extension_text, image_summary, size_text, ImageInfo, ImageSummary,
};
use crate::text::{contains, contains_folded, fold, fold_str, opt_view, push_char};

verus! {

/// What a label shows: plain text, or markup with emphasis.
pub enum LabelView {
    Plain(Seq<char>),
    Markup(Seq<char>),
}

/// The text of a label: plain, or markup with emphasized matches.
#[derive(Debug)]
pub enum RowLabel {
    Plain(String),
    Markup(String),
}

impl View for RowLabel {
    type V = LabelView;

    open spec fn view(&self) -> LabelView {
        match self {
            RowLabel::Plain(s) => LabelView::Plain(s@),
            RowLabel::Markup(s) => LabelView::Markup(s@),
        }
    }
}

impl RowLabel {
    /// A copy of the label.
    pub fn duplicate(&self) -> (r: RowLabel)
        ensures
            r@ == self@,
    {
        match self {
            RowLabel::Plain(s) => RowLabel::Plain(s.clone()),
            RowLabel::Markup(s) => RowLabel::Markup(s.clone()),
        }
    }

    /// The label's text, plain or markup.
    pub fn text(&self) -> (r: &str)
        ensures
            r@ == match self@ {
                LabelView::Plain(s) => s,
                LabelView::Markup(s) => s,
            },
    {
        match self {
            RowLabel::Plain(s) => s.as_str(),
            RowLabel::Markup(s) => s.as_str(),
        }
    }

    /// Whether the label holds markup.
    pub fn is_markup(&self) -> (r: bool)
        ensures
            r == (self@ is Markup),
    {
        match self {
            RowLabel::Plain(_) => false,
            RowLabel::Markup(_) => true,
        }
    }
}

/// The line that marks an abbreviated text.
pub open spec fn ellipsis_line() -> Seq<char> {
    seq!['\n', '.', '.', '.']
}

/// The opening tag of an emphasis, which differs in the selected row.
pub open spec fn open_tag(selected: bool) -> Seq<char> {
    if selected {
        HIGHLIGHT_OPEN_SELECTED@
    } else {
        HIGHLIGHT_OPEN@
    }
}

/// Emphasis of every match of `query` in `text` as a label: markup where the
/// query occurs, `plain` otherwise and without a query.
pub open spec fn emphasis_label(
    text: Seq<char>,
    query: Option<Seq<char>>,
    selected: bool,
    suffix: Seq<char>,
    plain: Seq<char>,
) -> LabelView {
    match query {
        Some(q) => match highlighted(text, q, open_tag(selected), HIGHLIGHT_CLOSE@) {
            Some(m) => LabelView::Markup(m + suffix),
            None => LabelView::Plain(plain),
        },
        None => LabelView::Plain(plain),
    }
}

/// The expanded view of an entry.
pub enum DetailModel {
    Label { text: LabelView, is_error: bool },
    Picture { path: Seq<char>, width: i32, height: i32 },
    Nothing,
}

/// The expanded view of an entry: a label, a picture to draw at the given
/// bounds, or nothing where the picture could not be decoded.
#[derive(Debug)]
pub enum DetailView {
    Label { text: RowLabel, is_error: bool },
    Picture { path: String, width: i32, height: i32 },
    Nothing,
}

impl View for DetailView {
    type V = DetailModel;

    open spec fn view(&self) -> DetailModel {
        match self {
            DetailView::Label { text, is_error } => DetailModel::Label {
                text: text@,
                is_error: *is_error,
            },
            DetailView::Picture { path, width, height } => DetailModel::Picture {
                path: path@,
                width: *width,
                height: *height,
            },
            DetailView::Nothing => DetailModel::Nothing,
        }
    }
}

/// What copying an entry asks of the clipboard backend.
#[derive(Debug)]
pub enum CopyRequest {
    /// Nothing to do.
    Nothing,
    /// Make the entry with this identifier the clipboard's content.
    Select(String),
    /// Add this text to the clipboard.
    AddText(String),
}

/// How an entry is handed to an outside application.
#[derive(Debug)]
pub enum OpenRequest {
    /// Open this file.
    OpenPath(String),
    /// Write this text to a new temporary file, then open that file.
    OpenText(String),
}

/// A text entry, as a value.
pub struct TextEntryView {
    pub id: Seq<char>,
    pub content: Seq<char>,
    pub shortened: Option<Seq<char>>,
    pub label: LabelView,
}

impl TextEntryView {
    /// The part of the text that the row shows and highlights.
    pub open spec fn shown(self) -> Seq<char> {
        match self.shortened {
            Some(s) => s,
            None => self.content,
        }
    }

    /// The row's plain text: the shown part, and a line of dots when abbreviated.
    pub open spec fn row_text(self) -> Seq<char> {
        match self.shortened {
            Some(s) => s + ellipsis_line(),
            None => self.content,
        }
    }

    /// The row's label for a search query.
    pub open spec fn label_for(self, query: Option<Seq<char>>, selected: bool) -> LabelView {
        emphasis_label(
            self.shown(),
            query,
            selected,
            if self.shortened is Some {
                ellipsis_line()
            } else {
                Seq::empty()
            },
            self.row_text(),
        )
    }

    /// The detail view: the whole text, matches of the query emphasized.
    pub open spec fn detail_for(self, query: Option<Seq<char>>) -> DetailModel {
        DetailModel::Label {
            text: emphasis_label(self.content, query, false, Seq::empty(), self.content),
            is_error: false,
        }
    }
}

/// An entry of copied text.
pub struct ClipboardTextEntry {
    full_content: String,
    shorten_content: Option<String>,
    uuid: String,
    folded_content: Vec<char>,
    row_label: RowLabel,
}

impl View for ClipboardTextEntry {
    type V = TextEntryView;

    closed spec fn view(&self) -> TextEntryView {
        TextEntryView {
            id: self.uuid@,
            content: self.full_content@,
            shortened: opt_view(self.shorten_content),
            label: self.row_label@,
        }
    }
}

/// Appends the line of dots that marks an abbreviated text.
fn push_ellipsis_line(out: &mut String)
    ensures
        final(out)@ == old(out)@ + ellipsis_line(),
{
    let ghost start = out@;
    push_char(out, '\n');
    push_char(out, '.');
    push_char(out, '.');
    push_char(out, '.');
    assert(out@ =~= start + ellipsis_line());
}

/// The label that emphasizes the matches of `query` in `text`.
fn emphasis_label_exec(
    text: &str,
    query: &Option<String>,
    selected: bool,
    ellipsis: bool,
    plain: &str,
) -> (r: RowLabel)
    ensures
        r@ == emphasis_label(
            text@,
            opt_view(*query),
            selected,
            if ellipsis {
                ellipsis_line()
            } else {
                Seq::empty()
            },
            plain@,
        ),
{
    match query {
        Some(q) => {
            let open = if selected {
                HIGHLIGHT_OPEN_SELECTED
            } else {
                HIGHLIGHT_OPEN
            };
            match highlight_in_text(text, q.as_str(), open, HIGHLIGHT_CLOSE) {
                Some(m) => {
                    let mut m = m;
                    if ellipsis {
                        push_ellipsis_line(&mut m);
                    } else {
                        assert(m@ + Seq::<char>::empty() =~= m@);
                    }
                    RowLabel::Markup(m)
                },
                None => RowLabel::Plain(String::from_str(plain)),
            }
        },
        None => RowLabel::Plain(String::from_str(plain)),
    }
}

impl ClipboardTextEntry {
    /// The stored forms agree: the folded text is the text folded.
    pub closed spec fn wf(&self) -> bool {
        self.folded_content@ == fold(self.full_content@)
    }

    /// An entry for `full_content`; a text of more than `row_max_lines` lines
    /// is abbreviated in its row to that many.
    pub fn new(full_content: String, uuid: String, row_max_lines: u32) -> (r: Self)
        ensures
            r.wf(),
            r@.id == uuid@,
            r@.content == full_content@,
            r@.shortened == shortened_of(full_content@, row_max_lines as nat),
            r@.label == LabelView::Plain(r@.row_text()),
    {
        let shorten_content = create_shorten_content(full_content.as_str(), row_max_lines as usize);
        let folded_content = fold_str(full_content.as_str());
        let mut entry = ClipboardTextEntry {
            full_content,
            shorten_content,
            uuid,
            folded_content,
            row_label: RowLabel::Plain(String::new()),
        };
        entry.row_label = RowLabel::Plain(entry.row_text());
        entry
    }

    /// The row's plain text.
    fn row_text(&self) -> (r: String)
        ensures
            r@ == self@.row_text(),
    {
        match &self.shorten_content {
            Some(s) => {
                let mut out = s.clone();
                push_ellipsis_line(&mut out);
                out
            },
            None => self.full_content.clone(),
        }
    }

    /// The row's label, the same on every call until a highlight changes it.
    pub fn get_row(&self) -> (r: &RowLabel)
        ensures
            r@ == self@.label,
    {
        &self.row_label
    }

    /// The entry's identifier in the backend.
    pub fn uuid(&self) -> (r: &str)
        ensures
            r@ == self@.id,
    {
        self.uuid.as_str()
    }

    /// The whole text.
    pub fn content(&self) -> (r: &str)
        ensures
            r@ == self@.content,
    {
        self.full_content.as_str()
    }

    /// Whether the text holds `search_text`, ignoring case.
    pub fn contains_text(&self, search_text: &str) -> (r: bool)
        requires
            self.wf(),
        ensures
            r == contains(fold(self@.content), fold(search_text@)),
    {
        let q = fold_str(search_text);
        contains_folded(&self.folded_content, &q)
    }

    /// Emphasizes the matches of `search_query` in the row, with the colors of
    /// a selected row if `selected`; shows the plain row without a query or a
    /// match.
    pub fn set_highlight_in_row(&mut self, search_query: Option<String>, selected: bool)
        requires
            old(self).wf(),
        ensures
            final(self).wf(),
            final(self)@ == (TextEntryView {
                label: old(self)@.label_for(opt_view(search_query), selected),
                ..old(self)@
            }),
    {
        let plain = self.row_text();
        let label = match &self.shorten_content {
            Some(s) => emphasis_label_exec(s.as_str(), &search_query, selected, true, plain.as_str()),
            None => emphasis_label_exec(
                self.full_content.as_str(),
                &search_query,
                selected,
                false,
                plain.as_str(),
            ),
        };
        self.row_label = label;
    }

    /// The detail view: the whole text, with the matches of `search_query`
    /// emphasized.
    pub fn create_more_info_widget(&self, _width: i32, _height: i32, search_query: Option<String>) -> (r:
        DetailView)
        ensures
            r@ == self@.detail_for(opt_view(search_query)),
    {
        let text = emphasis_label_exec(
            self.full_content.as_str(),
            &search_query,
            false,
            false,
            self.full_content.as_str(),
        );
        DetailView::Label { text, is_error: false }
    }

    /// What copying asks of the backend: to select this entry; nothing when
    /// only a path is wanted, since a text has none.
    pub fn copy_to_clipboard(&self, copy_path: bool) -> (r: CopyRequest)
        ensures
            copy_path ==> r is Nothing,
            !copy_path ==> (r matches CopyRequest::Select(id) && id@ == self@.id),
    {
        if copy_path {
            CopyRequest::Nothing
        } else {
            CopyRequest::Select(self.uuid.clone())
        }
    }

    /// How to open the text outside: written to a temporary file first.
    pub fn open_in_external_app(&self) -> (r: OpenRequest)
        ensures
            r matches OpenRequest::OpenText(t) && t@ == self@.content,
    {
        OpenRequest::OpenText(self.full_content.clone())
    }
}

/// The text put before the reason why a file could not be read.
pub const READ_ERROR_PREFIX: &'static str = "Error reading file: ";

/// A file entry, as a value.
pub struct FileEntryView {
    pub id: Seq<char>,
    pub path: Seq<char>,
    pub content: Result<Seq<char>, Seq<char>>,
    pub label: LabelView,
}

impl FileEntryView {
    /// The row's label for a search query: the path, matches emphasized.
    pub open spec fn label_for(self, query: Option<Seq<char>>, selected: bool) -> LabelView {
        emphasis_label(self.path, query, selected, Seq::empty(), self.path)
    }

    /// The detail view: the file's text, or why it could not be read.
    pub open spec fn detail_for(self) -> DetailModel {
        match self.content {
            Ok(c) => DetailModel::Label { text: LabelView::Plain(c), is_error: false },
            Err(e) => DetailModel::Label { text: LabelView::Plain(e), is_error: true },
        }
    }
}

/// An entry of copied files.
pub struct ClipboardFileEntry {
    file_path: String,
    uuid: String,
    file_content: Result<String, String>,
    folded_path: Vec<char>,
    row_label: RowLabel,
}

impl View for ClipboardFileEntry {
    type V = FileEntryView;

    closed spec fn view(&self) -> FileEntryView {
        FileEntryView {
            id: self.uuid@,
            path: self.file_path@,
            content: match self.file_content {
                Ok(c) => Ok(c@),
                Err(e) => Err(e@),
            },
            label: self.row_label@,
        }
    }
}

impl ClipboardFileEntry {
    /// The stored forms agree: the folded path is the path folded.
    pub closed spec fn wf(&self) -> bool {
        self.folded_path@ == fold(self.file_path@)
    }

    /// An entry for the file at `file_path`; `read` is its text, or why it could
    /// not be read.
    pub fn new(file_path: String, uuid: String, read: Result<String, String>) -> (r: Self)
        ensures
            r.wf(),
            r@.id == uuid@,
            r@.path == file_path@,
            r@.content == match read {
                Ok(c) => Ok(c@),
                Err(e) => Err(READ_ERROR_PREFIX@ + e@),
            },
            r@.label == LabelView::Plain(file_path@),
    {
        let file_content = match read {
            Ok(c) => Ok(c),
            Err(e) => {
                let mut msg = String::from_str(READ_ERROR_PREFIX);
                msg.append(e.as_str());
                Err(msg)
            },
        };
        let folded_path = fold_str(file_path.as_str());
        let row_label = RowLabel::Plain(file_path.clone());
        ClipboardFileEntry { file_path, uuid, file_content, folded_path, row_label }
    }

    /// The row's label, the same on every call until a highlight changes it.
    pub fn get_row(&self) -> (r: &RowLabel)
        ensures
            r@ == self@.label,
    {
        &self.row_label
    }

    /// The entry's identifier in the backend.
    pub fn uuid(&self) -> (r: &str)
        ensures
            r@ == self@.id,
    {
        self.uuid.as_str()
    }

    /// The file's path.
    pub fn path(&self) -> (r: &str)
        ensures
            r@ == self@.path,
    {
        self.file_path.as_str()
    }

    /// Whether the path holds `search_text`, ignoring case.
    pub fn contains_text(&self, search_text: &str) -> (r: bool)
        requires
            self.wf(),
        ensures
            r == contains(fold(self@.path), fold(search_text@)),
    {
        let q = fold_str(search_text);
        contains_folded(&self.folded_path, &q)
    }

    /// Emphasizes the matches of `search_query` in the path shown in the row.
    pub fn set_highlight_in_row(&mut self, search_query: Option<String>, selected: bool)
        requires
            old(self).wf(),
        ensures
            final(self).wf(),
            final(self)@ == (FileEntryView {
                label: old(self)@.label_for(opt_view(search_query), selected),
                ..old(self)@
            }),
    {
        let label = emphasis_label_exec(
            self.file_path.as_str(),
            &search_query,
            selected,
            false,
            self.file_path.as_str(),
        );
        self.row_label = label;
    }

    /// The detail view: the file's text, or the reason it could not be read,
    /// marked as an error.
    pub fn create_more_info_widget(&self, _width: i32, _height: i32, _search_query: Option<String>) -> (r:
        DetailView)
        ensures
            r@ == self@.detail_for(),
    {
        match &self.file_content {
            Ok(c) => DetailView::Label { text: RowLabel::Plain(c.clone()), is_error: false },
            Err(e) => DetailView::Label { text: RowLabel::Plain(e.clone()), is_error: true },
        }
    }

    /// What copying asks of the backend: to select this entry, or to add its
    /// path as text when only the path is wanted.
    pub fn copy_to_clipboard(&self, copy_path: bool) -> (r: CopyRequest)
        ensures
            copy_path ==> (r matches CopyRequest::AddText(t) && t@ == self@.path),
            !copy_path ==> (r matches CopyRequest::Select(id) && id@ == self@.id),
    {
        if copy_path {
            CopyRequest::AddText(self.file_path.clone())
        } else {
            CopyRequest::Select(self.uuid.clone())
        }
    }

    /// How to open the file outside: by its path.
    pub fn open_in_external_app(&self) -> (r: OpenRequest)
        ensures
            r matches OpenRequest::OpenPath(p) && p@ == self@.path,
    {
        OpenRequest::OpenPath(self.file_path.clone())
    }
}

/// An image entry, as a value.
pub struct ImageEntryView {
    pub id: Seq<char>,
    pub path: Seq<char>,
    pub info: ImageInfo,
    pub size_text: Seq<char>,
    pub dimensions_text: Seq<char>,
    pub extension_text: Seq<char>,
}

impl ImageEntryView {
    /// The detail view: the picture at the given bounds, or nothing when it
    /// could not be decoded.
    pub open spec fn detail_for(self, width: i32, height: i32) -> DetailModel {
        if self.info.dimensions is Some {
            DetailModel::Picture { path: self.path, width, height }
        } else {
            DetailModel::Nothing
        }
    }
}

/// An entry of a copied image.
pub struct ClipboardImageEntry {
    image_path: String,
    uuid: String,
    info: ImageInfo,
    folded_path: Vec<char>,
    summary: ImageSummary,
}

impl View for ClipboardImageEntry {
    type V = ImageEntryView;

    closed spec fn view(&self) -> ImageEntryView {
        ImageEntryView {
            id: self.uuid@,
            path: self.image_path@,
            info: self.info,
            size_text: self.summary.size_text@,
            dimensions_text: self.summary.dimensions_text@,
            extension_text: self.summary.extension_text@,
        }
    }
}

impl ClipboardImageEntry {
    /// The stored forms agree: the folded path is the path folded.
    pub closed spec fn wf(&self) -> bool {
        self.folded_path@ == fold(self.image_path@)
    }

    /// An entry for the image at `image_path`, of which `info` is what could be
    /// read; its row describes size, dimensions and extension.
    pub fn new(image_path: String, uuid: String, info: ImageInfo) -> (r: Self)
        ensures
            r.wf(),
            r@.id == uuid@,
            r@.path == image_path@,
            r@.info == info,
            r@.size_text == size_text(info.file_size),
            r@.dimensions_text == dimensions_text(info.dimensions),
            r@.extension_text == extension_text(image_path@),
    {
        let summary = image_summary(image_path.as_str(), info);
        let folded_path = fold_str(image_path.as_str());
        ClipboardImageEntry { image_path, uuid, info, folded_path, summary }
    }

    /// The row's description, the same on every call.
    pub fn get_row(&self) -> (r: &ImageSummary)
        ensures
            r.size_text@ == self@.size_text,
            r.dimensions_text@ == self@.dimensions_text,
            r.extension_text@ == self@.extension_text,
    {
        &self.summary
    }

    /// The entry's identifier in the backend.
    pub fn uuid(&self) -> (r: &str)
        ensures
            r@ == self@.id,
    {
        self.uuid.as_str()
    }

    /// The image's path.
    pub fn path(&self) -> (r: &str)
        ensures
            r@ == self@.path,
    {
        self.image_path.as_str()
    }

    /// What could be read of the image file.
    pub fn info(&self) -> (r: ImageInfo)
        ensures
            r == self@.info,
    {
        self.info
    }

    /// Whether the path holds `search_text`, ignoring case.
    pub fn contains_text(&self, search_text: &str) -> (r: bool)
        requires
            self.wf(),
        ensures
            r == contains(fold(self@.path), fold(search_text@)),
    {
        let q = fold_str(search_text);
        contains_folded(&self.folded_path, &q)
    }

    /// The detail view: the picture drawn within `width` by `height`, or
    /// nothing when it could not be decoded.
    pub fn create_more_info_widget(&self, width: i32, height: i32, _search_query: Option<String>) -> (r:
        DetailView)
        ensures
            r@ == self@.detail_for(width, height),
    {
        if self.info.dimensions.is_some() {
            DetailView::Picture { path: self.image_path.clone(), width, height }
        } else {
            DetailView::Nothing
        }
    }

    /// What copying asks of the backend: to select this entry, or to add its
    /// path as text when only the path is wanted.
    pub fn copy_to_clipboard(&self, copy_path: bool) -> (r: CopyRequest)
        ensures
            copy_path ==> (r matches CopyRequest::AddText(t) && t@ == self@.path),
            !copy_path ==> (r matches CopyRequest::Select(id) && id@ == self@.id),
    {
        if copy_path {
            CopyRequest::AddText(self.image_path.clone())
        } else {
            CopyRequest::Select(self.uuid.clone())
        }
    }

    /// How to open the image outside: by its path.
    pub fn open_in_external_app(&self) -> (r: OpenRequest)
        ensures
            r matches OpenRequest::OpenPath(p) && p@ == self@.path,
    {
        OpenRequest::OpenPath(self.image_path.clone())
    }
}

/// What copying an entry asks of the backend, as a value.
pub enum CopyModel {
    Nothing,
    Select(Seq<char>),
    AddText(Seq<char>),
}

impl View for CopyRequest {
    type V = CopyModel;

    open spec fn view(&self) -> CopyModel {
        match self {
            CopyRequest::Nothing => CopyModel::Nothing,
            CopyRequest::Select(id) => CopyModel::Select(id@),
            CopyRequest::AddText(t) => CopyModel::AddText(t@),
        }
    }
}

/// How an entry is opened outside, as a value.
pub enum OpenModel {
    OpenPath(Seq<char>),
    OpenText(Seq<char>),
}

impl View for OpenRequest {
    type V = OpenModel;

    open spec fn view(&self) -> OpenModel {
        match self {
            OpenRequest::OpenPath(p) => OpenModel::OpenPath(p@),
            OpenRequest::OpenText(t) => OpenModel::OpenText(t@),
        }
    }
}

/// What a row shows, as a value.
pub enum RowModel {
    Label(LabelView),
    Image { size_text: Seq<char>, dimensions_text: Seq<char>, extension_text: Seq<char> },
}

/// What a row shows: a label, or the description of an image.
#[derive(Debug)]
pub enum RowView {
    Label(RowLabel),
    Image { size_text: String, dimensions_text: String, extension_text: String },
}

impl View for RowView {
    type V = RowModel;

    open spec fn view(&self) -> RowModel {
        match self {
            RowView::Label(l) => RowModel::Label(l@),
            RowView::Image { size_text, dimensions_text, extension_text } => RowModel::Image {
                size_text: size_text@,
                dimensions_text: dimensions_text@,
                extension_text: extension_text@,
            },
        }
    }
}

/// A clipboard entry, as a value.
pub enum EntryView {
    Text(TextEntryView),
    Image(ImageEntryView),
    File(FileEntryView),
}

impl EntryView {
    /// The identifier in the backend.
    pub open spec fn id(self) -> Seq<char> {
        match self {
            EntryView::Text(t) => t.id,
            EntryView::Image(i) => i.id,
            EntryView::File(f) => f.id,
        }
    }

    /// The text that searches look in: a text's content, a path otherwise.
    pub open spec fn search_text(self) -> Seq<char> {
        match self {
            EntryView::Text(t) => t.content,
            EntryView::Image(i) => i.path,
            EntryView::File(f) => f.path,
        }
    }

    /// The entry matches `query`: its search text holds it, ignoring case.
    pub open spec fn matches(self, query: Seq<char>) -> bool {
        contains(fold(self.search_text()), fold(query))
    }

    /// The entry once its row is highlighted for `query`; an image's row
    /// shows no text to highlight.
    pub open spec fn highlighted_for(self, query: Option<Seq<char>>, selected: bool) -> EntryView {
        match self {
            EntryView::Text(t) => EntryView::Text(
                TextEntryView { label: t.label_for(query, selected), ..t },
            ),
            EntryView::Image(i) => EntryView::Image(i),
            EntryView::File(f) => EntryView::File(
                FileEntryView { label: f.label_for(query, selected), ..f },
            ),
        }
    }

    /// The row shows no emphasis.
    pub open spec fn is_plain(self) -> bool {
        self == self.highlighted_for(None, false)
    }

    /// What the row shows.
    pub open spec fn row(self) -> RowModel {
        match self {
            EntryView::Text(t) => RowModel::Label(t.label),
            EntryView::Image(i) => RowModel::Image {
                size_text: i.size_text,
                dimensions_text: i.dimensions_text,
                extension_text: i.extension_text,
            },
            EntryView::File(f) => RowModel::Label(f.label),
        }
    }

    /// The detail view at the given bounds.
    pub open spec fn detail_for(self, width: i32, height: i32, query: Option<Seq<char>>) -> DetailModel {
        match self {
            EntryView::Text(t) => t.detail_for(query),
            EntryView::Image(i) => i.detail_for(width, height),
            EntryView::File(f) => f.detail_for(),
        }
    }

    /// What copying asks of the backend.
    pub open spec fn copy_for(self, copy_path: bool) -> CopyModel {
        match self {
            EntryView::Text(t) => if copy_path {
                CopyModel::Nothing
            } else {
                CopyModel::Select(t.id)
            },
            EntryView::Image(i) => if copy_path {
                CopyModel::AddText(i.path)
            } else {
                CopyModel::Select(i.id)
            },
            EntryView::File(f) => if copy_path {
                CopyModel::AddText(f.path)
            } else {
                CopyModel::Select(f.id)
            },
        }
    }

    /// How the entry is opened outside.
    pub open spec fn open_for(self) -> OpenModel {
        match self {
            EntryView::Text(t) => OpenModel::OpenText(t.content),
            EntryView::Image(i) => OpenModel::OpenPath(i.path),
            EntryView::File(f) => OpenModel::OpenPath(f.path),
        }
    }
}

/// A clipboard entry of any kind.
pub enum ClipboardEntry {
    Text(ClipboardTextEntry),
    Image(ClipboardImageEntry),
    File(ClipboardFileEntry),
}

impl View for ClipboardEntry {
    type V = EntryView;

    open spec fn view(&self) -> EntryView {
        match self {
            ClipboardEntry::Text(e) => EntryView::Text(e@),
            ClipboardEntry::Image(e) => EntryView::Image(e@),
            ClipboardEntry::File(e) => EntryView::File(e@),
        }
    }
}

impl ClipboardEntry {
    /// The entry's stored forms agree.
    pub open spec fn wf(&self) -> bool {
        match self {
            ClipboardEntry::Text(e) => e.wf(),
            ClipboardEntry::Image(e) => e.wf(),
            ClipboardEntry::File(e) => e.wf(),
        }
    }

    /// The row: what it shows is the same on every call until a highlight
    /// changes it.
    pub fn get_row(&self) -> (r: RowView)
        ensures
            r@ == self@.row(),
    {
        match self {
            ClipboardEntry::Text(e) => RowView::Label(e.get_row().duplicate()),
            ClipboardEntry::Image(e) => {
                let s = e.get_row();
                RowView::Image {
                    size_text: s.size_text.clone(),
                    dimensions_text: s.dimensions_text.clone(),
                    extension_text: s.extension_text.clone(),
                }
            },
            ClipboardEntry::File(e) => RowView::Label(e.get_row().duplicate()),
        }
    }

    /// The entry's identifier in the backend.
    pub fn uuid(&self) -> (r: &str)
        ensures
            r@ == self@.id(),
    {
        match self {
            ClipboardEntry::Text(e) => e.uuid(),
            ClipboardEntry::Image(e) => e.uuid(),
            ClipboardEntry::File(e) => e.uuid(),
        }
    }

    /// Whether the entry's search text holds `search_text`, ignoring case.
    pub fn contains_text(&self, search_text: &str) -> (r: bool)
        requires
            self.wf(),
        ensures
            r == self@.matches(search_text@),
    {
        match self {
            ClipboardEntry::Text(e) => e.contains_text(search_text),
            ClipboardEntry::Image(e) => e.contains_text(search_text),
            ClipboardEntry::File(e) => e.contains_text(search_text),
        }
    }

    /// Emphasizes the matches of `search_query` in the row; `selected` picks the
    /// colors of the selected row.
    pub fn set_highlight_in_row(&mut self, search_query: Option<String>, selected: bool)
        requires
            old(self).wf(),
        ensures
            final(self).wf(),
            final(self)@ == old(self)@.highlighted_for(opt_view(search_query), selected),
    {
        match self {
            ClipboardEntry::Text(e) => e.set_highlight_in_row(search_query, selected),
            ClipboardEntry::Image(_) => {},
            ClipboardEntry::File(e) => e.set_highlight_in_row(search_query, selected),
        }
    }

    /// The detail view, drawn within `width` by `height`, with the matches of
    /// `search_query` emphasized where the entry shows text.
    pub fn create_more_info_widget(&self, width: i32, height: i32, search_query: Option<String>) -> (r:
        DetailView)
        ensures
            r@ == self@.detail_for(width, height, opt_view(search_query)),
    {
        match self {
            ClipboardEntry::Text(e) => e.create_more_info_widget(width, height, search_query),
            ClipboardEntry::Image(e) => e.create_more_info_widget(width, height, search_query),
            ClipboardEntry::File(e) => e.create_more_info_widget(width, height, search_query),
        }
    }

    /// What copying the entry asks of the backend.
    pub fn copy_to_clipboard(&self, copy_path: bool) -> (r: CopyRequest)
        ensures
            r@ == self@.copy_for(copy_path),
    {
        match self {
            ClipboardEntry::Text(e) => e.copy_to_clipboard(copy_path),
            ClipboardEntry::Image(e) => e.copy_to_clipboard(copy_path),
            ClipboardEntry::File(e) => e.copy_to_clipboard(copy_path),
        }
    }

    /// How the entry is opened outside.
    pub fn open_in_external_app(&self) -> (r: OpenRequest)
        ensures
            r@ == self@.open_for(),
    {
        match self {
            ClipboardEntry::Text(e) => e.open_in_external_app(),
            ClipboardEntry::Image(e) => e.open_in_external_app(),
            ClipboardEntry::File(e) => e.open_in_external_app(),
        }
    }
}

} // verus!
