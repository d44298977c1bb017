//! Clipboard-history browsing: the entry model, the row index and the
//! incremental search engine behind a clipboard-history window.

pub mod app_state;
pub mod constants;
pub mod entry;
pub mod history;
pub mod keys;
pub mod lines;
pub mod loading;
pub mod markup;
pub mod navigation;
pub mod search;
pub mod summary;
pub mod text;
