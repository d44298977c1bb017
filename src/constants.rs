//! Sizes and batch lengths of the window.

use vstd::prelude::*;

verus! {

/// Height of the window.
pub const APP_HEIGHT: i32 = 600;

/// Width of the list of entries.
pub const ENTRIES_WIDTH: i32 = 400;

/// Width of the detail panel at its normal size.
pub const INFO_BOX_WIDTH: i32 = 500;

/// Width of the detail panel at its big size.
pub const INFO_BOX_BIG_WIDTH: i32 = 1000;

/// Height of the detail panel at its big size.
pub const INFO_BOX_BIG_HEIGHT: i32 = 800;

/// How many history records the first load reads.
pub const INITIAL_ENTRIES: usize = 20;

/// How many history records the full load reads.
pub const MAX_ENTRIES: usize = 1000;

/// Largest height of an image in a row.
pub const ROW_IMAGE_MAX_HEIGHT: i32 = 100;

/// Most lines of text that a row shows.
pub const ROW_TEXT_MAX_LINES: u32 = 3;

} // verus!
