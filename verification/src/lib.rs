//! The story list of a Hacker News terminal client: the numbered list of
//! stories, the keys that move through it, the paging between story tags, and
//! the code that the configuration derive writes.

use vstd::prelude::*;

pub mod config_parser;
pub mod decimal;
pub mod story;
pub mod story_view;
pub mod story_page;

verus! {

/// Number of stories shown on one page.
pub const STORY_LIMIT: usize = 20;

} // verus!
