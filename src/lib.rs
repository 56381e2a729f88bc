//! Line search over a text: the lines that hold a query, exactly or ignoring case,
//! with each occurrence of the query highlighted.
use vstd::prelude::*;

pub mod text;
pub mod matching;
pub mod search;
pub mod laws;

pub use matching::render_line;
pub use search::{search, search_case_insensitive, search_config, search_lines, Config};
pub use text::split_lines;

verus! {

} // verus!
