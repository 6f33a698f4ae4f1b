//! Searches the lines of a text for a term, the way `grep` does, with fewer
//! features.

mod error;
mod params;
mod search;
mod text;

pub use error::{message_of, GrepError, IoCause};
pub use params::{
    arg_views, enough_params, filename_of, first_word, has_flag, has_two_tokens, is_flag,
    join_words, term_of, SearchParams,
};
pub use search::{folded, lemma_search_deterministic, line_matches, match_test, matching_lines, search};
pub use text::{
    contains, ending_len, is_line_break, line_end, lines_of, lower_of, occurs_in, split_lines,
    views_of,
};
