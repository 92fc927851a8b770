//! Verified glue around the PartiQL parser: a host-language binding that turns
//! a parse outcome into a success text or an error message, and the report
//! that an interactive prompt prints for one line of input.
mod binding;
mod cli;
mod counts;
mod text;

pub use binding::{
    binding_result, binding_view, failure_message, failure_words, lemma_failure_message_names_failure,
    occurs_in, parse_outcome, parse_partiql, result_view, QueryError,
};
pub use cli::{lemma_report_ignores_surrounding_whitespace, line_report, query_report, report_line, report_view, PROMPT};
pub use counts::{
    any_word, ascii_letter_matches, char_at, clear_before, code_only, comment_ends_at, count_position,
    counts_fit, counts_usable, counts_usable_in, dashes_behind, depth_fits, digits_value, ends_token,
    group_starts_at, group_word, is_code, is_digit, is_digit_run, is_gap, is_word_char, letter_matches,
    lex_step, lexes_plainly, may_close, mode_at, next_significant, prev_significant, shortest_word,
    unusable_count, word_ends_at, LexMode,
};
pub use text::{is_whitespace_char, lemma_trim_idempotent, strip_back, strip_front, trim_query, trimmed};
