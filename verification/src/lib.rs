//! Composable pattern matchers for building lexical scanners.
//!
//! A [`ReadPattern`] recognises a prefix of a text and reports how many
//! bytes it consumes; patterns combine through alternation and bounded
//! repetition.  A [`Parse`] matcher additionally classifies its match
//! into a token value, and a [`ParseIterator`] drives such a matcher
//! across a text, yielding each token with its starting byte offset, or
//! the offset at which no pattern matched.

mod read_pattern;
mod patterns;
mod lexer;
mod parse;

pub use read_pattern::ReadPattern;
pub use parse::Parse;
pub use parse::ParseIterator;
pub use parse::ParseResult;
pub use parse::result_offset;
pub use parse::spec_scan;
pub use parse::spec_scan_end;
pub use parse::lemma_scan_first;
pub use parse::lemma_scan_offsets;
pub use parse::lemma_scan_terminal;
pub use patterns::any_pattern::AnyPattern;
pub use patterns::any_pattern::ANY;
pub use patterns::any_pattern::lemma_any_consumes_first_char;
pub use patterns::char_pattern::CharPattern;
pub use patterns::lit_pattern::LitPattern;
pub use patterns::lit_pattern::lit;
pub use patterns::repeat_pattern::Repeat;
pub use patterns::repeat_pattern::repeat;
pub use patterns::repeat_pattern::spec_greedy;
pub use patterns::repeat_pattern::lemma_repeat_greedy;
pub use patterns::alt_pattern::Alt;
pub use patterns::alt_pattern::alternate;
pub use patterns::alt_pattern::lemma_alternate_left_bias;
pub use patterns::alt_pattern::lemma_alternate_token_left_bias;
pub use lexer::Lex;
pub use lexer::lex;
pub use lexer::lex_pattern;
pub use lexer::lemma_lex_token;
