pub mod alt_pattern;
pub mod any_pattern;
pub mod char_pattern;
pub mod lit_pattern;
pub mod repeat_pattern;
