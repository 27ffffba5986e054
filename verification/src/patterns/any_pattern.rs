use vstd::prelude::*;

verus! {

use crate::read_pattern::{lemma_encode_utf8_empty, lemma_first_scalar_bounds, utf8_first_len};
use crate::read_pattern::ReadPattern;
use vstd::string::StringSliceAdditionalSpecFns;
use vstd::utf8::{encode_scalar, encode_utf8, length_of_first_scalar};

/// Matches any single character, consuming exactly the byte length of the
/// first character of the text; fails only on empty input.
#[derive(Copy, Clone, Debug)]
pub struct AnyPattern;

/// The any-character pattern.
pub const ANY: AnyPattern = AnyPattern;

impl ReadPattern for AnyPattern {
    open spec fn wf(&self) -> bool {
        true
    }

    open spec fn consumes(&self) -> bool {
        true
    }

    open spec fn spec_read(&self, s: Seq<u8>) -> Option<int> {
        if s.len() == 0 {
            None
        } else {
            Some(length_of_first_scalar(s))
        }
    }

    proof fn lemma_read_bounds(&self, s: Seq<u8>) {
        if s.len() > 0 {
            lemma_first_scalar_bounds(s);
        }
    }

    fn read_pattern(&self, text: &str) -> (r: Option<usize>) {
        proof {
            lemma_encode_utf8_empty(text@);
        }
        if text.is_empty() {
            None
        } else {
            Some(utf8_first_len(text))
        }
    }
}

/// Law: on a text of no characters the any-character pattern fails, and
/// on any other text it consumes exactly the byte length of the encoding
/// of the text's first character, whatever that character is.
pub proof fn lemma_any_consumes_first_char(chars: Seq<char>)
    ensures
        chars.len() == 0 ==> (AnyPattern).spec_read(encode_utf8(chars)) is None,
        chars.len() > 0 ==> (AnyPattern).spec_read(encode_utf8(chars)) == Some(
            encode_scalar(chars[0] as u32).len() as int,
        ),
{
    lemma_encode_utf8_empty(chars);
    if chars.len() > 0 {
        vstd::utf8::encode_utf8_first_scalar(chars);
    }
}

} // verus!
