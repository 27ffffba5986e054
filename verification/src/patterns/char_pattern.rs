use vstd::prelude::*;

verus! {

use crate::read_pattern::{lemma_encode_utf8_empty, lemma_first_scalar_bounds, utf8_first_len};
use crate::read_pattern::ReadPattern;
use vstd::string::StringSliceAdditionalSpecFns;
use vstd::utf8::{decode_utf8, length_of_first_scalar};

/// Matches one fixed character, consuming exactly its byte length;
/// fails when the text is empty or starts with a different character.
#[derive(Copy, Clone, Debug)]
pub struct CharPattern {
    /// The character the pattern matches.
    pub ch: char,
}

impl ReadPattern for CharPattern {
    open spec fn wf(&self) -> bool {
        true
    }

    open spec fn consumes(&self) -> bool {
        true
    }

    open spec fn spec_read(&self, s: Seq<u8>) -> Option<int> {
        if decode_utf8(s).len() > 0 && decode_utf8(s)[0] == self.ch {
            Some(length_of_first_scalar(s))
        } else {
            None
        }
    }

    proof fn lemma_read_bounds(&self, s: Seq<u8>) {
        if decode_utf8(s).len() > 0 {
            assert(s.len() > 0);
            lemma_first_scalar_bounds(s);
        }
    }

    fn read_pattern(&self, text: &str) -> (r: Option<usize>) {
        proof {
            lemma_encode_utf8_empty(text@);
            vstd::utf8::encode_utf8_valid_utf8(text@);
            vstd::utf8::encode_utf8_decode_utf8(text@);
        }
        let mut it = text.chars();
        match it.next() {
            Some(c) => if c == self.ch {
                Some(utf8_first_len(text))
            } else {
                None
            },
            None => None,
        }
    }
}

} // verus!
