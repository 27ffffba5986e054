use vstd::prelude::*;

verus! {

use crate::read_pattern::ReadPattern;
use vstd::string::StringSliceAdditionalSpecFns;
use vstd::utf8::{is_char_boundary, pop_first_scalar, valid_utf8};

/// A valid prefix of a valid UTF-8 text ends on a character boundary.
pub proof fn lemma_valid_prefix_boundary(s: Seq<u8>, k: int)
    requires
        valid_utf8(s),
        0 <= k <= s.len(),
        valid_utf8(s.subrange(0, k)),
    ensures
        is_char_boundary(s, k),
    decreases k,
{
    vstd::utf8::is_char_boundary_start_end_of_seq(s);
    if 0 < k < s.len() {
        let pre = s.subrange(0, k);
        let m = vstd::utf8::length_of_first_scalar(s);
        assert(valid_utf8(pop_first_scalar(s)) && valid_utf8(pop_first_scalar(pre))) by {
            reveal_with_fuel(valid_utf8, 2);
        }
        assert(vstd::utf8::length_of_first_scalar(pre) == m);
        assert(m <= k);
        let s2 = s.subrange(m, s.len() as int);
        assert(pop_first_scalar(s) =~= s2);
        assert(pop_first_scalar(pre) =~= s2.subrange(0, k - m));
        lemma_valid_prefix_boundary(s2, k - m);
        assert(is_char_boundary(s, k)) by {
            reveal_with_fuel(is_char_boundary, 2);
        }
    }
}

/// Matches one fixed text, consuming exactly its byte length; fails when
/// the input does not begin with that exact character sequence.
#[derive(Copy, Clone, Debug)]
pub struct LitPattern<'l> {
    /// The literal text the pattern matches.
    pub lit: &'l str,
}

/// Builds the pattern that matches the literal text `lit`.
pub fn lit<'l>(value: &'l str) -> (p: LitPattern<'l>)
    ensures
        p.lit == value,
{
    LitPattern { lit: value }
}

impl<'l> ReadPattern for LitPattern<'l> {
    open spec fn wf(&self) -> bool {
        true
    }

    open spec fn consumes(&self) -> bool {
        self.lit.spec_bytes().len() > 0
    }

    open spec fn spec_read(&self, s: Seq<u8>) -> Option<int> {
        let l = self.lit.spec_bytes().len() as int;
        if s.len() >= l && s.subrange(0, l) == self.lit.spec_bytes() {
            Some(l)
        } else {
            None
        }
    }

    proof fn lemma_read_bounds(&self, s: Seq<u8>) {
        let l = self.lit.spec_bytes().len() as int;
        if s.len() >= l && s.subrange(0, l) == self.lit.spec_bytes() {
            vstd::utf8::encode_utf8_valid_utf8(self.lit@);
            lemma_valid_prefix_boundary(s, l);
        }
    }

    fn read_pattern(&self, text: &str) -> (r: Option<usize>) {
        let lit_bytes = self.lit.as_bytes();
        let text_bytes = text.as_bytes();
        let l = lit_bytes.len();
        if l > text_bytes.len() {
            return None;
        }
        let mut i: usize = 0;
        while i < l
            invariant
                i <= l == lit_bytes@.len() <= text_bytes@.len(),
                lit_bytes@ == self.lit.spec_bytes(),
                text_bytes@ == text.spec_bytes(),
                forall|j: int| 0 <= j < i ==> text_bytes@[j] == lit_bytes@[j],
            decreases l - i,
        {
            if text_bytes[i] != lit_bytes[i] {
                proof {
                    let j = i as int;
                    assert(text.spec_bytes().subrange(0, l as int)[j] == text_bytes@[j]);
                }
                return None;
            }
            i = i + 1;
        }
        proof {
            assert(text.spec_bytes().subrange(0, l as int) =~= self.lit.spec_bytes());
        }
        Some(l)
    }
}

} // verus!
