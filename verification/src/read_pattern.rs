use vstd::prelude::*;

verus! {

use vstd::string::StringSliceAdditionalSpecFns;
use vstd::utf8::{
    encode_utf8, is_char_boundary, length_of_first_scalar, pop_first_scalar, valid_first_scalar,
    valid_utf8,
};

/// A pattern that recognises a prefix of a text.
///
/// `spec_read` is the mathematical meaning of the pattern: applied to the
/// UTF-8 bytes of a text, it gives the number of bytes a match consumes,
/// or `None` when the pattern does not occur at the front of the text.
/// The executable `read_pattern` must agree with it exactly.
///
/// Every match ends on a character boundary, so a match never splits a
/// multi-byte character; `lemma_read_bounds` obliges each implementation
/// to prove this.  A pattern with `consumes()` never succeeds without
/// consuming at least one byte; bounded repetition demands this of its
/// inner pattern so that greedy expansion makes progress.
pub trait ReadPattern: Sized {
    /// When the pattern is well formed and may be applied.
    spec fn wf(&self) -> bool;

    /// Whether every successful match consumes at least one byte.
    spec fn consumes(&self) -> bool;

    /// How many bytes the pattern consumes at the front of `s`,
    /// or `None` when it does not match there.
    spec fn spec_read(&self, s: Seq<u8>) -> Option<int>;

    /// A match consumes at most the whole text and ends on a character
    /// boundary; a consuming pattern consumes at least one byte.
    proof fn lemma_read_bounds(&self, s: Seq<u8>)
        requires
            self.wf(),
            valid_utf8(s),
        ensures
            self.spec_read(s) matches Some(n) ==> 0 <= n <= s.len() && is_char_boundary(s, n)
                && (self.consumes() ==> 0 < n),
    ;

    /// Applies the pattern to the front of `text`, returning how many
    /// bytes the match consumes, or `None` when it does not match.
    fn read_pattern(&self, text: &str) -> (r: Option<usize>)
        requires
            self.wf(),
        ensures
            r matches Some(n) ==> self.spec_read(text.spec_bytes()) == Some(n as int),
            r is None ==> self.spec_read(text.spec_bytes()) is None,
    ;

    /// Whether the pattern matches the whole of `text`, consuming every byte.
    fn test_pattern(&self, text: &str) -> (r: bool)
        requires
            self.wf(),
        ensures
            r == (self.spec_read(text.spec_bytes()) == Some(text.spec_bytes().len() as int)),
    {
        let bytes = text.as_bytes();
        match self.read_pattern(text) {
            Some(n) => n == bytes.len(),
            None => false,
        }
    }
}

/// The UTF-8 encoding of a text is empty exactly when the text has no characters.
pub proof fn lemma_encode_utf8_empty(chars: Seq<char>)
    ensures
        encode_utf8(chars).len() == 0 <==> chars.len() == 0,
{
    if chars.len() > 0 {
        vstd::utf8::encode_utf8_first_scalar(chars);
    }
}

/// The first character of a valid UTF-8 text occupies between one byte and
/// the whole text, and removing it lands on a character boundary.
pub proof fn lemma_first_scalar_bounds(s: Seq<u8>)
    requires
        valid_utf8(s),
        s.len() > 0,
    ensures
        0 < length_of_first_scalar(s) <= s.len(),
        is_char_boundary(s, length_of_first_scalar(s)),
{
    let n = length_of_first_scalar(s);
    assert(valid_first_scalar(s) && valid_utf8(pop_first_scalar(s))) by {
        reveal_with_fuel(valid_utf8, 2);
    }
    assert(0 < n <= s.len());
    assert(is_char_boundary(s, n)) by {
        reveal_with_fuel(is_char_boundary, 3);
        assert(pop_first_scalar(s) == s.subrange(n, s.len() as int));
    }
}

/// Character boundaries compose: a boundary of the suffix that starts at a
/// boundary of the whole text is itself a boundary of the whole text.
pub proof fn lemma_char_boundary_compose(s: Seq<u8>, i: int, j: int)
    requires
        valid_utf8(s),
        0 <= i <= s.len(),
        is_char_boundary(s, i),
        0 <= j <= s.len() - i,
        is_char_boundary(s.skip(i), j),
    ensures
        is_char_boundary(s, i + j),
{
    vstd::utf8::is_char_boundary_start_end_of_seq(s);
    if 0 < i + j < s.len() {
        vstd::utf8::valid_utf8_split(s, i);
        assert(s.skip(i) =~= s.subrange(i, s.len() as int));
        vstd::utf8::is_char_boundary_iff_not_is_continuation_byte(s.skip(i), j);
        vstd::utf8::is_char_boundary_iff_not_is_continuation_byte(s, i + j);
        assert(s.skip(i)[j] == s[i + j]);
    }
}

/// Reads the byte length of the first character of a non-empty text from
/// its leading byte.
pub(crate) fn utf8_first_len(text: &str) -> (n: usize)
    requires
        text@.len() > 0,
    ensures
        n as int == length_of_first_scalar(text.spec_bytes()),
        0 < n <= text.spec_bytes().len(),
        is_char_boundary(text.spec_bytes(), n as int),
{
    let bytes = text.as_bytes();
    proof {
        vstd::utf8::encode_utf8_valid_utf8(text@);
        vstd::utf8::encode_utf8_first_scalar(text@);
        lemma_first_scalar_bounds(text.spec_bytes());
    }
    let b = bytes[0];
    if b < 0x80 {
        1
    } else if b < 0xe0 {
        2
    } else if b < 0xf0 {
        3
    } else {
        4
    }
}

} // verus!
