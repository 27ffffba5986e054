use vstd::prelude::*;

verus! {

use crate::parse::Parse;
use crate::patterns::char_pattern::CharPattern;
use crate::read_pattern::ReadPattern;

/// A tokenizing matcher: a pattern paired with the fixed token value it
/// produces on a successful match.  The pattern must consume at least one
/// byte on success, so that a scan over it always advances.
#[derive(Copy, Clone, Debug)]
pub struct Lex<P, T> {
    /// The pattern that recognises the token's text.
    pub pattern: P,
    /// The token value produced when the pattern matches.
    pub token: T,
}

/// Builds a tokenizing matcher that recognises the single character `ch`
/// and produces `token`.
pub fn lex<T: Copy>(ch: char, token: T) -> (l: Lex<CharPattern, T>)
    ensures
        l.pattern.ch == ch,
        l.token == token,
{
    Lex { pattern: CharPattern { ch }, token }
}

/// Builds a tokenizing matcher that recognises `pattern` and produces
/// `token`; `pattern` must consume input on every match.
pub fn lex_pattern<P: ReadPattern, T: Copy>(pattern: P, token: T) -> (l: Lex<P, T>)
    ensures
        l.pattern == pattern,
        l.token == token,
{
    Lex { pattern, token }
}

impl<P: ReadPattern, T: Copy> Parse for Lex<P, T> {
    type Token = T;

    open spec fn wf(&self) -> bool {
        self.pattern.wf() && self.pattern.consumes()
    }

    open spec fn spec_parse(&self, s: Seq<u8>) -> Option<(T, int)> {
        match self.pattern.spec_read(s) {
            Some(n) => Some((self.token, n)),
            None => None,
        }
    }

    proof fn lemma_parse_bounds(&self, s: Seq<u8>) {
        self.pattern.lemma_read_bounds(s);
    }

    fn parse(&self, text: &str) -> (r: Option<(T, usize)>) {
        match self.pattern.read_pattern(text) {
            Some(n) => Some((self.token, n)),
            None => None,
        }
    }
}

/// Law: a tokenizing matcher matches exactly where its pattern matches,
/// consumes exactly what its pattern consumes, and always produces its
/// fixed token value.
pub proof fn lemma_lex_token<P: ReadPattern, T: Copy>(l: Lex<P, T>, s: Seq<u8>)
    ensures
        l.spec_parse(s) is Some <==> l.pattern.spec_read(s) is Some,
        l.spec_parse(s) matches Some(q) ==> l.pattern.spec_read(s) == Some(q.1) && q.0 == l.token,
{
}

} // verus!
