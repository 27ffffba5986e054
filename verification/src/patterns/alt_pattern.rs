use vstd::prelude::*;

verus! {

use crate::parse::Parse;
use crate::read_pattern::ReadPattern;

/// Alternation of two matchers: tries `first`, and only when it fails
/// tries `second` at the same position.  Left-biased by design: when both
/// would match, `first` wins, whatever `second` would have consumed.
#[derive(Copy, Clone, Debug)]
pub struct Alt<A, B> {
    /// The matcher tried first.
    pub first: A,
    /// The matcher tried when `first` fails.
    pub second: B,
}

/// Builds the alternation `first | second`.
pub fn alternate<A, B>(first: A, second: B) -> (p: Alt<A, B>)
    ensures
        p.first == first,
        p.second == second,
{
    Alt { first, second }
}

impl<A: ReadPattern, B: ReadPattern> ReadPattern for Alt<A, B> {
    open spec fn wf(&self) -> bool {
        self.first.wf() && self.second.wf()
    }

    open spec fn consumes(&self) -> bool {
        self.first.consumes() && self.second.consumes()
    }

    open spec fn spec_read(&self, s: Seq<u8>) -> Option<int> {
        if self.first.spec_read(s) is Some {
            self.first.spec_read(s)
        } else {
            self.second.spec_read(s)
        }
    }

    proof fn lemma_read_bounds(&self, s: Seq<u8>) {
        self.first.lemma_read_bounds(s);
        self.second.lemma_read_bounds(s);
    }

    fn read_pattern(&self, text: &str) -> (r: Option<usize>) {
        match self.first.read_pattern(text) {
            Some(n) => Some(n),
            None => self.second.read_pattern(text),
        }
    }
}

impl<A: Parse, B: Parse<Token = A::Token>> Parse for Alt<A, B> {
    type Token = A::Token;

    open spec fn wf(&self) -> bool {
        self.first.wf() && self.second.wf()
    }

    open spec fn spec_parse(&self, s: Seq<u8>) -> Option<(A::Token, int)> {
        if self.first.spec_parse(s) is Some {
            self.first.spec_parse(s)
        } else {
            self.second.spec_parse(s)
        }
    }

    proof fn lemma_parse_bounds(&self, s: Seq<u8>) {
        self.first.lemma_parse_bounds(s);
        self.second.lemma_parse_bounds(s);
    }

    fn parse(&self, text: &str) -> (r: Option<(A::Token, usize)>) {
        match self.first.parse(text) {
            Some(p) => Some(p),
            None => self.second.parse(text),
        }
    }
}

/// Law: alternation matches exactly when one of its arms matches, and is
/// left-biased: it returns whatever `first` returns whenever `first`
/// matches, and otherwise whatever `second` returns.
pub proof fn lemma_alternate_left_bias<A: ReadPattern, B: ReadPattern>(p: Alt<A, B>, s: Seq<u8>)
    ensures
        p.spec_read(s) is Some <==> (p.first.spec_read(s) is Some || p.second.spec_read(s)
            is Some),
        p.first.spec_read(s) is Some ==> p.spec_read(s) == p.first.spec_read(s),
        p.first.spec_read(s) is None ==> p.spec_read(s) == p.second.spec_read(s),
{
}

/// Law: alternation of tokenizing matchers matches exactly when one of its
/// arms matches, and the first arm decides the token whenever it matches.
pub proof fn lemma_alternate_token_left_bias<A: Parse, B: Parse<Token = A::Token>>(
    p: Alt<A, B>,
    s: Seq<u8>,
)
    ensures
        p.spec_parse(s) is Some <==> (p.first.spec_parse(s) is Some || p.second.spec_parse(s)
            is Some),
        p.first.spec_parse(s) is Some ==> p.spec_parse(s) == p.first.spec_parse(s),
        p.first.spec_parse(s) is None ==> p.spec_parse(s) == p.second.spec_parse(s),
{
}

} // verus!
