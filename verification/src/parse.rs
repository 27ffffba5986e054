use vstd::prelude::*;

verus! {

use crate::read_pattern::lemma_encode_utf8_empty;
use vstd::string::StringSliceAdditionalSpecFns;
use vstd::utf8::{is_char_boundary, valid_utf8};

/// One element of the token stream produced by a [`ParseIterator`].
#[derive(Copy, Clone, Debug, PartialEq)]
pub enum ParseResult<T> {
    /// A token recognised at the given byte offset of the input.
    Token(T, usize),
    /// No pattern matched at the given byte offset.  This is always the
    /// last element the iterator produces.
    UnexpectedAt(usize),
}

/// A matcher that, on success, classifies its match into a token value.
///
/// `spec_parse` is the mathematical meaning of the matcher: applied to the
/// UTF-8 bytes of a text it gives the token recognised at the front of the
/// text together with the number of bytes consumed, or `None` when no match
/// occurs there.  The executable `parse` must agree with it exactly.
///
/// A successful match always consumes at least one byte and ends on a
/// character boundary; `lemma_parse_bounds` obliges each implementation to
/// prove this, and it is what lets a [`ParseIterator`] always advance.
pub trait Parse: Sized {
    /// The classified value produced on a successful match.
    type Token;

    /// When the matcher is well formed and may be applied.
    spec fn wf(&self) -> bool;

    /// The token recognised at the front of `s` and the number of bytes
    /// consumed, or `None` when the matcher does not match there.
    spec fn spec_parse(&self, s: Seq<u8>) -> Option<(Self::Token, int)>;

    /// A match consumes at least one byte, at most the whole text, and
    /// ends on a character boundary.
    proof fn lemma_parse_bounds(&self, s: Seq<u8>)
        requires
            self.wf(),
            valid_utf8(s),
        ensures
            self.spec_parse(s) matches Some(p) ==> 0 < p.1 <= s.len() && is_char_boundary(s, p.1),
    ;

    /// Applies the matcher to the front of `text`, returning the token and
    /// how many bytes the match consumes, or `None` when it does not match.
    fn parse(&self, text: &str) -> (r: Option<(Self::Token, usize)>)
        requires
            self.wf(),
        ensures
            r matches Some(p) ==> self.spec_parse(text.spec_bytes()) == Some((p.0, p.1 as int)),
            r is None ==> self.spec_parse(text.spec_bytes()) is None,
    ;

    /// Builds an iterator that drives this matcher across `text` from the
    /// start, producing each recognised token with its byte offset.
    fn tokenize<'p, 't>(&'p self, text: &'t str) -> (it: ParseIterator<'p, 't, Self>)
        requires
            self.wf(),
        ensures
            it.wf(),
            it.parser == self,
            it.text() == text.spec_bytes(),
            it.pos() == 0,
            !it.ended(),
    {
        ParseIterator::new(self, text)
    }
}

/// The byte offset a scan element carries: where the token starts, or
/// where the failure was met.
pub open spec fn result_offset<T>(r: ParseResult<T>) -> int {
    match r {
        ParseResult::Token(_, off) => off as int,
        ParseResult::UnexpectedAt(off) => off as int,
    }
}

/// The whole stream a scan of `full` with `p` from byte offset `pos`
/// produces: one element per recognised token, and, when no match occurs
/// before the end of the text, a final element with the failure offset.
pub open spec fn spec_scan<P: Parse>(p: P, full: Seq<u8>, pos: int) -> Seq<ParseResult<P::Token>>
    decreases full.len() - pos,
{
    if !(0 <= pos <= full.len()) {
        seq![]
    } else {
        match p.spec_parse(full.skip(pos)) {
            Some(q) => if 0 < q.1 <= full.len() - pos {
                seq![ParseResult::Token(q.0, pos as usize)] + spec_scan(p, full, pos + q.1)
            } else {
                seq![]
            },
            None => if pos == full.len() {
                seq![]
            } else {
                seq![ParseResult::<P::Token>::UnexpectedAt(pos as usize)]
            },
        }
    }
}

/// The byte offset at which a scan of `full` with `p` from `pos` stops:
/// the end of the text when every position matched, or the first position
/// where no match occurred.
pub open spec fn spec_scan_end<P: Parse>(p: P, full: Seq<u8>, pos: int) -> int
    decreases full.len() - pos,
{
    if !(0 <= pos <= full.len()) {
        pos
    } else {
        match p.spec_parse(full.skip(pos)) {
            Some(q) => if 0 < q.1 <= full.len() - pos {
                spec_scan_end(p, full, pos + q.1)
            } else {
                pos
            },
            None => pos,
        }
    }
}

/// A scan's first element, when there is one, carries the offset the scan
/// started from.
pub proof fn lemma_scan_first<P: Parse>(p: P, full: Seq<u8>, pos: int)
    requires
        full.len() <= usize::MAX,
        0 <= pos <= full.len(),
    ensures
        spec_scan(p, full, pos).len() > 0 ==> result_offset(spec_scan(p, full, pos)[0]) == pos,
{
}

/// Law: a scan's elements chain together.  Each token element was
/// recognised by the matcher at the offset it carries, its consumed bytes
/// lie within the text, and the element after it carries the offset just
/// past them.  So the offset of each element is the sum of the consumed
/// lengths of the tokens before it, and the bytes those tokens consume
/// form, in order, the contiguous part of the text from where the scan
/// began.
pub proof fn lemma_scan_offsets<P: Parse>(p: P, full: Seq<u8>, pos: int, i: int)
    requires
        p.wf(),
        valid_utf8(full),
        full.len() <= usize::MAX,
        0 <= pos <= full.len(),
        is_char_boundary(full, pos),
        0 <= i < spec_scan(p, full, pos).len(),
    ensures
        ({
            let sc = spec_scan(p, full, pos);
            &&& result_offset(sc[0]) == pos
            &&& (sc[i] matches ParseResult::Token(t, off) ==> (p.spec_parse(
                full.skip(off as int),
            ) matches Some(q) && q.0 == t && pos <= off && off + q.1 <= full.len() && (i + 1
                < sc.len() ==> result_offset(sc[i + 1]) == off + q.1)))
        }),
    decreases i,
{
    let sc = spec_scan(p, full, pos);
    vstd::utf8::valid_utf8_split(full, pos);
    assert(full.skip(pos) =~= full.subrange(pos, full.len() as int));
    p.lemma_parse_bounds(full.skip(pos));
    match p.spec_parse(full.skip(pos)) {
        Some(q) => {
            let sc2 = spec_scan(p, full, pos + q.1);
            assert(sc == seq![ParseResult::Token(q.0, pos as usize)] + sc2);
            crate::read_pattern::lemma_char_boundary_compose(full, pos, q.1);
            if i == 0 {
                lemma_scan_first(p, full, pos + q.1);
            } else {
                lemma_scan_offsets(p, full, pos + q.1, i - 1);
                assert(sc[i] == sc2[i - 1]);
                assert(i + 1 < sc.len() ==> sc[i + 1] == sc2[i]);
            }
        },
        None => {},
    }
}

/// Law: a scan that reaches the end of the text produces token elements
/// only; one that stops short produces its token elements and then exactly
/// one failure element, carrying the offset where no match occurred, with
/// nothing after it — whatever would have matched at later positions.
pub proof fn lemma_scan_terminal<P: Parse>(p: P, full: Seq<u8>, pos: int)
    requires
        p.wf(),
        valid_utf8(full),
        full.len() <= usize::MAX,
        0 <= pos <= full.len(),
        is_char_boundary(full, pos),
    ensures
        ({
            let sc = spec_scan(p, full, pos);
            let stop = spec_scan_end(p, full, pos);
            &&& pos <= stop <= full.len()
            &&& p.spec_parse(full.skip(stop)) is None
            &&& (stop == full.len() ==> forall|i: int| 0 <= i < sc.len() ==> sc[i] is Token)
            &&& (stop < full.len() ==> sc.len() > 0 && sc.last()
                == ParseResult::<P::Token>::UnexpectedAt(stop as usize) && (forall|i: int|
                0 <= i < sc.len() - 1 ==> sc[i] is Token))
        }),
    decreases full.len() - pos,
{
    let sc = spec_scan(p, full, pos);
    let stop = spec_scan_end(p, full, pos);
    vstd::utf8::valid_utf8_split(full, pos);
    assert(full.skip(pos) =~= full.subrange(pos, full.len() as int));
    p.lemma_parse_bounds(full.skip(pos));
    match p.spec_parse(full.skip(pos)) {
        Some(q) => {
            let sc2 = spec_scan(p, full, pos + q.1);
            assert(sc == seq![ParseResult::Token(q.0, pos as usize)] + sc2);
            crate::read_pattern::lemma_char_boundary_compose(full, pos, q.1);
            lemma_scan_terminal(p, full, pos + q.1);
        },
        None => {},
    }
}

/// Drives a [`Parse`] matcher across a text, producing one [`ParseResult`]
/// per step: each recognised token with the byte offset where it starts,
/// or, when no pattern matches on remaining input, the offset of the
/// failure as the final element.
pub struct ParseIterator<'p, 't, P> {
    /// The matcher driven across the text.
    pub parser: &'p P,
    /// The unconsumed suffix of the text.
    pub rest: &'t str,
    /// How many bytes of the text have been consumed so far; the next
    /// token's starting offset.
    pub parsed_len: usize,
    /// Whether the stream has permanently ended.
    pub end: bool,
    /// The bytes of the whole text the iterator was built over.
    pub full: Ghost<Seq<u8>>,
}

impl<'p, 't, P> ParseIterator<'p, 't, P> {
    /// The UTF-8 bytes of the whole text being scanned.
    pub open spec fn text(&self) -> Seq<u8> {
        self.full@
    }

    /// The current scan position, as a byte offset into the text.
    pub open spec fn pos(&self) -> int {
        self.parsed_len as int
    }

    /// The bytes of the text that are not yet consumed.
    pub open spec fn rest_bytes(&self) -> Seq<u8> {
        self.full@.skip(self.parsed_len as int)
    }

    /// Whether the stream has permanently ended.
    pub open spec fn ended(&self) -> bool {
        self.end
    }

    /// The iterator scans a well-formed matcher over a fixed text: the
    /// position never passes the end, always lies on a character boundary,
    /// and the unconsumed suffix is exactly the text from that position.
    pub open spec fn wf(&self) -> bool {
        &&& valid_utf8(self.full@)
        &&& self.full@.len() <= usize::MAX
        &&& self.parsed_len <= self.full@.len()
        &&& self.rest.spec_bytes() == self.rest_bytes()
        &&& is_char_boundary(self.full@, self.parsed_len as int)
    }

    /// Builds an iterator over `text`, positioned at its start.
    pub fn new(parser: &'p P, text: &'t str) -> (it: Self)
        ensures
            it.wf(),
            it.parser == parser,
            it.text() == text.spec_bytes(),
            it.pos() == 0,
            !it.ended(),
    {
        let bytes = text.as_bytes();
        proof {
            broadcast use vstd::slice::axiom_spec_len;

            vstd::utf8::encode_utf8_valid_utf8(text@);
            vstd::utf8::is_char_boundary_start_end_of_seq(text.spec_bytes());
            assert(vstd::slice::spec_slice_len(bytes) == bytes@.len());
            assert(text.spec_bytes().skip(0) =~= text.spec_bytes());
        }
        ParseIterator {
            parser,
            rest: text,
            parsed_len: 0,
            end: false,
            full: Ghost(text.spec_bytes()),
        }
    }
}

impl<'p, 't, P: Parse> ParseIterator<'p, 't, P> {
    /// Produces the next element of the stream, or `None` when it is over.
    ///
    /// A match advances the position by the consumed length and yields the
    /// token with the offset where it started.  When no match occurs at the
    /// end of the text the stream ends silently; when no match occurs on
    /// remaining input the failure offset is yielded and the stream ends.
    pub fn next(&mut self) -> (r: Option<ParseResult<P::Token>>)
        requires
            old(self).wf(),
            old(self).parser.wf(),
        ensures
            final(self).wf(),
            final(self).parser == old(self).parser,
            final(self).text() == old(self).text(),
            old(self).ended() ==> r is None && *final(self) == *old(self),
            !old(self).ended() ==> (old(self).parser.spec_parse(old(self).rest_bytes())
                matches Some(q) ==> r == Some(ParseResult::Token(q.0, old(self).parsed_len))
                && final(self).pos() == old(self).pos() + q.1 && !final(self).ended()),
            !old(self).ended() && old(self).parser.spec_parse(old(self).rest_bytes()) is None
                && old(self).pos() == old(self).text().len() ==> r is None && *final(self) == *old(
                self,
            ),
            !old(self).ended() && old(self).parser.spec_parse(old(self).rest_bytes()) is None
                && old(self).pos() < old(self).text().len() ==> r == Some(
                ParseResult::<P::Token>::UnexpectedAt(old(self).parsed_len),
            ) && final(self).ended() && final(self).pos() == old(self).pos(),
    {
        if self.end {
            return None;
        }
        proof {
            vstd::utf8::encode_utf8_valid_utf8(self.rest@);
            lemma_encode_utf8_empty(self.rest@);
        }
        match self.parser.parse(self.rest) {
            Some((tok, len)) => {
                proof {
                    self.parser.lemma_parse_bounds(self.rest.spec_bytes());
                    vstd::utf8::is_char_boundary_start_end_of_seq(self.full@);
                    if self.parsed_len + len < self.full@.len() {
                        vstd::utf8::valid_utf8_split(self.full@, self.parsed_len as int);
                        vstd::utf8::is_char_boundary_iff_not_is_continuation_byte(
                            self.rest.spec_bytes(),
                            len as int,
                        );
                        vstd::utf8::is_char_boundary_iff_not_is_continuation_byte(
                            self.full@,
                            self.parsed_len + len,
                        );
                    }
                }
                let pos = self.parsed_len;
                let cur: &'t str = self.rest;
                let pieces = cur.split_at(len);
                self.rest = pieces.1;
                self.parsed_len = pos + len;
                proof {
                    assert(self.rest.spec_bytes() =~= self.full@.skip(self.parsed_len as int));
                }
                Some(ParseResult::Token(tok, pos))
            },
            None => {
                if self.rest.is_empty() {
                    None
                } else {
                    self.end = true;
                    Some(ParseResult::UnexpectedAt(self.parsed_len))
                }
            },
        }
    }

    /// Runs the stream to its end, collecting every element it produces:
    /// exactly the scan of the text from the iterator's current position.
    pub fn collect_results(&mut self) -> (v: Vec<ParseResult<P::Token>>)
        requires
            old(self).wf(),
            old(self).parser.wf(),
        ensures
            final(self).wf(),
            final(self).parser == old(self).parser,
            final(self).text() == old(self).text(),
            old(self).ended() ==> v@ == Seq::<ParseResult<P::Token>>::empty(),
            !old(self).ended() ==> v@ == spec_scan(
                *old(self).parser,
                old(self).text(),
                old(self).pos(),
            ),
    {
        let mut v: Vec<ParseResult<P::Token>> = Vec::new();
        let ghost full = self.full@;
        let ghost start = self.pos();
        let ghost orig = *self;
        loop
            invariant
                self.wf(),
                self.parser.wf(),
                self.parser == orig.parser,
                self.full@ == full,
                orig.wf(),
                start == orig.pos(),
                orig.ended() ==> self.ended() && v@ == Seq::<ParseResult<P::Token>>::empty(),
                !orig.ended() ==> spec_scan(*self.parser, full, start) == v@ + (if self.ended() {
                    Seq::<ParseResult<P::Token>>::empty()
                } else {
                    spec_scan(*self.parser, full, self.pos())
                }),
            ensures
                self.wf(),
                self.parser == orig.parser,
                self.full@ == full,
                orig.ended() ==> v@ == Seq::<ParseResult<P::Token>>::empty(),
                !orig.ended() ==> v@ == spec_scan(*orig.parser, full, start),
            decreases (if self.ended() {
                0int
            } else {
                full.len() - self.pos() + 1
            }),
        {
            let ghost prev = *self;
            proof {
                vstd::utf8::valid_utf8_split(full, prev.pos());
                assert(full.skip(prev.pos()) =~= full.subrange(prev.pos(), full.len() as int));
                self.parser.lemma_parse_bounds(full.skip(prev.pos()));
            }
            match self.next() {
                Some(r) => {
                    v.push(r);
                    proof {
                        if !prev.ended() {
                            let sp = prev.parser.spec_parse(full.skip(prev.pos()));
                            if sp is Some {
                                let q = sp.unwrap();
                                assert(spec_scan(*self.parser, full, prev.pos()) == seq![
                                    ParseResult::Token(q.0, prev.parsed_len),
                                ] + spec_scan(*self.parser, full, prev.pos() + q.1));
                            } else {
                                assert(spec_scan(*self.parser, full, prev.pos()) =~= seq![
                                    ParseResult::<P::Token>::UnexpectedAt(prev.parsed_len),
                                ]);
                            }
                            assert(spec_scan(*self.parser, full, start) =~= v@ + (if self.ended() {
                                Seq::<ParseResult<P::Token>>::empty()
                            } else {
                                spec_scan(*self.parser, full, self.pos())
                            }));
                        }
                    }
                },
                None => {
                    break;
                },
            }
        }
        v
    }
}

} // verus!
