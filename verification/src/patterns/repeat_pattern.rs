use vstd::prelude::*;

verus! {

use crate::read_pattern::{lemma_char_boundary_compose, ReadPattern};
use vstd::string::StringSliceAdditionalSpecFns;
use vstd::utf8::{is_char_boundary, valid_utf8};

/// One fewer repeat allowed; `None` stands for an unbounded budget.
pub open spec fn dec_budget(max: Option<int>) -> Option<int> {
    match max {
        Some(m) => Some(m - 1),
        None => None,
    }
}

/// The repeats still allowed once `taken` of an original budget of `max`
/// have been made.
pub open spec fn rem_budget(max: Option<usize>, taken: int) -> Option<int> {
    match max {
        Some(m) => Some(m as int - taken),
        None => None,
    }
}

/// Greedy repeated application of `p` at the front of `s`, limited to
/// `max` repeats: the number of repeats made and the total byte length
/// they consume.  Expansion stops when the budget is spent or `p` fails,
/// and is never wound back.
pub open spec fn spec_greedy<P: ReadPattern>(p: P, s: Seq<u8>, max: Option<int>) -> (int, int)
    decreases s.len(),
{
    let spent = match max {
        Some(m) => m <= 0,
        None => false,
    };
    if spent {
        (0, 0)
    } else {
        match p.spec_read(s) {
            Some(n) => if 0 < n <= s.len() {
                let g = spec_greedy(p, s.skip(n), dec_budget(max));
                (1 + g.0, n + g.1)
            } else {
                (0, 0)
            },
            None => (0, 0),
        }
    }
}

/// Greedy expansion makes between zero and `max` repeats, consumes at
/// most the whole text, stops on a character boundary, and consumes at
/// least one byte whenever it makes at least one repeat.
pub proof fn lemma_greedy_bounds<P: ReadPattern>(p: P, s: Seq<u8>, max: Option<int>)
    requires
        p.wf(),
        p.consumes(),
        valid_utf8(s),
    ensures
        ({
            let g = spec_greedy(p, s, max);
            &&& 0 <= g.0
            &&& 0 <= g.1 <= s.len()
            &&& is_char_boundary(s, g.1)
            &&& (g.0 == 0 <==> g.1 == 0)
            &&& (match max {
                Some(m) => m >= 0 ==> g.0 <= m,
                None => true,
            })
        }),
    decreases s.len(),
{
    vstd::utf8::is_char_boundary_start_end_of_seq(s);
    let spent = match max {
        Some(m) => m <= 0,
        None => false,
    };
    if !spent {
        p.lemma_read_bounds(s);
        match p.spec_read(s) {
            Some(n) => {
                vstd::utf8::valid_utf8_split(s, n);
                assert(s.skip(n) =~= s.subrange(n, s.len() as int));
                lemma_greedy_bounds(p, s.skip(n), dec_budget(max));
                let g = spec_greedy(p, s.skip(n), dec_budget(max));
                lemma_char_boundary_compose(s, n, g.1);
            },
            None => {},
        }
    }
}

/// Bounded repetition of a pattern: applies `pattern` greedily, at most
/// `max` times (unbounded when `None`), and succeeds exactly when at
/// least `min` repeats were made, consuming their total length — which
/// is zero when the bounds permit zero repeats and the pattern does not
/// match.  No backtracking: the greedy count is final.
#[derive(Copy, Clone, Debug)]
pub struct Repeat<P> {
    /// The repeated pattern; it must consume input on every match.
    pub pattern: P,
    /// The least number of repeats for the repetition to succeed.
    pub min: usize,
    /// The most repeats taken, or `None` for unbounded repetition.
    pub max: Option<usize>,
}

/// Builds the repetition `pattern * (min..=max)`, `max` unbounded when `None`.
pub fn repeat<P>(pattern: P, min: usize, max: Option<usize>) -> (p: Repeat<P>)
    ensures
        p.pattern == pattern,
        p.min == min,
        p.max == max,
{
    Repeat { pattern, min, max }
}

impl<P> Repeat<P> {
    /// The repeat budget as a mathematical bound.
    pub open spec fn max_int(&self) -> Option<int> {
        match self.max {
            Some(m) => Some(m as int),
            None => None,
        }
    }
}

impl<P: ReadPattern> ReadPattern for Repeat<P> {
    open spec fn wf(&self) -> bool {
        self.pattern.wf() && self.pattern.consumes()
    }

    open spec fn consumes(&self) -> bool {
        self.min >= 1
    }

    open spec fn spec_read(&self, s: Seq<u8>) -> Option<int> {
        let g = spec_greedy(self.pattern, s, self.max_int());
        if self.min <= g.0 {
            Some(g.1)
        } else {
            None
        }
    }

    proof fn lemma_read_bounds(&self, s: Seq<u8>) {
        lemma_greedy_bounds(self.pattern, s, self.max_int());
    }

    fn read_pattern(&self, text: &str) -> (r: Option<usize>) {
        let bytes = text.as_bytes();
        let ghost s = text.spec_bytes();
        proof {
            broadcast use vstd::slice::axiom_spec_len;

            vstd::utf8::encode_utf8_valid_utf8(text@);
            vstd::utf8::is_char_boundary_start_end_of_seq(s);
            assert(vstd::slice::spec_slice_len(bytes) == s.len());
            assert(s.skip(0) =~= s);
        }
        let mut rest: &str = text;
        let mut consumed: usize = 0;
        let mut count: usize = 0;
        loop
            invariant
                self.wf(),
                valid_utf8(s),
                s.len() <= usize::MAX,
                count <= consumed <= s.len(),
                rest.spec_bytes() == s.skip(consumed as int),
                is_char_boundary(s, consumed as int),
                ({
                    let g = spec_greedy(self.pattern, s.skip(consumed as int), rem_budget(self.max, count as int));
                    spec_greedy(self.pattern, s, self.max_int()) == (count + g.0, consumed + g.1)
                }),
            ensures
                spec_greedy(self.pattern, s, self.max_int()) == (count as int, consumed as int),
            decreases s.len() - consumed,
        {
            let more = match self.max {
                Some(m) => count < m,
                None => true,
            };
            if !more {
                break;
            }
            proof {
                vstd::utf8::encode_utf8_valid_utf8(rest@);
            }
            match self.pattern.read_pattern(rest) {
                Some(n) => {
                    proof {
                        self.pattern.lemma_read_bounds(rest.spec_bytes());
                        lemma_char_boundary_compose(s, consumed as int, n as int);
                    }
                    let cur: &str = rest;
                    let pieces = cur.split_at(n);
                    rest = pieces.1;
                    consumed = consumed + n;
                    count = count + 1;
                    proof {
                        assert(rest.spec_bytes() =~= s.skip(consumed as int));
                    }
                },
                None => {
                    break;
                },
            }
        }
        if count >= self.min {
            Some(consumed)
        } else {
            None
        }
    }
}

/// Law: bounded repetition succeeds exactly when greedy repeated
/// application of its pattern, capped at the upper bound, makes at least
/// `min` repeats; the capped count never passes the upper bound, and on
/// success the consumed length is the total length of the repeats, at
/// most the whole text.
pub proof fn lemma_repeat_greedy<P: ReadPattern>(p: Repeat<P>, s: Seq<u8>)
    requires
        p.wf(),
        valid_utf8(s),
    ensures
        ({
            let g = spec_greedy(p.pattern, s, p.max_int());
            &&& (p.spec_read(s) is Some <==> p.min <= g.0)
            &&& (p.spec_read(s) matches Some(t) ==> t == g.1 && 0 <= t <= s.len())
            &&& (match p.max {
                Some(m) => g.0 <= m,
                None => true,
            })
        }),
{
    lemma_greedy_bounds(p.pattern, s, p.max_int());
}

} // verus!
