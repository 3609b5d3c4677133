//! The `Parser` value: an owned, reusable matcher together with the
//! combinator methods that compose parsers into bigger ones.

use vstd::prelude::*;

use crate::combinator::Combinator;
use crate::combinator::SemResult;
use crate::combinator::strictly_consuming;
use crate::alternation::OneOf;
use crate::alternation::Opt;
use crate::alternation::OrElse;
use crate::alternation::choice_sem;
use crate::repetition::Many;
use crate::repetition::Many1;
use crate::repetition::many_sem;
use crate::sequencing::AndThen;
use crate::sequencing::ThenMaybe;
use crate::transform::FilterOut;
use crate::transform::FromFn;
use crate::transform::MapOut;
use crate::transform::Skip;

verus! {

/// An owned, callable parser over sequences of `P::Elem`, producing `P::Out`.
///
/// It exclusively owns whatever state it captured at construction and has no
/// mutable state of its own: invoking it twice on the same input yields the
/// same result.  Composition transfers ownership; invoking is by shared
/// reference.
pub struct Parser<P: Combinator> {
    /// The combinator that gives the parser its behaviour.
    pub inner: P,
}

impl<P: Combinator> Parser<P> {
    /// Well-formedness of the captured state; see [`Combinator::wf`].
    pub open spec fn wf(&self) -> bool {
        self.inner.wf()
    }

    /// The parser's mathematical semantics; see [`Combinator::sem`].
    pub open spec fn sem(&self, s: Seq<P::Elem>, pos: int) -> SemResult<
        <P::Out as DeepView>::V,
    > {
        self.inner.sem(s, pos)
    }

    /// Whether every successful match moves the cursor forward; see
    /// [`strictly_consuming`].
    pub open spec fn strictly_consuming(&self) -> bool {
        strictly_consuming(&self.inner)
    }

    /// Matches the parser against `input`, from its start.  Returns `None`
    /// on failure and `Some((output, q))` on success, where `q` is the
    /// position of the unconsumed remainder; `q == input.len()` means the
    /// input was exactly exhausted.
    pub fn parse(&self, input: &[P::Elem]) -> (r: Option<(P::Out, usize)>)
        requires
            self.wf(),
        ensures
            (match r {
                Some((o, q)) => {
                    &&& self.sem(input@, 0) == Some((o.deep_view(), q as int))
                    &&& q <= input@.len()
                },
                None => self.sem(input@, 0) is None,
            }),
    {
        self.inner.run(input, 0)
    }

    /// Sequencing: the result matches both `self` and then `other` on the
    /// remainder `self` left, and fails if either sub-parser fails.  The
    /// output is the pair of the two outputs; the remainder is whatever
    /// `other` leaves.  `other` is always attempted against the remainder,
    /// an empty one included.
    pub fn and<P2: Combinator<Elem = P::Elem>>(self, other: Parser<P2>) -> (r: Parser<
        AndThen<P, P2>,
    >)
        ensures
            r.wf() == (self.wf() && other.wf()),
            forall|s: Seq<P::Elem>, pos: int|
                #[trigger] r.sem(s, pos) == (match self.sem(s, pos) {
                    Some((v1, q1)) => match other.sem(s, q1) {
                        Some((v2, q2)) => Some(((v1, v2), q2)),
                        None => None,
                    },
                    None => None,
                }),
    {
        Parser { inner: AndThen { first: self.inner, second: other.inner } }
    }

    /// Sequencing with an optional tail: `self` must match; `other` is then
    /// attempted on the remainder.  If `other` matches, the output is
    /// `(o1, Some(o2))` with `other`'s remainder; if it fails, the output is
    /// `(o1, None)` and the remainder reverts to the one `self` produced.
    pub fn then_maybe<P2: Combinator<Elem = P::Elem>>(self, other: Parser<P2>) -> (r: Parser<
        ThenMaybe<P, P2>,
    >)
        ensures
            r.wf() == (self.wf() && other.wf()),
            forall|s: Seq<P::Elem>, pos: int|
                #[trigger] r.sem(s, pos) == (match self.sem(s, pos) {
                    Some((v1, q1)) => match other.sem(s, q1) {
                        Some((v2, q2)) => Some(((v1, Some(v2)), q2)),
                        None => Some(((v1, None), q1)),
                    },
                    None => None,
                }),
    {
        Parser { inner: ThenMaybe { first: self.inner, second: other.inner } }
    }

    /// Left-biased alternation: attempts `self` and returns its result
    /// unmodified if it succeeds; only otherwise is `other` attempted,
    /// against the original cursor, and its result returned, success or
    /// failure.
    pub fn or<P2: Combinator<Elem = P::Elem, Out = P::Out>>(self, other: Parser<P2>) -> (r: Parser<
        OrElse<P, P2>,
    >)
        ensures
            r.wf() == (self.wf() && other.wf()),
            forall|s: Seq<P::Elem>, pos: int|
                #[trigger] r.sem(s, pos) == (match self.sem(s, pos) {
                    Some((v, q)) => Some((v, q)),
                    None => other.sem(s, pos),
                }),
    {
        Parser { inner: OrElse { first: self.inner, second: other.inner } }
    }

    /// Left-biased alternation over an ordered list of candidates: they are
    /// tried in listed order, each against the original cursor, and the
    /// first success is returned; the result fails only if every candidate
    /// fails.
    pub fn choice(possibilities: Vec<Parser<P>>) -> (r: Parser<OneOf<P>>)
        ensures
            r.wf() == (forall|i: int|
                0 <= i < possibilities@.len() ==> (#[trigger] possibilities@[i]).wf()),
            forall|s: Seq<P::Elem>, pos: int|
                #[trigger] r.sem(s, pos) == choice_sem(possibilities@, s, pos),
    {
        Parser { inner: OneOf { ps: possibilities } }
    }

    /// Optionality: never fails.  If `self` matches, the output is
    /// `Some(o)` with `self`'s remainder; if it fails, the output is `None`
    /// and the cursor is the original, unmodified one: zero consumption.
    pub fn maybe(self) -> (r: Parser<Opt<P>>)
        ensures
            r.wf() == self.wf(),
            forall|s: Seq<P::Elem>, pos: int|
                #[trigger] r.sem(s, pos) == (match self.sem(s, pos) {
                    Some((v, q)) => Some((Some(v), q)),
                    None => Some((None::<<P::Out as DeepView>::V>, pos)),
                }),
    {
        Parser { inner: Opt { p: self.inner } }
    }

    /// Repetition: matches zero or more occurrences of `self`, starting at
    /// the current cursor and advancing it after each one, until `self`
    /// fails or the input is exhausted.  The output is the ordered
    /// collection of the outputs; it never fails, zero occurrences being a
    /// success with an empty collection and zero consumption.  `self` must
    /// strictly consume input, or the repetition would never terminate.
    pub fn many(self) -> (r: Parser<Many<P>>)
        ensures
            r.wf() == (self.wf() && self.strictly_consuming()),
            forall|s: Seq<P::Elem>, pos: int|
                #[trigger] r.sem(s, pos) == Some(many_sem(&self.inner, s, pos)),
    {
        Parser { inner: Many { p: self.inner } }
    }

    /// Repetition demanding at least one occurrence: the same collection as
    /// [`Parser::many`], but zero collected elements are failure.  With one
    /// or more leading matches it succeeds with exactly the elements `many`
    /// would collect, behind a presence marker, consuming the same amount.
    pub fn many1(self) -> (r: Parser<Many1<P>>)
        ensures
            r.wf() == (self.wf() && self.strictly_consuming()),
            forall|s: Seq<P::Elem>, pos: int|
                #[trigger] r.sem(s, pos) == (if many_sem(&self.inner, s, pos).0.len() == 0 {
                    None
                } else {
                    Some(
                        (
                            Some(many_sem(&self.inner, s, pos).0),
                            many_sem(&self.inner, s, pos).1,
                        ),
                    )
                }),
    {
        Parser { inner: Many1 { rep: Many { p: self.inner } } }
    }

    /// Discards the output of a successful match, replacing it with the
    /// unit value and keeping the remainder; failure passes through.
    pub fn skip(self) -> (r: Parser<Skip<P>>)
        ensures
            r.wf() == self.wf(),
            forall|s: Seq<P::Elem>, pos: int|
                #[trigger] r.sem(s, pos) == (match self.sem(s, pos) {
                    Some((v, q)) => Some(((), q)),
                    None => None,
                }),
    {
        Parser { inner: Skip { p: self.inner } }
    }

    /// Replaces the output `o` of a successful match with `f(o)`; failure
    /// passes through unchanged.  The transform must be total, it must not
    /// itself fail, and its contract must pin its result down, up to deep
    /// view: failure belongs to the parsing layer, not the transform.
    ///
    /// The spec-level transform of the result, `r.inner.t`, agrees with
    /// every result the function value can return.
    pub fn map<O2: DeepView, F: Fn(P::Out) -> O2>(self, f: F) -> (r: Parser<MapOut<P, O2, F>>)
        requires
            forall|o: P::Out| #[trigger] call_requires(f, (o,)),
            forall|o1: P::Out, o2: P::Out, y1: O2, y2: O2|
                o1.deep_view() == o2.deep_view() && #[trigger] call_ensures(f, (o1,), y1)
                    && #[trigger] call_ensures(f, (o2,), y2) ==> y1.deep_view() == y2.deep_view(),
        ensures
            r.wf() == self.wf(),
            forall|o: P::Out, y: O2| #[trigger]
                call_ensures(f, (o,), y) ==> r.inner.t@(o.deep_view()) == y.deep_view(),
            forall|s: Seq<P::Elem>, pos: int|
                #[trigger] r.sem(s, pos) == (match self.sem(s, pos) {
                    Some((v, q)) => Some((r.inner.t@(v), q)),
                    None => None,
                }),
    {
        let ghost t = |v: <P::Out as DeepView>::V|
            {
                let (o, y) = choose|o: P::Out, y: O2|
                    o.deep_view() == v && #[trigger] call_ensures(f, (o,), y);
                y.deep_view()
            };
        proof {
            assert forall|o: P::Out, y: O2| #[trigger] call_ensures(f, (o,), y) implies t(
                o.deep_view(),
            ) == y.deep_view() by {
                let v = o.deep_view();
                assert(o.deep_view() == v && call_ensures(f, (o,), y));
                let (o2, y2) = choose|o2: P::Out, y2: O2|
                    o2.deep_view() == v && #[trigger] call_ensures(f, (o2,), y2);
                assert(y2.deep_view() == y.deep_view());
            }
        }
        Parser { inner: MapOut { p: self.inner, f, t: Ghost(t) } }
    }

    /// Re-checks the output of a successful match against a predicate: if
    /// the predicate rejects it, the result is failure, exactly as if
    /// nothing had matched.  The predicate must be total and its contract
    /// must pin its answer down.
    ///
    /// The spec-level predicate of the result, `r.inner.t`, agrees with
    /// every answer the function value can return.
    pub fn filter<F: Fn(&P::Out) -> bool>(self, f: F) -> (r: Parser<FilterOut<P, F>>)
        requires
            forall|o: &P::Out| #[trigger] call_requires(f, (o,)),
            forall|o1: &P::Out, o2: &P::Out, b1: bool, b2: bool|
                o1.deep_view() == o2.deep_view() && #[trigger] call_ensures(f, (o1,), b1)
                    && #[trigger] call_ensures(f, (o2,), b2) ==> b1 == b2,
        ensures
            r.wf() == self.wf(),
            forall|o: &P::Out, b: bool| #[trigger]
                call_ensures(f, (o,), b) ==> r.inner.t@(o.deep_view()) == b,
            forall|s: Seq<P::Elem>, pos: int|
                #[trigger] r.sem(s, pos) == (match self.sem(s, pos) {
                    Some((v, q)) => if r.inner.t@(v) {
                        Some((v, q))
                    } else {
                        None
                    },
                    None => None,
                }),
    {
        let ghost t = |v: <P::Out as DeepView>::V|
            {
                let (o, b) = choose|o: &P::Out, b: bool|
                    o.deep_view() == v && #[trigger] call_ensures(f, (o,), b);
                b
            };
        proof {
            assert forall|o: &P::Out, b: bool| #[trigger] call_ensures(f, (o,), b) implies t(
                o.deep_view(),
            ) == b by {
                let v = o.deep_view();
                assert(o.deep_view() == v && call_ensures(f, (o,), b));
                let (o2, b2) = choose|o2: &P::Out, b2: bool|
                    o2.deep_view() == v && #[trigger] call_ensures(f, (o2,), b2);
                assert(b2 == b);
            }
        }
        Parser { inner: FilterOut { p: self.inner, f, t: Ghost(t) } }
    }
}

impl<I, O: DeepView, F: Fn(&[I], usize) -> Option<(O, usize)>> Parser<FromFn<I, O, F>> {
    /// Wraps a bare matching function as a parser.  The function must be
    /// callable at every valid cursor, it must implement the given
    /// spec-level semantics `m` exactly, and `m` must never report a cursor
    /// outside the input.
    pub fn new(
        f: F,
        Ghost(m): Ghost<spec_fn(Seq<I>, int) -> Option<(<O as DeepView>::V, int)>>,
    ) -> (r: Self)
        requires
            forall|inp: &[I], pos: usize|
                pos <= inp@.len() ==> #[trigger] call_requires(f, (inp, pos)),
            forall|inp: &[I], pos: usize, ret: Option<(O, usize)>|
                pos <= inp@.len() && #[trigger] call_ensures(f, (inp, pos), ret) ==> (match ret {
                    Some((o, q)) => m(inp@, pos as int) == Some((o.deep_view(), q as int)) && pos
                        <= q <= inp@.len(),
                    None => m(inp@, pos as int) is None,
                }),
            forall|s: Seq<I>, pos: int|
                0 <= pos <= s.len() ==> (match #[trigger] m(s, pos) {
                    Some((v, q)) => pos <= q <= s.len(),
                    None => true,
                }),
        ensures
            r.wf(),
            forall|s: Seq<I>, pos: int| #[trigger] r.sem(s, pos) == m(s, pos),
    {
        Parser { inner: FromFn { f, m: Ghost(m) } }
    }
}

} // verus!
