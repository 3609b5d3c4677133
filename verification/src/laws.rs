//! The laws of the combinator core, each stated over the semantics that the
//! executable matchers are proved to implement.

use vstd::prelude::*;

use crate::alternation::Opt;
use crate::alternation::OrElse;
use crate::combinator::Combinator;
use crate::parser::Parser;
use crate::repetition::Many;
use crate::repetition::Many1;
use crate::repetition::many_sem;

verus! {

/// Determinism: parsing has no hidden state, so any two results of matching
/// one parser against one input agree, in the output value (up to deep
/// view) and in the remainder.
pub proof fn lemma_parse_deterministic<P: Combinator>(
    p: &Parser<P>,
    s: Seq<P::Elem>,
    r1: Option<(P::Out, int)>,
    r2: Option<(P::Out, int)>,
)
    requires
        (match r1 {
            Some((o, q)) => p.sem(s, 0) == Some((o.deep_view(), q)),
            None => p.sem(s, 0) is None,
        }),
        (match r2 {
            Some((o, q)) => p.sem(s, 0) == Some((o.deep_view(), q)),
            None => p.sem(s, 0) is None,
        }),
    ensures
        (match (r1, r2) {
            (Some((o1, q1)), Some((o2, q2))) => o1.deep_view() == o2.deep_view() && q1 == q2,
            (None, None) => true,
            _ => false,
        }),
{
}

/// Zero consumption on failure, at alternation: a failed first alternative
/// leaves no trace, so the fallback is matched against the original,
/// unmodified cursor and decides the whole result.
pub proof fn lemma_or_zero_consumption_on_failure<
    P1: Combinator,
    P2: Combinator<Elem = P1::Elem, Out = P1::Out>,
>(alt: &OrElse<P1, P2>, s: Seq<P1::Elem>, pos: int)
    requires
        alt.first.sem(s, pos) is None,
    ensures
        alt.sem(s, pos) == alt.second.sem(s, pos),
{
}

/// Zero consumption on failure, at optionality: when the wrapped parser
/// fails, `maybe` succeeds with the absence marker and the original,
/// unmodified cursor.
pub proof fn lemma_maybe_zero_consumption_on_failure<P: Combinator>(
    m: &Opt<P>,
    s: Seq<P::Elem>,
    pos: int,
)
    requires
        m.p.sem(s, pos) is None,
    ensures
        m.sem(s, pos) == Some((None::<<P::Out as DeepView>::V>, pos)),
{
}

/// Repetition never fails: on every input, `many` succeeds, with zero or
/// more collected outputs.
pub proof fn lemma_many_never_fails<P: Combinator>(m: &Many<P>, s: Seq<P::Elem>, pos: int)
    ensures
        m.sem(s, pos) is Some,
{
}

/// `many1` fails exactly when `many` would collect zero elements; with one
/// or more leading matches it succeeds with exactly the elements `many`
/// collects, consuming exactly as much.
pub proof fn lemma_many1_iff_many_nonempty<P: Combinator>(
    m1: &Many1<P>,
    s: Seq<P::Elem>,
    pos: int,
)
    ensures
        (m1.sem(s, pos) is None) == (many_sem(&m1.rep.p, s, pos).0.len() == 0),
        (match m1.sem(s, pos) {
            Some((v, q)) => {
                &&& m1.rep.sem(s, pos) == Some((many_sem(&m1.rep.p, s, pos).0, q))
                &&& v == Some(many_sem(&m1.rep.p, s, pos).0)
            },
            None => true,
        }),
{
}

/// Left bias: when the first alternative succeeds, its result is returned
/// unmodified and the second alternative plays no part in the outcome.
pub proof fn lemma_or_left_bias<P1: Combinator, P2: Combinator<Elem = P1::Elem, Out = P1::Out>>(
    alt: &OrElse<P1, P2>,
    s: Seq<P1::Elem>,
    pos: int,
)
    requires
        alt.first.sem(s, pos) is Some,
    ensures
        alt.sem(s, pos) == alt.first.sem(s, pos),
{
}

/// `maybe` of `maybe` is total on both paths: on any input it succeeds,
/// with `Some(Some(o))` where the wrapped parser matches `o` and with
/// `Some(None)` and zero consumption where it fails; there is no nested
/// failure.
pub proof fn lemma_maybe_maybe_total<P: Combinator>(mm: &Opt<Opt<P>>, s: Seq<P::Elem>, pos: int)
    ensures
        mm.sem(s, pos) is Some,
        (match mm.p.p.sem(s, pos) {
            Some((v, q)) => mm.sem(s, pos) == Some((Some(Some(v)), q)),
            None => mm.sem(s, pos) == Some(
                (Some(None::<<P::Out as DeepView>::V>), pos),
            ),
        }),
{
}

} // verus!
