//! Sequencing combinators: run one parser, then another on whatever the
//! first left over.
//!
//! The remainder after a successful match is an ordinary cursor position, so
//! the second parser is always attempted against the remainder the first one
//! left, including an empty one: reaching the end of the input is not itself
//! a failure, only the second parser's own matching logic can fail there.

use vstd::prelude::*;

use crate::combinator::Combinator;
use crate::combinator::strictly_consuming;

verus! {

/// Runs `first`, then `second` on the remainder; succeeds iff both do, with
/// the pair of their outputs.
pub struct AndThen<P1, P2> {
    /// The parser tried first.
    pub first: P1,
    /// The parser applied to what `first` leaves over.
    pub second: P2,
}

impl<P1: Combinator, P2: Combinator<Elem = P1::Elem>> Combinator for AndThen<P1, P2> {
    type Elem = P1::Elem;

    type Out = (P1::Out, P2::Out);

    open spec fn wf(&self) -> bool {
        self.first.wf() && self.second.wf()
    }

    open spec fn sem(&self, s: Seq<P1::Elem>, pos: int) -> Option<
        ((<P1::Out as DeepView>::V, <P2::Out as DeepView>::V), int),
    > {
        match self.first.sem(s, pos) {
            Some((v1, q1)) => match self.second.sem(s, q1) {
                Some((v2, q2)) => Some(((v1, v2), q2)),
                None => None,
            },
            None => None,
        }
    }

    proof fn lemma_sem_in_range(&self, s: Seq<P1::Elem>, pos: int) {
        self.first.lemma_sem_in_range(s, pos);
        if let Some((v1, q1)) = self.first.sem(s, pos) {
            self.second.lemma_sem_in_range(s, q1);
        }
    }

    fn run(&self, input: &[P1::Elem], pos: usize) -> (r: Option<((P1::Out, P2::Out), usize)>) {
        match self.first.run(input, pos) {
            Some((o1, q1)) => match self.second.run(input, q1) {
                Some((o2, q2)) => Some(((o1, o2), q2)),
                None => None,
            },
            None => None,
        }
    }
}

/// Runs `first`, then tries `second` on the remainder.  `first` must
/// succeed; a failure of `second` is recovered: the output is then
/// `(o1, None)` and the cursor reverts to the one `first` produced, so no
/// partial consumption by the failed attempt leaks through.
pub struct ThenMaybe<P1, P2> {
    /// The parser that must succeed.
    pub first: P1,
    /// The parser attempted on what `first` leaves over.
    pub second: P2,
}

impl<P1: Combinator, P2: Combinator<Elem = P1::Elem>> Combinator for ThenMaybe<P1, P2> {
    type Elem = P1::Elem;

    type Out = (P1::Out, Option<P2::Out>);

    open spec fn wf(&self) -> bool {
        self.first.wf() && self.second.wf()
    }

    open spec fn sem(&self, s: Seq<P1::Elem>, pos: int) -> Option<
        ((<P1::Out as DeepView>::V, Option<<P2::Out as DeepView>::V>), int),
    > {
        match self.first.sem(s, pos) {
            Some((v1, q1)) => match self.second.sem(s, q1) {
                Some((v2, q2)) => Some(((v1, Some(v2)), q2)),
                None => Some(((v1, None), q1)),
            },
            None => None,
        }
    }

    proof fn lemma_sem_in_range(&self, s: Seq<P1::Elem>, pos: int) {
        self.first.lemma_sem_in_range(s, pos);
        if let Some((v1, q1)) = self.first.sem(s, pos) {
            self.second.lemma_sem_in_range(s, q1);
        }
    }

    fn run(&self, input: &[P1::Elem], pos: usize) -> (r: Option<
        ((P1::Out, Option<P2::Out>), usize),
    >) {
        match self.first.run(input, pos) {
            Some((o1, q1)) => match self.second.run(input, q1) {
                Some((o2, q2)) => Some(((o1, Some(o2)), q2)),
                None => Some(((o1, None), q1)),
            },
            None => None,
        }
    }
}

/// Sequencing two well-formed parsers strictly consumes input as soon as
/// the first one does, since the second never moves the cursor backwards.
pub proof fn lemma_and_then_strictly_consuming<P1: Combinator, P2: Combinator<Elem = P1::Elem>>(
    a: &AndThen<P1, P2>,
)
    requires
        a.first.wf(),
        a.second.wf(),
        strictly_consuming(&a.first),
    ensures
        strictly_consuming(a),
{
    assert forall|s: Seq<P1::Elem>, pos: int| 0 <= pos <= s.len() implies (match #[trigger] a.sem(
        s,
        pos,
    ) {
        Some((v, q)) => pos < q,
        None => true,
    }) by {
        a.first.lemma_sem_in_range(s, pos);
        if let Some((v1, q1)) = a.first.sem(s, pos) {
            a.second.lemma_sem_in_range(s, q1);
        }
    }
}

/// Sequencing with an optional tail strictly consumes input as soon as the
/// head parser does: the tail either advances the cursor further or is
/// rolled back to the head's cursor.
pub proof fn lemma_then_maybe_strictly_consuming<P1: Combinator, P2: Combinator<Elem = P1::Elem>>(
    t: &ThenMaybe<P1, P2>,
)
    requires
        t.first.wf(),
        t.second.wf(),
        strictly_consuming(&t.first),
    ensures
        strictly_consuming(t),
{
    assert forall|s: Seq<P1::Elem>, pos: int| 0 <= pos <= s.len() implies (match #[trigger] t.sem(
        s,
        pos,
    ) {
        Some((v, q)) => pos < q,
        None => true,
    }) by {
        t.first.lemma_sem_in_range(s, pos);
        if let Some((v1, q1)) = t.first.sem(s, pos) {
            t.second.lemma_sem_in_range(s, q1);
        }
    }
}

/// Sequencing is associative at the semantic level: grouping three parsers
/// to the left or to the right succeeds on the same inputs, consumes the
/// same amount, and produces the same three outputs, only the pairing of
/// the output tuple differs.
pub proof fn lemma_and_then_associative<
    P1: Combinator,
    P2: Combinator<Elem = P1::Elem>,
    P3: Combinator<Elem = P1::Elem>,
>(left: &AndThen<AndThen<P1, P2>, P3>, right: &AndThen<P1, AndThen<P2, P3>>, s: Seq<P1::Elem>, pos: int)
    requires
        left.first.first == right.first,
        left.first.second == right.second.first,
        left.second == right.second.second,
    ensures
        (match (left.sem(s, pos), right.sem(s, pos)) {
            (Some((((v1, v2), v3), q)), Some(((w1, (w2, w3)), q2))) => {
                &&& v1 == w1
                &&& v2 == w2
                &&& v3 == w3
                &&& q == q2
            },
            (None, None) => true,
            _ => false,
        }),
{
}

} // verus!
