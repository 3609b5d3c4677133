//! Alternation combinators: try parsers in order and take the first
//! success.  A failed attempt consumes nothing, so every later alternative
//! is tried against the original, unmodified cursor.

use vstd::prelude::*;

use crate::combinator::Combinator;
use crate::combinator::strictly_consuming;
use crate::parser::Parser;

verus! {

/// Left-biased choice of two parsers with the same output type: `first` is
/// attempted, and only if it fails is `second` attempted, against the
/// original cursor.
pub struct OrElse<P1, P2> {
    /// The preferred alternative.
    pub first: P1,
    /// The fallback, attempted only after `first` fails.
    pub second: P2,
}

impl<P1: Combinator, P2: Combinator<Elem = P1::Elem, Out = P1::Out>> Combinator for OrElse<
    P1,
    P2,
> {
    type Elem = P1::Elem;

    type Out = P1::Out;

    open spec fn wf(&self) -> bool {
        self.first.wf() && self.second.wf()
    }

    open spec fn sem(&self, s: Seq<P1::Elem>, pos: int) -> Option<
        (<P1::Out as DeepView>::V, int),
    > {
        match self.first.sem(s, pos) {
            Some((v, q)) => Some((v, q)),
            None => self.second.sem(s, pos),
        }
    }

    proof fn lemma_sem_in_range(&self, s: Seq<P1::Elem>, pos: int) {
        self.first.lemma_sem_in_range(s, pos);
        self.second.lemma_sem_in_range(s, pos);
    }

    fn run(&self, input: &[P1::Elem], pos: usize) -> (r: Option<(P1::Out, usize)>) {
        match self.first.run(input, pos) {
            Some((o, q)) => Some((o, q)),
            None => self.second.run(input, pos),
        }
    }
}

/// The first success among an ordered list of alternatives, each tried at
/// the original cursor; `None` once the list is exhausted.
pub open spec fn choice_sem<P: Combinator>(
    ps: Seq<Parser<P>>,
    s: Seq<P::Elem>,
    pos: int,
) -> Option<(<P::Out as DeepView>::V, int)>
    decreases ps.len(),
{
    if ps.len() == 0 {
        None
    } else {
        match ps[0].sem(s, pos) {
            Some((v, q)) => Some((v, q)),
            None => choice_sem(ps.skip(1), s, pos),
        }
    }
}

/// Left-biased choice among an ordered list of parsers of one shape: the
/// candidates are tried in listed order, each against the original cursor,
/// and the first success is returned; the whole fails only if every
/// candidate fails.
pub struct OneOf<P: Combinator> {
    /// The candidates, in the order they are tried.
    pub ps: Vec<Parser<P>>,
}

impl<P: Combinator> Combinator for OneOf<P> {
    type Elem = P::Elem;

    type Out = P::Out;

    open spec fn wf(&self) -> bool {
        forall|i: int| 0 <= i < self.ps@.len() ==> (#[trigger] self.ps@[i]).wf()
    }

    open spec fn sem(&self, s: Seq<P::Elem>, pos: int) -> Option<(<P::Out as DeepView>::V, int)> {
        choice_sem(self.ps@, s, pos)
    }

    proof fn lemma_sem_in_range(&self, s: Seq<P::Elem>, pos: int) {
        lemma_choice_sem_in_range(self.ps@, s, pos);
    }

    fn run(&self, input: &[P::Elem], pos: usize) -> (r: Option<(P::Out, usize)>) {
        let mut i: usize = 0;
        assert(self.ps@.skip(0) =~= self.ps@);
        while i < self.ps.len()
            invariant
                self.wf(),
                pos <= input@.len(),
                0 <= i <= self.ps@.len(),
                choice_sem(self.ps@, input@, pos as int) == choice_sem(
                    self.ps@.skip(i as int),
                    input@,
                    pos as int,
                ),
            decreases self.ps@.len() - i,
        {
            let ghost rest = self.ps@.skip(i as int);
            assert(rest[0] == self.ps@[i as int]);
            match self.ps[i].inner.run(input, pos) {
                Some((o, q)) => {
                    return Some((o, q));
                },
                None => {
                    assert(rest.skip(1) =~= self.ps@.skip(i + 1));
                    i = i + 1;
                },
            }
        }
        assert(self.ps@.skip(i as int) =~= Seq::<Parser<P>>::empty());
        None
    }
}

/// Turns failure into success with an absence marker: if `p` matches, the
/// output is `Some(o)` with `p`'s remainder; if it fails, the output is
/// `None` with the original, unmodified cursor.  It never fails.
pub struct Opt<P> {
    /// The parser whose failure is recovered.
    pub p: P,
}

impl<P: Combinator> Combinator for Opt<P> {
    type Elem = P::Elem;

    type Out = Option<P::Out>;

    open spec fn wf(&self) -> bool {
        self.p.wf()
    }

    open spec fn sem(&self, s: Seq<P::Elem>, pos: int) -> Option<
        (Option<<P::Out as DeepView>::V>, int),
    > {
        match self.p.sem(s, pos) {
            Some((v, q)) => Some((Some(v), q)),
            None => Some((None, pos)),
        }
    }

    proof fn lemma_sem_in_range(&self, s: Seq<P::Elem>, pos: int) {
        self.p.lemma_sem_in_range(s, pos);
    }

    fn run(&self, input: &[P::Elem], pos: usize) -> (r: Option<(Option<P::Out>, usize)>) {
        match self.p.run(input, pos) {
            Some((o, q)) => Some((Some(o), q)),
            None => Some((None, pos)),
        }
    }
}

/// Alternation strictly consumes input when both alternatives do.
pub proof fn lemma_or_else_strictly_consuming<
    P1: Combinator,
    P2: Combinator<Elem = P1::Elem, Out = P1::Out>,
>(alt: &OrElse<P1, P2>)
    requires
        strictly_consuming(&alt.first),
        strictly_consuming(&alt.second),
    ensures
        strictly_consuming(alt),
{
    assert forall|s: Seq<P1::Elem>, pos: int| 0 <= pos <= s.len() implies (match #[trigger] alt.sem(
        s,
        pos,
    ) {
        Some((v, q)) => pos < q,
        None => true,
    }) by {
        assert(0 <= pos <= s.len() ==> (match alt.first.sem(s, pos) {
            Some((v, q)) => pos < q,
            None => true,
        }));
        assert(0 <= pos <= s.len() ==> (match alt.second.sem(s, pos) {
            Some((v, q)) => pos < q,
            None => true,
        }));
    }
}

/// Alternation is associative at the semantic level: grouping three
/// alternatives to the left or to the right gives the same result on every
/// input.
pub proof fn lemma_or_else_associative<
    P1: Combinator,
    P2: Combinator<Elem = P1::Elem, Out = P1::Out>,
    P3: Combinator<Elem = P1::Elem, Out = P1::Out>,
>(left: &OrElse<OrElse<P1, P2>, P3>, right: &OrElse<P1, OrElse<P2, P3>>, s: Seq<P1::Elem>, pos: int)
    requires
        left.first.first == right.first,
        left.first.second == right.second.first,
        left.second == right.second.second,
    ensures
        left.sem(s, pos) == right.sem(s, pos),
{
}

/// A successful choice among well-formed alternatives leaves the cursor
/// inside the input, like each of its alternatives does.
pub proof fn lemma_choice_sem_in_range<P: Combinator>(
    ps: Seq<Parser<P>>,
    s: Seq<P::Elem>,
    pos: int,
)
    requires
        forall|i: int| 0 <= i < ps.len() ==> (#[trigger] ps[i]).wf(),
        0 <= pos <= s.len(),
    ensures
        (match choice_sem(ps, s, pos) {
            Some((v, q)) => pos <= q <= s.len(),
            None => true,
        }),
    decreases ps.len(),
{
    if ps.len() > 0 {
        ps[0].inner.lemma_sem_in_range(s, pos);
        lemma_choice_sem_in_range(ps.skip(1), s, pos);
    }
}

} // verus!
