//! Repetition combinators: apply one parser again and again, accumulating
//! the outputs in order, until it fails or the input is exhausted.
//!
//! Each successful application of a well-formed inner parser strictly
//! advances the cursor ([`strictly_consuming`]), which is what bounds the
//! loop; an inner parser that could succeed on a zero-length match is
//! excluded by well-formedness, since repeating it would never terminate.

use vstd::prelude::*;

use crate::combinator::Combinator;
use crate::combinator::strictly_consuming;

verus! {

/// The outputs collected by repeatedly applying `p` from `pos` on, with the
/// cursor left after the last success.  Repetition cannot fail: zero
/// matches yield the empty sequence and the original cursor.
///
/// For a success that does not advance the cursor (impossible for a
/// strictly consuming parser) the repetition is cut off after that one
/// element, so that the function is well defined on every parser.
pub open spec fn many_sem<P: Combinator>(p: &P, s: Seq<P::Elem>, pos: int) -> (
    Seq<<P::Out as DeepView>::V>,
    int,
)
    decreases s.len() - pos,
{
    if 0 <= pos <= s.len() {
        match p.sem(s, pos) {
            Some((v, q)) => {
                if pos < q <= s.len() {
                    let rest = many_sem(p, s, q);
                    (seq![v] + rest.0, rest.1)
                } else {
                    (seq![v], q)
                }
            },
            None => (Seq::empty(), pos),
        }
    } else {
        (Seq::empty(), pos)
    }
}

/// Repetition of a strictly consuming parser leaves the cursor inside the
/// input, at or past where it started.
pub proof fn lemma_many_sem_in_range<P: Combinator>(p: &P, s: Seq<P::Elem>, pos: int)
    requires
        p.wf(),
        strictly_consuming(p),
        0 <= pos <= s.len(),
    ensures
        pos <= many_sem(p, s, pos).1 <= s.len(),
    decreases s.len() - pos,
{
    p.lemma_sem_in_range(s, pos);
    if let Some((v, q)) = p.sem(s, pos) {
        lemma_many_sem_in_range(p, s, q);
    }
}

/// Matches zero or more occurrences of `p`, collecting the outputs in
/// order.  It never fails: zero occurrences are a success with an empty
/// collection and zero consumption.
pub struct Many<P> {
    /// The repeated parser; it must strictly consume input.
    pub p: P,
}

impl<P: Combinator> Combinator for Many<P> {
    type Elem = P::Elem;

    type Out = Vec<P::Out>;

    open spec fn wf(&self) -> bool {
        self.p.wf() && strictly_consuming(&self.p)
    }

    open spec fn sem(&self, s: Seq<P::Elem>, pos: int) -> Option<
        (Seq<<P::Out as DeepView>::V>, int),
    > {
        Some(many_sem(&self.p, s, pos))
    }

    proof fn lemma_sem_in_range(&self, s: Seq<P::Elem>, pos: int) {
        lemma_many_sem_in_range(&self.p, s, pos);
    }

    fn run(&self, input: &[P::Elem], pos: usize) -> (r: Option<(Vec<P::Out>, usize)>) {
        let mut acc: Vec<P::Out> = Vec::new();
        let mut cur: usize = pos;
        loop
            invariant
                self.p.wf(),
                strictly_consuming(&self.p),
                pos <= cur <= input@.len(),
                many_sem(&self.p, input@, pos as int).0 == acc.deep_view() + many_sem(
                    &self.p,
                    input@,
                    cur as int,
                ).0,
                many_sem(&self.p, input@, pos as int).1 == many_sem(&self.p, input@, cur as int).1,
            ensures
                pos <= cur <= input@.len(),
                self.p.sem(input@, cur as int) is None,
                many_sem(&self.p, input@, pos as int).0 == acc.deep_view() + many_sem(
                    &self.p,
                    input@,
                    cur as int,
                ).0,
                many_sem(&self.p, input@, pos as int).1 == many_sem(&self.p, input@, cur as int).1,
            decreases input@.len() - cur,
        {
            match self.p.run(input, cur) {
                Some((o, q)) => {
                    proof {
                        let old_acc = acc.deep_view();
                        let rest = many_sem(&self.p, input@, q as int);
                        assert(many_sem(&self.p, input@, cur as int).0 == seq![o.deep_view()]
                            + rest.0);
                        assert(old_acc + (seq![o.deep_view()] + rest.0) =~= (old_acc + seq![
                            o.deep_view(),
                        ]) + rest.0);
                    }
                    let ghost prev = acc.deep_view();
                    acc.push(o);
                    assert(acc.deep_view() =~= prev + seq![o.deep_view()]);
                    cur = q;
                },
                None => {
                    break;
                },
            }
        }
        proof {
            assert(many_sem(&self.p, input@, cur as int).0 =~= Seq::<
                <P::Out as DeepView>::V,
            >::empty());
            assert(acc.deep_view() + Seq::<<P::Out as DeepView>::V>::empty() =~= acc.deep_view());
        }
        Some((acc, cur))
    }
}

/// Matches one or more occurrences of `p`: the same loop as [`Many`], but
/// zero collected elements are reported as failure.  On success the output
/// is the collected elements behind an explicit presence marker, exactly
/// the elements [`Many`] would have collected, consuming the same amount.
pub struct Many1<P> {
    /// The underlying zero-or-more repetition.
    pub rep: Many<P>,
}

impl<P: Combinator> Combinator for Many1<P> {
    type Elem = P::Elem;

    type Out = Option<Vec<P::Out>>;

    open spec fn wf(&self) -> bool {
        self.rep.wf()
    }

    open spec fn sem(&self, s: Seq<P::Elem>, pos: int) -> Option<
        (Option<Seq<<P::Out as DeepView>::V>>, int),
    > {
        let rest = many_sem(&self.rep.p, s, pos);
        if rest.0.len() == 0 {
            None
        } else {
            Some((Some(rest.0), rest.1))
        }
    }

    proof fn lemma_sem_in_range(&self, s: Seq<P::Elem>, pos: int) {
        lemma_many_sem_in_range(&self.rep.p, s, pos);
    }

    fn run(&self, input: &[P::Elem], pos: usize) -> (r: Option<(Option<Vec<P::Out>>, usize)>) {
        match self.rep.run(input, pos) {
            Some((vs, q)) => {
                if vs.len() == 0 {
                    None
                } else {
                    Some((Some(vs), q))
                }
            },
            None => None,
        }
    }
}

/// A repetition that collected at least one element has advanced the
/// cursor, so one-or-more repetition of a strictly consuming parser is
/// itself strictly consuming.
pub proof fn lemma_many1_strictly_consuming<P: Combinator>(m1: &Many1<P>)
    requires
        m1.rep.p.wf(),
        strictly_consuming(&m1.rep.p),
    ensures
        strictly_consuming(m1),
{
    assert forall|s: Seq<P::Elem>, pos: int| 0 <= pos <= s.len() implies (match #[trigger] m1.sem(
        s,
        pos,
    ) {
        Some((v, q)) => pos < q,
        None => true,
    }) by {
        m1.rep.p.lemma_sem_in_range(s, pos);
        if let Some((v1, q1)) = m1.rep.p.sem(s, pos) {
            lemma_many_sem_in_range(&m1.rep.p, s, q1);
        }
    }
}

} // verus!
