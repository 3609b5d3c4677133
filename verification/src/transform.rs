//! Transformation combinators: reshape the output of a successful match
//! without touching how input is consumed, and the raw constructor that
//! wraps a bare matching function as a parser.

use vstd::prelude::*;

use crate::combinator::Combinator;

verus! {

/// Discards the output of a successful match, keeping the remainder;
/// failure passes through unchanged.
pub struct Skip<P> {
    /// The parser whose output is discarded.
    pub p: P,
}

impl<P: Combinator> Combinator for Skip<P> {
    type Elem = P::Elem;

    type Out = ();

    open spec fn wf(&self) -> bool {
        self.p.wf()
    }

    open spec fn sem(&self, s: Seq<P::Elem>, pos: int) -> Option<((), int)> {
        match self.p.sem(s, pos) {
            Some((v, q)) => Some(((), q)),
            None => None,
        }
    }

    proof fn lemma_sem_in_range(&self, s: Seq<P::Elem>, pos: int) {
        self.p.lemma_sem_in_range(s, pos);
    }

    fn run(&self, input: &[P::Elem], pos: usize) -> (r: Option<((), usize)>) {
        match self.p.run(input, pos) {
            Some((o, q)) => Some(((), q)),
            None => None,
        }
    }
}

/// Replaces the output `o` of a successful match with `f(o)`; failure
/// passes through unchanged.  The executable transform `f` refines the
/// spec-level transform `t` on deep views.
#[verifier::reject_recursive_types(O2)]
pub struct MapOut<P: Combinator, O2: DeepView, F: Fn(P::Out) -> O2> {
    /// The parser whose output is transformed.
    pub p: P,
    /// The executable transform.
    pub f: F,
    /// The spec-level meaning of the transform, on deep views.
    pub t: Ghost<spec_fn(<P::Out as DeepView>::V) -> <O2 as DeepView>::V>,
}

impl<P: Combinator, O2: DeepView, F: Fn(P::Out) -> O2> Combinator for MapOut<P, O2, F> {
    type Elem = P::Elem;

    type Out = O2;

    open spec fn wf(&self) -> bool {
        &&& self.p.wf()
        &&& forall|o: P::Out| #[trigger] call_requires(self.f, (o,))
        &&& forall|o: P::Out, y: O2| #[trigger]
            call_ensures(self.f, (o,), y) ==> y.deep_view() == self.t@(o.deep_view())
    }

    open spec fn sem(&self, s: Seq<P::Elem>, pos: int) -> Option<(<O2 as DeepView>::V, int)> {
        match self.p.sem(s, pos) {
            Some((v, q)) => Some((self.t@(v), q)),
            None => None,
        }
    }

    proof fn lemma_sem_in_range(&self, s: Seq<P::Elem>, pos: int) {
        self.p.lemma_sem_in_range(s, pos);
    }

    fn run(&self, input: &[P::Elem], pos: usize) -> (r: Option<(O2, usize)>) {
        match self.p.run(input, pos) {
            Some((o, q)) => Some(((self.f)(o), q)),
            None => None,
        }
    }
}

/// Re-checks the output of a successful match against a predicate; if the
/// predicate rejects it, the result is failure, exactly as if nothing had
/// matched, so no consumption by the discarded match leaks through.
pub struct FilterOut<P: Combinator, F: Fn(&P::Out) -> bool> {
    /// The parser whose output is re-checked.
    pub p: P,
    /// The executable predicate.
    pub f: F,
    /// The spec-level meaning of the predicate, on deep views.
    pub t: Ghost<spec_fn(<P::Out as DeepView>::V) -> bool>,
}

impl<P: Combinator, F: Fn(&P::Out) -> bool> Combinator for FilterOut<P, F> {
    type Elem = P::Elem;

    type Out = P::Out;

    open spec fn wf(&self) -> bool {
        &&& self.p.wf()
        &&& forall|o: &P::Out| #[trigger] call_requires(self.f, (o,))
        &&& forall|o: &P::Out, b: bool| #[trigger]
            call_ensures(self.f, (o,), b) ==> b == self.t@(o.deep_view())
    }

    open spec fn sem(&self, s: Seq<P::Elem>, pos: int) -> Option<(<P::Out as DeepView>::V, int)> {
        match self.p.sem(s, pos) {
            Some((v, q)) => if self.t@(v) {
                Some((v, q))
            } else {
                None
            },
            None => None,
        }
    }

    proof fn lemma_sem_in_range(&self, s: Seq<P::Elem>, pos: int) {
        self.p.lemma_sem_in_range(s, pos);
    }

    fn run(&self, input: &[P::Elem], pos: usize) -> (r: Option<(P::Out, usize)>) {
        match self.p.run(input, pos) {
            Some((o, q)) => {
                if (self.f)(&o) {
                    Some((o, q))
                } else {
                    None
                }
            },
            None => None,
        }
    }
}

/// A parser built from a bare matching function.  The function `f` refines
/// the spec-level semantics `m`: whatever it returns on a valid cursor is
/// what `m` says, and `m` never reports a cursor outside the input.
#[verifier::reject_recursive_types(I)]
#[verifier::reject_recursive_types(O)]
pub struct FromFn<I, O: DeepView, F: Fn(&[I], usize) -> Option<(O, usize)>> {
    /// The matching function.
    pub f: F,
    /// The spec-level semantics the function implements.
    pub m: Ghost<spec_fn(Seq<I>, int) -> Option<(<O as DeepView>::V, int)>>,
}

impl<I, O: DeepView, F: Fn(&[I], usize) -> Option<(O, usize)>> Combinator for FromFn<I, O, F> {
    type Elem = I;

    type Out = O;

    open spec fn wf(&self) -> bool {
        &&& forall|inp: &[I], pos: usize|
            pos <= inp@.len() ==> #[trigger] call_requires(self.f, (inp, pos))
        &&& forall|inp: &[I], pos: usize, ret: Option<(O, usize)>|
            pos <= inp@.len() && #[trigger] call_ensures(self.f, (inp, pos), ret) ==> (match ret {
                Some((o, q)) => self.m@(inp@, pos as int) == Some((o.deep_view(), q as int)) && pos
                    <= q <= inp@.len(),
                None => self.m@(inp@, pos as int) is None,
            })
        &&& forall|s: Seq<I>, pos: int|
            0 <= pos <= s.len() ==> (match #[trigger] self.m@(s, pos) {
                Some((v, q)) => pos <= q <= s.len(),
                None => true,
            })
    }

    open spec fn sem(&self, s: Seq<I>, pos: int) -> Option<(<O as DeepView>::V, int)> {
        self.m@(s, pos)
    }

    proof fn lemma_sem_in_range(&self, s: Seq<I>, pos: int) {
    }

    fn run(&self, input: &[I], pos: usize) -> (r: Option<(O, usize)>) {
        (self.f)(input, pos)
    }
}

} // verus!
