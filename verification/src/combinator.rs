//! The interface every parser implements: a spec-level semantics and an
//! executable matcher that is proved to agree with it.

use vstd::prelude::*;

verus! {

/// What a parser means on a given input, at spec level: `None` for a failed
/// match, `Some((v, q))` for a success that produced the (deep view of the)
/// output value `v` and left the cursor at `q`.
pub type SemResult<V> = Option<(V, int)>;

/// A unit of parsing work.
///
/// `Elem` is the input element type, `Out` the output value type.  The
/// semantics `sem` is a total spec function of the parser, the input sequence
/// and the cursor position, so parsing is deterministic by construction: the
/// executable matcher `run` must return exactly what `sem` says.
pub trait Combinator: Sized {
    /// The input element type.
    type Elem;

    /// The output value type; its deep view is what `sem` speaks of.
    type Out: DeepView;

    /// Well-formedness: what must hold of the parser's captured state for
    /// `run` to be callable (for instance that a captured predicate function
    /// refines its spec-level counterpart, or that the inner parser of a
    /// repetition strictly consumes input).
    spec fn wf(&self) -> bool;

    /// The mathematical semantics: the result of matching at position `pos`
    /// of input `s`.  A failure consumes nothing; a success reports the
    /// cursor just past everything it consumed.
    spec fn sem(&self, s: Seq<Self::Elem>, pos: int) -> SemResult<<Self::Out as DeepView>::V>;

    /// A parser never consumes more input than there is: a successful match
    /// starting inside the input leaves the cursor inside it (possibly at
    /// its very end, the empty remainder).
    proof fn lemma_sem_in_range(&self, s: Seq<Self::Elem>, pos: int)
        requires
            self.wf(),
            0 <= pos <= s.len(),
        ensures
            (match self.sem(s, pos) {
                Some((v, q)) => pos <= q <= s.len(),
                None => true,
            }),
    ;

    /// The executable matcher.  On success it returns the output value and
    /// the new cursor; on failure it returns `None` and has consumed
    /// nothing.  Its result is exactly what `sem` prescribes.
    fn run(&self, input: &[Self::Elem], pos: usize) -> (r: Option<(Self::Out, usize)>)
        requires
            self.wf(),
            pos <= input@.len(),
        ensures
            (match r {
                Some((o, q)) => {
                    &&& self.sem(input@, pos as int) == Some((o.deep_view(), q as int))
                    &&& pos <= q <= input@.len()
                },
                None => self.sem(input@, pos as int) is None,
            }),
    ;
}

/// A parser strictly consumes input when every success moves the cursor
/// forward.  Repetition demands this of its inner parser: repeating a parser
/// that can succeed on a zero-length match would never terminate.
pub open spec fn strictly_consuming<P: Combinator>(p: &P) -> bool {
    forall|s: Seq<P::Elem>, pos: int|
        0 <= pos <= s.len() ==> (match #[trigger] p.sem(s, pos) {
            Some((v, q)) => pos < q,
            None => true,
        })
}

} // verus!
