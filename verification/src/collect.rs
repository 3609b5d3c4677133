//! Collecting character-shaped outputs into text.
//!
//! Grammars built from sequencing, optionality and repetition of
//! character-producing parsers yield nested tuples, options and collections
//! of characters.  [`CollectChars`] is the structural fold that flattens any
//! such shape, left to right, into a single string; it is total, an absent
//! optional contributing the empty string.

use vstd::prelude::*;

use crate::combinator::Combinator;
use crate::parser::Parser;

verus! {

/// Relies on `String::push`: it appends the given character to the end of
/// the string.
pub assume_specification[ String::push ](s: &mut String, ch: std::primitive::char)
    ensures
        final (s)@ == old(s)@.push(ch),
;

/// Relies on `String::push_str`: it appends the given string slice onto the
/// end of the string.
pub assume_specification[ String::push_str ](s: &mut String, other: &str)
    ensures
        final (s)@ == old(s)@ + other@,
;

/// The spec-level fold: the characters, in order, inside a value of one of
/// the four character-composed shapes (an atomic character, a sequence, an
/// absent or present optional, an ordered pair).
pub trait SpecChars {
    /// The characters the value contributes, left to right.
    spec fn spec_chars(self) -> Seq<char>;
}

impl SpecChars for char {
    open spec fn spec_chars(self) -> Seq<char> {
        seq![self]
    }
}

impl SpecChars for Seq<char> {
    open spec fn spec_chars(self) -> Seq<char> {
        self
    }
}

impl<T: SpecChars> SpecChars for Option<T> {
    open spec fn spec_chars(self) -> Seq<char> {
        match self {
            Some(t) => t.spec_chars(),
            None => Seq::empty(),
        }
    }
}

impl<A: SpecChars, B: SpecChars> SpecChars for (A, B) {
    open spec fn spec_chars(self) -> Seq<char> {
        self.0.spec_chars() + self.1.spec_chars()
    }
}

/// A value built out of characters that can be flattened into a single
/// string: the executable counterpart of [`SpecChars`].
pub trait CollectChars: DeepView where Self::V: SpecChars {
    /// Concatenates, left to right, the characters inside the value.
    fn into_string(&self) -> (s: String)
        ensures
            s@ == self.deep_view().spec_chars(),
    ;
}

impl CollectChars for char {
    fn into_string(&self) -> (s: String) {
        let mut s = String::new();
        s.push(*self);
        proof {
            assert(s@ =~= seq![*self]);
        }
        s
    }
}

impl CollectChars for Vec<char> {
    fn into_string(&self) -> (s: String) {
        let mut s = String::new();
        let mut i: usize = 0;
        while i < self.len()
            invariant
                0 <= i <= self@.len(),
                s@ == self@.subrange(0, i as int),
            decreases self@.len() - i,
        {
            s.push(self[i]);
            proof {
                assert(s@ =~= self@.subrange(0, i + 1));
            }
            i = i + 1;
        }
        proof {
            assert(s@ =~= self@);
            assert(self.deep_view() =~= self@);
        }
        s
    }
}

impl<T: CollectChars> CollectChars for Option<T> where T::V: SpecChars {
    fn into_string(&self) -> (s: String) {
        match self {
            Some(t) => t.into_string(),
            None => String::new(),
        }
    }
}

impl<A: CollectChars, B: CollectChars> CollectChars for (A, B) where A::V: SpecChars, B::V: SpecChars {
    fn into_string(&self) -> (s: String) {
        let mut s = self.0.into_string();
        let t = self.1.into_string();
        s.push_str(t.as_str());
        s
    }
}

/// Flattens the character-composed output of a successful match into a
/// single string; failure passes through unchanged.
pub struct IntoString<P> {
    /// The parser whose output is flattened.
    pub p: P,
}

impl<P: Combinator> Combinator for IntoString<P> where
    P::Out: CollectChars,
    <P::Out as DeepView>::V: SpecChars,
 {
    type Elem = P::Elem;

    type Out = String;

    open spec fn wf(&self) -> bool {
        self.p.wf()
    }

    open spec fn sem(&self, s: Seq<P::Elem>, pos: int) -> Option<(Seq<char>, int)> {
        match self.p.sem(s, pos) {
            Some((v, q)) => Some((v.spec_chars(), q)),
            None => None,
        }
    }

    proof fn lemma_sem_in_range(&self, s: Seq<P::Elem>, pos: int) {
        self.p.lemma_sem_in_range(s, pos);
    }

    fn run(&self, input: &[P::Elem], pos: usize) -> (r: Option<(String, usize)>) {
        match self.p.run(input, pos) {
            Some((o, q)) => Some((o.into_string(), q)),
            None => None,
        }
    }
}

impl<P: Combinator> Parser<P> where P::Out: CollectChars, <P::Out as DeepView>::V: SpecChars {
    /// Flattens the parser's character-composed output into a single
    /// string, concatenating the characters left to right; failure passes
    /// through unchanged.
    pub fn into_string(self) -> (r: Parser<IntoString<P>>)
        ensures
            r.wf() == self.wf(),
            forall|s: Seq<P::Elem>, pos: int|
                #[trigger] r.sem(s, pos) == (match self.sem(s, pos) {
                    Some((v, q)) => Some((v.spec_chars(), q)),
                    None => None,
                }),
    {
        Parser { inner: IntoString { p: self.inner } }
    }
}

} // verus!
