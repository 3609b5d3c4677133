//! Leaf parsers: they inspect exactly one input element against a predicate.
//! All of them fail on an empty remainder and consume exactly one element on
//! success.

use vstd::prelude::*;

use crate::combinator::Combinator;
use crate::parser::Parser;

verus! {

/// An ASCII digit, `'0'` through `'9'`.
pub open spec fn is_ascii_digit(c: char) -> bool {
    48 <= c as u32 <= 57
}

/// Matches one element for which a caller-supplied predicate holds.
///
/// The executable predicate `f` refines the spec-level predicate `pred`:
/// well-formedness demands that whatever `f` returns on an element is what
/// `pred` says of it.
pub struct Satisfy<F> {
    /// The executable predicate.
    pub f: F,
    /// The spec-level meaning of the predicate.
    pub pred: Ghost<spec_fn(char) -> bool>,
}

impl<F: Fn(char) -> bool> Combinator for Satisfy<F> {
    type Elem = char;

    type Out = char;

    open spec fn wf(&self) -> bool {
        &&& forall|c: char| #[trigger] call_requires(self.f, (c,))
        &&& forall|c: char, b: bool| #[trigger] call_ensures(self.f, (c,), b) ==> b == self.pred@(c)
    }

    open spec fn sem(&self, s: Seq<char>, pos: int) -> Option<(char, int)> {
        if 0 <= pos < s.len() && self.pred@(s[pos]) {
            Some((s[pos], pos + 1))
        } else {
            None
        }
    }

    proof fn lemma_sem_in_range(&self, s: Seq<char>, pos: int) {
    }

    fn run(&self, input: &[char], pos: usize) -> (r: Option<(char, usize)>) {
        if pos < input.len() {
            let x = input[pos];
            if (self.f)(x) {
                Some((x, pos + 1))
            } else {
                None
            }
        } else {
            None
        }
    }
}

/// Matches one specific element.
pub struct CharLit {
    /// The element to match.
    pub c: char,
}

impl Combinator for CharLit {
    type Elem = char;

    type Out = char;

    open spec fn wf(&self) -> bool {
        true
    }

    open spec fn sem(&self, s: Seq<char>, pos: int) -> Option<(char, int)> {
        if 0 <= pos < s.len() && s[pos] == self.c {
            Some((s[pos], pos + 1))
        } else {
            None
        }
    }

    proof fn lemma_sem_in_range(&self, s: Seq<char>, pos: int) {
    }

    fn run(&self, input: &[char], pos: usize) -> (r: Option<(char, usize)>) {
        if pos < input.len() {
            let x = input[pos];
            if x == self.c {
                Some((x, pos + 1))
            } else {
                None
            }
        } else {
            None
        }
    }
}

/// Matches one ASCII digit.
pub struct Digit {
}

impl Combinator for Digit {
    type Elem = char;

    type Out = char;

    open spec fn wf(&self) -> bool {
        true
    }

    open spec fn sem(&self, s: Seq<char>, pos: int) -> Option<(char, int)> {
        if 0 <= pos < s.len() && is_ascii_digit(s[pos]) {
            Some((s[pos], pos + 1))
        } else {
            None
        }
    }

    proof fn lemma_sem_in_range(&self, s: Seq<char>, pos: int) {
    }

    fn run(&self, input: &[char], pos: usize) -> (r: Option<(char, usize)>) {
        if pos < input.len() {
            let x = input[pos];
            let u = x as u32;
            if 48 <= u && u <= 57 {
                Some((x, pos + 1))
            } else {
                None
            }
        } else {
            None
        }
    }
}

/// Matches any one element; fails only on an empty remainder.
pub struct AnyChar {
}

impl Combinator for AnyChar {
    type Elem = char;

    type Out = char;

    open spec fn wf(&self) -> bool {
        true
    }

    open spec fn sem(&self, s: Seq<char>, pos: int) -> Option<(char, int)> {
        if 0 <= pos < s.len() {
            Some((s[pos], pos + 1))
        } else {
            None
        }
    }

    proof fn lemma_sem_in_range(&self, s: Seq<char>, pos: int) {
    }

    fn run(&self, input: &[char], pos: usize) -> (r: Option<(char, usize)>) {
        if pos < input.len() {
            let x = input[pos];
            Some((x, pos + 1))
        } else {
            None
        }
    }
}

/// A parser that succeeds, consuming exactly one element `e`, iff the
/// predicate holds of `e`; its output is `e` itself.
///
/// The predicate must be callable on every element and its contract must pin
/// its answer down: a function value whose postcondition allows two
/// different answers on one element is no predicate.  The spec-level
/// predicate of the result, `r.inner.pred`, agrees with every answer the
/// function value can return.
pub fn satisfy<F: Fn(char) -> bool>(f: F) -> (r: Parser<Satisfy<F>>)
    requires
        forall|c: char| #[trigger] call_requires(f, (c,)),
        forall|c: char, b1: bool, b2: bool|
            #[trigger] call_ensures(f, (c,), b1) && #[trigger] call_ensures(f, (c,), b2) ==> b1
                == b2,
    ensures
        r.wf(),
        r.strictly_consuming(),
        forall|c: char, b: bool| #[trigger] call_ensures(f, (c,), b) ==> r.inner.pred@(c) == b,
        forall|s: Seq<char>, pos: int|
            #[trigger] r.sem(s, pos) == (if 0 <= pos < s.len() && r.inner.pred@(s[pos]) {
                Some((s[pos], pos + 1))
            } else {
                None::<(char, int)>
            }),
{
    let ghost g = |c: char| choose|b: bool| call_ensures(f, (c,), b);
    proof {
        assert forall|c: char, b: bool| #[trigger] call_ensures(f, (c,), b) implies g(c) == b by {
            let b2 = choose|b2: bool| call_ensures(f, (c,), b2);
            assert(call_ensures(f, (c,), b2));
        }
    }
    Parser { inner: Satisfy { f, pred: Ghost(g) } }
}

/// A parser that succeeds, consuming exactly one element, iff that element
/// equals `c`; its output is the element.
pub fn char(c: char) -> (r: Parser<CharLit>)
    ensures
        r.wf(),
        r.strictly_consuming(),
        forall|s: Seq<char>, pos: int|
            #[trigger] r.sem(s, pos) == (if 0 <= pos < s.len() && s[pos] == c {
                Some((s[pos], pos + 1))
            } else {
                None::<(char, int)>
            }),
{
    Parser { inner: CharLit { c } }
}

/// A parser that succeeds, consuming exactly one element, iff that element
/// is an ASCII digit; its output is the element.
pub fn digit() -> (r: Parser<Digit>)
    ensures
        r.wf(),
        r.strictly_consuming(),
        forall|s: Seq<char>, pos: int|
            #[trigger] r.sem(s, pos) == (if 0 <= pos < s.len() && is_ascii_digit(s[pos]) {
                Some((s[pos], pos + 1))
            } else {
                None::<(char, int)>
            }),
{
    Parser { inner: Digit {} }
}

/// A parser that consumes one element whatever it is; it fails only when the
/// remainder is empty.
pub fn any() -> (r: Parser<AnyChar>)
    ensures
        r.wf(),
        r.strictly_consuming(),
        forall|s: Seq<char>, pos: int|
            #[trigger] r.sem(s, pos) == (if 0 <= pos < s.len() {
                Some((s[pos], pos + 1))
            } else {
                None::<(char, int)>
            }),
{
    Parser { inner: AnyChar {} }
}

} // verus!
