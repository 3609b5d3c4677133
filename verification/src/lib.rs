//! A composable parser-combinator core.
//!
//! A parser is a reusable matcher over an in-memory sequence of elements.
//! Applied at a cursor position it either succeeds, producing a typed output
//! value and the position just past what it consumed, or fails, consuming
//! nothing.  Combinators build new parsers out of existing ones: sequencing
//! (`and`, `then_maybe`), alternation (`or`, `choice`), repetition (`many`,
//! `many1`), optionality (`maybe`) and transformation (`map`, `filter`,
//! `skip`, `into_string`).
//!
//! Every parser carries a mathematical semantics, the spec function
//! [`Combinator::sem`], and the executable matcher is proved to return
//! exactly what that semantics says.  The remainder after a successful match
//! is a plain cursor position: a position equal to the input length is the
//! empty remainder, which is a perfectly valid, matchable state.  Sequencing
//! therefore always offers the second parser the (possibly empty) remainder
//! left by the first; only the second parser's own logic can fail there.

pub mod alternation;
pub mod collect;
pub mod combinator;
pub mod laws;
pub mod parser;
pub mod primitives;
pub mod repetition;
pub mod sequencing;
pub mod transform;

pub use collect::CollectChars;
pub use combinator::Combinator;
pub use parser::Parser;
pub use primitives::any;
pub use primitives::char;
pub use primitives::digit;
pub use primitives::satisfy;
