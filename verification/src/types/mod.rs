//! Types of the language and pattern-match checking.
pub mod ty;
pub mod subst;
pub mod assoc;
pub mod exhaustive;
pub mod infer;
pub mod inference;
pub mod sigtext;
