//! A minimal S-expression language evaluator.
//!
//! The crate models a small Lisp: expression trees made of integers, symbols
//! and procedures; a chain of binding scopes held in an index-addressed arena;
//! a fixed library of native procedures; and a recursive evaluator that
//! resolves symbols, applies procedures and reports the first error it meets.
use vstd::prelude::*;

pub mod builtin;
pub mod laws;
pub mod lisp;
pub mod render;
pub mod semantics;

verus! {

} // verus!
