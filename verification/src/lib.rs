//! Dual-variant definition expansion.
//!
//! Given one written definition of an operation, this library produces the
//! token streams of two sibling variants of it: a direct (blocking) variant
//! and a suspending (asynchronous) variant.  A generic identifier-rewriting
//! pass retargets the call markers embedded in the body of each variant, and
//! two marker expanders resolve each marker either to a plain call or to a
//! call followed by a suspension point.

pub mod definition;
pub mod error;
pub mod expand;
pub mod marker;
pub mod rewrite;
pub mod tree;
