//! A typed middle end for a small imperative language: declaration
//! collection, type inference, checking, generic bookkeeping, trait
//! resolution, and lowering to a monomorphic typed IR.

pub mod ast;
pub mod typeck;
pub mod error;
pub mod lir;
