//! Semantic analysis for a small statically-typed language: scoped name
//! resolution and structural type checking over a parsed program, collecting
//! every diagnostic instead of stopping at the first one.

pub mod ast;
pub mod builtins;
pub mod laws;
pub mod rules;
pub mod symbol;
pub mod typecheck;
