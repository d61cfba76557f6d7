//! A staged-compilation engine: typed expression graphs, multi-function
//! contexts with forward references, reification of expressions into
//! expressions that rebuild them, and a runtime that compiles and runs them.
pub mod ir;
pub mod typing;
pub mod context;
pub mod runtime;
pub mod laws;
pub mod host;
