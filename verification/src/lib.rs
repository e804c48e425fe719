//! The compile-time core of an embedded shading-language compiler: the typed
//! syntax tree a shader is parsed into, the value domain of compile-time
//! literals, and the constant evaluator that decides, for every expression,
//! whether it folds to a literal and records the outcome for the code
//! generator.

pub mod ast;
pub mod const_eval;
pub mod env;
pub mod error;
pub mod float32;
pub mod ident;
pub mod lit;
pub mod math;
pub mod span;
pub mod ty;
pub mod val;
