use vstd::prelude::*;

verus! {

/// A byte range in the shader source text, carried on every expression node
/// and on every diagnostic.
#[derive(Clone, Copy, Debug, PartialEq, Eq, Structural)]
pub struct Span {
    pub start: usize,
    pub end: usize,
}

} // verus!
