use vstd::prelude::*;

use crate::span::Span;

verus! {

/// A compilation diagnostic: the source span it points at and its message.
#[derive(Clone, Debug, PartialEq)]
pub struct Error {
    pub span: Span,
    pub message: String,
}

} // verus!
