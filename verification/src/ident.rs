use vstd::prelude::*;

verus! {

/// An interned identifier. The lexer assigns each distinct source name one
/// symbol number; the later passes compare and look identifiers up by that
/// number alone.
#[derive(Clone, Copy, Debug, PartialEq, Eq, Structural)]
pub struct Ident(pub u32);

} // verus!
