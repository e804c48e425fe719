use vstd::prelude::*;

use crate::ident::Ident;

verus! {

/// The type the checker assigns to an expression. Method calls are resolved
/// through the `Struct` variant: a call `a.m(..)` on a receiver of type
/// `Struct { ident }` is handled as a plain call on the struct's functions.
#[derive(Clone, Copy, Debug, PartialEq, Eq, Structural)]
pub enum Ty {
    Bool,
    Int,
    Float,
    Vec2,
    Vec3,
    Vec4,
    Mat4,
    Struct { ident: Ident },
}

} // verus!
