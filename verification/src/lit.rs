use vstd::prelude::*;

use crate::val::Val;

verus! {

/// A literal written in the shader source. A float literal is carried as the
/// bit pattern of the single-precision value the lexer read.
#[derive(Clone, Copy, Debug, PartialEq, Eq, Structural)]
pub enum Lit {
    Bool(bool),
    Int(i64),
    Float(u32),
}

/// A type name usable as a constructor in shader source, such as `vec4(...)`.
#[derive(Clone, Copy, Debug, PartialEq, Eq, Structural)]
pub enum TyLit {
    Bool,
    Int,
    Float,
    Vec2,
    Vec3,
    Vec4,
    Mat4,
}

impl Lit {
    /// The value a literal denotes.
    pub fn to_val(self) -> (r: Val)
        ensures
            r == self.to_val_spec(),
    {
        match self {
            Lit::Bool(b) => Val::Bool(b),
            Lit::Int(i) => Val::Int(i),
            Lit::Float(bits) => Val::Float(bits),
        }
    }

    pub open spec fn to_val_spec(self) -> Val {
        match self {
            Lit::Bool(b) => Val::Bool(b),
            Lit::Int(i) => Val::Int(i),
            Lit::Float(bits) => Val::Float(bits),
        }
    }
}

} // verus!
