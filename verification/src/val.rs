use vstd::prelude::*;

use crate::math::Vec4;

verus! {

/// A literal value the constant evaluator can produce. Single-precision
/// values are held as their IEEE 754 bit patterns, so two values are equal
/// exactly when they are bit-identical. Wider vectors and matrices are built
/// through constructor calls, which never fold, so they need no variant here.
#[derive(Clone, Copy, Debug, PartialEq, Eq, Structural)]
pub enum Val {
    Bool(bool),
    Int(i64),
    Float(u32),
    Vec4(Vec4),
}

impl Val {
    /// The boolean a value carries, if it is one.
    pub fn to_bool(&self) -> (r: Option<bool>)
        ensures
            r == self.to_bool_spec(),
    {
        match *self {
            Val::Bool(b) => Some(b),
            _ => None,
        }
    }

    pub open spec fn to_bool_spec(&self) -> Option<bool> {
        match *self {
            Val::Bool(b) => Some(b),
            _ => None,
        }
    }
}

} // verus!
