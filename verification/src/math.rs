use vstd::prelude::*;

verus! {

/// A four-component vector of IEEE 754 single-precision values, each held as
/// its bit pattern. The compiler only stores and copies the components; it
/// never does arithmetic on them, so the bit patterns are exact.
#[derive(Clone, Copy, Debug, PartialEq, Eq, Structural)]
pub struct Vec4 {
    pub x: u32,
    pub y: u32,
    pub z: u32,
    pub w: u32,
}

} // verus!
