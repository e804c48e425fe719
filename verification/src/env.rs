use vstd::prelude::*;

verus! {

/// The resolved storage kind of a variable reference, set by the analyzer.
/// Only `Const` references can take part in constant folding; every other
/// kind names a value that exists only at shader run time.
#[derive(Clone, Copy, Debug, PartialEq, Eq, Structural)]
pub enum VarKind {
    Const,
    Uniform,
    Instance,
    Varying,
    Local,
    Function,
    Builtin,
}

} // verus!
