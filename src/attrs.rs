//! Modifiers that items and bindings carry.
use vstd::prelude::*;

verus! {

#[derive(Debug, Copy, Clone, PartialEq, Eq, Structural)]
pub enum Constness {
    Undefined,
    Const,
    /// Runtime, i.e. not const.
    Rt,
}

#[derive(Debug, Copy, Clone, PartialEq, Eq, Structural)]
pub enum Mutability {
    Mut,
    Immut,
}

#[derive(Debug, Copy, Clone, PartialEq, Eq, Structural)]
pub enum Visibility {
    Public,
    Crate,
    Private,
}

#[derive(Debug, Copy, Clone, PartialEq, Eq, Structural)]
pub enum Unsafety {
    Unsafe,
    Safe,
}

} // verus!
