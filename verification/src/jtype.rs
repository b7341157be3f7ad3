//! A resolved reference into the type table.

use vstd::prelude::*;

verus! {

/// Mathematical model of a [`TypeRef`]: its table index and descriptor.
pub struct SpecTypeRef {
    pub index: u64,
    pub descriptor: Seq<char>,
}

/// A type reference resolved through the context's type table: the index it
/// was resolved from and the descriptor string found there.
#[derive(Debug, Clone, PartialEq)]
pub struct TypeRef {
    /// Index into the type table.
    pub index: u64,
    /// The type descriptor recorded in the table.
    pub descriptor: String,
}

impl View for TypeRef {
    type V = SpecTypeRef;

    open spec fn view(&self) -> SpecTypeRef {
        SpecTypeRef { index: self.index, descriptor: self.descriptor@ }
    }
}

impl TypeRef {
    /// Index into the type table.
    pub fn index(&self) -> (r: u64)
        ensures
            r == self@.index,
    {
        self.index
    }

    /// The type descriptor recorded in the table.
    pub fn descriptor(&self) -> (r: &String)
        ensures
            r@ == self@.descriptor,
    {
        &self.descriptor
    }
}

} // verus!
