use vstd::prelude::*;

use crate::ir::ConstType;

verus! {

/// The primitive source-level types.
#[derive(Debug, Clone, Copy, PartialEq, Eq, Structural)]
pub enum BasicType {
    Int,
    Float,
    Str,
    Bool,
    Void,
}

/// The type a tree node is annotated with.
#[derive(Debug, PartialEq, Eq)]
pub enum AtomType {
    Basic(BasicType),
    List(Box<AtomType>),
}

/// The operand tag that stands for a source-level type. Every source-level
/// type has exactly one tag, and none of them is `Dynamic`.
pub open spec fn to_const_type(ty: AtomType) -> ConstType {
    match ty {
        AtomType::Basic(BasicType::Int) => ConstType::Int,
        AtomType::Basic(BasicType::Float) => ConstType::Float,
        AtomType::Basic(BasicType::Str) => ConstType::Str,
        AtomType::Basic(BasicType::Bool) => ConstType::Bool,
        AtomType::Basic(BasicType::Void) => ConstType::Void,
        AtomType::List(_) => ConstType::List,
    }
}

impl Clone for AtomType {
    fn clone(&self) -> (r: Self)
        ensures
            r == *self,
        decreases self,
    {
        match self {
            AtomType::Basic(b) => AtomType::Basic(*b),
            AtomType::List(item) => AtomType::List(Box::new((&**item).clone())),
        }
    }
}

impl AtomType {
    /// The operand tag of this type.
    pub fn const_type(&self) -> (tag: ConstType)
        ensures
            tag == to_const_type(*self),
            tag != ConstType::Dynamic,
    {
        match self {
            AtomType::Basic(BasicType::Int) => ConstType::Int,
            AtomType::Basic(BasicType::Float) => ConstType::Float,
            AtomType::Basic(BasicType::Str) => ConstType::Str,
            AtomType::Basic(BasicType::Bool) => ConstType::Bool,
            AtomType::Basic(BasicType::Void) => ConstType::Void,
            AtomType::List(_) => ConstType::List,
        }
    }

    /// Whether this is the type of an expression that leaves no value behind.
    pub fn is_void(&self) -> (r: bool)
        ensures
            r == (*self == AtomType::Basic(BasicType::Void)),
    {
        match self {
            AtomType::Basic(BasicType::Void) => true,
            _ => false,
        }
    }
}

} // verus!
