//! Primitive type names of the typed front end.

use vstd::prelude::*;

verus! {

/// The primitive types a type annotation can name.
#[derive(Debug, Clone, Copy, PartialEq, Eq, Hash, Structural)]
pub enum PrimitiveType {
    Bool,
    Byte,
    Int,
    Uint,
    Float,
    Double,
    Char,
    String,
}

/// A type annotation.
#[derive(Debug, PartialEq, Eq)]
pub enum Type {
    Primitive(PrimitiveType),
    Array(Box<Type>),
    Tuple(Vec<Type>),
    Function { params: Vec<Type>, return_type: Box<Type> },
}

impl PrimitiveType {
    pub open spec fn spec_is_integer(self) -> bool {
        self is Byte || self is Int || self is Uint
    }

    pub open spec fn spec_is_float(self) -> bool {
        self is Float || self is Double
    }

    /// Byte, Int, Uint, Float and Double are numeric.
    pub fn is_numeric(&self) -> (r: bool)
        ensures
            r == (self.spec_is_integer() || self.spec_is_float()),
    {
        match self {
            PrimitiveType::Byte | PrimitiveType::Int | PrimitiveType::Uint | PrimitiveType::Float
            | PrimitiveType::Double => true,
            _ => false,
        }
    }

    /// Byte, Int and Uint are integers.
    pub fn is_integer(&self) -> (r: bool)
        ensures
            r == self.spec_is_integer(),
    {
        match self {
            PrimitiveType::Byte | PrimitiveType::Int | PrimitiveType::Uint => true,
            _ => false,
        }
    }

    /// Float and Double are floating-point types.
    pub fn is_float(&self) -> (r: bool)
        ensures
            r == self.spec_is_float(),
    {
        match self {
            PrimitiveType::Float | PrimitiveType::Double => true,
            _ => false,
        }
    }

    /// Int, Float and Double carry a sign.
    pub fn is_signed(&self) -> (r: bool)
        ensures
            r == (*self is Int || self.spec_is_float()),
    {
        match self {
            PrimitiveType::Int | PrimitiveType::Float | PrimitiveType::Double => true,
            _ => false,
        }
    }

    /// The type's name as written in source.
    pub fn name(&self) -> (r: &'static str)
    {
        match self {
            PrimitiveType::Bool => "bool",
            PrimitiveType::Byte => "byte",
            PrimitiveType::Int => "int",
            PrimitiveType::Uint => "uint",
            PrimitiveType::Float => "float",
            PrimitiveType::Double => "double",
            PrimitiveType::Char => "char",
            PrimitiveType::String => "string",
        }
    }
}

} // verus!
