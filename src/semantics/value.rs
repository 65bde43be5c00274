//! Types of values, and the signatures of procedures.
use vstd::prelude::*;

use crate::parser::types::TypeMark;
use crate::semantics::SemanticsError;

verus! {

/// The type of an array's elements: always a scalar.
#[derive(Debug, Clone, Copy, PartialEq, Eq, Structural)]
pub enum Scalar {
    Bool,
    Int,
    Float,
    String,
}

#[derive(Debug, Clone, Copy, PartialEq, Eq, Structural)]
pub enum Type {
    Bool,
    Int,
    Float,
    String,
    /// An array of the given element type and length.
    Array(Scalar, usize),
    /// The return type of a scope that is no procedure.
    Void,
}

/// The scalar type that stands alone for an element type.
pub open spec fn scalar_type(s: Scalar) -> Type {
    match s {
        Scalar::Bool => Type::Bool,
        Scalar::Int => Type::Int,
        Scalar::Float => Type::Float,
        Scalar::String => Type::String,
    }
}

pub open spec fn is_numeric(t: Type) -> bool {
    t == Type::Int || t == Type::Float
}

/// The type that a type name denotes.
pub open spec fn mark_type(m: TypeMark) -> Type {
    match m {
        TypeMark::Integer => Type::Int,
        TypeMark::Float => Type::Float,
        TypeMark::String => Type::String,
        TypeMark::Bool => Type::Bool,
    }
}

/// The element type that a type name denotes.
pub open spec fn mark_scalar(m: TypeMark) -> Scalar {
    match m {
        TypeMark::Integer => Scalar::Int,
        TypeMark::Float => Scalar::Float,
        TypeMark::String => Scalar::String,
        TypeMark::Bool => Scalar::Bool,
    }
}

/// A value of type `from` may be stored where `to` is expected, converted
/// where the two differ.
pub open spec fn assignable(to: Type, from: Type) -> bool {
    to == from || (to == Type::Int && from == Type::Bool) || (to == Type::Bool && from == Type::Int)
        || (to == Type::Float && from == Type::Int) || (to == Type::Int && from == Type::Float)
}

impl Scalar {
    pub fn as_type(self) -> (r: Type)
        ensures
            r == scalar_type(self),
    {
        match self {
            Scalar::Bool => Type::Bool,
            Scalar::Int => Type::Int,
            Scalar::Float => Type::Float,
            Scalar::String => Type::String,
        }
    }

    pub fn from_mark(mark: TypeMark) -> (r: Scalar)
        ensures
            r == mark_scalar(mark),
    {
        match mark {
            TypeMark::Integer => Scalar::Int,
            TypeMark::Float => Scalar::Float,
            TypeMark::String => Scalar::String,
            TypeMark::Bool => Scalar::Bool,
        }
    }
}

impl Type {
    /// The type itself when it is `other`, else a mismatch error.
    pub fn expect_type(self, other: Type) -> (r: Result<Self, SemanticsError>)
        ensures
            self == other ==> r == Ok::<Type, SemanticsError>(self),
            self != other ==> r == Err::<Type, SemanticsError>(SemanticsError::TypeMismatch(other, self)),
    {
        if self != other {
            Err(SemanticsError::TypeMismatch(other, self))
        } else {
            Ok(self)
        }
    }

    /// A value of type `other` may be assigned to a place of this type.
    pub fn can_assign(&self, other: &Type) -> (r: bool)
        ensures
            r == assignable(*self, *other),
    {
        if *self == *other {
            true
        } else {
            match (self, other) {
                (Type::Int, Type::Bool) | (Type::Bool, Type::Int) => true,
                (Type::Float, Type::Int) | (Type::Int, Type::Float) => true,
                _ => false,
            }
        }
    }

    pub fn from_mark(mark: TypeMark) -> (r: Type)
        ensures
            r == mark_type(mark),
    {
        match mark {
            TypeMark::Integer => Type::Int,
            TypeMark::Float => Type::Float,
            TypeMark::String => Type::String,
            TypeMark::Bool => Type::Bool,
        }
    }
}

impl From<TypeMark> for Type {
    fn from(value: TypeMark) -> Type {
        Type::from_mark(value)
    }
}

impl vstd::std_specs::convert::FromSpecImpl<TypeMark> for Type {
    open spec fn obeys_from_spec() -> bool {
        true
    }

    open spec fn from_spec(v: TypeMark) -> Type {
        mark_type(v)
    }
}

/// A name with its type: a variable or a parameter.
#[derive(Debug, Clone)]
pub struct NamedValue(pub String, pub Type);

/// The parameters of a procedure, in order, and its return type.
#[derive(Debug, Clone)]
pub struct ProcedureSignature(pub Vec<NamedValue>, pub Type);

/// A procedure's name with its signature.
#[derive(Debug, Clone)]
pub struct NamedSignature(pub String, pub ProcedureSignature);

} // verus!
