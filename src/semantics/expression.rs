//! The typed expression tree. Every node's type follows from the node
//! itself: operators record which operands are arrays, coercions are explicit
//! `Cast` nodes, and names carry the type they resolved to.
use vstd::prelude::*;

use crate::parser::expression::{ArtihOp, Expression, Factor, Name, Relation, Term};
use crate::parser::types::Number;
use crate::semantics::context::Context;
use crate::semantics::procedure::AnalyzedProcedureCall;
use crate::semantics::literal::{check_float_literal, decimal_value, parse_int_literal, valid_float_literal, valid_int_literal};
use crate::semantics::value::{assignable, is_numeric, scalar_type, Scalar, Type};
use crate::semantics::typing::{
    arith_operands, comparison_operands, logic_operands, term_operands, arith_analyzed, arith_combined, arith_shape, comparison_casts, expr_analyzed, factor_analyzed, name_analyzed,
    number_analyzed, relation_analyzed, relation_wraps, relation_wraps2, term_analyzed, term_combined, term_shape,
    term_wraps, term_wraps2, arith_result, arith_typing, comparable_type, compared_types, expr_typing, factor_typing, name_typing,
    number_typing, relation_typing, term_typing,
};
use crate::semantics::SemanticsError;
use crate::text::chars_of;

verus! {

/// Which operands of an arithmetic operator are arrays.
#[derive(Debug, Clone, Copy, PartialEq, Eq, Structural)]
pub enum Form {
    /// Two scalars of one numeric type.
    Scalar,
    /// An array, then a scalar of its element type.
    ArrayScalar,
    /// A scalar of the array's element type, then the array.
    ScalarArray,
    /// Two arrays of one numeric element type and one length.
    Array,
}

pub open spec fn numeric_scalar(s: Scalar) -> bool {
    s == Scalar::Int || s == Scalar::Float
}

/// The operands of an operator of the given form have these types.
pub open spec fn form_ok(form: Form, l: Type, r: Type) -> bool {
    match form {
        Form::Scalar => l == r && is_numeric(l),
        Form::Array => l == r && match l {
            Type::Array(s, _) => numeric_scalar(s),
            _ => false,
        },
        Form::ArrayScalar => match l {
            Type::Array(s, _) => numeric_scalar(s) && r == scalar_type(s),
            _ => false,
        },
        Form::ScalarArray => match r {
            Type::Array(s, _) => numeric_scalar(s) && l == scalar_type(s),
            _ => false,
        },
    }
}

/// The type of an arithmetic result: the array where there is one.
pub open spec fn form_type(form: Form, l: Type, r: Type) -> Type {
    match form {
        Form::ArrayScalar => l,
        _ => r,
    }
}

/// A conversion of a value of type `from` to `to` that a `Cast` may make.
pub open spec fn cast_ok(to: Type, from: Type) -> bool {
    to != from && assignable(to, from)
}

/// The type after an optional conversion.
pub open spec fn after_cast(t: Type, c: Option<Type>) -> Type {
    match c {
        Some(x) => x,
        None => t,
    }
}

pub open spec fn optional_cast_ok(t: Type, c: Option<Type>) -> bool {
    match c {
        Some(x) => cast_ok(x, t),
        None => true,
    }
}

/// How an arithmetic operator applies to operands of types `l` and `r`: its
/// form, and the conversion of each operand, or `None` where the types do not
/// combine. Mixed integer and float scalars become floats; a scalar next to an
/// array takes the array's element type.
pub open spec fn arith_plan(l: Type, r: Type) -> Option<(Form, Option<Type>, Option<Type>)> {
    match (l, r) {
        (Type::Int, Type::Int) => Some((Form::Scalar, None, None)),
        (Type::Float, Type::Float) => Some((Form::Scalar, None, None)),
        (Type::Int, Type::Float) => Some((Form::Scalar, Some(Type::Float), None)),
        (Type::Float, Type::Int) => Some((Form::Scalar, None, Some(Type::Float))),
        (Type::Array(a, n), Type::Array(b, m)) => if a == b && n == m && numeric_scalar(a) {
            Some((Form::Array, None, None))
        } else {
            None
        },
        (Type::Array(a, _), t) => if numeric_scalar(a) && is_numeric(t) {
            Some(
                (
                    Form::ArrayScalar,
                    None,
                    if t == scalar_type(a) {
                        None
                    } else {
                        Some(scalar_type(a))
                    },
                ),
            )
        } else {
            None
        },
        (t, Type::Array(a, _)) => if numeric_scalar(a) && is_numeric(t) {
            Some(
                (
                    Form::ScalarArray,
                    if t == scalar_type(a) {
                        None
                    } else {
                        Some(scalar_type(a))
                    },
                    None,
                ),
            )
        } else {
            None
        },
        _ => None,
    }
}

/// A plan for two operand types makes operands that fit its form.
pub proof fn lemma_arith_plan_sound(l: Type, r: Type)
    requires
        arith_plan(l, r) is Some,
    ensures
        ({
            let (form, cl, cr) = arith_plan(l, r)->Some_0;
            &&& optional_cast_ok(l, cl)
            &&& optional_cast_ok(r, cr)
            &&& form_ok(form, after_cast(l, cl), after_cast(r, cr))
        }),
{
}

pub fn plan_arith(l: Type, r: Type) -> (p: Option<(Form, Option<Type>, Option<Type>)>)
    ensures
        p == arith_plan(l, r),
{
    match (l, r) {
        (Type::Int, Type::Int) => Some((Form::Scalar, None, None)),
        (Type::Float, Type::Float) => Some((Form::Scalar, None, None)),
        (Type::Int, Type::Float) => Some((Form::Scalar, Some(Type::Float), None)),
        (Type::Float, Type::Int) => Some((Form::Scalar, None, Some(Type::Float))),
        (Type::Array(a, n), Type::Array(b, m)) => {
            if a == b && n == m && (a == Scalar::Int || a == Scalar::Float) {
                Some((Form::Array, None, None))
            } else {
                None
            }
        },
        (Type::Array(a, _), t) => {
            if (a == Scalar::Int || a == Scalar::Float) && (t == Type::Int || t == Type::Float) {
                let e = a.as_type();
                Some((Form::ArrayScalar, None, if t == e { None } else { Some(e) }))
            } else {
                None
            }
        },
        (t, Type::Array(a, _)) => {
            if (a == Scalar::Int || a == Scalar::Float) && (t == Type::Int || t == Type::Float) {
                let e = a.as_type();
                Some((Form::ScalarArray, if t == e { None } else { Some(e) }, None))
            } else {
                None
            }
        },
        _ => None,
    }
}

} // verus!

verus! {

#[derive(Debug)]
pub enum AnalyzedExpression {
    BitwiseAnd(Box<AnalyzedExpression>, AnalyzedArithOp),
    BitwiseOr(Box<AnalyzedExpression>, AnalyzedArithOp),
    BitwiseNot(AnalyzedArithOp),
    LogicalAnd(Box<AnalyzedExpression>, AnalyzedArithOp),
    LogicalOr(Box<AnalyzedExpression>, AnalyzedArithOp),
    LogicalNot(AnalyzedArithOp),
    Cast(Box<AnalyzedExpression>, Type),
    ArithOp(AnalyzedArithOp),
}

#[derive(Debug)]
pub enum AnalyzedArithOp {
    Plus(Box<AnalyzedArithOp>, AnalyzedRelation),
    ArrayScalarPlus(Box<AnalyzedArithOp>, AnalyzedRelation),
    ScalarArrayPlus(Box<AnalyzedArithOp>, AnalyzedRelation),
    ArrayPlus(Box<AnalyzedArithOp>, AnalyzedRelation),
    Minus(Box<AnalyzedArithOp>, AnalyzedRelation),
    ArrayScalarMinus(Box<AnalyzedArithOp>, AnalyzedRelation),
    ScalarArrayMinus(Box<AnalyzedArithOp>, AnalyzedRelation),
    ArrayMinus(Box<AnalyzedArithOp>, AnalyzedRelation),
    Cast(Box<AnalyzedArithOp>, Type),
    Relation(AnalyzedRelation),
}

#[derive(Debug)]
pub enum AnalyzedRelation {
    LessThan(Box<AnalyzedRelation>, AnalyzedTerm),
    LessThanEq(Box<AnalyzedRelation>, AnalyzedTerm),
    GreaterThan(Box<AnalyzedRelation>, AnalyzedTerm),
    GreaterThanEq(Box<AnalyzedRelation>, AnalyzedTerm),
    Equals(Box<AnalyzedRelation>, AnalyzedTerm),
    NotEquals(Box<AnalyzedRelation>, AnalyzedTerm),
    Cast(Box<AnalyzedRelation>, Type),
    Term(AnalyzedTerm),
}

#[derive(Debug)]
pub enum AnalyzedTerm {
    Multiply(Box<AnalyzedTerm>, AnalyzedFactor),
    ArrayScalarMultiply(Box<AnalyzedTerm>, AnalyzedFactor),
    ScalarArrayMultiply(Box<AnalyzedTerm>, AnalyzedFactor),
    ArrayMultiply(Box<AnalyzedTerm>, AnalyzedFactor),
    Divide(Box<AnalyzedTerm>, AnalyzedFactor),
    ArrayScalarDivide(Box<AnalyzedTerm>, AnalyzedFactor),
    ScalarArrayDivide(Box<AnalyzedTerm>, AnalyzedFactor),
    ArrayDivide(Box<AnalyzedTerm>, AnalyzedFactor),
    Cast(Box<AnalyzedTerm>, Type),
    Factor(AnalyzedFactor),
}

#[derive(Debug)]
pub enum AnalyzedFactor {
    NestedExpression(Box<AnalyzedExpression>),
    ProcedureCall(AnalyzedProcedureCall),
    Name(AnalyzedName),
    NegatedName(AnalyzedName),
    Number(AnalyzedNumber),
    NegatedNumber(AnalyzedNumber),
    String(String),
    True,
    False,
    Cast(Box<AnalyzedFactor>, Type),
}

/// A number literal's value. A float keeps its decimal text.
#[derive(Debug, Clone)]
pub enum AnalyzedNumber {
    Integer(i64),
    Float(String),
}

/// A variable with the type it resolved to; an indexed array carries its
/// element type.
#[derive(Debug)]
pub enum AnalyzedName {
    Name(String, Type),
    Indexed(String, Box<AnalyzedExpression>, Type),
}

pub open spec fn expr_type(e: AnalyzedExpression) -> Type
    decreases e,
{
    match e {
        AnalyzedExpression::BitwiseAnd(_, _) => Type::Int,
        AnalyzedExpression::BitwiseOr(_, _) => Type::Int,
        AnalyzedExpression::BitwiseNot(_) => Type::Int,
        AnalyzedExpression::LogicalAnd(_, _) => Type::Bool,
        AnalyzedExpression::LogicalOr(_, _) => Type::Bool,
        AnalyzedExpression::LogicalNot(_) => Type::Bool,
        AnalyzedExpression::Cast(_, t) => t,
        AnalyzedExpression::ArithOp(a) => arith_type(a),
    }
}

pub open spec fn arith_type(a: AnalyzedArithOp) -> Type
    decreases a,
{
    match a {
        AnalyzedArithOp::ArrayScalarPlus(l, _) => arith_type(*l),
        AnalyzedArithOp::ArrayScalarMinus(l, _) => arith_type(*l),
        AnalyzedArithOp::Plus(_, r) => relation_type(r),
        AnalyzedArithOp::ScalarArrayPlus(_, r) => relation_type(r),
        AnalyzedArithOp::ArrayPlus(_, r) => relation_type(r),
        AnalyzedArithOp::Minus(_, r) => relation_type(r),
        AnalyzedArithOp::ScalarArrayMinus(_, r) => relation_type(r),
        AnalyzedArithOp::ArrayMinus(_, r) => relation_type(r),
        AnalyzedArithOp::Cast(_, t) => t,
        AnalyzedArithOp::Relation(r) => relation_type(r),
    }
}

pub open spec fn relation_type(r: AnalyzedRelation) -> Type
    decreases r,
{
    match r {
        AnalyzedRelation::Cast(_, t) => t,
        AnalyzedRelation::Term(t) => term_type(t),
        _ => Type::Bool,
    }
}

pub open spec fn term_type(t: AnalyzedTerm) -> Type
    decreases t,
{
    match t {
        AnalyzedTerm::ArrayScalarMultiply(l, _) => term_type(*l),
        AnalyzedTerm::ArrayScalarDivide(l, _) => term_type(*l),
        AnalyzedTerm::Multiply(_, f) => factor_type(f),
        AnalyzedTerm::ScalarArrayMultiply(_, f) => factor_type(f),
        AnalyzedTerm::ArrayMultiply(_, f) => factor_type(f),
        AnalyzedTerm::Divide(_, f) => factor_type(f),
        AnalyzedTerm::ScalarArrayDivide(_, f) => factor_type(f),
        AnalyzedTerm::ArrayDivide(_, f) => factor_type(f),
        AnalyzedTerm::Cast(_, ty) => ty,
        AnalyzedTerm::Factor(f) => factor_type(f),
    }
}

pub open spec fn factor_type(f: AnalyzedFactor) -> Type
    decreases f,
{
    match f {
        AnalyzedFactor::NestedExpression(e) => expr_type(*e),
        AnalyzedFactor::ProcedureCall(c) => c.ret_type,
        AnalyzedFactor::Name(n) => name_type(n),
        AnalyzedFactor::NegatedName(n) => name_type(n),
        AnalyzedFactor::Number(n) => number_type(n),
        AnalyzedFactor::NegatedNumber(n) => number_type(n),
        AnalyzedFactor::String(_) => Type::String,
        AnalyzedFactor::True => Type::Bool,
        AnalyzedFactor::False => Type::Bool,
        AnalyzedFactor::Cast(_, t) => t,
    }
}

pub open spec fn name_type(n: AnalyzedName) -> Type {
    match n {
        AnalyzedName::Name(_, t) => t,
        AnalyzedName::Indexed(_, _, t) => t,
    }
}

pub open spec fn number_type(n: AnalyzedNumber) -> Type {
    match n {
        AnalyzedNumber::Integer(_) => Type::Int,
        AnalyzedNumber::Float(_) => Type::Float,
    }
}

pub open spec fn is_scalar(t: Type) -> bool {
    t == Type::Int || t == Type::Float || t == Type::Bool || t == Type::String
}

/// The expression is well typed: each operator has operands of the types it
/// takes, and each `Cast` converts between two different types.
pub open spec fn expr_ok(e: AnalyzedExpression) -> bool
    decreases e,
{
    match e {
        AnalyzedExpression::BitwiseAnd(l, a) => expr_ok(*l) && arith_ok(a) && expr_type(*l) == Type::Int
            && arith_type(a) == Type::Int,
        AnalyzedExpression::BitwiseOr(l, a) => expr_ok(*l) && arith_ok(a) && expr_type(*l) == Type::Int
            && arith_type(a) == Type::Int,
        AnalyzedExpression::LogicalAnd(l, a) => expr_ok(*l) && arith_ok(a) && expr_type(*l) == Type::Bool
            && arith_type(a) == Type::Bool,
        AnalyzedExpression::LogicalOr(l, a) => expr_ok(*l) && arith_ok(a) && expr_type(*l) == Type::Bool
            && arith_type(a) == Type::Bool,
        AnalyzedExpression::BitwiseNot(a) => arith_ok(a) && arith_type(a) == Type::Int,
        AnalyzedExpression::LogicalNot(a) => arith_ok(a) && arith_type(a) == Type::Bool,
        AnalyzedExpression::Cast(x, t) => expr_ok(*x) && cast_ok(t, expr_type(*x)),
        AnalyzedExpression::ArithOp(a) => arith_ok(a),
    }
}

pub open spec fn arith_ok(a: AnalyzedArithOp) -> bool
    decreases a,
{
    match a {
        AnalyzedArithOp::Plus(l, r) => arith_ok(*l) && relation_ok(r) && form_ok(
            Form::Scalar,
            arith_type(*l),
            relation_type(r),
        ),
        AnalyzedArithOp::Minus(l, r) => arith_ok(*l) && relation_ok(r) && form_ok(
            Form::Scalar,
            arith_type(*l),
            relation_type(r),
        ),
        AnalyzedArithOp::ArrayScalarPlus(l, r) => arith_ok(*l) && relation_ok(r) && form_ok(
            Form::ArrayScalar,
            arith_type(*l),
            relation_type(r),
        ),
        AnalyzedArithOp::ArrayScalarMinus(l, r) => arith_ok(*l) && relation_ok(r) && form_ok(
            Form::ArrayScalar,
            arith_type(*l),
            relation_type(r),
        ),
        AnalyzedArithOp::ScalarArrayPlus(l, r) => arith_ok(*l) && relation_ok(r) && form_ok(
            Form::ScalarArray,
            arith_type(*l),
            relation_type(r),
        ),
        AnalyzedArithOp::ScalarArrayMinus(l, r) => arith_ok(*l) && relation_ok(r) && form_ok(
            Form::ScalarArray,
            arith_type(*l),
            relation_type(r),
        ),
        AnalyzedArithOp::ArrayPlus(l, r) => arith_ok(*l) && relation_ok(r) && form_ok(
            Form::Array,
            arith_type(*l),
            relation_type(r),
        ),
        AnalyzedArithOp::ArrayMinus(l, r) => arith_ok(*l) && relation_ok(r) && form_ok(
            Form::Array,
            arith_type(*l),
            relation_type(r),
        ),
        AnalyzedArithOp::Cast(x, t) => arith_ok(*x) && cast_ok(t, arith_type(*x)),
        AnalyzedArithOp::Relation(r) => relation_ok(r),
    }
}

/// In a well-typed expression a conversion changes the type: the child of a
/// `Cast` has a type other than the one it is cast to. (The typing
/// predicates ask the same of the `Cast` nodes of every level.)
pub proof fn lemma_cast_changes_type(x: AnalyzedExpression, t: Type)
    requires
        expr_ok(AnalyzedExpression::Cast(Box::new(x), t)),
    ensures
        expr_type(x) != t,
{
}

/// Operands of an ordering comparison: numbers of one type.
pub open spec fn ordered_operands(l: Type, r: Type) -> bool {
    l == r && is_numeric(l)
}

/// Operands of an equality comparison: numbers or strings of one type.
pub open spec fn equality_operands(l: Type, r: Type) -> bool {
    l == r && (is_numeric(l) || l == Type::String)
}

pub open spec fn relation_ok(r: AnalyzedRelation) -> bool
    decreases r,
{
    match r {
        AnalyzedRelation::LessThan(l, t) => relation_ok(*l) && term_ok(t) && ordered_operands(
            relation_type(*l),
            term_type(t),
        ),
        AnalyzedRelation::LessThanEq(l, t) => relation_ok(*l) && term_ok(t) && ordered_operands(
            relation_type(*l),
            term_type(t),
        ),
        AnalyzedRelation::GreaterThan(l, t) => relation_ok(*l) && term_ok(t) && ordered_operands(
            relation_type(*l),
            term_type(t),
        ),
        AnalyzedRelation::GreaterThanEq(l, t) => relation_ok(*l) && term_ok(t) && ordered_operands(
            relation_type(*l),
            term_type(t),
        ),
        AnalyzedRelation::Equals(l, t) => relation_ok(*l) && term_ok(t) && equality_operands(
            relation_type(*l),
            term_type(t),
        ),
        AnalyzedRelation::NotEquals(l, t) => relation_ok(*l) && term_ok(t) && equality_operands(
            relation_type(*l),
            term_type(t),
        ),
        AnalyzedRelation::Cast(x, t) => relation_ok(*x) && cast_ok(t, relation_type(*x)),
        AnalyzedRelation::Term(t) => term_ok(t),
    }
}

pub open spec fn term_ok(t: AnalyzedTerm) -> bool
    decreases t,
{
    match t {
        AnalyzedTerm::Multiply(l, f) => term_ok(*l) && factor_ok(f) && form_ok(
            Form::Scalar,
            term_type(*l),
            factor_type(f),
        ),
        AnalyzedTerm::Divide(l, f) => term_ok(*l) && factor_ok(f) && form_ok(
            Form::Scalar,
            term_type(*l),
            factor_type(f),
        ),
        AnalyzedTerm::ArrayScalarMultiply(l, f) => term_ok(*l) && factor_ok(f) && form_ok(
            Form::ArrayScalar,
            term_type(*l),
            factor_type(f),
        ),
        AnalyzedTerm::ArrayScalarDivide(l, f) => term_ok(*l) && factor_ok(f) && form_ok(
            Form::ArrayScalar,
            term_type(*l),
            factor_type(f),
        ),
        AnalyzedTerm::ScalarArrayMultiply(l, f) => term_ok(*l) && factor_ok(f) && form_ok(
            Form::ScalarArray,
            term_type(*l),
            factor_type(f),
        ),
        AnalyzedTerm::ScalarArrayDivide(l, f) => term_ok(*l) && factor_ok(f) && form_ok(
            Form::ScalarArray,
            term_type(*l),
            factor_type(f),
        ),
        AnalyzedTerm::ArrayMultiply(l, f) => term_ok(*l) && factor_ok(f) && form_ok(
            Form::Array,
            term_type(*l),
            factor_type(f),
        ),
        AnalyzedTerm::ArrayDivide(l, f) => term_ok(*l) && factor_ok(f) && form_ok(
            Form::Array,
            term_type(*l),
            factor_type(f),
        ),
        AnalyzedTerm::Cast(x, ty) => term_ok(*x) && cast_ok(ty, term_type(*x)),
        AnalyzedTerm::Factor(f) => factor_ok(f),
    }
}

pub open spec fn factor_ok(f: AnalyzedFactor) -> bool
    decreases f,
{
    match f {
        AnalyzedFactor::NestedExpression(e) => expr_ok(*e),
        AnalyzedFactor::ProcedureCall(c) => forall|i: int|
            0 <= i < c.arg_list.len() ==> expr_ok(#[trigger] c.arg_list[i]),
        AnalyzedFactor::Name(n) => name_ok(n),
        AnalyzedFactor::NegatedName(n) => name_ok(n) && is_numeric(name_type(n)),
        AnalyzedFactor::Cast(x, t) => factor_ok(*x) && cast_ok(t, factor_type(*x)),
        _ => true,
    }
}

pub open spec fn name_ok(n: AnalyzedName) -> bool
    decreases n,
{
    match n {
        AnalyzedName::Name(_, _) => true,
        AnalyzedName::Indexed(_, e, t) => expr_ok(*e) && expr_type(*e) == Type::Int && is_scalar(t),
    }
}

} // verus!

verus! {

impl AnalyzedExpression {
    /// Wraps the expression in a conversion to `value_type`.
    pub fn cast_expr(self, value_type: Type) -> (r: AnalyzedExpression)
        ensures
            r matches AnalyzedExpression::Cast(x, t) && *x == self && t == value_type,
    {
        AnalyzedExpression::Cast(Box::new(self), value_type)
    }

    /// Makes a condition of the expression: a boolean stays, an integer is
    /// converted to a boolean, any other type is refused.
    pub fn cond_expr(self) -> (r: Result<AnalyzedExpression, SemanticsError>)
        requires
            expr_ok(self),
        ensures
            !(r matches Err(SemanticsError::UnexpectedReturn)),
            expr_type(self) == Type::Bool ==> (r matches Ok(e) && e == self),
            expr_type(self) == Type::Int ==> (r matches Ok(AnalyzedExpression::Cast(x, t)) && *x == self
                && t == Type::Bool),
            expr_type(self) != Type::Bool && expr_type(self) != Type::Int ==> (r matches Err(
                SemanticsError::InvalidType(_, t),
            ) && t == expr_type(self)),
            r matches Ok(e) ==> expr_ok(e) && expr_type(e) == Type::Bool,
    {
        match self.get_type() {
            Type::Bool => Ok(self),
            Type::Int => Ok(self.cast_expr(Type::Bool)),
            value_type => Err(SemanticsError::InvalidType("Bool,Int".to_owned(), value_type)),
        }
    }

    /// The expression's type, read off the node alone.
    pub fn get_type(&self) -> (r: Type)
        ensures
            r == expr_type(*self),
        decreases self,
    {
        match self {
            AnalyzedExpression::BitwiseAnd(_, _) | AnalyzedExpression::BitwiseOr(_, _)
            | AnalyzedExpression::BitwiseNot(_) => Type::Int,
            AnalyzedExpression::LogicalAnd(_, _) | AnalyzedExpression::LogicalOr(_, _)
            | AnalyzedExpression::LogicalNot(_) => Type::Bool,
            AnalyzedExpression::Cast(_, cast_type) => *cast_type,
            AnalyzedExpression::ArithOp(arith_op) => arith_op.get_type(),
        }
    }

    /// Types an expression. `&` and `|` are bitwise on integers and logical on
    /// booleans; `not` likewise.
    pub fn analyze_expression(value: &Expression, context: &Context) -> (r: Result<Self, SemanticsError>)
        ensures
            !(r matches Err(SemanticsError::UnexpectedReturn)),
            r matches Ok(e) ==> expr_ok(e),
            r is Ok <==> expr_typing(*value, *context) is Some,
            r matches Ok(e) ==> expr_type(e) == expr_typing(*value, *context)->Some_0,
            r matches Ok(e) ==> expr_analyzed(*value, *context, e),
            ({
                let ops = logic_operands(*value);
                let te = expr_typing(ops->Some_0.0, *context);
                let ta = arith_typing(ops->Some_0.1, *context);
                ops is Some && te is Some && ta is Some && !(te == ta && (te == Some(Type::Int) || te == Some(
                    Type::Bool,
                ))) ==> r == Err::<Self, SemanticsError>(SemanticsError::TypeMismatch(ta->Some_0, te->Some_0))
            }),
        decreases value, 4int,
    {
        match value {
            Expression::BasicExp(a) => Ok(
                AnalyzedExpression::ArithOp(AnalyzedArithOp::analyze_expression(a, context)?),
            ),
            Expression::NotExp(a) => {
                let arith_op = AnalyzedArithOp::analyze_expression(a, context)?;
                match arith_op.get_type() {
                    Type::Bool => Ok(AnalyzedExpression::LogicalNot(arith_op)),
                    Type::Int => Ok(AnalyzedExpression::BitwiseNot(arith_op)),
                    value_type => Err(SemanticsError::InvalidType("Bool,Int".to_owned(), value_type)),
                }
            },
            Expression::AndExp(l, a) => {
                let arith_op = AnalyzedArithOp::analyze_expression(a, context)?;
                let expression = AnalyzedExpression::analyze_expression(l, context)?;
                match (expression.get_type(), arith_op.get_type()) {
                    (Type::Int, Type::Int) => Ok(AnalyzedExpression::BitwiseAnd(Box::new(expression), arith_op)),
                    (Type::Bool, Type::Bool) => Ok(AnalyzedExpression::LogicalAnd(Box::new(expression), arith_op)),
                    (l_type, r_type) => Err(SemanticsError::TypeMismatch(r_type, l_type)),
                }
            },
            Expression::OrExp(l, a) => {
                let arith_op = AnalyzedArithOp::analyze_expression(a, context)?;
                let expression = AnalyzedExpression::analyze_expression(l, context)?;
                match (expression.get_type(), arith_op.get_type()) {
                    (Type::Int, Type::Int) => Ok(AnalyzedExpression::BitwiseOr(Box::new(expression), arith_op)),
                    (Type::Bool, Type::Bool) => Ok(AnalyzedExpression::LogicalOr(Box::new(expression), arith_op)),
                    (l_type, r_type) => Err(SemanticsError::TypeMismatch(r_type, l_type)),
                }
            },
        }
    }
}

impl AnalyzedArithOp {
    pub fn cast(self, value_type: Type) -> (r: AnalyzedArithOp)
        ensures
            r matches AnalyzedArithOp::Cast(x, t) && *x == self && t == value_type,
    {
        AnalyzedArithOp::Cast(Box::new(self), value_type)
    }

    pub fn get_type(&self) -> (r: Type)
        ensures
            r == arith_type(*self),
        decreases self,
    {
        match self {
            AnalyzedArithOp::ArrayScalarPlus(l, _) | AnalyzedArithOp::ArrayScalarMinus(l, _) => l.get_type(),
            AnalyzedArithOp::Plus(_, r) | AnalyzedArithOp::ScalarArrayPlus(_, r) | AnalyzedArithOp::ArrayPlus(_, r)
            | AnalyzedArithOp::Minus(_, r) | AnalyzedArithOp::ScalarArrayMinus(_, r) | AnalyzedArithOp::ArrayMinus(
                _,
                r,
            ) => r.get_type(),
            AnalyzedArithOp::Cast(_, value_type) => *value_type,
            AnalyzedArithOp::Relation(r) => r.get_type(),
        }
    }

    /// Builds the operator node of the given form over operands that fit it.
    fn build(form: Form, minus: bool, left: AnalyzedArithOp, right: AnalyzedRelation) -> (r: AnalyzedArithOp)
        requires
            arith_ok(left),
            relation_ok(right),
            form_ok(form, arith_type(left), relation_type(right)),
        ensures
            arith_ok(r),
            arith_type(r) == form_type(form, arith_type(left), relation_type(right)),
            ({
                let s = arith_shape(r, minus);
                s is Some && s->Some_0.0 == form && *s->Some_0.1 == left && s->Some_0.2 == right
            }),
    {
        let left = Box::new(left);
        match form {
            Form::Scalar => if minus {
                AnalyzedArithOp::Minus(left, right)
            } else {
                AnalyzedArithOp::Plus(left, right)
            },
            Form::ArrayScalar => if minus {
                AnalyzedArithOp::ArrayScalarMinus(left, right)
            } else {
                AnalyzedArithOp::ArrayScalarPlus(left, right)
            },
            Form::ScalarArray => if minus {
                AnalyzedArithOp::ScalarArrayMinus(left, right)
            } else {
                AnalyzedArithOp::ScalarArrayPlus(left, right)
            },
            Form::Array => if minus {
                AnalyzedArithOp::ArrayMinus(left, right)
            } else {
                AnalyzedArithOp::ArrayPlus(left, right)
            },
        }
    }

    /// Applies the operator to two typed operands, converting them as the
    /// operand types require: `-` where `minus`, else `+`.
    pub fn combine(minus: bool, left: AnalyzedArithOp, right: AnalyzedRelation) -> (r: Result<Self, SemanticsError>)
        requires
            arith_ok(left),
            relation_ok(right),
        ensures
            !(r matches Err(SemanticsError::UnexpectedReturn)),
            arith_plan(arith_type(left), relation_type(right)) is None ==> r == Err::<Self, SemanticsError>(
                SemanticsError::TypeMismatch(arith_type(left), relation_type(right)),
            ),
            r matches Ok(a) ==> arith_combined(a, minus, left, right),
            arith_plan(arith_type(left), relation_type(right)) is Some ==> (r matches Ok(a) && arith_ok(a)
                && Some(arith_type(a)) == arith_result(Some(arith_type(left)), Some(relation_type(right)))),
    {
        let l_type = left.get_type();
        let r_type = right.get_type();
        match plan_arith(l_type, r_type) {
            None => Err(SemanticsError::TypeMismatch(l_type, r_type)),
            Some((form, cast_left, cast_right)) => {
                proof {
                    lemma_arith_plan_sound(l_type, r_type);
                }
                let left = match cast_left {
                    Some(t) => left.cast(t),
                    None => left,
                };
                let right = match cast_right {
                    Some(t) => right.cast(t),
                    None => right,
                };
                Ok(AnalyzedArithOp::build(form, minus, left, right))
            },
        }
    }

    pub fn analyze_expression(value: &ArtihOp, context: &Context) -> (r: Result<Self, SemanticsError>)
        ensures
            !(r matches Err(SemanticsError::UnexpectedReturn)),
            r matches Ok(a) ==> arith_ok(a),
            r is Ok <==> arith_typing(*value, *context) is Some,
            r matches Ok(a) ==> arith_type(a) == arith_typing(*value, *context)->Some_0,
            r matches Ok(a) ==> arith_analyzed(*value, *context, a),
            ({
                let ops = arith_operands(*value);
                let lt = arith_typing(ops->Some_0.0, *context);
                let rt = relation_typing(ops->Some_0.1, *context);
                ops is Some && lt is Some && rt is Some && arith_plan(lt->Some_0, rt->Some_0) is None ==> r
                    == Err::<Self, SemanticsError>(SemanticsError::TypeMismatch(lt->Some_0, rt->Some_0))
            }),
        decreases value, 3int,
    {
        match value {
            ArtihOp::AddOp(l, rel) => {
                let arith_op = AnalyzedArithOp::analyze_expression(l, context)?;
                let relation = AnalyzedRelation::analyze_expression(rel, context)?;
                AnalyzedArithOp::combine(false, arith_op, relation)
            },
            ArtihOp::SubOp(l, rel) => {
                let arith_op = AnalyzedArithOp::analyze_expression(l, context)?;
                let relation = AnalyzedRelation::analyze_expression(rel, context)?;
                AnalyzedArithOp::combine(true, arith_op, relation)
            },
            ArtihOp::Relation(rel) => Ok(
                AnalyzedArithOp::Relation(AnalyzedRelation::analyze_expression(rel, context)?),
            ),
        }
    }
}


impl AnalyzedRelation {
    pub fn cast(self, value_type: Type) -> (r: AnalyzedRelation)
        ensures
            r matches AnalyzedRelation::Cast(x, t) && *x == self && t == value_type,
    {
        AnalyzedRelation::Cast(Box::new(self), value_type)
    }

    pub fn get_type(&self) -> (r: Type)
        ensures
            r == relation_type(*self),
        decreases self,
    {
        match self {
            AnalyzedRelation::Term(term) => term.get_type(),
            AnalyzedRelation::Cast(_, value_type) => *value_type,
            _ => Type::Bool,
        }
    }

    /// Prepares a comparison operand: numbers stay, a boolean becomes an
    /// integer, a string stays only for `==` and `!=`.
    fn comparable(relation: AnalyzedRelation, equality: bool) -> (r: Result<AnalyzedRelation, SemanticsError>)
        requires
            relation_ok(relation),
        ensures
            !(r matches Err(SemanticsError::UnexpectedReturn)),
            r matches Ok(x) ==> relation_ok(x) && (is_numeric(relation_type(x)) || (equality && relation_type(x)
                == Type::String)),
            r is Ok <==> comparable_type(relation_type(relation), equality) is Some,
            r is Err ==> (r matches Err(SemanticsError::InvalidType(_, x)) && x == relation_type(relation)),
            r matches Ok(x) ==> Some(relation_type(x)) == comparable_type(relation_type(relation), equality),
            r matches Ok(x) ==> relation_wraps(x, relation, comparison_casts(relation_type(relation), Type::Int, equality).0),
    {
        match relation.get_type() {
            Type::Int | Type::Float => Ok(relation),
            Type::Bool => Ok(relation.cast(Type::Int)),
            Type::String if equality => Ok(relation),
            value_type => Err(SemanticsError::InvalidType("Relation".to_owned(), value_type)),
        }
    }

    /// Brings the two typed operands of a comparison to one type: booleans
    /// become integers, and an integer next to a float becomes a float.
    /// Strings may only be compared for equality.
    pub fn try_compatible(relation: AnalyzedRelation, term: AnalyzedTerm, equality: bool) -> (r: Result<
        (AnalyzedRelation, AnalyzedTerm),
        SemanticsError,
    >)
        requires
            relation_ok(relation),
            term_ok(term),
        ensures
            !(r matches Err(SemanticsError::UnexpectedReturn)),
            r is Ok <==> compared_types(relation_type(relation), term_type(term), equality),
            comparable_type(relation_type(relation), equality) is None ==> (r matches Err(
                SemanticsError::InvalidType(_, x),
            ) && x == relation_type(relation)),
            comparable_type(relation_type(relation), equality) is Some && comparable_type(term_type(term), equality)
                is None ==> (r matches Err(SemanticsError::InvalidType(_, x)) && x == term_type(term)),
            comparable_type(relation_type(relation), equality) is Some && comparable_type(term_type(term), equality)
                is Some && !compared_types(relation_type(relation), term_type(term), equality) ==> r == Err::<
                (AnalyzedRelation, AnalyzedTerm),
                SemanticsError,
            >(
                SemanticsError::TypeMismatch(
                    comparable_type(relation_type(relation), equality)->Some_0,
                    comparable_type(term_type(term), equality)->Some_0,
                ),
            ),
            r matches Ok((x, y)) ==> relation_wraps2(
                x,
                relation,
                comparison_casts(relation_type(relation), term_type(term), equality),
            ) && term_wraps2(y, term, comparison_casts(term_type(term), relation_type(relation), equality)),
            r matches Ok((x, y)) ==> relation_ok(x) && term_ok(y) && if equality {
                equality_operands(relation_type(x), term_type(y))
            } else {
                ordered_operands(relation_type(x), term_type(y))
            },
    {
        let relation = AnalyzedRelation::comparable(relation, equality)?;
        let term = AnalyzedTerm::comparable(term, equality)?;
        AnalyzedRelation::unify(relation, term, equality)
    }

    /// Brings two comparison operands to one type: an integer next to a
    /// float becomes a float.
    fn unify(relation: AnalyzedRelation, term: AnalyzedTerm, equality: bool) -> (r: Result<
        (AnalyzedRelation, AnalyzedTerm),
        SemanticsError,
    >)
        requires
            relation_ok(relation),
            term_ok(term),
            is_numeric(relation_type(relation)) || (equality && relation_type(relation) == Type::String),
            is_numeric(term_type(term)) || (equality && term_type(term) == Type::String),
        ensures
            !(r matches Err(SemanticsError::UnexpectedReturn)),
            r is Ok <==> (relation_type(relation) == term_type(term) || (is_numeric(relation_type(relation))
                && is_numeric(term_type(term)))),
            r is Err ==> r == Err::<(AnalyzedRelation, AnalyzedTerm), SemanticsError>(
                SemanticsError::TypeMismatch(relation_type(relation), term_type(term)),
            ),
            r matches Ok((x, y)) ==> relation_wraps(
                x,
                relation,
                if relation_type(relation) == Type::Int && term_type(term) == Type::Float {
                    Some(Type::Float)
                } else {
                    None
                },
            ) && term_wraps(
                y,
                term,
                if term_type(term) == Type::Int && relation_type(relation) == Type::Float {
                    Some(Type::Float)
                } else {
                    None
                },
            ),
            r matches Ok((x, y)) ==> relation_ok(x) && term_ok(y) && if equality {
                equality_operands(relation_type(x), term_type(y))
            } else {
                ordered_operands(relation_type(x), term_type(y))
            },
    {
        let relation_type = relation.get_type();
        let term_type = term.get_type();
        if relation_type == term_type {
            Ok((relation, term))
        } else {
            match (relation_type, term_type) {
                (Type::Int, Type::Float) => Ok((relation.cast(Type::Float), term)),
                (Type::Float, Type::Int) => Ok((relation, term.cast(Type::Float))),
                (l_type, r_type) => Err(SemanticsError::TypeMismatch(l_type, r_type)),
            }
        }
    }

    pub fn analyze_expression(value: &Relation, context: &Context) -> (r: Result<Self, SemanticsError>)
        ensures
            !(r matches Err(SemanticsError::UnexpectedReturn)),
            r matches Ok(x) ==> relation_ok(x),
            r is Ok <==> relation_typing(*value, *context) is Some,
            r matches Ok(x) ==> relation_type(x) == relation_typing(*value, *context)->Some_0,
            r matches Ok(x) ==> relation_analyzed(*value, *context, x),
            ({
                let ops = comparison_operands(*value);
                let lt = relation_typing(ops->Some_0.0, *context);
                let tt = term_typing(ops->Some_0.1, *context);
                let eq = ops->Some_0.2;
                ops is Some && lt is Some && tt is Some ==> {
                    &&& comparable_type(lt->Some_0, eq) is None ==> (r matches Err(SemanticsError::InvalidType(_, x))
                        && x == lt->Some_0)
                    &&& comparable_type(lt->Some_0, eq) is Some && comparable_type(tt->Some_0, eq) is None ==> (r matches Err(
                        SemanticsError::InvalidType(_, x),
                    ) && x == tt->Some_0)
                    &&& comparable_type(lt->Some_0, eq) is Some && comparable_type(tt->Some_0, eq) is Some && !compared_types(
                        lt->Some_0,
                        tt->Some_0,
                        eq,
                    ) ==> r == Err::<Self, SemanticsError>(
                        SemanticsError::TypeMismatch(
                            comparable_type(lt->Some_0, eq)->Some_0,
                            comparable_type(tt->Some_0, eq)->Some_0,
                        ),
                    )
                }
            }),
        decreases value, 2int,
    {
        match value {
            Relation::Term(term) => Ok(AnalyzedRelation::Term(AnalyzedTerm::analyze_expression(term, context)?)),
            Relation::LessThan(l, t) => {
                let (x, y) = AnalyzedRelation::try_compatible(
                    AnalyzedRelation::analyze_expression(l, context)?,
                    AnalyzedTerm::analyze_expression(t, context)?,
                    false,
                )?;
                Ok(AnalyzedRelation::LessThan(Box::new(x), y))
            },
            Relation::LessThanEq(l, t) => {
                let (x, y) = AnalyzedRelation::try_compatible(
                    AnalyzedRelation::analyze_expression(l, context)?,
                    AnalyzedTerm::analyze_expression(t, context)?,
                    false,
                )?;
                Ok(AnalyzedRelation::LessThanEq(Box::new(x), y))
            },
            Relation::GreaterThan(l, t) => {
                let (x, y) = AnalyzedRelation::try_compatible(
                    AnalyzedRelation::analyze_expression(l, context)?,
                    AnalyzedTerm::analyze_expression(t, context)?,
                    false,
                )?;
                Ok(AnalyzedRelation::GreaterThan(Box::new(x), y))
            },
            Relation::GreaterThanEq(l, t) => {
                let (x, y) = AnalyzedRelation::try_compatible(
                    AnalyzedRelation::analyze_expression(l, context)?,
                    AnalyzedTerm::analyze_expression(t, context)?,
                    false,
                )?;
                Ok(AnalyzedRelation::GreaterThanEq(Box::new(x), y))
            },
            Relation::Equals(l, t) => {
                let (x, y) = AnalyzedRelation::try_compatible(
                    AnalyzedRelation::analyze_expression(l, context)?,
                    AnalyzedTerm::analyze_expression(t, context)?,
                    true,
                )?;
                Ok(AnalyzedRelation::Equals(Box::new(x), y))
            },
            Relation::NotEquals(l, t) => {
                let (x, y) = AnalyzedRelation::try_compatible(
                    AnalyzedRelation::analyze_expression(l, context)?,
                    AnalyzedTerm::analyze_expression(t, context)?,
                    true,
                )?;
                Ok(AnalyzedRelation::NotEquals(Box::new(x), y))
            },
        }
    }
}
impl AnalyzedTerm {
    pub fn cast(self, value_type: Type) -> (r: AnalyzedTerm)
        ensures
            r matches AnalyzedTerm::Cast(x, t) && *x == self && t == value_type,
    {
        AnalyzedTerm::Cast(Box::new(self), value_type)
    }

    pub fn get_type(&self) -> (r: Type)
        ensures
            r == term_type(*self),
        decreases self,
    {
        match self {
            AnalyzedTerm::ArrayScalarMultiply(l, _) | AnalyzedTerm::ArrayScalarDivide(l, _) => l.get_type(),
            AnalyzedTerm::Multiply(_, r) | AnalyzedTerm::ScalarArrayMultiply(_, r) | AnalyzedTerm::ArrayMultiply(_, r)
            | AnalyzedTerm::Divide(_, r) | AnalyzedTerm::ScalarArrayDivide(_, r) | AnalyzedTerm::ArrayDivide(
                _,
                r,
            ) => r.get_type(),
            AnalyzedTerm::Cast(_, value_type) => *value_type,
            AnalyzedTerm::Factor(r) => r.get_type(),
        }
    }

    /// Prepares a comparison operand: numbers stay, a boolean becomes an
    /// integer, a string stays only for `==` and `!=`.
    fn comparable(term: AnalyzedTerm, equality: bool) -> (r: Result<AnalyzedTerm, SemanticsError>)
        requires
            term_ok(term),
        ensures
            !(r matches Err(SemanticsError::UnexpectedReturn)),
            r matches Ok(x) ==> term_ok(x) && (is_numeric(term_type(x)) || (equality && term_type(x)
                == Type::String)),
            r is Ok <==> comparable_type(term_type(term), equality) is Some,
            r is Err ==> (r matches Err(SemanticsError::InvalidType(_, x)) && x == term_type(term)),
            r matches Ok(x) ==> Some(term_type(x)) == comparable_type(term_type(term), equality),
            r matches Ok(x) ==> term_wraps(x, term, comparison_casts(term_type(term), Type::Int, equality).0),
    {
        match term.get_type() {
            Type::Int | Type::Float => Ok(term),
            Type::Bool => Ok(term.cast(Type::Int)),
            Type::String if equality => Ok(term),
            value_type => Err(SemanticsError::InvalidType("Relation".to_owned(), value_type)),
        }
    }

    /// Builds the operator node of the given form over operands that fit it.
    fn build(form: Form, divide: bool, left: AnalyzedTerm, right: AnalyzedFactor) -> (r: AnalyzedTerm)
        requires
            term_ok(left),
            factor_ok(right),
            form_ok(form, term_type(left), factor_type(right)),
        ensures
            term_ok(r),
            term_type(r) == form_type(form, term_type(left), factor_type(right)),
            ({
                let s = term_shape(r, divide);
                s is Some && s->Some_0.0 == form && *s->Some_0.1 == left && s->Some_0.2 == right
            }),
    {
        let left = Box::new(left);
        match form {
            Form::Scalar => if divide {
                AnalyzedTerm::Divide(left, right)
            } else {
                AnalyzedTerm::Multiply(left, right)
            },
            Form::ArrayScalar => if divide {
                AnalyzedTerm::ArrayScalarDivide(left, right)
            } else {
                AnalyzedTerm::ArrayScalarMultiply(left, right)
            },
            Form::ScalarArray => if divide {
                AnalyzedTerm::ScalarArrayDivide(left, right)
            } else {
                AnalyzedTerm::ScalarArrayMultiply(left, right)
            },
            Form::Array => if divide {
                AnalyzedTerm::ArrayDivide(left, right)
            } else {
                AnalyzedTerm::ArrayMultiply(left, right)
            },
        }
    }

    /// Applies the operator to two typed operands, converting them as the
    /// operand types require: `/` where `divide`, else `*`.
    pub fn combine(divide: bool, left: AnalyzedTerm, right: AnalyzedFactor) -> (r: Result<Self, SemanticsError>)
        requires
            term_ok(left),
            factor_ok(right),
        ensures
            !(r matches Err(SemanticsError::UnexpectedReturn)),
            arith_plan(term_type(left), factor_type(right)) is None ==> r == Err::<Self, SemanticsError>(
                SemanticsError::TypeMismatch(term_type(left), factor_type(right)),
            ),
            r matches Ok(a) ==> term_combined(a, divide, left, right),
            arith_plan(term_type(left), factor_type(right)) is Some ==> (r matches Ok(a) && term_ok(a)
                && Some(term_type(a)) == arith_result(Some(term_type(left)), Some(factor_type(right)))),
    {
        let l_type = left.get_type();
        let r_type = right.get_type();
        match plan_arith(l_type, r_type) {
            None => Err(SemanticsError::TypeMismatch(l_type, r_type)),
            Some((form, cast_left, cast_right)) => {
                proof {
                    lemma_arith_plan_sound(l_type, r_type);
                }
                let left = match cast_left {
                    Some(t) => left.cast(t),
                    None => left,
                };
                let right = match cast_right {
                    Some(t) => right.cast(t),
                    None => right,
                };
                Ok(AnalyzedTerm::build(form, divide, left, right))
            },
        }
    }

    pub fn analyze_expression(value: &Term, context: &Context) -> (r: Result<Self, SemanticsError>)
        ensures
            !(r matches Err(SemanticsError::UnexpectedReturn)),
            r matches Ok(a) ==> term_ok(a),
            r is Ok <==> term_typing(*value, *context) is Some,
            r matches Ok(a) ==> term_type(a) == term_typing(*value, *context)->Some_0,
            r matches Ok(a) ==> term_analyzed(*value, *context, a),
            ({
                let ops = term_operands(*value);
                let lt = term_typing(ops->Some_0.0, *context);
                let rt = factor_typing(ops->Some_0.1, *context);
                ops is Some && lt is Some && rt is Some && arith_plan(lt->Some_0, rt->Some_0) is None ==> r
                    == Err::<Self, SemanticsError>(SemanticsError::TypeMismatch(lt->Some_0, rt->Some_0))
            }),
        decreases value, 1int,
    {
        match value {
            Term::MultTerm(l, rel) => {
                let arith_op = AnalyzedTerm::analyze_expression(l, context)?;
                let relation = AnalyzedFactor::analyze_expression(rel, context)?;
                AnalyzedTerm::combine(false, arith_op, relation)
            },
            Term::DivTerm(l, rel) => {
                let arith_op = AnalyzedTerm::analyze_expression(l, context)?;
                let relation = AnalyzedFactor::analyze_expression(rel, context)?;
                AnalyzedTerm::combine(true, arith_op, relation)
            },
            Term::Factor(rel) => Ok(
                AnalyzedTerm::Factor(AnalyzedFactor::analyze_expression(rel, context)?),
            ),
        }
    }
}


impl AnalyzedFactor {
    pub fn cast(self, value_type: Type) -> (r: AnalyzedFactor)
        ensures
            r matches AnalyzedFactor::Cast(x, t) && *x == self && t == value_type,
    {
        AnalyzedFactor::Cast(Box::new(self), value_type)
    }

    pub fn get_type(&self) -> (r: Type)
        ensures
            r == factor_type(*self),
        decreases self,
    {
        match self {
            AnalyzedFactor::NestedExpression(expression) => expression.get_type(),
            AnalyzedFactor::ProcedureCall(proc_call) => proc_call.ret_type,
            AnalyzedFactor::Name(name) | AnalyzedFactor::NegatedName(name) => name.get_type(),
            AnalyzedFactor::Number(number) | AnalyzedFactor::NegatedNumber(number) => number.get_type(),
            AnalyzedFactor::String(_) => Type::String,
            AnalyzedFactor::True | AnalyzedFactor::False => Type::Bool,
            AnalyzedFactor::Cast(_, value_type) => *value_type,
        }
    }

    /// Types a factor. Only integer and float variables may be negated.
    pub fn analyze_expression(value: &Factor, context: &Context) -> (r: Result<Self, SemanticsError>)
        ensures
            !(r matches Err(SemanticsError::UnexpectedReturn)),
            r matches Ok(f) ==> factor_ok(f),
            r is Ok <==> factor_typing(*value, *context) is Some,
            r matches Ok(f) ==> factor_type(f) == factor_typing(*value, *context)->Some_0,
            r matches Ok(f) ==> factor_analyzed(*value, *context, f),
        decreases value, 0int,
    {
        match value {
            Factor::NestedExpression(expression) => Ok(
                AnalyzedFactor::NestedExpression(
                    Box::new(AnalyzedExpression::analyze_expression(expression, context)?),
                ),
            ),
            Factor::ProcedureCall(proc_call) => Ok(
                AnalyzedFactor::ProcedureCall(AnalyzedProcedureCall::analyze_expression(proc_call, context)?),
            ),
            Factor::Name { negate, name } => {
                let name = AnalyzedName::analyze_expression(name, context)?;
                if *negate {
                    let value_type = name.get_type();
                    if value_type == Type::Int || value_type == Type::Float {
                        Ok(AnalyzedFactor::NegatedName(name))
                    } else {
                        Err(SemanticsError::InvalidType("Number".to_owned(), value_type))
                    }
                } else {
                    Ok(AnalyzedFactor::Name(name))
                }
            },
            Factor::Number { negate, number } => {
                let number = AnalyzedNumber::analyze_expression(number)?;
                if *negate {
                    Ok(AnalyzedFactor::NegatedNumber(number))
                } else {
                    Ok(AnalyzedFactor::Number(number))
                }
            },
            Factor::String(node) => Ok(AnalyzedFactor::String(node.literal_string.clone())),
            Factor::TrueLit => Ok(AnalyzedFactor::True),
            Factor::FalseLit => Ok(AnalyzedFactor::False),
        }
    }
}

impl AnalyzedNumber {
    /// Reads a number literal: a float where it holds a decimal point, else
    /// an integer.
    pub fn analyze_expression(value: &Number) -> (r: Result<Self, SemanticsError>)
        ensures
            !(r matches Err(SemanticsError::UnexpectedReturn)),
            r is Ok <==> number_typing(*value) is Some,
            r matches Ok(n) ==> Some(number_type(n)) == number_typing(*value),
            r matches Ok(n) ==> number_analyzed(*value, n),
            ({
                let s = value.literal_string@;
                if s.contains('.') {
                    if valid_float_literal(s) {
                        r matches Ok(AnalyzedNumber::Float(f)) && f@ == s
                    } else {
                        r matches Err(SemanticsError::InvalidFloatLiteral(x)) && x@ == s
                    }
                } else {
                    if valid_int_literal(s) {
                        r matches Ok(AnalyzedNumber::Integer(n)) && n == decimal_value(s)
                    } else {
                        r matches Err(SemanticsError::InvalidIntLiteral(x)) && x@ == s
                    }
                }
            }),
    {
        let chars = chars_of(value.literal_string.as_str());
        let mut has_point = false;
        let mut i: usize = 0;
        while i < chars.len()
            invariant
                i <= chars.len(),
                has_point == exists|j: int| 0 <= j < i && chars@[j] == '.',
            decreases chars.len() - i,
        {
            if chars[i] == '.' {
                has_point = true;
            }
            i = i + 1;
        }
        proof {
            if has_point {
                let j = choose|j: int| 0 <= j < chars@.len() && chars@[j] == '.';
                assert(chars@.contains('.'));
            } else if chars@.contains('.') {
                let j = choose|j: int| 0 <= j < chars@.len() && chars@[j] == '.';
                assert(chars@[j] == '.');
            }
        }
        if has_point {
            if check_float_literal(&chars) {
                Ok(AnalyzedNumber::Float(value.literal_string.clone()))
            } else {
                Err(SemanticsError::InvalidFloatLiteral(value.literal_string.clone()))
            }
        } else {
            match parse_int_literal(&chars) {
                Some(n) => Ok(AnalyzedNumber::Integer(n)),
                None => Err(SemanticsError::InvalidIntLiteral(value.literal_string.clone())),
            }
        }
    }

    pub fn get_type(&self) -> (r: Type)
        ensures
            r == number_type(*self),
    {
        match self {
            AnalyzedNumber::Integer(_) => Type::Int,
            AnalyzedNumber::Float(_) => Type::Float,
        }
    }
}

impl AnalyzedName {
    pub fn get_type(&self) -> (r: Type)
        ensures
            r == name_type(*self),
        decreases self,
    {
        match self {
            AnalyzedName::Name(_, t) => *t,
            AnalyzedName::Indexed(_, _, t) => *t,
        }
    }

    /// Resolves a variable. An indexed variable must be an array, and its
    /// index an integer; it then has the array's element type.
    pub fn analyze_expression(value: &Name, context: &Context) -> (r: Result<Self, SemanticsError>)
        ensures
            !(r matches Err(SemanticsError::UnexpectedReturn)),
            r matches Ok(n) ==> name_ok(n),
            r is Ok <==> name_typing(*value, *context) is Some,
            r matches Ok(n) ==> name_type(n) == name_typing(*value, *context)->Some_0,
            r matches Ok(n) ==> name_analyzed(*value, *context, n),
            r is Ok ==> context.resolve_var(value.identifier.identifier_string@) is Some,
            context.resolve_var(value.identifier.identifier_string@) is None ==> (r matches Err(
                SemanticsError::UndefinedRef(s),
            ) && s@ == value.identifier.identifier_string@),
        decreases value, 0int,
    {
        let identifier = &value.identifier.identifier_string;
        let value_type = *context.get_variable_type(identifier.as_str())?;
        match &value.expression {
            Some(index) => match value_type {
                Type::Array(element, _) => {
                    let index = AnalyzedExpression::analyze_expression(index, context)?;
                    let index_type = index.get_type();
                    if index_type != Type::Int {
                        Err(SemanticsError::NonIntIndex(identifier.clone(), index_type))
                    } else {
                        Ok(AnalyzedName::Indexed(identifier.clone(), Box::new(index), element.as_type()))
                    }
                },
                _ => Err(SemanticsError::IndexOnNonArray(identifier.clone())),
            },
            None => Ok(AnalyzedName::Name(identifier.clone(), value_type)),
        }
    }
}
} // verus!
