//! The typing rules of expressions, stated over the untyped tree: the type an
//! expression has in a context, or `None` where analysis refuses it.
use vstd::prelude::*;

use crate::parser::expression::{ArtihOp, Expression, Factor, Name, Relation, Term};
use crate::parser::procedure::ProcedureCall;
use crate::parser::statement::{AssignmentStatement, Destination, Statement};
use crate::parser::types::Number;
use crate::semantics::context::Context;
use crate::semantics::expression::{
    after_cast, arith_plan, form_type, AnalyzedArithOp, AnalyzedExpression, AnalyzedFactor, AnalyzedName, AnalyzedNumber,
    AnalyzedRelation, AnalyzedTerm, Form, arith_type, relation_type, term_type, factor_type,
};
use crate::semantics::procedure::AnalyzedProcedureCall;
use crate::semantics::literal::{decimal_value, valid_float_literal, valid_int_literal};
use crate::semantics::value::{assignable, is_numeric, scalar_type, Type};

verus! {

/// The type a comparison operand is brought to: numbers stay, a boolean
/// becomes an integer, a string stays only for `==` and `!=`.
pub open spec fn comparable_type(t: Type, equality: bool) -> Option<Type> {
    if is_numeric(t) {
        Some(t)
    } else if t == Type::Bool {
        Some(Type::Int)
    } else if equality && t == Type::String {
        Some(Type::String)
    } else {
        None
    }
}

/// Operands of these types may be compared.
pub open spec fn compared_types(l: Type, r: Type, equality: bool) -> bool {
    match (comparable_type(l, equality), comparable_type(r, equality)) {
        (Some(a), Some(b)) => a == b || (is_numeric(a) && is_numeric(b)),
        _ => false,
    }
}

/// The type of an arithmetic operation on operands of types `l` and `r`.
pub open spec fn arith_result(l: Option<Type>, r: Option<Type>) -> Option<Type> {
    match (l, r) {
        (Some(x), Some(y)) => match arith_plan(x, y) {
            Some((form, cl, cr)) => Some(form_type(form, after_cast(x, cl), after_cast(y, cr))),
            None => None,
        },
        _ => None,
    }
}

pub open spec fn number_typing(n: Number) -> Option<Type> {
    let s = n.literal_string@;
    if s.contains('.') {
        if valid_float_literal(s) {
            Some(Type::Float)
        } else {
            None
        }
    } else if valid_int_literal(s) {
        Some(Type::Int)
    } else {
        None
    }
}

pub open spec fn expr_typing(e: Expression, ctx: Context) -> Option<Type>
    decreases e,
{
    match e {
        Expression::BasicExp(a) => arith_typing(a, ctx),
        Expression::NotExp(a) => match arith_typing(a, ctx) {
            Some(Type::Bool) => Some(Type::Bool),
            Some(Type::Int) => Some(Type::Int),
            _ => None,
        },
        Expression::AndExp(l, a) => match (expr_typing(*l, ctx), arith_typing(a, ctx)) {
            (Some(Type::Int), Some(Type::Int)) => Some(Type::Int),
            (Some(Type::Bool), Some(Type::Bool)) => Some(Type::Bool),
            _ => None,
        },
        Expression::OrExp(l, a) => match (expr_typing(*l, ctx), arith_typing(a, ctx)) {
            (Some(Type::Int), Some(Type::Int)) => Some(Type::Int),
            (Some(Type::Bool), Some(Type::Bool)) => Some(Type::Bool),
            _ => None,
        },
    }
}

pub open spec fn arith_typing(a: ArtihOp, ctx: Context) -> Option<Type>
    decreases a,
{
    match a {
        ArtihOp::AddOp(l, r) => arith_result(arith_typing(*l, ctx), relation_typing(r, ctx)),
        ArtihOp::SubOp(l, r) => arith_result(arith_typing(*l, ctx), relation_typing(r, ctx)),
        ArtihOp::Relation(r) => relation_typing(r, ctx),
    }
}

pub open spec fn comparison_typing(l: Option<Type>, r: Option<Type>, equality: bool) -> Option<Type> {
    match (l, r) {
        (Some(x), Some(y)) => if compared_types(x, y, equality) {
            Some(Type::Bool)
        } else {
            None
        },
        _ => None,
    }
}

pub open spec fn relation_typing(r: Relation, ctx: Context) -> Option<Type>
    decreases r,
{
    match r {
        Relation::Term(t) => term_typing(t, ctx),
        Relation::LessThan(l, t) => comparison_typing(relation_typing(*l, ctx), term_typing(t, ctx), false),
        Relation::LessThanEq(l, t) => comparison_typing(relation_typing(*l, ctx), term_typing(t, ctx), false),
        Relation::GreaterThan(l, t) => comparison_typing(relation_typing(*l, ctx), term_typing(t, ctx), false),
        Relation::GreaterThanEq(l, t) => comparison_typing(relation_typing(*l, ctx), term_typing(t, ctx), false),
        Relation::Equals(l, t) => comparison_typing(relation_typing(*l, ctx), term_typing(t, ctx), true),
        Relation::NotEquals(l, t) => comparison_typing(relation_typing(*l, ctx), term_typing(t, ctx), true),
    }
}

pub open spec fn term_typing(t: Term, ctx: Context) -> Option<Type>
    decreases t,
{
    match t {
        Term::MultTerm(l, f) => arith_result(term_typing(*l, ctx), factor_typing(f, ctx)),
        Term::DivTerm(l, f) => arith_result(term_typing(*l, ctx), factor_typing(f, ctx)),
        Term::Factor(f) => factor_typing(f, ctx),
    }
}

pub open spec fn factor_typing(f: Factor, ctx: Context) -> Option<Type>
    decreases f,
{
    match f {
        Factor::NestedExpression(e) => expr_typing(*e, ctx),
        Factor::ProcedureCall(c) => call_typing(c, ctx),
        Factor::Name { negate, name } => match name_typing(name, ctx) {
            Some(t) => if negate && !is_numeric(t) {
                None
            } else {
                Some(t)
            },
            None => None,
        },
        Factor::Number { negate: _, number } => number_typing(number),
        Factor::String(_) => Some(Type::String),
        Factor::TrueLit => Some(Type::Bool),
        Factor::FalseLit => Some(Type::Bool),
    }
}

/// A variable has its declared type; an indexed array, indexed by an
/// integer, has its element type.
pub open spec fn name_typing(n: Name, ctx: Context) -> Option<Type>
    decreases n,
{
    match ctx.resolve_var(n.identifier.identifier_string@) {
        None => None,
        Some(t) => match n.expression {
            None => Some(t),
            Some(index) => match t {
                Type::Array(element, _) => if expr_typing(*index, ctx) == Some(Type::Int) {
                    Some(scalar_type(element))
                } else {
                    None
                },
                _ => None,
            },
        },
    }
}

/// A call has the procedure's return type when it passes one argument of
/// exactly the parameter's type for each parameter.
pub open spec fn call_typing(c: ProcedureCall, ctx: Context) -> Option<Type>
    decreases c,
{
    match ctx.resolve_proc(c.identifier.identifier_string@) {
        None => None,
        Some(sig) => match c.arg_list {
            None => if sig.0.len() == 0 {
                Some(sig.1)
            } else {
                None
            },
            Some(args) => if args.expr_list.len() == sig.0.len() && forall|i: int|
                0 <= i < args.expr_list.len() ==> expr_typing(#[trigger] args.expr_list[i], ctx) == Some(
                    sig.0[i].1,
                ) {
                Some(sig.1)
            } else {
                None
            },
        },
    }
}

} // verus!

verus! {

/// The type of the place an assignment's destination denotes.
pub open spec fn destination_typing(d: Destination, ctx: Context) -> Option<Type> {
    match ctx.resolve_var(d.identifier.identifier_string@) {
        None => None,
        Some(t) => match d.expression {
            None => Some(t),
            Some(index) => match t {
                Type::Array(element, _) => if expr_typing(index, ctx) == Some(Type::Int) {
                    Some(scalar_type(element))
                } else {
                    None
                },
                _ => None,
            },
        },
    }
}

/// A value of type `t` may be stored in a place of type `to`.
pub open spec fn stored(to: Option<Type>, t: Option<Type>) -> bool {
    match (to, t) {
        (Some(a), Some(b)) => assignable(a, b),
        _ => false,
    }
}

/// A condition is a boolean, or an integer taken as one.
pub open spec fn condition_typed(t: Option<Type>) -> bool {
    t == Some(Type::Bool) || t == Some(Type::Int)
}

pub open spec fn assignment_accepted(s: AssignmentStatement, ctx: Context) -> bool {
    stored(destination_typing(s.destination, ctx), expr_typing(s.expression, ctx))
}

/// Analysis accepts the statement in the context.
pub open spec fn statement_accepted(s: Statement, ctx: Context) -> bool
    decreases s, 1int,
{
    match s {
        Statement::Assignment(a) => assignment_accepted(a, ctx),
        Statement::If(i) => condition_typed(expr_typing(i.condition, ctx)) && block_accepted(
            i.then_statement,
            ctx,
        ) && match i.else_statement {
            Some(b) => block_accepted(b, ctx),
            None => true,
        },
        Statement::Loop(l) => assignment_accepted(l.assignment_statement, ctx) && condition_typed(
            expr_typing(l.condition, ctx),
        ) && block_accepted(l.loop_body, ctx),
        Statement::Return(r) => ctx.local().return_type != Type::Void && stored(
            Some(ctx.local().return_type),
            expr_typing(r.expression, ctx),
        ),
    }
}

/// Analysis accepts every statement of the block.
pub open spec fn block_accepted(b: Vec<Statement>, ctx: Context) -> bool
    decreases b, 0int,
{
    forall|i: int| 0 <= i < b.len() ==> statement_accepted(#[trigger] b[i], ctx)
}

} // verus!

verus! {

/// The operator family of an arithmetic node (`+` where `!minus`, `-`
/// where `minus`): its form and its operands.
pub open spec fn arith_shape(x: AnalyzedArithOp, minus: bool) -> Option<(Form, Box<AnalyzedArithOp>, AnalyzedRelation)> {
    match x {
        AnalyzedArithOp::Plus(l, r) => if !minus { Some((Form::Scalar, l, r)) } else { None },
        AnalyzedArithOp::ArrayScalarPlus(l, r) => if !minus { Some((Form::ArrayScalar, l, r)) } else { None },
        AnalyzedArithOp::ScalarArrayPlus(l, r) => if !minus { Some((Form::ScalarArray, l, r)) } else { None },
        AnalyzedArithOp::ArrayPlus(l, r) => if !minus { Some((Form::Array, l, r)) } else { None },
        AnalyzedArithOp::Minus(l, r) => if minus { Some((Form::Scalar, l, r)) } else { None },
        AnalyzedArithOp::ArrayScalarMinus(l, r) => if minus { Some((Form::ArrayScalar, l, r)) } else { None },
        AnalyzedArithOp::ScalarArrayMinus(l, r) => if minus { Some((Form::ScalarArray, l, r)) } else { None },
        AnalyzedArithOp::ArrayMinus(l, r) => if minus { Some((Form::Array, l, r)) } else { None },
        _ => None,
    }
}

/// The operator family of a term node (`*` where `!divide`, `/` where
/// `divide`): its form and its operands.
pub open spec fn term_shape(x: AnalyzedTerm, divide: bool) -> Option<(Form, Box<AnalyzedTerm>, AnalyzedFactor)> {
    match x {
        AnalyzedTerm::Multiply(l, r) => if !divide { Some((Form::Scalar, l, r)) } else { None },
        AnalyzedTerm::ArrayScalarMultiply(l, r) => if !divide { Some((Form::ArrayScalar, l, r)) } else { None },
        AnalyzedTerm::ScalarArrayMultiply(l, r) => if !divide { Some((Form::ScalarArray, l, r)) } else { None },
        AnalyzedTerm::ArrayMultiply(l, r) => if !divide { Some((Form::Array, l, r)) } else { None },
        AnalyzedTerm::Divide(l, r) => if divide { Some((Form::Scalar, l, r)) } else { None },
        AnalyzedTerm::ArrayScalarDivide(l, r) => if divide { Some((Form::ArrayScalar, l, r)) } else { None },
        AnalyzedTerm::ScalarArrayDivide(l, r) => if divide { Some((Form::ScalarArray, l, r)) } else { None },
        AnalyzedTerm::ArrayDivide(l, r) => if divide { Some((Form::Array, l, r)) } else { None },
        _ => None,
    }
}

/// The conversions a comparison applies to an operand of type `t` whose
/// other operand has type `other`: first a boolean to an integer, then an
/// integer to a float when the other side is a float.
pub open spec fn comparison_casts(t: Type, other: Type, equality: bool) -> (Option<Type>, Option<Type>) {
    let first = if t == Type::Bool { Some(Type::Int) } else { None };
    let second = if comparable_type(t, equality) == Some(Type::Int) && comparable_type(other, equality) == Some(
        Type::Float,
    ) {
        Some(Type::Float)
    } else {
        None
    };
    (first, second)
}

/// `out` is `inner` with the conversion `c`, where there is one.
pub open spec fn arith_wraps(out: AnalyzedArithOp, inner: AnalyzedArithOp, c: Option<Type>) -> bool {
    match c {
        None => out == inner,
        Some(t) => match out {
            AnalyzedArithOp::Cast(i, t2) => *i == inner && t2 == t,
            _ => false,
        },
    }
}

pub open spec fn relation_wraps(out: AnalyzedRelation, inner: AnalyzedRelation, c: Option<Type>) -> bool {
    match c {
        None => out == inner,
        Some(t) => match out {
            AnalyzedRelation::Cast(i, t2) => *i == inner && t2 == t,
            _ => false,
        },
    }
}

pub open spec fn term_wraps(out: AnalyzedTerm, inner: AnalyzedTerm, c: Option<Type>) -> bool {
    match c {
        None => out == inner,
        Some(t) => match out {
            AnalyzedTerm::Cast(i, t2) => *i == inner && t2 == t,
            _ => false,
        },
    }
}

pub open spec fn factor_wraps(out: AnalyzedFactor, inner: AnalyzedFactor, c: Option<Type>) -> bool {
    match c {
        None => out == inner,
        Some(t) => match out {
            AnalyzedFactor::Cast(i, t2) => *i == inner && t2 == t,
            _ => false,
        },
    }
}

/// `out` is `inner` after the two conversions of a comparison operand.
pub open spec fn relation_wraps2(out: AnalyzedRelation, inner: AnalyzedRelation, c: (Option<Type>, Option<Type>)) -> bool {
    match c.1 {
        None => relation_wraps(out, inner, c.0),
        Some(t) => match out {
            AnalyzedRelation::Cast(i, t2) => t2 == t && relation_wraps(*i, inner, c.0),
            _ => false,
        },
    }
}

pub open spec fn term_wraps2(out: AnalyzedTerm, inner: AnalyzedTerm, c: (Option<Type>, Option<Type>)) -> bool {
    match c.1 {
        None => term_wraps(out, inner, c.0),
        Some(t) => match out {
            AnalyzedTerm::Cast(i, t2) => t2 == t && term_wraps(*i, inner, c.0),
            _ => false,
        },
    }
}

} // verus!

verus! {

/// `a` is `+` or `-` (`minus`) applied by the analyzer to `left` and
/// `right`: the form and conversions that `arith_plan` names for their types.
pub open spec fn arith_combined(a: AnalyzedArithOp, minus: bool, left: AnalyzedArithOp, right: AnalyzedRelation) -> bool {
    match arith_plan(arith_type(left), relation_type(right)) {
        Some((form, cl, cr)) => match arith_shape(a, minus) {
            Some((f, l3, r3)) => f == form && arith_wraps(*l3, left, cl) && relation_wraps(r3, right, cr),
            None => false,
        },
        None => false,
    }
}

pub open spec fn term_combined(a: AnalyzedTerm, divide: bool, left: AnalyzedTerm, right: AnalyzedFactor) -> bool {
    match arith_plan(term_type(left), factor_type(right)) {
        Some((form, cl, cr)) => match term_shape(a, divide) {
            Some((f, l3, r3)) => f == form && term_wraps(*l3, left, cl) && factor_wraps(r3, right, cr),
            None => false,
        },
        None => false,
    }
}

/// The analysis of `e` in `ctx` is the tree `x`.
pub open spec fn expr_analyzed(e: Expression, ctx: Context, x: AnalyzedExpression) -> bool
    decreases e, 1int,
{
    match e {
        Expression::BasicExp(a) => match x {
            AnalyzedExpression::ArithOp(a2) => arith_analyzed(a, ctx, a2),
            _ => false,
        },
        Expression::NotExp(a) => match x {
            AnalyzedExpression::LogicalNot(a2) => arith_typing(a, ctx) == Some(Type::Bool) && arith_analyzed(a, ctx, a2),
            AnalyzedExpression::BitwiseNot(a2) => arith_typing(a, ctx) == Some(Type::Int) && arith_analyzed(a, ctx, a2),
            _ => false,
        },
        Expression::AndExp(l, a) => match x {
            AnalyzedExpression::BitwiseAnd(l2, a2) => expr_typing(*l, ctx) == Some(Type::Int) && arith_typing(a, ctx)
                == Some(Type::Int) && expr_analyzed(*l, ctx, *l2) && arith_analyzed(a, ctx, a2),
            AnalyzedExpression::LogicalAnd(l2, a2) => expr_typing(*l, ctx) == Some(Type::Bool) && arith_typing(a, ctx)
                == Some(Type::Bool) && expr_analyzed(*l, ctx, *l2) && arith_analyzed(a, ctx, a2),
            _ => false,
        },
        Expression::OrExp(l, a) => match x {
            AnalyzedExpression::BitwiseOr(l2, a2) => expr_typing(*l, ctx) == Some(Type::Int) && arith_typing(a, ctx)
                == Some(Type::Int) && expr_analyzed(*l, ctx, *l2) && arith_analyzed(a, ctx, a2),
            AnalyzedExpression::LogicalOr(l2, a2) => expr_typing(*l, ctx) == Some(Type::Bool) && arith_typing(a, ctx)
                == Some(Type::Bool) && expr_analyzed(*l, ctx, *l2) && arith_analyzed(a, ctx, a2),
            _ => false,
        },
    }
}

pub open spec fn arith_through(a: ArtihOp, ctx: Context, out: AnalyzedArithOp, c: Option<Type>) -> bool
    decreases a, 2int,
{
    match c {
        None => arith_analyzed(a, ctx, out),
        Some(t) => match out {
            AnalyzedArithOp::Cast(i, t2) => t2 == t && arith_analyzed(a, ctx, *i),
            _ => false,
        },
    }
}

pub open spec fn arith_step(a: ArtihOp, ctx: Context, x: AnalyzedArithOp) -> bool
    decreases a, 0int,
{
    match a {
        ArtihOp::AddOp(l, r) => match (arith_typing(*l, ctx), relation_typing(r, ctx)) {
            (Some(lt), Some(rt)) => match arith_plan(lt, rt) {
                Some((form, cl, cr)) => match arith_shape(x, false) {
                    Some((f, l3, r3)) => f == form && arith_through(*l, ctx, *l3, cl) && relation_through(r, ctx, r3, cr),
                    None => false,
                },
                None => false,
            },
            _ => false,
        },
        ArtihOp::SubOp(l, r) => match (arith_typing(*l, ctx), relation_typing(r, ctx)) {
            (Some(lt), Some(rt)) => match arith_plan(lt, rt) {
                Some((form, cl, cr)) => match arith_shape(x, true) {
                    Some((f, l3, r3)) => f == form && arith_through(*l, ctx, *l3, cl) && relation_through(r, ctx, r3, cr),
                    None => false,
                },
                None => false,
            },
            _ => false,
        },
        _ => false,
    }
}

/// The analysis of `a` in `ctx` is the tree `x`.
pub open spec fn arith_analyzed(a: ArtihOp, ctx: Context, x: AnalyzedArithOp) -> bool
    decreases a, 1int,
{
    match a {
        ArtihOp::Relation(r) => match x {
            AnalyzedArithOp::Relation(r2) => relation_analyzed(r, ctx, r2),
            _ => false,
        },
        _ => arith_step(a, ctx, x),
    }
}

pub open spec fn relation_through(r: Relation, ctx: Context, out: AnalyzedRelation, c: Option<Type>) -> bool
    decreases r, 2int,
{
    match c {
        None => relation_analyzed(r, ctx, out),
        Some(t) => match out {
            AnalyzedRelation::Cast(i, t2) => t2 == t && relation_analyzed(r, ctx, *i),
            _ => false,
        },
    }
}

pub open spec fn relation_through2(r: Relation, ctx: Context, out: AnalyzedRelation, c: (Option<Type>, Option<Type>)) -> bool
    decreases r, 3int,
{
    match c.1 {
        None => relation_through(r, ctx, out, c.0),
        Some(t) => match out {
            AnalyzedRelation::Cast(i, t2) => t2 == t && relation_through(r, ctx, *i, c.0),
            _ => false,
        },
    }
}

/// The operands of a comparison are the analyses of its operands,
/// converted as `comparison_casts` says.
pub open spec fn comparison_step(r: Relation, ctx: Context, x: AnalyzedRelation, y: AnalyzedTerm) -> bool
    decreases r, 0int,
{
    let equality = r is Equals || r is NotEquals;
    match r {
        Relation::Term(_) => false,
        Relation::LessThan(l, t) | Relation::LessThanEq(l, t) | Relation::GreaterThan(l, t)
        | Relation::GreaterThanEq(l, t) | Relation::Equals(l, t) | Relation::NotEquals(l, t) => match (
            relation_typing(*l, ctx),
            term_typing(t, ctx),
        ) {
            (Some(lt), Some(tt)) => compared_types(lt, tt, equality) && relation_through2(
                *l,
                ctx,
                x,
                comparison_casts(lt, tt, equality),
            ) && term_through2(t, ctx, y, comparison_casts(tt, lt, equality)),
            _ => false,
        },
    }
}

/// The analysis of `r` in `ctx` is the tree `x`.
pub open spec fn relation_analyzed(r: Relation, ctx: Context, x: AnalyzedRelation) -> bool
    decreases r, 1int,
{
    match r {
        Relation::Term(t) => match x {
            AnalyzedRelation::Term(t2) => term_analyzed(t, ctx, t2),
            _ => false,
        },
        Relation::LessThan(l, t) => match x {
            AnalyzedRelation::LessThan(x1, y1) => comparison_step(r, ctx, *x1, y1),
            _ => false,
        },
        Relation::LessThanEq(l, t) => match x {
            AnalyzedRelation::LessThanEq(x1, y1) => comparison_step(r, ctx, *x1, y1),
            _ => false,
        },
        Relation::GreaterThan(l, t) => match x {
            AnalyzedRelation::GreaterThan(x1, y1) => comparison_step(r, ctx, *x1, y1),
            _ => false,
        },
        Relation::GreaterThanEq(l, t) => match x {
            AnalyzedRelation::GreaterThanEq(x1, y1) => comparison_step(r, ctx, *x1, y1),
            _ => false,
        },
        Relation::Equals(l, t) => match x {
            AnalyzedRelation::Equals(x1, y1) => comparison_step(r, ctx, *x1, y1),
            _ => false,
        },
        Relation::NotEquals(l, t) => match x {
            AnalyzedRelation::NotEquals(x1, y1) => comparison_step(r, ctx, *x1, y1),
            _ => false,
        },
    }
}

pub open spec fn term_through(t: Term, ctx: Context, out: AnalyzedTerm, c: Option<Type>) -> bool
    decreases t, 2int,
{
    match c {
        None => term_analyzed(t, ctx, out),
        Some(ty) => match out {
            AnalyzedTerm::Cast(i, t2) => t2 == ty && term_analyzed(t, ctx, *i),
            _ => false,
        },
    }
}

pub open spec fn term_through2(t: Term, ctx: Context, out: AnalyzedTerm, c: (Option<Type>, Option<Type>)) -> bool
    decreases t, 3int,
{
    match c.1 {
        None => term_through(t, ctx, out, c.0),
        Some(ty) => match out {
            AnalyzedTerm::Cast(i, t2) => t2 == ty && term_through(t, ctx, *i, c.0),
            _ => false,
        },
    }
}

pub open spec fn factor_through(f: Factor, ctx: Context, out: AnalyzedFactor, c: Option<Type>) -> bool
    decreases f, 2int,
{
    match c {
        None => factor_analyzed(f, ctx, out),
        Some(ty) => match out {
            AnalyzedFactor::Cast(i, t2) => t2 == ty && factor_analyzed(f, ctx, *i),
            _ => false,
        },
    }
}

pub open spec fn term_step(a: Term, ctx: Context, x: AnalyzedTerm) -> bool
    decreases a, 0int,
{
    match a {
        Term::MultTerm(l, f) => match (term_typing(*l, ctx), factor_typing(f, ctx)) {
            (Some(lt), Some(ft)) => match arith_plan(lt, ft) {
                Some((form, cl, cr)) => match term_shape(x, false) {
                    Some((k, l3, r3)) => k == form && term_through(*l, ctx, *l3, cl) && factor_through(f, ctx, r3, cr),
                    None => false,
                },
                None => false,
            },
            _ => false,
        },
        Term::DivTerm(l, f) => match (term_typing(*l, ctx), factor_typing(f, ctx)) {
            (Some(lt), Some(ft)) => match arith_plan(lt, ft) {
                Some((form, cl, cr)) => match term_shape(x, true) {
                    Some((k, l3, r3)) => k == form && term_through(*l, ctx, *l3, cl) && factor_through(f, ctx, r3, cr),
                    None => false,
                },
                None => false,
            },
            _ => false,
        },
        _ => false,
    }
}

/// The analysis of `t` in `ctx` is the tree `x`.
pub open spec fn term_analyzed(t: Term, ctx: Context, x: AnalyzedTerm) -> bool
    decreases t, 1int,
{
    match t {
        Term::Factor(f) => match x {
            AnalyzedTerm::Factor(f2) => factor_analyzed(f, ctx, f2),
            _ => false,
        },
        _ => term_step(t, ctx, x),
    }
}

/// The value of a number literal.
pub open spec fn number_analyzed(n: Number, x: AnalyzedNumber) -> bool {
    if n.literal_string@.contains('.') {
        x == AnalyzedNumber::Float(n.literal_string)
    } else {
        x == AnalyzedNumber::Integer(decimal_value(n.literal_string@) as i64)
    }
}

/// The analysis of `f` in `ctx` is the tree `x`.
pub open spec fn factor_analyzed(f: Factor, ctx: Context, x: AnalyzedFactor) -> bool
    decreases f, 1int,
{
    match f {
        Factor::NestedExpression(e) => match x {
            AnalyzedFactor::NestedExpression(e2) => expr_analyzed(*e, ctx, *e2),
            _ => false,
        },
        Factor::ProcedureCall(c) => match x {
            AnalyzedFactor::ProcedureCall(c2) => call_analyzed(c, ctx, c2),
            _ => false,
        },
        Factor::Name { negate, name } => match x {
            AnalyzedFactor::Name(n2) => !negate && name_analyzed(name, ctx, n2),
            AnalyzedFactor::NegatedName(n2) => negate && name_analyzed(name, ctx, n2),
            _ => false,
        },
        Factor::Number { negate, number } => match x {
            AnalyzedFactor::Number(n2) => !negate && number_analyzed(number, n2),
            AnalyzedFactor::NegatedNumber(n2) => negate && number_analyzed(number, n2),
            _ => false,
        },
        Factor::String(s) => x == AnalyzedFactor::String(s.literal_string),
        Factor::TrueLit => x is True,
        Factor::FalseLit => x is False,
    }
}

/// A name resolves to its variable's type, an indexed array to its element
/// type.
pub open spec fn name_analyzed(n: Name, ctx: Context, x: AnalyzedName) -> bool
    decreases n, 1int,
{
    match n.expression {
        None => x == AnalyzedName::Name(n.identifier.identifier_string, ctx.resolve_var(n.identifier.identifier_string@)->Some_0),
        Some(e) => match x {
            AnalyzedName::Indexed(id, e2, t) => id == n.identifier.identifier_string && expr_analyzed(*e, ctx, *e2)
                && match ctx.resolve_var(n.identifier.identifier_string@) {
                Some(Type::Array(element, _)) => t == scalar_type(element),
                _ => false,
            },
            _ => false,
        },
    }
}

/// A call keeps its procedure's name and return type, and analyzes each
/// argument in turn.
pub open spec fn call_analyzed(c: ProcedureCall, ctx: Context, x: AnalyzedProcedureCall) -> bool
    decreases c, 1int,
{
    &&& x.identifier == c.identifier.identifier_string
    &&& ctx.resolve_proc(c.identifier.identifier_string@) matches Some(s) && x.ret_type == s.1
    &&& match c.arg_list {
        None => x.arg_list.len() == 0,
        Some(args) => x.arg_list.len() == args.expr_list.len() && forall|i: int|
            0 <= i < args.expr_list.len() ==> expr_analyzed(#[trigger] args.expr_list[i], ctx, x.arg_list[i]),
    }
}

} // verus!

verus! {

/// The two operands of `+` or `-`.
pub open spec fn arith_operands(a: ArtihOp) -> Option<(ArtihOp, Relation)> {
    match a {
        ArtihOp::AddOp(l, r) => Some((*l, r)),
        ArtihOp::SubOp(l, r) => Some((*l, r)),
        ArtihOp::Relation(_) => None,
    }
}

/// The two operands of `*` or `/`.
pub open spec fn term_operands(t: Term) -> Option<(Term, Factor)> {
    match t {
        Term::MultTerm(l, f) => Some((*l, f)),
        Term::DivTerm(l, f) => Some((*l, f)),
        Term::Factor(_) => None,
    }
}

/// The two operands of `&` or `|`.
pub open spec fn logic_operands(e: Expression) -> Option<(Expression, ArtihOp)> {
    match e {
        Expression::AndExp(l, a) => Some((*l, a)),
        Expression::OrExp(l, a) => Some((*l, a)),
        _ => None,
    }
}

/// The two operands of a comparison, and whether it is `==` or `!=`.
pub open spec fn comparison_operands(r: Relation) -> Option<(Relation, Term, bool)> {
    match r {
        Relation::Term(_) => None,
        Relation::LessThan(l, t) | Relation::LessThanEq(l, t) | Relation::GreaterThan(l, t)
        | Relation::GreaterThanEq(l, t) => Some((*l, t, false)),
        Relation::Equals(l, t) | Relation::NotEquals(l, t) => Some((*l, t, true)),
    }
}

} // verus!

verus! {

/// No variable of the context has type `Void`, and no procedure returns it.
pub open spec fn no_void_names(ctx: Context) -> bool {
    &&& forall|n: Seq<char>| #[trigger] ctx.resolve_var(n) != Some(Type::Void)
    &&& forall|n: Seq<char>| #[trigger] ctx.resolve_proc(n) is Some ==> ctx.resolve_proc(n)->Some_0.1 != Type::Void
}

proof fn lemma_arith_result_not_void(l: Option<Type>, r: Option<Type>)
    ensures
        arith_result(l, r) != Some(Type::Void),
{
}

pub proof fn lemma_arith_not_void(a: ArtihOp, ctx: Context)
    requires
        no_void_names(ctx),
    ensures
        arith_typing(a, ctx) != Some(Type::Void),
    decreases a,
{
    match a {
        ArtihOp::Relation(r) => lemma_relation_not_void(r, ctx),
        ArtihOp::AddOp(l, r) => lemma_arith_result_not_void(arith_typing(*l, ctx), relation_typing(r, ctx)),
        ArtihOp::SubOp(l, r) => lemma_arith_result_not_void(arith_typing(*l, ctx), relation_typing(r, ctx)),
    }
}

pub proof fn lemma_relation_not_void(r: Relation, ctx: Context)
    requires
        no_void_names(ctx),
    ensures
        relation_typing(r, ctx) != Some(Type::Void),
    decreases r,
{
    if let Relation::Term(t) = r {
        lemma_term_not_void(t, ctx);
    }
}

pub proof fn lemma_term_not_void(t: Term, ctx: Context)
    requires
        no_void_names(ctx),
    ensures
        term_typing(t, ctx) != Some(Type::Void),
    decreases t,
{
    match t {
        Term::Factor(f) => lemma_factor_not_void(f, ctx),
        Term::MultTerm(l, f) => lemma_arith_result_not_void(term_typing(*l, ctx), factor_typing(f, ctx)),
        Term::DivTerm(l, f) => lemma_arith_result_not_void(term_typing(*l, ctx), factor_typing(f, ctx)),
    }
}

pub proof fn lemma_factor_not_void(f: Factor, ctx: Context)
    requires
        no_void_names(ctx),
    ensures
        factor_typing(f, ctx) != Some(Type::Void),
    decreases f,
{
    match f {
        Factor::NestedExpression(e) => lemma_expr_not_void(*e, ctx),
        Factor::ProcedureCall(c) => {
            assert(ctx.resolve_proc(c.identifier.identifier_string@) is Some ==> ctx.resolve_proc(
                c.identifier.identifier_string@,
            )->Some_0.1 != Type::Void);
        },
        Factor::Name { negate, name } => {
            assert(ctx.resolve_var(name.identifier.identifier_string@) != Some(Type::Void));
        },
        _ => {},
    }
}

/// Under a context without `Void` names, every expression that analysis
/// accepts has a type other than `Void`.
pub proof fn lemma_expr_not_void(e: Expression, ctx: Context)
    requires
        no_void_names(ctx),
    ensures
        expr_typing(e, ctx) != Some(Type::Void),
    decreases e,
{
    match e {
        Expression::BasicExp(a) => lemma_arith_not_void(a, ctx),
        _ => {},
    }
}

} // verus!
