//! Typing of statements. Assignments and `return` convert their value to the
//! expected type where the coercion table allows it; conditions must be
//! booleans, or integers converted to booleans.
use vstd::prelude::*;

use crate::parser::statement::{
    AssignmentStatement, Destination, IfStatement, LoopStatement, ReturnStatement, Statement,
};
use crate::semantics::context::Context;
use crate::semantics::expression::{expr_ok, expr_type, is_scalar, AnalyzedExpression};
use crate::semantics::value::{assignable, scalar_type, Type};
use crate::semantics::typing::{expr_analyzed, expr_typing, assignment_accepted, block_accepted, destination_typing, statement_accepted};
use crate::semantics::SemanticsError;

verus! {

#[derive(Debug)]
pub struct AnalyzedBlock(pub Vec<AnalyzedStatement>);

#[derive(Debug)]
pub enum AnalyzedStatement {
    Assignment(AnalyzedAssignment),
    If(AnalyzedIf),
    Loop(AnalyzedLoop),
    Return(AnalyzedReturn),
}

#[derive(Debug)]
pub struct AnalyzedAssignment {
    pub destination: AnalyzedDestination,
    pub expression: AnalyzedExpression,
}

/// The target of an assignment, with the type of the place it denotes: an
/// indexed array denotes one element.
#[derive(Debug)]
pub struct AnalyzedDestination {
    pub identifier: String,
    pub expression: Option<AnalyzedExpression>,
    pub value_type: Type,
}

#[derive(Debug)]
pub struct AnalyzedIf {
    pub conditional_expr: AnalyzedExpression,
    pub then_block: AnalyzedBlock,
    pub else_block: Option<AnalyzedBlock>,
}

#[derive(Debug)]
pub struct AnalyzedLoop {
    pub assignment: Box<AnalyzedAssignment>,
    pub condition: AnalyzedExpression,
    pub loop_body: AnalyzedBlock,
}

#[derive(Debug)]
pub struct AnalyzedReturn {
    pub expression: AnalyzedExpression,
}

/// The destination's index, where there is one, is a well-typed integer,
/// and the value is well typed with the type of the place it is stored in.
pub open spec fn assignment_ok(a: AnalyzedAssignment) -> bool {
    &&& expr_ok(a.expression)
    &&& expr_type(a.expression) == a.destination.value_type
    &&& match a.destination.expression {
        Some(index) => expr_ok(index) && expr_type(index) == Type::Int,
        None => true,
    }
}

/// Every expression in the statement is well typed, and every condition is
/// a boolean.
pub open spec fn statement_ok(s: AnalyzedStatement) -> bool
    decreases s,
{
    match s {
        AnalyzedStatement::Assignment(a) => assignment_ok(a),
        AnalyzedStatement::If(i) => expr_ok(i.conditional_expr) && expr_type(i.conditional_expr) == Type::Bool
            && block_ok(i.then_block) && match i.else_block {
            Some(b) => block_ok(b),
            None => true,
        },
        AnalyzedStatement::Loop(l) => assignment_ok(*l.assignment) && expr_ok(l.condition) && expr_type(
            l.condition,
        ) == Type::Bool && block_ok(l.loop_body),
        AnalyzedStatement::Return(r) => expr_ok(r.expression),
    }
}

pub open spec fn block_ok(b: AnalyzedBlock) -> bool
    decreases b,
{
    forall|i: int| 0 <= i < b.0.len() ==> statement_ok(#[trigger] b.0[i])
}

/// Converts a typed expression to `target` as an assignment or a `return`
/// does: integers and booleans convert both ways, as do integers and
/// floats; any other difference is a mismatch.
pub fn coerce(expression: AnalyzedExpression, target: Type) -> (r: Result<AnalyzedExpression, SemanticsError>)
    requires
        expr_ok(expression),
    ensures
        expr_type(expression) == target ==> r == Ok::<AnalyzedExpression, SemanticsError>(expression),
        !(r matches Err(SemanticsError::UnexpectedReturn)),
        assignable(target, expr_type(expression)) ==> (r matches Ok(e) && expr_ok(e) && expr_type(e) == target),
        assignable(target, expr_type(expression)) && expr_type(expression) != target ==> (r matches Ok(
            AnalyzedExpression::Cast(x, t),
        ) && *x == expression && t == target),
        !assignable(target, expr_type(expression)) ==> r == Err::<AnalyzedExpression, SemanticsError>(
            SemanticsError::TypeMismatch(target, expr_type(expression)),
        ),
{
    let expression_type = expression.get_type();
    if target == expression_type {
        return Ok(expression);
    }
    match (target, expression_type) {
        (Type::Int, Type::Bool) | (Type::Int, Type::Float) => Ok(expression.cast_expr(Type::Int)),
        (Type::Bool, Type::Int) => Ok(expression.cast_expr(Type::Bool)),
        (Type::Float, Type::Int) => Ok(expression.cast_expr(Type::Float)),
        (dest_type, expr_type) => Err(SemanticsError::TypeMismatch(dest_type, expr_type)),
    }
}

impl AnalyzedBlock {
    pub fn analyze(statements: &Vec<Statement>, context: &Context) -> (r: Result<Self, SemanticsError>)
        ensures
            r matches Ok(b) ==> b.0.len() == statements.len(),
            r matches Ok(b) ==> block_ok(b),
            r is Ok <==> block_accepted(*statements, *context),
        decreases statements, 3int,
    {
        let mut analyzed: Vec<AnalyzedStatement> = Vec::new();
        let mut i: usize = 0;
        while i < statements.len()
            invariant
                i <= statements.len(),
                analyzed.len() == i,
                forall|j: int| 0 <= j < i ==> statement_accepted(#[trigger] statements[j], *context),
                forall|j: int| 0 <= j < i ==> statement_ok(#[trigger] analyzed[j]),
            decreases statements.len() - i,
        {
            proof {
                assert(decreases_to!(statements => statements@));
                assert(decreases_to!(statements@ => statements@[i as int]));
            }
            match AnalyzedStatement::analyze(&statements[i], context) {
                Ok(s) => analyzed.push(s),
                Err(e) => {
                    assert(!statement_accepted(statements[i as int], *context));
                    return Err(e);
                },
            }
            i = i + 1;
        }
        let b = AnalyzedBlock(analyzed);
        assert(forall|j: int| 0 <= j < b.0.len() ==> statement_ok(#[trigger] b.0[j]));
        Ok(b)
    }
}

impl AnalyzedStatement {
    pub fn analyze(statement: &Statement, context: &Context) -> (r: Result<Self, SemanticsError>)
        ensures
            r is Ok <==> statement_accepted(*statement, *context),
            r matches Ok(s) ==> statement_ok(s),
        decreases statement, 2int,
    {
        match statement {
            Statement::Assignment(s) => Ok(AnalyzedStatement::Assignment(AnalyzedAssignment::analyze(s, context)?)),
            Statement::If(s) => Ok(AnalyzedStatement::If(AnalyzedIf::analyze(s, context)?)),
            Statement::Loop(s) => Ok(AnalyzedStatement::Loop(AnalyzedLoop::analyze(s, context)?)),
            Statement::Return(s) => Ok(AnalyzedStatement::Return(AnalyzedReturn::analyze(s, context)?)),
        }
    }
}

impl AnalyzedAssignment {
    /// Types an assignment; the value is converted to the destination's type.
    pub fn analyze(statement: &AssignmentStatement, context: &Context) -> (r: Result<Self, SemanticsError>)
        ensures
            r matches Ok(a) ==> expr_ok(a.expression) && expr_type(a.expression) == a.destination.value_type,
            r is Ok <==> assignment_accepted(*statement, *context),
            ({
                let dt = destination_typing(statement.destination, *context);
                let te = expr_typing(statement.expression, *context);
                &&& dt is Some && te is Some && !assignable(dt->Some_0, te->Some_0) ==> r == Err::<
                    Self,
                    SemanticsError,
                >(SemanticsError::TypeMismatch(dt->Some_0, te->Some_0))
                &&& r matches Ok(a) ==> if te == dt {
                    expr_analyzed(statement.expression, *context, a.expression)
                } else {
                    a.expression matches AnalyzedExpression::Cast(x, t) && t == dt->Some_0 && expr_analyzed(
                        statement.expression,
                        *context,
                        *x,
                    )
                }
            }),
            r matches Ok(a) ==> assignment_ok(a),
    {
        let destination = AnalyzedDestination::analyze(&statement.destination, context)?;
        let expression = AnalyzedExpression::analyze_expression(&statement.expression, context)?;
        let expression = coerce(expression, destination.value_type)?;
        Ok(AnalyzedAssignment { destination, expression })
    }
}

impl AnalyzedDestination {
    /// Resolves an assignment's target. An indexed target must be an array
    /// indexed by an integer, and denotes an element.
    pub fn analyze(destination: &Destination, context: &Context) -> (r: Result<Self, SemanticsError>)
        ensures
            context.resolve_var(destination.identifier.identifier_string@) is None ==> (r matches Err(
                SemanticsError::UndefinedRef(s),
            ) && s@ == destination.identifier.identifier_string@),
            r matches Ok(d) ==> d.identifier@ == destination.identifier.identifier_string@,
            r is Ok <==> destination_typing(*destination, *context) is Some,
            r matches Ok(d) ==> Some(d.value_type) == destination_typing(*destination, *context),
            r matches Ok(d) ==> match d.expression {
                Some(index) => expr_ok(index) && expr_type(index) == Type::Int && is_scalar(d.value_type)
                    && (context.resolve_var(d.identifier@) matches Some(Type::Array(element, _))
                    && d.value_type == scalar_type(element)),
                None => context.resolve_var(d.identifier@) == Some(d.value_type),
            },
            destination.expression is Some && (context.resolve_var(destination.identifier.identifier_string@) matches Some(t)
                && !(t is Array)) ==> r == Err::<Self, SemanticsError>(
                SemanticsError::IndexOnNonArray(destination.identifier.identifier_string),
            ),
    {
        let identifier = &destination.identifier.identifier_string;
        let value_type = *context.get_variable_type(identifier.as_str())?;
        match &destination.expression {
            Some(index) => match value_type {
                Type::Array(element, _) => {
                    let index = AnalyzedExpression::analyze_expression(index, context)?;
                    let index_type = index.get_type();
                    if index_type != Type::Int {
                        Err(SemanticsError::NonIntIndex(identifier.clone(), index_type))
                    } else {
                        Ok(
                            AnalyzedDestination {
                                identifier: identifier.clone(),
                                expression: Some(index),
                                value_type: element.as_type(),
                            },
                        )
                    }
                },
                _ => Err(SemanticsError::IndexOnNonArray(identifier.clone())),
            },
            None => Ok(AnalyzedDestination { identifier: identifier.clone(), expression: None, value_type }),
        }
    }
}

impl AnalyzedIf {
    /// Types an `if`: its condition is made a boolean.
    pub fn analyze(statement: &IfStatement, context: &Context) -> (r: Result<Self, SemanticsError>)
        ensures
            r matches Ok(s) ==> expr_ok(s.conditional_expr) && expr_type(s.conditional_expr) == Type::Bool,
            r matches Ok(s) ==> s.else_block is Some == statement.else_statement is Some,
            r is Ok <==> statement_accepted(Statement::If(*statement), *context),
            r matches Ok(s) ==> statement_ok(AnalyzedStatement::If(s)),
        decreases statement, 1int,
    {
        let conditional_expr = AnalyzedExpression::analyze_expression(&statement.condition, context)?.cond_expr()?;
        let then_block = AnalyzedBlock::analyze(&statement.then_statement, context)?;
        let else_block = match &statement.else_statement {
            Some(block) => Some(AnalyzedBlock::analyze(block, context)?),
            None => None,
        };
        Ok(AnalyzedIf { conditional_expr, then_block, else_block })
    }
}

impl AnalyzedLoop {
    /// Types a `for` loop: its assignment, its condition made a boolean, and
    /// its body.
    pub fn analyze(statement: &LoopStatement, context: &Context) -> (r: Result<Self, SemanticsError>)
        ensures
            r matches Ok(s) ==> expr_ok(s.condition) && expr_type(s.condition) == Type::Bool,
            r is Ok <==> statement_accepted(Statement::Loop(*statement), *context),
            r matches Ok(s) ==> statement_ok(AnalyzedStatement::Loop(s)),
        decreases statement, 1int,
    {
        let assignment = AnalyzedAssignment::analyze(&statement.assignment_statement, context)?;
        let condition = AnalyzedExpression::analyze_expression(&statement.condition, context)?.cond_expr()?;
        let loop_body = AnalyzedBlock::analyze(&statement.loop_body, context)?;
        Ok(AnalyzedLoop { assignment: Box::new(assignment), condition, loop_body })
    }
}

impl AnalyzedReturn {
    /// Types a `return`: only a procedure's body may return, and the value
    /// is converted to the procedure's return type.
    pub fn analyze(statement: &ReturnStatement, context: &Context) -> (r: Result<Self, SemanticsError>)
        ensures
            context.local().return_type == Type::Void <==> (r matches Err(SemanticsError::UnexpectedReturn)),
            r matches Ok(s) ==> expr_ok(s.expression) && expr_type(s.expression) == context.local().return_type,
            r is Ok <==> statement_accepted(Statement::Return(*statement), *context),
            r matches Ok(s) ==> statement_ok(AnalyzedStatement::Return(s)),
    {
        let expected = *context.get_return_type();
        if expected == Type::Void {
            return Err(SemanticsError::UnexpectedReturn);
        }
        let expression = AnalyzedExpression::analyze_expression(&statement.expression, context)?;
        let expression = coerce(expression, expected)?;
        Ok(AnalyzedReturn { expression })
    }
}

} // verus!
