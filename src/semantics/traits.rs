//! The analysis interface shared by the nodes of the syntax tree.
use vstd::prelude::*;

use crate::parser::declarations::{Declaration, ProcedureDeclaration};
use crate::parser::expression::{ArtihOp, Expression, Factor, Name, Relation, Term};
use crate::parser::procedure::ProcedureCall;
use crate::parser::statement::{
    AssignmentStatement, Destination, IfStatement, LoopStatement, ReturnStatement, Statement,
};
use crate::parser::types::Number;
use crate::semantics::context::{Context, Scope};
use crate::semantics::declaration::analyze_declaration;
use crate::semantics::expression::{
    AnalyzedArithOp, AnalyzedExpression, AnalyzedFactor, AnalyzedName, AnalyzedNumber, AnalyzedRelation, AnalyzedTerm,
};
use crate::semantics::procedure::{AnalyzedProcedure, AnalyzedProcedureCall};
use crate::semantics::statement::{
    AnalyzedAssignment, AnalyzedBlock, AnalyzedDestination, AnalyzedIf, AnalyzedLoop, AnalyzedReturn,
    AnalyzedStatement,
};
use crate::semantics::value::Type;
use crate::semantics::SemanticsError;

verus! {

/// A node of the syntax tree that analysis turns into a `T`, in a context
/// and at the top level (`Global`) or inside a body (`Local`).
pub trait Analyze<T>: Sized {
    fn analyze(self, context: &mut Context, scope: &Scope) -> (r: Result<T, SemanticsError>)
        requires
            old(context).wf(),
        ensures
            final(context).wf(),
    ;
}

/// A typed expression node made from an untyped `T`.
pub trait AnalyzeExpression<T>: Sized {
    fn analyze_expression(value: T, context: &mut Context) -> Result<Self, SemanticsError>;

    /// The node's type; it needs no lookup in the context.
    fn get_type(&self, context: &Context) -> Result<Type, SemanticsError>;
}

impl Analyze<Option<AnalyzedProcedure>> for Declaration {
    fn analyze(self, context: &mut Context, scope: &Scope) -> (r: Result<Option<AnalyzedProcedure>, SemanticsError>) {
        analyze_declaration(&self, context, *scope)
    }
}

impl Analyze<AnalyzedProcedure> for ProcedureDeclaration {
    fn analyze(self, context: &mut Context, scope: &Scope) -> (r: Result<AnalyzedProcedure, SemanticsError>) {
        AnalyzedProcedure::analyze(&self, context, *scope)
    }
}

impl Analyze<AnalyzedBlock> for Vec<Statement> {
    fn analyze(self, context: &mut Context, scope: &Scope) -> (r: Result<AnalyzedBlock, SemanticsError>) {
        AnalyzedBlock::analyze(&self, context)
    }
}

impl Analyze<AnalyzedStatement> for Statement {
    fn analyze(self, context: &mut Context, scope: &Scope) -> (r: Result<AnalyzedStatement, SemanticsError>) {
        AnalyzedStatement::analyze(&self, context)
    }
}

impl Analyze<AnalyzedAssignment> for AssignmentStatement {
    fn analyze(self, context: &mut Context, scope: &Scope) -> (r: Result<AnalyzedAssignment, SemanticsError>) {
        AnalyzedAssignment::analyze(&self, context)
    }
}

impl Analyze<AnalyzedDestination> for Destination {
    fn analyze(self, context: &mut Context, scope: &Scope) -> (r: Result<AnalyzedDestination, SemanticsError>) {
        AnalyzedDestination::analyze(&self, context)
    }
}

impl Analyze<AnalyzedIf> for IfStatement {
    fn analyze(self, context: &mut Context, scope: &Scope) -> (r: Result<AnalyzedIf, SemanticsError>) {
        AnalyzedIf::analyze(&self, context)
    }
}

impl Analyze<AnalyzedLoop> for LoopStatement {
    fn analyze(self, context: &mut Context, scope: &Scope) -> (r: Result<AnalyzedLoop, SemanticsError>) {
        AnalyzedLoop::analyze(&self, context)
    }
}

impl Analyze<AnalyzedReturn> for ReturnStatement {
    fn analyze(self, context: &mut Context, scope: &Scope) -> (r: Result<AnalyzedReturn, SemanticsError>) {
        AnalyzedReturn::analyze(&self, context)
    }
}

impl AnalyzeExpression<Expression> for AnalyzedExpression {
    fn analyze_expression(value: Expression, context: &mut Context) -> Result<Self, SemanticsError> {
        AnalyzedExpression::analyze_expression(&value, context)
    }

    fn get_type(&self, context: &Context) -> Result<Type, SemanticsError> {
        Ok(AnalyzedExpression::get_type(self))
    }
}

impl AnalyzeExpression<ArtihOp> for AnalyzedArithOp {
    fn analyze_expression(value: ArtihOp, context: &mut Context) -> Result<Self, SemanticsError> {
        AnalyzedArithOp::analyze_expression(&value, context)
    }

    fn get_type(&self, context: &Context) -> Result<Type, SemanticsError> {
        Ok(AnalyzedArithOp::get_type(self))
    }
}

impl AnalyzeExpression<Relation> for AnalyzedRelation {
    fn analyze_expression(value: Relation, context: &mut Context) -> Result<Self, SemanticsError> {
        AnalyzedRelation::analyze_expression(&value, context)
    }

    fn get_type(&self, context: &Context) -> Result<Type, SemanticsError> {
        Ok(AnalyzedRelation::get_type(self))
    }
}

impl AnalyzeExpression<Term> for AnalyzedTerm {
    fn analyze_expression(value: Term, context: &mut Context) -> Result<Self, SemanticsError> {
        AnalyzedTerm::analyze_expression(&value, context)
    }

    fn get_type(&self, context: &Context) -> Result<Type, SemanticsError> {
        Ok(AnalyzedTerm::get_type(self))
    }
}

impl AnalyzeExpression<Factor> for AnalyzedFactor {
    fn analyze_expression(value: Factor, context: &mut Context) -> Result<Self, SemanticsError> {
        AnalyzedFactor::analyze_expression(&value, context)
    }

    fn get_type(&self, context: &Context) -> Result<Type, SemanticsError> {
        Ok(AnalyzedFactor::get_type(self))
    }
}

impl AnalyzeExpression<Number> for AnalyzedNumber {
    fn analyze_expression(value: Number, context: &mut Context) -> Result<Self, SemanticsError> {
        AnalyzedNumber::analyze_expression(&value)
    }

    fn get_type(&self, context: &Context) -> Result<Type, SemanticsError> {
        Ok(AnalyzedNumber::get_type(self))
    }
}

impl AnalyzeExpression<Name> for AnalyzedName {
    fn analyze_expression(value: Name, context: &mut Context) -> Result<Self, SemanticsError> {
        AnalyzedName::analyze_expression(&value, context)
    }

    fn get_type(&self, context: &Context) -> Result<Type, SemanticsError> {
        Ok(AnalyzedName::get_type(self))
    }
}

impl AnalyzeExpression<ProcedureCall> for AnalyzedProcedureCall {
    fn analyze_expression(value: ProcedureCall, context: &mut Context) -> Result<Self, SemanticsError> {
        AnalyzedProcedureCall::analyze_expression(&value, context)
    }

    fn get_type(&self, context: &Context) -> Result<Type, SemanticsError> {
        Ok(AnalyzedProcedureCall::get_type(self))
    }
}

} // verus!
