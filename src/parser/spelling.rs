//! The token sequence that each node of the syntax tree stands for. A parse
//! function that succeeds consumes exactly the tokens its result spells.
use vstd::prelude::*;

use crate::parser::expression::{ArtihOp, Expression, Factor, Name, Relation, Term};
use crate::parser::declarations::{Declaration, VariableDeclaration};
use crate::parser::procedure::{Parameter, ProcedureCall, ProcedureHeader};
use crate::parser::program::ProgramStruct;
use crate::parser::statement::{AssignmentStatement, Destination, Statement};
use crate::parser::types::TypeMark;
use crate::tokens::TokenView;

verus! {

pub open spec fn expr_tokens(e: Expression) -> Seq<TokenView>
    decreases e,
{
    match e {
        Expression::BasicExp(a) => arith_tokens(a),
        Expression::NotExp(a) => seq![TokenView::Not] + arith_tokens(a),
        Expression::AndExp(l, a) => expr_tokens(*l) + seq![TokenView::Amp] + arith_tokens(a),
        Expression::OrExp(l, a) => expr_tokens(*l) + seq![TokenView::Pipe] + arith_tokens(a),
    }
}

pub open spec fn arith_tokens(a: ArtihOp) -> Seq<TokenView>
    decreases a,
{
    match a {
        ArtihOp::AddOp(l, r) => arith_tokens(*l) + seq![TokenView::Plus] + relation_tokens(r),
        ArtihOp::SubOp(l, r) => arith_tokens(*l) + seq![TokenView::Minus] + relation_tokens(r),
        ArtihOp::Relation(r) => relation_tokens(r),
    }
}

pub open spec fn relation_tokens(r: Relation) -> Seq<TokenView>
    decreases r,
{
    match r {
        Relation::LessThan(l, t) => relation_tokens(*l) + seq![TokenView::LessThan] + term_tokens(t),
        Relation::LessThanEq(l, t) => relation_tokens(*l) + seq![TokenView::LessThanEq] + term_tokens(t),
        Relation::GreaterThan(l, t) => relation_tokens(*l) + seq![TokenView::GreaterThan] + term_tokens(t),
        Relation::GreaterThanEq(l, t) => relation_tokens(*l) + seq![TokenView::GreaterThanEq] + term_tokens(t),
        Relation::Equals(l, t) => relation_tokens(*l) + seq![TokenView::EqualsComp] + term_tokens(t),
        Relation::NotEquals(l, t) => relation_tokens(*l) + seq![TokenView::NotEquals] + term_tokens(t),
        Relation::Term(t) => term_tokens(t),
    }
}

pub open spec fn term_tokens(t: Term) -> Seq<TokenView>
    decreases t,
{
    match t {
        Term::MultTerm(l, f) => term_tokens(*l) + seq![TokenView::Mult] + factor_tokens(f),
        Term::DivTerm(l, f) => term_tokens(*l) + seq![TokenView::Div] + factor_tokens(f),
        Term::Factor(f) => factor_tokens(f),
    }
}

pub open spec fn sign_tokens(negate: bool) -> Seq<TokenView> {
    if negate {
        seq![TokenView::Minus]
    } else {
        Seq::empty()
    }
}

pub open spec fn factor_tokens(f: Factor) -> Seq<TokenView>
    decreases f,
{
    match f {
        Factor::NestedExpression(e) => seq![TokenView::LParen] + expr_tokens(*e) + seq![TokenView::RParen],
        Factor::ProcedureCall(c) => call_tokens(c),
        Factor::Name { negate, name } => sign_tokens(negate) + name_tokens(name),
        Factor::Number { negate, number } => sign_tokens(negate) + seq![
            TokenView::NumberLiteral(number.literal_string@),
        ],
        Factor::String(s) => seq![TokenView::StringLiteral(s.literal_string@)],
        Factor::TrueLit => seq![TokenView::True],
        Factor::FalseLit => seq![TokenView::False],
    }
}

pub open spec fn name_tokens(n: Name) -> Seq<TokenView>
    decreases n,
{
    seq![TokenView::Identifier(n.identifier.identifier_string@)] + match n.expression {
        None => Seq::empty(),
        Some(e) => seq![TokenView::LBracket] + expr_tokens(*e) + seq![TokenView::RBracket],
    }
}

/// Expressions separated by commas.
pub open spec fn list_tokens(v: Seq<Expression>) -> Seq<TokenView>
    decreases v,
{
    if v.len() == 0 {
        Seq::empty()
    } else if v.len() == 1 {
        expr_tokens(v[0])
    } else {
        list_tokens(v.subrange(0, v.len() - 1)) + seq![TokenView::Comma] + expr_tokens(v[v.len() - 1])
    }
}

pub open spec fn call_tokens(c: ProcedureCall) -> Seq<TokenView>
    decreases c,
{
    seq![TokenView::Identifier(c.identifier.identifier_string@), TokenView::LParen] + match c.arg_list {
        None => Seq::empty(),
        Some(a) => list_tokens(a.expr_list@),
    } + seq![TokenView::RParen]
}

} // verus!

verus! {

pub open spec fn type_tokens(m: TypeMark) -> Seq<TokenView> {
    match m {
        TypeMark::Integer => seq![TokenView::Integer],
        TypeMark::Float => seq![TokenView::Float],
        TypeMark::String => seq![TokenView::String],
        TypeMark::Bool => seq![TokenView::Bool],
    }
}

pub open spec fn variable_tokens(v: VariableDeclaration) -> Seq<TokenView> {
    seq![TokenView::Variable, TokenView::Identifier(v.identifier@), TokenView::Colon] + type_tokens(v.type_mark)
        + match v.array_bound {
        None => Seq::empty(),
        Some(b) => seq![
            TokenView::LBracket,
            TokenView::NumberLiteral(b.number.literal_string@),
            TokenView::RBracket,
        ],
    }
}

/// Parameter declarations separated by commas.
pub open spec fn params_tokens(v: Seq<Parameter>) -> Seq<TokenView>
    decreases v.len(),
{
    if v.len() == 0 {
        Seq::empty()
    } else if v.len() == 1 {
        variable_tokens(v[0].variable_declaration)
    } else {
        params_tokens(v.drop_last()) + seq![TokenView::Comma] + variable_tokens(v.last().variable_declaration)
    }
}

pub open spec fn header_tokens(h: ProcedureHeader) -> Seq<TokenView> {
    seq![TokenView::Procedure, TokenView::Identifier(h.identifier@), TokenView::Colon] + type_tokens(h.type_mark)
        + seq![TokenView::LParen] + match h.param_list {
        None => Seq::empty(),
        Some(p) => params_tokens(p.param_list@),
    } + seq![TokenView::RParen]
}

pub open spec fn destination_tokens(d: Destination) -> Seq<TokenView> {
    seq![TokenView::Identifier(d.identifier.identifier_string@)] + match d.expression {
        None => Seq::empty(),
        Some(e) => seq![TokenView::LBracket] + expr_tokens(e) + seq![TokenView::RBracket],
    }
}

pub open spec fn assignment_tokens(a: AssignmentStatement) -> Seq<TokenView> {
    destination_tokens(a.destination) + seq![TokenView::Assignment] + expr_tokens(a.expression)
}

pub open spec fn statement_tokens(s: Statement) -> Seq<TokenView>
    decreases s,
{
    match s {
        Statement::Assignment(a) => assignment_tokens(a),
        Statement::If(i) => seq![TokenView::If, TokenView::LParen] + expr_tokens(i.condition) + seq![
            TokenView::RParen,
            TokenView::Then,
        ] + statements_tokens(i.then_statement@) + match i.else_statement {
            None => Seq::empty(),
            Some(b) => seq![TokenView::Else] + statements_tokens(b@),
        } + seq![TokenView::End, TokenView::If],
        Statement::Loop(l) => seq![TokenView::For, TokenView::LParen] + assignment_tokens(l.assignment_statement)
            + seq![TokenView::Semicolon] + expr_tokens(l.condition) + seq![TokenView::RParen]
            + statements_tokens(l.loop_body@) + seq![TokenView::End, TokenView::For],
        Statement::Return(r) => seq![TokenView::Return] + expr_tokens(r.expression),
    }
}

/// Statements, each followed by a semicolon.
pub open spec fn statements_tokens(v: Seq<Statement>) -> Seq<TokenView>
    decreases v,
{
    if v.len() == 0 {
        Seq::empty()
    } else {
        statements_tokens(v.subrange(0, v.len() - 1)) + statement_tokens(v[v.len() - 1]) + seq![
            TokenView::Semicolon,
        ]
    }
}

pub open spec fn declaration_tokens(d: Declaration) -> Seq<TokenView>
    decreases d,
{
    match d {
        Declaration::Variable(global, v) => sign_global(global) + variable_tokens(v),
        Declaration::Procedure(global, p) => sign_global(global) + header_tokens(p.procedure_header)
            + declarations_tokens(p.procedure_body.declarations@) + seq![TokenView::Begin] + statements_tokens(
            p.procedure_body.statements@,
        ) + seq![TokenView::End, TokenView::Procedure],
    }
}

pub open spec fn sign_global(global: bool) -> Seq<TokenView> {
    if global {
        seq![TokenView::Global]
    } else {
        Seq::empty()
    }
}

/// Declarations, each followed by a semicolon.
pub open spec fn declarations_tokens(v: Seq<Declaration>) -> Seq<TokenView>
    decreases v,
{
    if v.len() == 0 {
        Seq::empty()
    } else {
        declarations_tokens(v.subrange(0, v.len() - 1)) + declaration_tokens(v[v.len() - 1]) + seq![
            TokenView::Semicolon,
        ]
    }
}

/// A body: declarations, `begin`, statements, `end` and the closing keyword.
pub open spec fn body_tokens(ds: Seq<Declaration>, ss: Seq<Statement>, closing: TokenView) -> Seq<TokenView> {
    declarations_tokens(ds) + seq![TokenView::Begin] + statements_tokens(ss) + seq![TokenView::End, closing]
}

/// A program up to, and not including, its `EOF`.
pub open spec fn program_tokens(p: ProgramStruct) -> Seq<TokenView> {
    seq![TokenView::Program, TokenView::Identifier(p.program_header.header_identifier@), TokenView::Is]
        + body_tokens(p.program_body.declarations@, p.program_body.statements@, TokenView::Program) + if p.missing_period {
        Seq::empty()
    } else {
        seq![TokenView::Period]
    }
}

} // verus!
