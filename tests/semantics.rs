use std::collections::VecDeque;

use frontend::parser::parse_tokens;
use frontend::parser::types::{Number, TypeMark};
use frontend::scanner::scan;
use frontend::semantics::context::{Context, ScopeContext};
use frontend::semantics::expression::{AnalyzedArithOp, AnalyzedExpression, AnalyzedFactor, AnalyzedNumber, AnalyzedRelation, AnalyzedTerm};
use frontend::semantics::statement::AnalyzedStatement;
use frontend::semantics::value::{NamedValue, ProcedureSignature, Scalar, Type};
use frontend::semantics::{AnalyzedProgram, SemanticsError};

fn analyze(s: &str) -> Result<AnalyzedProgram, SemanticsError> {
    let tokens = scan(String::from(s)).unwrap();
    let program = parse_tokens(VecDeque::from(tokens)).unwrap();
    AnalyzedProgram::analyze(program)
}

fn body(decls: &str, stmts: &str) -> String {
    format!("program p is {} begin {} end program.", decls, stmts)
}

fn assigned_expression(program: &AnalyzedProgram, index: usize) -> &AnalyzedExpression {
    match &program.block.0[index] {
        AnalyzedStatement::Assignment(a) => &a.expression,
        other => panic!("expected an assignment, found {:?}", other),
    }
}

#[test]
fn minimal_program_analyzes() {
    let program = analyze("program p is begin end program.").unwrap();
    assert_eq!(program.name, "p");
    assert!(program.declarations.variables.is_empty());
    assert!(program.procedures.is_empty());
    assert!(program.block.0.is_empty());
}

#[test]
fn assignment_inserts_cast_to_int() {
    let program = analyze("program p is variable x: integer; begin x := true; end program.").unwrap();
    match assigned_expression(&program, 0) {
        AnalyzedExpression::Cast(inner, Type::Int) => assert_eq!(inner.get_type(), Type::Bool),
        other => panic!("expected a cast to Int, found {:?}", other),
    }
}

#[test]
fn redeclaration_is_refused() {
    let r = analyze("program p is variable x: integer; variable x: integer; begin end program.");
    match r {
        Err(SemanticsError::Redeclared(name)) => assert_eq!(name, "x"),
        other => panic!("expected Redeclared, found {:?}", other),
    }
}

#[test]
fn redeclaration_ignores_case() {
    let r = analyze("program p is variable x: integer; variable X: bool; begin end program.");
    assert!(matches!(r, Err(SemanticsError::Redeclared(_))));
}

#[test]
fn array_length_mismatch_is_refused() {
    let r = analyze(&body(
        "variable a: integer[3]; variable b: integer[4]; variable c: integer[3];",
        "c := a + b;",
    ));
    match r {
        Err(SemanticsError::TypeMismatch(l, r)) => {
            assert_eq!(l, Type::Array(Scalar::Int, 3));
            assert_eq!(r, Type::Array(Scalar::Int, 4));
        }
        other => panic!("expected TypeMismatch, found {:?}", other),
    }
}

#[test]
fn dangling_else_analyzes_as_inner() {
    let program = analyze(&body(
        "variable x: integer;",
        "if (true) then if (false) then x := 1; else x := 2; end if; end if;",
    ))
    .unwrap();
    match &program.block.0[0] {
        AnalyzedStatement::If(outer) => {
            assert!(outer.else_block.is_none());
            match &outer.then_block.0[0] {
                AnalyzedStatement::If(inner) => assert!(inner.else_block.is_some()),
                other => panic!("unexpected {:?}", other),
            }
        }
        other => panic!("unexpected {:?}", other),
    }
}

#[test]
fn integer_condition_is_cast_to_bool() {
    let program = analyze(&body("variable x: integer;", "if (x) then x := 1; end if;")).unwrap();
    match &program.block.0[0] {
        AnalyzedStatement::If(s) => {
            assert_eq!(s.conditional_expr.get_type(), Type::Bool);
            assert!(matches!(s.conditional_expr, AnalyzedExpression::Cast(_, Type::Bool)));
        }
        other => panic!("unexpected {:?}", other),
    }
}

#[test]
fn loop_condition_is_bool() {
    let program = analyze(&body("variable i: integer;", "for (i := 0; i < 10) i := i + 1; end for;")).unwrap();
    match &program.block.0[0] {
        AnalyzedStatement::Loop(s) => {
            assert_eq!(s.condition.get_type(), Type::Bool);
            assert_eq!(s.loop_body.0.len(), 1);
        }
        other => panic!("unexpected {:?}", other),
    }
}

#[test]
fn string_condition_is_refused() {
    let r = analyze(&body("variable s: string;", "if (s) then end if;"));
    assert!(matches!(r, Err(SemanticsError::InvalidType(_, Type::String))));
}

#[test]
fn return_outside_procedure_is_refused() {
    let r = analyze(&body("", "return 1;"));
    assert!(matches!(r, Err(SemanticsError::UnexpectedReturn)));
}

#[test]
fn return_is_converted_to_return_type() {
    let program = analyze(
        "program p is procedure f: float (variable a: integer) begin return a; end procedure; \
         begin end program.",
    )
    .unwrap();
    assert_eq!(program.procedures.len(), 1);
    let f = &program.procedures[0];
    assert_eq!(f.identifier, "f");
    assert_eq!(f.arg_list.len(), 1);
    assert_eq!(f.declarations.variables.len(), 1);
    match &f.block.0[0] {
        AnalyzedStatement::Return(r) => {
            assert!(matches!(r.expression, AnalyzedExpression::Cast(_, Type::Float)));
        }
        other => panic!("unexpected {:?}", other),
    }
}

#[test]
fn undefined_variable_is_refused() {
    let r = analyze(&body("", "y := 1;"));
    match r {
        Err(SemanticsError::UndefinedRef(name)) => assert_eq!(name, "y"),
        other => panic!("unexpected {:?}", other),
    }
}

#[test]
fn indexing_a_scalar_is_refused() {
    let r = analyze(&body("variable x: integer;", "x[1] := 1;"));
    assert!(matches!(r, Err(SemanticsError::IndexOnNonArray(_))));
}

#[test]
fn non_integer_index_is_refused() {
    let r = analyze(&body("variable a: integer[2]; variable y: integer;", "y := a[true];"));
    assert!(matches!(r, Err(SemanticsError::NonIntIndex(_, Type::Bool))));
}

#[test]
fn indexed_element_has_element_type() {
    let program = analyze(&body("variable a: float[2]; variable y: float;", "y := a[1]; a[0] := 2.5;")).unwrap();
    assert_eq!(assigned_expression(&program, 0).get_type(), Type::Float);
    match &program.block.0[1] {
        AnalyzedStatement::Assignment(a) => assert_eq!(a.destination.value_type, Type::Float),
        other => panic!("unexpected {:?}", other),
    }
}

#[test]
fn mixed_scalars_become_float() {
    let program = analyze(&body("variable y: float;", "y := 1 + 2.5;")).unwrap();
    match assigned_expression(&program, 0) {
        AnalyzedExpression::ArithOp(AnalyzedArithOp::Plus(left, _)) => {
            assert!(matches!(**left, AnalyzedArithOp::Cast(_, Type::Float)));
        }
        other => panic!("unexpected {:?}", other),
    }
}

#[test]
fn array_and_scalar_broadcast() {
    let program = analyze(&body("variable a: integer[3];", "a := a + 1; a := 2 * a; a := a - a;")).unwrap();
    assert!(matches!(
        assigned_expression(&program, 0),
        AnalyzedExpression::ArithOp(AnalyzedArithOp::ArrayScalarPlus(_, _))
    ));
    match assigned_expression(&program, 1) {
        AnalyzedExpression::ArithOp(AnalyzedArithOp::Relation(AnalyzedRelation::Term(t))) => {
            assert!(matches!(t, AnalyzedTerm::ScalarArrayMultiply(_, _)));
        }
        other => panic!("unexpected {:?}", other),
    }
    assert!(matches!(
        assigned_expression(&program, 2),
        AnalyzedExpression::ArithOp(AnalyzedArithOp::ArrayMinus(_, _))
    ));
    assert_eq!(assigned_expression(&program, 0).get_type(), Type::Array(Scalar::Int, 3));
}

#[test]
fn float_scalar_is_cast_to_int_array_element() {
    let program = analyze(&body("variable a: integer[3];", "a := a / 2.0;")).unwrap();
    match assigned_expression(&program, 0) {
        AnalyzedExpression::ArithOp(AnalyzedArithOp::Relation(AnalyzedRelation::Term(
            AnalyzedTerm::ArrayScalarDivide(_, f),
        ))) => assert!(matches!(f, AnalyzedFactor::Cast(_, Type::Int))),
        other => panic!("unexpected {:?}", other),
    }
}

#[test]
fn comparisons_give_bool() {
    let program = analyze(&body("variable b: bool; variable s: string;", "b := 1 < 2.0; b := s == \"x\"; b := true == 1;")).unwrap();
    for i in 0..3 {
        assert_eq!(assigned_expression(&program, i).get_type(), Type::Bool);
    }
}

#[test]
fn strings_are_not_ordered() {
    let r = analyze(&body("variable b: bool; variable s: string;", "b := s < s;"));
    assert!(matches!(r, Err(SemanticsError::InvalidType(_, Type::String))));
}

#[test]
fn and_or_not_follow_operand_types() {
    let program = analyze(&body(
        "variable b: bool; variable i: integer;",
        "b := not b & b; i := i | 3; i := not i;",
    ))
    .unwrap();
    match assigned_expression(&program, 0) {
        AnalyzedExpression::LogicalAnd(left, _) => assert!(matches!(**left, AnalyzedExpression::LogicalNot(_))),
        other => panic!("unexpected {:?}", other),
    }
    assert!(matches!(assigned_expression(&program, 1), AnalyzedExpression::BitwiseOr(_, _)));
    assert!(matches!(assigned_expression(&program, 2), AnalyzedExpression::BitwiseNot(_)));
    let r = analyze(&body("variable b: bool; variable i: integer;", "b := b & i;"));
    assert!(matches!(r, Err(SemanticsError::TypeMismatch(Type::Int, Type::Bool))));
}

#[test]
fn negated_string_is_refused() {
    let r = analyze(&body("variable s: string; variable t: string;", "t := -s;"));
    assert!(matches!(r, Err(SemanticsError::InvalidType(_, Type::String))));
}

#[test]
fn builtin_calls_are_checked() {
    let program = analyze(&body("variable b: bool; variable f: float;", "b := putinteger(3); f := sqrt(getinteger());")).unwrap();
    assert_eq!(assigned_expression(&program, 0).get_type(), Type::Bool);
    assert_eq!(assigned_expression(&program, 1).get_type(), Type::Float);
    let r = analyze(&body("variable b: bool;", "b := putinteger(1, 2);"));
    assert!(matches!(r, Err(SemanticsError::ParamCountMismatch(2, 1))));
    let r = analyze(&body("variable b: bool;", "b := putstring(1);"));
    assert!(matches!(r, Err(SemanticsError::TypeMismatch(Type::String, Type::Int))));
}

#[test]
fn nested_procedure_scopes() {
    let program = analyze(
        "program p is global variable g: integer; \
         procedure outer: integer (variable a: integer) \
           variable t: integer; \
           procedure inner: integer (variable b: integer) begin return b + g; end procedure; \
         begin t := inner(a); return t; end procedure; \
         begin g := outer(1); end program.",
    )
    .unwrap();
    assert_eq!(program.procedures.len(), 1);
    assert_eq!(program.procedures[0].procedures.len(), 1);
    assert_eq!(program.procedures[0].declarations.variables.len(), 2);
}

#[test]
fn saved_scope_is_not_visible() {
    let r = analyze(
        "program p is \
         procedure outer: integer () variable t: integer; \
           procedure inner: integer () begin return t; end procedure; \
         begin return 1; end procedure; \
         begin end program.",
    );
    assert!(matches!(r, Err(SemanticsError::UndefinedRef(_))));
}

#[test]
fn literals_are_read() {
    let n = AnalyzedNumber::analyze_expression(&Number { literal_string: String::from("9223372036854775807") }).unwrap();
    assert!(matches!(n, AnalyzedNumber::Integer(9223372036854775807)));
    let r = AnalyzedNumber::analyze_expression(&Number { literal_string: String::from("9223372036854775808") });
    assert!(matches!(r, Err(SemanticsError::InvalidIntLiteral(_))));
    let r = AnalyzedNumber::analyze_expression(&Number { literal_string: String::from("1_000") });
    assert!(matches!(r, Err(SemanticsError::InvalidIntLiteral(_))));
    match AnalyzedNumber::analyze_expression(&Number { literal_string: String::from("2.50") }).unwrap() {
        AnalyzedNumber::Float(s) => assert_eq!(s, "2.50"),
        other => panic!("unexpected {:?}", other),
    }
    let r = AnalyzedNumber::analyze_expression(&Number { literal_string: String::from("1_0.5") });
    assert!(matches!(r, Err(SemanticsError::InvalidFloatLiteral(_))));
}

#[test]
fn bad_array_bound_is_refused() {
    let r = analyze(&body("variable a: integer[2.5];", ""));
    assert!(matches!(r, Err(SemanticsError::InvalidIntLiteral(_))));
}

#[test]
fn context_scopes() {
    let mut context = Context::new();
    assert!(context.get_procedure_signature("getbool").is_ok());
    assert!(context.get_procedure_signature("GetBool").is_ok());
    assert!(context.set_type(true, String::from("g"), Type::Int).is_ok());
    assert!(context.set_type(false, String::from("l"), Type::Bool).is_ok());
    assert_eq!(*context.get_variable_type("l").unwrap(), Type::Bool);
    context.start_stack(Type::Float);
    assert_eq!(*context.get_return_type(), Type::Float);
    assert!(context.get_variable_type("l").is_err());
    assert_eq!(*context.get_variable_type("g").unwrap(), Type::Int);
    assert!(context
        .set_procedure(false, String::from("q"), ProcedureSignature(vec![NamedValue(String::from("v"), Type::Int)], Type::Int))
        .is_ok());
    let closed = context.end_stack().unwrap();
    assert_eq!(closed.procedures.len(), 1);
    assert_eq!(closed.return_type, Type::Float);
    assert_eq!(*context.get_variable_type("l").unwrap(), Type::Bool);
    assert!(matches!(context.end_stack(), Err(SemanticsError::OutOfScope)));
    let global: ScopeContext = context.into_global();
    assert_eq!(global.variables.len(), 1);
    assert_eq!(global.procedures.len(), 9);
}

#[test]
fn type_rules() {
    assert!(Type::Int.can_assign(&Type::Bool));
    assert!(Type::Float.can_assign(&Type::Int));
    assert!(!Type::String.can_assign(&Type::Int));
    assert!(!Type::Float.can_assign(&Type::Bool));
    assert_eq!(Type::Int.expect_type(Type::Int).unwrap(), Type::Int);
    assert_eq!(Type::from(TypeMark::Integer), Type::Int);
    assert_eq!(Type::from(TypeMark::String), Type::String);
    assert!(matches!(Type::Int.expect_type(Type::Float), Err(SemanticsError::TypeMismatch(Type::Float, Type::Int))));
}
