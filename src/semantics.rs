//! Semantic analysis: scopes, type checking, and the typed tree.
use vstd::prelude::*;

pub mod context;
pub mod declaration;
pub mod expression;
pub mod literal;
pub mod procedure;
pub mod statement;
pub mod traits;
pub mod typing;
pub mod value;

use crate::parser::program::ProgramStruct;
use crate::semantics::context::{
    lemma_builtins_kept, lemma_extends_trans, lemma_same_ident_find_var, same_ident, Context, Scope, ScopeContext,
};
use crate::semantics::declaration::{analyze_declaration, distinct_variable_names, variable_type, variables_only};
use crate::semantics::procedure::{procedure_ok, AnalyzedProcedure};
use crate::semantics::statement::{block_ok, AnalyzedBlock};
use crate::semantics::value::Type;

verus! {

#[derive(Debug, Clone)]
pub enum SemanticsError {
    /// A value of the second type stood where the first was needed.
    TypeMismatch(Type, Type),
    /// A value of the given type stood where the described types were needed.
    InvalidType(String, Type),
    /// A call passed the first number of arguments; the procedure takes the second.
    ParamCountMismatch(usize, usize),
    /// The name is already declared in the scope.
    Redeclared(String),
    /// The name is declared neither in the local nor in the global scope.
    UndefinedRef(String),
    /// A procedure's scope ended where none was open.
    OutOfScope,
    /// The named variable is indexed but is no array.
    IndexOnNonArray(String),
    /// The named array is indexed by a value of the given type.
    NonIntIndex(String, Type),
    /// A `return` stands outside any procedure.
    UnexpectedReturn,
    /// The number literal is no valid integer.
    InvalidIntLiteral(String),
    /// The number literal is no valid floating-point number.
    InvalidFloatLiteral(String),
}

/// A program after analysis: the global scope, the procedures declared at
/// its top level, and its typed body.
#[derive(Debug)]
pub struct AnalyzedProgram {
    pub name: String,
    pub declarations: ScopeContext,
    pub procedures: Vec<AnalyzedProcedure>,
    pub block: AnalyzedBlock,
}

/// Every expression of the program, in its body and in the bodies of its
/// procedures, is well typed, and every condition is a boolean.
pub open spec fn program_ok(p: AnalyzedProgram) -> bool {
    block_ok(p.block) && forall|i: int| 0 <= i < p.procedures.len() ==> procedure_ok(#[trigger] p.procedures[i])
}

impl AnalyzedProgram {
    /// Analyzes a whole program: its declarations, in order, in the global
    /// scope, then its statements.
    pub fn analyze(program: ProgramStruct) -> (r: Result<Self, SemanticsError>)
        ensures
            r matches Ok(p) ==> p.declarations.has_builtins(),
            r matches Ok(p) ==> program_ok(p),
            r matches Ok(p) ==> p.declarations.wf() && p.name@
                == program.program_header.header_identifier@,
            r matches Ok(p) ==> p.block.0.len() == program.program_body.statements.len(),
            program.program_body.declarations.len() == 0 ==> (r matches Ok(p) ==> p.procedures.len() == 0
                && p.declarations.variables@.len() == 0),
            variables_only(program.program_body.declarations@) && distinct_variable_names(
                program.program_body.declarations@,
            ) && program.program_body.statements.len() == 0 ==> r is Ok,
            ({
                let ds = program.program_body.declarations@;
                ds.len() >= 2 && ds[0] is Variable && ds[1] is Variable && variable_type(ds[0]->Variable_1) is Some
                    && variable_type(ds[1]->Variable_1) is Some && same_ident(
                    ds[0]->Variable_1.identifier@,
                    ds[1]->Variable_1.identifier@,
                ) ==> (r matches Err(SemanticsError::Redeclared(s)) && s@ == ds[1]->Variable_1.identifier@)
            }),
    {
        let mut context = Context::new();
        let ghost initial = context.global();
        let mut procedures: Vec<AnalyzedProcedure> = Vec::new();
        let declarations = &program.program_body.declarations;
        let mut i: usize = 0;
        while i < declarations.len()
            invariant
                context.wf(),
                initial.has_builtins(),
                context.global().extends(initial),
                forall|j: int| 0 <= j < procedures.len() ==> procedure_ok(#[trigger] procedures[j]),
                i <= declarations.len(),
                procedures.len() <= i,
                declarations == &program.program_body.declarations,
                variables_only(declarations@) ==> forall|n: Seq<char>| #[trigger] context.global().var_type(n) is Some
                    ==> exists|j: int| 0 <= j < i && same_ident(declarations@[j]->Variable_1.identifier@, n),
                i >= 1 && declarations@[0] is Variable && variable_type(declarations@[0]->Variable_1) is Some
                    ==> context.global().var_type(declarations@[0]->Variable_1.identifier@) is Some,
                i == 0 ==> context.global().variables@.len() == 0,
                ({
                    let ds = declarations@;
                    ds.len() >= 2 && ds[0] is Variable && ds[1] is Variable && variable_type(ds[0]->Variable_1) is Some
                        && variable_type(ds[1]->Variable_1) is Some && same_ident(
                        ds[0]->Variable_1.identifier@,
                        ds[1]->Variable_1.identifier@,
                    ) ==> i <= 1
                }),
            decreases declarations.len() - i,
        {
            let ghost before = context.global();
            proof {
                if i == 0 {
                    assert(forall|n: Seq<char>| #[trigger] before.var_type(n) is None);
                }
                if variables_only(declarations@) && distinct_variable_names(declarations@) {
                    let name = declarations@[i as int]->Variable_1.identifier@;
                    if before.var_type(name) is Some {
                        let j = choose|j: int| 0 <= j < i && same_ident(declarations@[j]->Variable_1.identifier@, name);
                        assert(!same_ident(declarations@[j]->Variable_1.identifier@, declarations@[i as int]->Variable_1.identifier@));
                    }
                }
                if i == 1 && declarations@[0] is Variable && declarations@[1] is Variable && variable_type(
                    declarations@[0]->Variable_1,
                ) is Some && same_ident(
                    declarations@[0]->Variable_1.identifier@,
                    declarations@[1]->Variable_1.identifier@,
                ) {
                    lemma_same_ident_find_var(
                        before.variables@,
                        declarations@[0]->Variable_1.identifier@,
                        declarations@[1]->Variable_1.identifier@,
                    );
                }
            }
            if let Some(procedure) = analyze_declaration(&declarations[i], &mut context, Scope::Global)? {
                procedures.push(procedure);
            }
            proof {
                lemma_extends_trans(context.global(), before, initial);
                if variables_only(declarations@) {
                    let name = declarations@[i as int]->Variable_1.identifier@;
                    assert forall|n: Seq<char>| #[trigger] context.global().var_type(n) is Some implies exists|j: int|
                        0 <= j < i + 1 && same_ident(declarations@[j]->Variable_1.identifier@, n) by {
                        if !same_ident(name, n) {
                            assert(before.var_type(n) is Some);
                        }
                    }
                }
                if i == 0 && declarations@[0] is Variable && variable_type(declarations@[0]->Variable_1) is Some {
                    assert(same_ident(declarations@[0]->Variable_1.identifier@, declarations@[0]->Variable_1.identifier@));
                }
                if i >= 1 && declarations@[0] is Variable && variable_type(declarations@[0]->Variable_1) is Some {
                    assert(before.var_type(declarations@[0]->Variable_1.identifier@) is Some);
                }
            }
            i = i + 1;
        }
        proof {
            lemma_builtins_kept(context.global(), initial);
        }
        let block = AnalyzedBlock::analyze(&program.program_body.statements, &context)?;
        Ok(
            AnalyzedProgram {
                name: program.program_header.header_identifier,
                declarations: context.into_global(),
                procedures,
                block,
            },
        )
    }
}

} // verus!
