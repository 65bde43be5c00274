//! Recording declarations in the scopes.
use vstd::prelude::*;

use crate::parser::declarations::{Declaration, VariableDeclaration};
use crate::semantics::context::{same_ident, Context, Scope};
use crate::semantics::literal::{decimal_value, parse_int_literal, valid_int_literal};
use crate::semantics::procedure::{procedure_ok, AnalyzedProcedure};
use crate::semantics::value::{mark_scalar, mark_type, Scalar, Type};
use crate::semantics::SemanticsError;
use crate::text::chars_of;

verus! {

/// The type a variable declaration gives, or `None` where its bound is no
/// integer literal that fits in `usize`.
pub open spec fn variable_type(v: VariableDeclaration) -> Option<Type> {
    match v.array_bound {
        None => Some(mark_type(v.type_mark)),
        Some(bound) => {
            let s = bound.number.literal_string@;
            if valid_int_literal(s) && decimal_value(s) <= usize::MAX {
                Some(Type::Array(mark_scalar(v.type_mark), decimal_value(s) as usize))
            } else {
                None
            }
        },
    }
}

/// Every declaration is a variable declaration with a valid type.
pub open spec fn variables_only(ds: Seq<Declaration>) -> bool {
    forall|i: int| 0 <= i < ds.len() ==> (#[trigger] ds[i] is Variable) && variable_type(ds[i]->Variable_1) is Some
}

/// No two of the variable declarations name the same identifier.
pub open spec fn distinct_variable_names(ds: Seq<Declaration>) -> bool {
    forall|i: int, j: int|
        0 <= i < j < ds.len() ==> !same_ident(#[trigger] ds[i]->Variable_1.identifier@, #[trigger] ds[j]->Variable_1.identifier@)
}

/// The type that a variable declaration gives: its type name, or an array
/// of it when a bound is written. The bound must be an integer literal that
/// fits in `usize`.
pub fn declared_type(variable: &VariableDeclaration) -> (r: Result<Type, SemanticsError>)
    ensures
        r is Ok <==> variable_type(*variable) is Some,
        r matches Ok(t) ==> Some(t) == variable_type(*variable),
        match variable.array_bound {
            None => r == Ok::<Type, SemanticsError>(mark_type(variable.type_mark)),
            Some(bound) => {
                let s = bound.number.literal_string@;
                if valid_int_literal(s) && decimal_value(s) <= usize::MAX {
                    r == Ok::<Type, SemanticsError>(
                        Type::Array(mark_scalar(variable.type_mark), decimal_value(s) as usize),
                    )
                } else {
                    r matches Err(SemanticsError::InvalidIntLiteral(x)) && x@ == s
                }
            },
        },
{
    match &variable.array_bound {
        None => Ok(Type::from_mark(variable.type_mark)),
        Some(bound) => {
            let text = &bound.number.literal_string;
            match parse_int_literal(&chars_of(text.as_str())) {
                Some(n) => {
                    if n as u64 > usize::MAX as u64 {
                        Err(SemanticsError::InvalidIntLiteral(text.clone()))
                    } else {
                        Ok(Type::Array(Scalar::from_mark(variable.type_mark), n as usize))
                    }
                },
                None => Err(SemanticsError::InvalidIntLiteral(text.clone())),
            }
        },
    }
}

/// Records a declaration. A variable goes to the global scope when it is
/// marked `global` or stands at the top level, else to the local scope; a
/// procedure is analyzed, and returned.
pub fn analyze_declaration(declaration: &Declaration, context: &mut Context, scope: Scope) -> (r: Result<
    Option<AnalyzedProcedure>,
    SemanticsError,
>)
    requires
        old(context).wf(),
    ensures
        final(context).wf(),
        r is Ok ==> final(context).saved() == old(context).saved(),
        r is Ok ==> final(context).global().extends(old(context).global()) && final(context).local().extends(
            old(context).local(),
        ),
        r matches Ok(Some(p)) ==> p.declarations.wf() && procedure_ok(p),
        r is Ok ==> final(context).local().return_type == old(context).local().return_type,
        scope == Scope::Global && declaration is Variable && r is Ok ==> forall|n: Seq<char>|
            #[trigger] final(context).global().var_type(n) == if same_ident(declaration->Variable_1.identifier@, n) {
                variable_type(declaration->Variable_1)
            } else {
                old(context).global().var_type(n)
            },
        declaration is Procedure ==> ({
            let pd = declaration->Procedure_1;
            let h = pd.procedure_header;
            let b = pd.procedure_body;
            let to_global = scope == Scope::Global || declaration->Procedure_0;
            let taken = if to_global {
                old(context).global().proc_sig(h.identifier@)
            } else {
                old(context).local().proc_sig(h.identifier@)
            };
            &&& h.param_list is None && taken is Some ==> r == Err::<Option<AnalyzedProcedure>, SemanticsError>(
                SemanticsError::Redeclared(h.identifier),
            )
            &&& h.param_list is None && taken is None && b.declarations.len() == 0 && b.statements.len() == 0
                ==> (r matches Ok(Some(p)) && p.identifier@ == h.identifier@)
        }),
        declaration is Variable ==> ({
            let v = declaration->Variable_1;
            let to_global = scope == Scope::Global || declaration->Variable_0;
            let before = if to_global {
                old(context).global()
            } else {
                old(context).local()
            };
            let after = if to_global {
                final(context).global()
            } else {
                final(context).local()
            };
            &&& r is Ok <==> (variable_type(v) is Some && before.var_type(v.identifier@) is None)
            &&& variable_type(v) is Some && before.var_type(v.identifier@) is Some ==> r == Err::<
                Option<AnalyzedProcedure>,
                SemanticsError,
            >(SemanticsError::Redeclared(v.identifier))
            &&& r is Ok ==> forall|n: Seq<char>| #[trigger] after.var_type(n) == if same_ident(v.identifier@, n) {
                variable_type(v)
            } else {
                before.var_type(n)
            }
            &&& r is Ok ==> r == Ok::<Option<AnalyzedProcedure>, SemanticsError>(None) && after.var_type(
                v.identifier@,
            ) == variable_type(v)
        }),
    decreases declaration, 1int,
{
    match declaration {
        Declaration::Variable(is_global, variable) => {
            let value_type = declared_type(variable)?;
            context.set_type(scope == Scope::Global || *is_global, variable.identifier.clone(), value_type)?;
            Ok(None)
        },
        Declaration::Procedure(is_global, procedure) => {
            let procedure_scope = if *is_global {
                Scope::Global
            } else {
                scope
            };
            Ok(Some(AnalyzedProcedure::analyze(procedure, context, procedure_scope)?))
        },
    }
}

} // verus!
