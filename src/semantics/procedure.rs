//! Procedures and procedure calls.
use vstd::prelude::*;

use crate::parser::declarations::ProcedureDeclaration;
use crate::parser::procedure::{ArgumentList, ProcedureCall};
use crate::semantics::context::{lemma_extends_trans, same_ident, Context, Scope, ScopeContext};
use crate::semantics::declaration::{analyze_declaration, declared_type, variable_type};
use crate::semantics::statement::{block_ok, AnalyzedBlock};
use crate::semantics::expression::{expr_ok, expr_type, AnalyzedExpression};
use crate::semantics::value::{mark_type, NamedValue, ProcedureSignature, Type};
use crate::semantics::typing::{call_analyzed, call_typing, expr_analyzed, expr_typing};
use crate::semantics::SemanticsError;

verus! {

#[derive(Debug)]
pub struct AnalyzedProcedureCall {
    pub identifier: String,
    pub arg_list: Vec<AnalyzedExpression>,
    pub ret_type: Type,
}

impl AnalyzedProcedureCall {
    /// The type of the call: its procedure's return type.
    pub fn get_type(&self) -> (r: Type)
        ensures
            r == self.ret_type,
    {
        self.ret_type
    }

    /// Types the arguments of a call; each must have exactly its parameter's
    /// type.
    fn analyze_arguments(args: &ArgumentList, params: &Vec<NamedValue>, context: &Context) -> (r: Result<
        Vec<AnalyzedExpression>,
        SemanticsError,
    >)
        requires
            args.expr_list.len() == params.len(),
        ensures
            !(r matches Err(SemanticsError::UnexpectedReturn)),
            r is Ok <==> forall|i: int|
                0 <= i < args.expr_list.len() ==> expr_typing(#[trigger] args.expr_list[i], *context) == Some(
                    params[i].1,
                ),
            r matches Ok(v) ==> v.len() == params.len() && forall|i: int| 0 <= i < v.len() ==> expr_ok(#[trigger] v[i]),
            r matches Ok(v) ==> forall|i: int| 0 <= i < v.len() ==> expr_type(#[trigger] v[i]) == params[i].1,
            r matches Ok(v) ==> forall|i: int| 0 <= i < v.len() ==> expr_analyzed(args.expr_list[i], *context, #[trigger] v[i]),
        decreases args, 0int,
    {
        let mut analyzed: Vec<AnalyzedExpression> = Vec::new();
        let mut i: usize = 0;
        while i < args.expr_list.len()
            invariant
                i <= args.expr_list.len(),
                args.expr_list.len() == params.len(),
                analyzed.len() == i,
                forall|j: int| 0 <= j < i ==> expr_ok(#[trigger] analyzed[j]),
                forall|j: int| 0 <= j < i ==> expr_type(#[trigger] analyzed[j]) == params[j].1,
                forall|j: int| 0 <= j < i ==> expr_analyzed(args.expr_list[j], *context, #[trigger] analyzed[j]),
                forall|j: int| 0 <= j < i ==> expr_typing(#[trigger] args.expr_list[j], *context) == Some(params[j].1),
            decreases args.expr_list.len() - i,
        {
            proof {
                assert(decreases_to!(args => args.expr_list));
                assert(decreases_to!(args.expr_list => args.expr_list@));
                assert(decreases_to!(args.expr_list@ => args.expr_list@[i as int]));
            }
            let expression = match AnalyzedExpression::analyze_expression(&args.expr_list[i], context) {
                Ok(e) => e,
                Err(e) => {
                    assert(expr_typing(args.expr_list[i as int], *context) != Some(params[i as int].1));
                    return Err(e);
                },
            };
            let exp_type = expression.get_type();
            let param_type = params[i].1;
            if exp_type != param_type {
                assert(expr_typing(args.expr_list[i as int], *context) != Some(params[i as int].1));
                return Err(SemanticsError::TypeMismatch(param_type, exp_type));
            }
            analyzed.push(expression);
            i = i + 1;
        }
        Ok(analyzed)
    }

    /// Types a call: the procedure must be visible, and each argument must
    /// have exactly the type of its parameter.
    pub fn analyze_expression(value: &ProcedureCall, context: &Context) -> (r: Result<Self, SemanticsError>)
        ensures
            !(r matches Err(SemanticsError::UnexpectedReturn)),
            r matches Ok(c) ==> forall|i: int| 0 <= i < c.arg_list.len() ==> expr_ok(#[trigger] c.arg_list[i]),
            r is Ok <==> call_typing(*value, *context) is Some,
            r matches Ok(c) ==> Some(c.ret_type) == call_typing(*value, *context),
            r matches Ok(c) ==> c.identifier@ == value.identifier.identifier_string@,
            r matches Ok(c) ==> call_analyzed(*value, *context, c),
            r matches Ok(c) ==> context.resolve_proc(value.identifier.identifier_string@) matches Some(s)
                && c.arg_list.len() == s.0.len() && forall|i: int| 0 <= i < c.arg_list.len() ==> expr_type(
                #[trigger] c.arg_list[i]) == s.0[i].1,
            ({
                let passed = match value.arg_list {
                    Some(a) => a.expr_list.len(),
                    None => 0,
                };
                let sig = context.resolve_proc(value.identifier.identifier_string@);
                sig is Some && passed != sig->Some_0.0.len() ==> r == Err::<Self, SemanticsError>(
                    SemanticsError::ParamCountMismatch(passed, sig->Some_0.0.len()),
                )
            }),
        decreases value, 0int,
    {
        let signature = context.get_procedure_signature(value.identifier.identifier_string.as_str())?;
        let passed: usize = match &value.arg_list {
            Some(args) => args.expr_list.len(),
            None => 0,
        };
        if passed != signature.0.len() {
            return Err(SemanticsError::ParamCountMismatch(passed, signature.0.len()));
        }
        let analyzed = match &value.arg_list {
            Some(args) => {
                proof {
                    assert(decreases_to!(value => value.arg_list));
                    assert(decreases_to!(value.arg_list => value.arg_list->Some_0));
                }
                AnalyzedProcedureCall::analyze_arguments(args, &signature.0, context)?
            },
            None => Vec::new(),
        };
        Ok(
            AnalyzedProcedureCall {
                identifier: value.identifier.identifier_string.clone(),
                arg_list: analyzed,
                ret_type: signature.1,
            },
        )
    }
}

} // verus!

verus! {

/// The procedure's body and the bodies of the procedures nested in it are
/// well typed.
pub open spec fn procedure_ok(p: AnalyzedProcedure) -> bool
    decreases p,
{
    block_ok(p.block) && forall|i: int| 0 <= i < p.procedures.len() ==> procedure_ok(*#[trigger] p.procedures[i])
}

/// A procedure after analysis: its parameters, the scope of its own
/// declarations, the procedures nested in it, and its typed body.
#[derive(Debug)]
pub struct AnalyzedProcedure {
    pub identifier: String,
    pub arg_list: Vec<NamedValue>,
    pub declarations: ScopeContext,
    pub procedures: Vec<Box<AnalyzedProcedure>>,
    pub block: AnalyzedBlock,
}

impl AnalyzedProcedure {
    /// Analyzes a procedure: its signature is recorded in the chosen scope,
    /// then its parameters and declarations fill a fresh local scope in
    /// which its body is typed. The enclosing local scope is restored after.
    pub fn analyze(declaration: &ProcedureDeclaration, context: &mut Context, scope: Scope) -> (r: Result<
        Self,
        SemanticsError,
    >)
        requires
            old(context).wf(),
        ensures
                        final(context).wf(),
            r is Ok ==> final(context).saved() == old(context).saved(),
            r is Ok ==> final(context).global().extends(old(context).global()) && final(context).local().extends(
                old(context).local(),
            ),
            r matches Ok(p) ==> p.declarations.wf() && p.identifier@ == declaration.procedure_header.identifier@,
            r matches Ok(p) ==> procedure_ok(p),
            ({
                let h = declaration.procedure_header;
                let b = declaration.procedure_body;
                let taken = if scope == Scope::Global {
                    old(context).global().proc_sig(h.identifier@)
                } else {
                    old(context).local().proc_sig(h.identifier@)
                };
                &&& h.param_list is None && taken is Some ==> r == Err::<Self, SemanticsError>(
                    SemanticsError::Redeclared(h.identifier),
                )
                &&& h.param_list is None && taken is None && b.declarations.len() == 0 && b.statements.len() == 0
                    ==> r is Ok
            }),
            r matches Ok(p) ==> p.declarations.return_type == mark_type(declaration.procedure_header.type_mark),
            r is Ok && scope == Scope::Global ==> final(context).local() == old(context).local(),
            r is Ok && scope == Scope::Local ==> final(context).local().variables == old(context).local().variables
                && final(context).local().return_type == old(context).local().return_type,
            r matches Ok(p) ==> forall|i: int|
                0 <= i < p.arg_list.len() ==> p.declarations.var_type(#[trigger] p.arg_list[i].0@) == Some(
                    p.arg_list[i].1,
                ),
            r matches Ok(p) ==> (if scope == Scope::Global {
                final(context).global()
            } else {
                final(context).local()
            }).proc_sig(p.identifier@) matches Some(s) && s.1 == mark_type(declaration.procedure_header.type_mark)
                && s.0.len() == p.arg_list.len() && forall|i: int|
                0 <= i < s.0.len() ==> (#[trigger] s.0[i]).0@ == p.arg_list[i].0@ && s.0[i].1 == p.arg_list[i].1,
            r matches Ok(p) ==> match declaration.procedure_header.param_list {
                None => p.arg_list.len() == 0,
                Some(l) => p.arg_list.len() == l.param_list.len() && forall|i: int|
                    0 <= i < p.arg_list.len() ==> (#[trigger] p.arg_list[i]).0@ == l.param_list[i].variable_declaration.identifier@
                        && Some(p.arg_list[i].1) == variable_type(l.param_list[i].variable_declaration),
            },
            r is Ok && scope == Scope::Local ==> forall|n: Seq<char>|
                !same_ident(declaration.procedure_header.identifier@, n) ==> #[trigger] final(context).local().proc_sig(n)
                    == old(context).local().proc_sig(n),
        decreases declaration, 0int,
    {
        let header = &declaration.procedure_header;
        let mut arg_list: Vec<NamedValue> = Vec::new();
        let mut params: Vec<NamedValue> = Vec::new();
        if let Some(list) = &header.param_list {
            let mut i: usize = 0;
            while i < list.param_list.len()
                invariant
                    i <= list.param_list.len(),
                    context.wf(),
                    declaration.procedure_header.param_list is Some,
                    *context == *old(context),
                    arg_list.len() == params.len(),
                    arg_list.len() == i,
                    declaration.procedure_header.param_list == Some(*list),
                    forall|j: int| 0 <= j < i ==> (#[trigger] params[j]).0 == arg_list[j].0 && params[j].1 == arg_list[j].1,
                    forall|j: int| 0 <= j < i ==> (#[trigger] arg_list[j]).0@ == list.param_list[j].variable_declaration.identifier@
                        && Some(arg_list[j].1) == variable_type(list.param_list[j].variable_declaration),
                decreases list.param_list.len() - i,
            {
                let variable = &list.param_list[i].variable_declaration;
                let value_type = declared_type(variable)?;
                arg_list.push(NamedValue(variable.identifier.clone(), value_type));
                params.push(NamedValue(variable.identifier.clone(), value_type));
                i = i + 1;
            }
        }
        let return_type = Type::from_mark(header.type_mark);
        assert(declaration.procedure_header.param_list is None ==> arg_list.len() == 0);
        let ghost n_params = params.len();
        let ghost params_view = params@;
        assert(forall|j: int| 0 <= j < params_view.len() ==> (#[trigger] params_view[j]).0 == arg_list[j].0 && params_view[j].1 == arg_list[j].1);
        context.set_procedure(scope == Scope::Global, header.identifier.clone(), ProcedureSignature(params, return_type))?;
        let ghost g1 = context.global();
        let ghost l1 = context.local();
        proof {
            assert(same_ident(header.identifier@, header.identifier@));
            if scope == Scope::Global {
                assert(g1.proc_sig(header.identifier@) matches Some(s) && s.1 == return_type && s.0@ == params_view);
            } else {
                assert(l1.proc_sig(header.identifier@) matches Some(s) && s.1 == return_type && s.0@ == params_view);
            }
        }
        context.start_stack(return_type);
        let mut i: usize = 0;
        while i < arg_list.len()
            invariant
                context.wf(),
                i <= arg_list.len(),
                declaration.procedure_header.param_list is None ==> arg_list.len() == 0,
                context.saved() == old(context).saved().push(l1),
                context.global().extends(g1),
                context.local().return_type == return_type,
                forall|j: int| 0 <= j < i ==> context.local().var_type(#[trigger] arg_list[j].0@) == Some(arg_list[j].1),
            decreases arg_list.len() - i,
        {
            let ghost g0 = context.global();
            let ghost l0 = context.local();
            context.set_type(false, arg_list[i].0.clone(), arg_list[i].1)?;
            proof {
                lemma_extends_trans(context.global(), g0, g1);
                assert(same_ident(arg_list[i as int].0@, arg_list[i as int].0@));
                assert forall|j: int| 0 <= j < i + 1 implies context.local().var_type(#[trigger] arg_list[j].0@) == Some(
                    arg_list[j].1,
                ) by {
                    if j < i {
                        assert(l0.var_type(arg_list[j].0@) is Some);
                    }
                }
            }
            i = i + 1;
        }
        let body = &declaration.procedure_body;
        let mut procedures: Vec<Box<AnalyzedProcedure>> = Vec::new();
        let mut i: usize = 0;
        while i < body.declarations.len()
            invariant
                context.wf(),
                context.saved() == old(context).saved().push(l1),
                context.global().extends(g1),
                context.local().return_type == return_type,
                forall|j: int| 0 <= j < arg_list.len() ==> context.local().var_type(#[trigger] arg_list[j].0@) == Some(arg_list[j].1),
                body == &declaration.procedure_body,
                (if scope == Scope::Global {
                    old(context).global()
                } else {
                    old(context).local()
                }).proc_sig(declaration.procedure_header.identifier@) is None,
                forall|j: int| 0 <= j < procedures.len() ==> procedure_ok(*#[trigger] procedures[j]),
            decreases body.declarations.len() - i,
        {
            proof {
                assert(decreases_to!(declaration => declaration.procedure_body));
                assert(decreases_to!(declaration.procedure_body => declaration.procedure_body.declarations));
                assert(decreases_to!(body.declarations => body.declarations@));
                assert(decreases_to!(body.declarations@ => body.declarations@[i as int]));
            }
            let ghost g0 = context.global();
            let ghost l0 = context.local();
            if let Some(procedure) = analyze_declaration(&body.declarations[i], context, Scope::Local)? {
                procedures.push(Box::new(procedure));
            }
            proof {
                lemma_extends_trans(context.global(), g0, g1);
                assert forall|j: int| 0 <= j < arg_list.len() implies context.local().var_type(#[trigger] arg_list[j].0@)
                    == Some(arg_list[j].1) by {
                    assert(l0.var_type(arg_list[j].0@) is Some);
                }
            }
            i = i + 1;
        }
        let block = AnalyzedBlock::analyze(&body.statements, context)?;
        let declarations = context.end_stack()?;
        proof {
            assert(old(context).saved().push(l1).last() == l1);
            assert(old(context).saved().push(l1).drop_last() =~= old(context).saved());
            lemma_extends_trans(context.global(), g1, old(context).global());
        }
        Ok(AnalyzedProcedure { identifier: header.identifier.clone(), arg_list, declarations, procedures, block })
    }
}

} // verus!
