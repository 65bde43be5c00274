//! Scopes: the global scope, the current local scope, and the saved local
//! scopes of the procedures that enclose the current one.
use vstd::prelude::*;

use crate::semantics::value::{NamedSignature, NamedValue, ProcedureSignature, Type};
use crate::semantics::SemanticsError;
use crate::text::chars_of;

verus! {

#[derive(Debug, Clone, Copy, PartialEq, Eq, Structural)]
pub enum Scope {
    Global,
    Local,
}

/// A character's code with ASCII upper-case letters taken to lower case.
pub open spec fn fold_code(c: char) -> u32 {
    if 'A' <= c <= 'Z' {
        (c as u32 + 32) as u32
    } else {
        c as u32
    }
}

/// Two identifiers are the same name: identifiers ignore case.
pub open spec fn same_ident(a: Seq<char>, b: Seq<char>) -> bool {
    a.len() == b.len() && forall|i: int| 0 <= i < a.len() ==> #[trigger] fold_code(a[i]) == fold_code(b[i])
}

/// The type of the first variable named `name`.
pub open spec fn find_var(vars: Seq<NamedValue>, name: Seq<char>) -> Option<Type>
    decreases vars.len(),
{
    if vars.len() == 0 {
        None
    } else if same_ident(vars[0].0@, name) {
        Some(vars[0].1)
    } else {
        find_var(vars.drop_first(), name)
    }
}

/// The signature of the first procedure named `name`.
pub open spec fn find_proc(procs: Seq<NamedSignature>, name: Seq<char>) -> Option<ProcedureSignature>
    decreases procs.len(),
{
    if procs.len() == 0 {
        None
    } else if same_ident(procs[0].0@, name) {
        Some(procs[0].1)
    } else {
        find_proc(procs.drop_first(), name)
    }
}

pub open spec fn distinct_vars(vars: Seq<NamedValue>) -> bool {
    forall|i: int, j: int| 0 <= i < j < vars.len() ==> !same_ident(#[trigger] vars[i].0@, #[trigger] vars[j].0@)
}

pub open spec fn distinct_procs(procs: Seq<NamedSignature>) -> bool {
    forall|i: int, j: int| 0 <= i < j < procs.len() ==> !same_ident(#[trigger] procs[i].0@, #[trigger] procs[j].0@)
}

proof fn lemma_find_var_none(vars: Seq<NamedValue>, name: Seq<char>)
    requires
        find_var(vars, name) is None,
    ensures
        forall|i: int| 0 <= i < vars.len() ==> !same_ident(#[trigger] vars[i].0@, name),
    decreases vars.len(),
{
    if vars.len() > 0 {
        lemma_find_var_none(vars.drop_first(), name);
        assert forall|i: int| 0 <= i < vars.len() implies !same_ident(#[trigger] vars[i].0@, name) by {
            if i > 0 {
                assert(vars[i] == vars.drop_first()[i - 1]);
            }
        }
    }
}

proof fn lemma_find_proc_none(procs: Seq<NamedSignature>, name: Seq<char>)
    requires
        find_proc(procs, name) is None,
    ensures
        forall|i: int| 0 <= i < procs.len() ==> !same_ident(#[trigger] procs[i].0@, name),
    decreases procs.len(),
{
    if procs.len() > 0 {
        lemma_find_proc_none(procs.drop_first(), name);
        assert forall|i: int| 0 <= i < procs.len() implies !same_ident(#[trigger] procs[i].0@, name) by {
            if i > 0 {
                assert(procs[i] == procs.drop_first()[i - 1]);
            }
        }
    }
}

proof fn lemma_find_var_push(vars: Seq<NamedValue>, v: NamedValue, name: Seq<char>)
    ensures
        find_var(vars.push(v), name) == match find_var(vars, name) {
            Some(t) => Some(t),
            None => if same_ident(v.0@, name) {
                Some(v.1)
            } else {
                None
            },
        },
    decreases vars.len(),
{
    assert(vars.push(v)[0] == if vars.len() > 0 {
        vars[0]
    } else {
        v
    });
    if vars.len() == 0 {
        assert(vars.push(v).drop_first() =~= vars);
    } else {
        assert(vars.push(v).drop_first() =~= vars.drop_first().push(v));
        lemma_find_var_push(vars.drop_first(), v, name);
    }
}

proof fn lemma_find_proc_push(procs: Seq<NamedSignature>, p: NamedSignature, name: Seq<char>)
    ensures
        find_proc(procs.push(p), name) == match find_proc(procs, name) {
            Some(s) => Some(s),
            None => if same_ident(p.0@, name) {
                Some(p.1)
            } else {
                None
            },
        },
    decreases procs.len(),
{
    assert(procs.push(p)[0] == if procs.len() > 0 {
        procs[0]
    } else {
        p
    });
    if procs.len() == 0 {
        assert(procs.push(p).drop_first() =~= procs);
    } else {
        assert(procs.push(p).drop_first() =~= procs.drop_first().push(p));
        lemma_find_proc_push(procs.drop_first(), p, name);
    }
}

/// The two identifiers are the same name, ignoring case.
pub fn same_name(a: &str, b: &str) -> (r: bool)
    ensures
        r == same_ident(a@, b@),
{
    let x = chars_of(a);
    let y = chars_of(b);
    if x.len() != y.len() {
        return false;
    }
    let mut i: usize = 0;
    while i < x.len()
        invariant
            x.len() == y.len(),
            x@ == a@,
            y@ == b@,
            i <= x.len(),
            forall|j: int| 0 <= j < i ==> #[trigger] fold_code(x@[j]) == fold_code(y@[j]),
        decreases x.len() - i,
    {
        let c = x[i];
        let d = y[i];
        let cc: u32 = if 'A' <= c && c <= 'Z' {
            c as u32 + 32
        } else {
            c as u32
        };
        let dc: u32 = if 'A' <= d && d <= 'Z' {
            d as u32 + 32
        } else {
            d as u32
        };
        if cc != dc {
            assert(fold_code(x@[i as int]) != fold_code(y@[i as int]));
            return false;
        }
        i = i + 1;
    }
    true
}

/// The declarations of one scope.
#[derive(Debug, Clone)]
pub struct ScopeContext {
    pub variables: Vec<NamedValue>,
    pub procedures: Vec<NamedSignature>,
    pub return_type: Type,
}

impl ScopeContext {
    /// No two variables, and no two procedures, share a name.
    pub open spec fn wf(&self) -> bool {
        distinct_vars(self.variables@) && distinct_procs(self.procedures@)
    }

    /// Every name that `earlier` declares is declared here the same way.
    pub open spec fn extends(&self, earlier: ScopeContext) -> bool {
        &&& forall|n: Seq<char>| #[trigger] earlier.var_type(n) is Some ==> self.var_type(n) == earlier.var_type(n)
        &&& forall|n: Seq<char>| #[trigger] earlier.proc_sig(n) is Some ==> self.proc_sig(n) == earlier.proc_sig(n)
    }

    pub open spec fn var_type(&self, name: Seq<char>) -> Option<Type> {
        find_var(self.variables@, name)
    }

    pub open spec fn proc_sig(&self, name: Seq<char>) -> Option<ProcedureSignature> {
        find_proc(self.procedures@, name)
    }

    /// The built-in input and output procedures are declared, with their
    /// parameter and return types.
    pub open spec fn has_builtins(&self) -> bool {
        &&& self.proc_sig("getbool"@) matches Some(s) && s.0@.len() == 0 && s.1 == Type::Bool
        &&& self.proc_sig("getinteger"@) matches Some(s) && s.0@.len() == 0 && s.1 == Type::Int
        &&& self.proc_sig("getfloat"@) matches Some(s) && s.0@.len() == 0 && s.1 == Type::Float
        &&& self.proc_sig("getstring"@) matches Some(s) && s.0@.len() == 0 && s.1 == Type::String
        &&& self.proc_sig("putbool"@) matches Some(s) && s.0@.len() == 1 && s.0@[0].0@ == "value"@ && s.0@[0].1 == Type::Bool && s.1 == Type::Bool
        &&& self.proc_sig("putinteger"@) matches Some(s) && s.0@.len() == 1 && s.0@[0].0@ == "value"@ && s.0@[0].1 == Type::Int && s.1 == Type::Bool
        &&& self.proc_sig("putfloat"@) matches Some(s) && s.0@.len() == 1 && s.0@[0].0@ == "value"@ && s.0@[0].1 == Type::Float && s.1 == Type::Bool
        &&& self.proc_sig("putstring"@) matches Some(s) && s.0@.len() == 1 && s.0@[0].0@ == "value"@ && s.0@[0].1 == Type::String && s.1 == Type::Bool
        &&& self.proc_sig("sqrt"@) matches Some(s) && s.0@.len() == 1 && s.0@[0].0@ == "value"@ && s.0@[0].1 == Type::Int && s.1 == Type::Float
    }

    /// An empty scope whose `return` statements must give `return_type`.
    pub fn new(return_type: Type) -> (r: Self)
        ensures
            r.wf(),
            r.variables@.len() == 0,
            r.procedures@.len() == 0,
            r.return_type == return_type,
    {
        ScopeContext { variables: Vec::new(), procedures: Vec::new(), return_type }
    }

    /// The global scope at the start of analysis: no variables, and the
    /// built-in input and output procedures.
    pub fn new_global_ctx() -> (r: Self)
        ensures
            r.wf(),
            r.variables@.len() == 0,
            r.return_type == Type::Void,
            r.has_builtins(),
            r.procedures@.len() == 9,
    {
        proof {
            reveal_strlit("getbool");
            reveal_strlit("getinteger");
            reveal_strlit("getfloat");
            reveal_strlit("getstring");
            reveal_strlit("putbool");
            reveal_strlit("putinteger");
            reveal_strlit("putfloat");
            reveal_strlit("putstring");
            reveal_strlit("sqrt");
            assert(fold_code("getbool"@[0]) != fold_code("putbool"@[0]));
            assert(fold_code("getinteger"@[0]) != fold_code("putinteger"@[0]));
            assert(fold_code("getfloat"@[0]) != fold_code("putfloat"@[0]));
            assert(fold_code("getstring"@[0]) != fold_code("putstring"@[0]));
        }
        let mut scope = ScopeContext::new(Type::Void);
        let _ = scope.add_procedure("getbool".to_owned(), ProcedureSignature(Vec::new(), Type::Bool));
        let _ = scope.add_procedure("getinteger".to_owned(), ProcedureSignature(Vec::new(), Type::Int));
        let _ = scope.add_procedure("getfloat".to_owned(), ProcedureSignature(Vec::new(), Type::Float));
        let _ = scope.add_procedure("getstring".to_owned(), ProcedureSignature(Vec::new(), Type::String));
        let _ = scope.add_procedure("putbool".to_owned(), ProcedureSignature(vec![NamedValue("value".to_owned(), Type::Bool)], Type::Bool));
        let _ = scope.add_procedure("putinteger".to_owned(), ProcedureSignature(vec![NamedValue("value".to_owned(), Type::Int)], Type::Bool));
        let _ = scope.add_procedure("putfloat".to_owned(), ProcedureSignature(vec![NamedValue("value".to_owned(), Type::Float)], Type::Bool));
        let _ = scope.add_procedure("putstring".to_owned(), ProcedureSignature(vec![NamedValue("value".to_owned(), Type::String)], Type::Bool));
        let _ = scope.add_procedure("sqrt".to_owned(), ProcedureSignature(vec![NamedValue("value".to_owned(), Type::Int)], Type::Float));
        scope
    }

    /// The variable of the given name, if this scope declares one.
    pub fn lookup_variable(&self, identifier: &str) -> (r: Option<&Type>)
        ensures
            match self.var_type(identifier@) {
                Some(t) => r is Some && *r->Some_0 == t,
                None => r is None,
            },
    {
        let mut i: usize = 0;
        assert(self.variables@.skip(0) =~= self.variables@);
        while i < self.variables.len()
            invariant
                i <= self.variables@.len(),
                find_var(self.variables@, identifier@) == find_var(self.variables@.skip(i as int), identifier@),
            decreases self.variables.len() - i,
        {
            assert(self.variables@.skip(i as int).drop_first() =~= self.variables@.skip(i + 1));
            if same_name(self.variables[i].0.as_str(), identifier) {
                return Some(&self.variables[i].1);
            }
            i = i + 1;
        }
        None
    }

    /// The procedure of the given name, if this scope declares one.
    pub fn lookup_procedure(&self, identifier: &str) -> (r: Option<&ProcedureSignature>)
        ensures
            match self.proc_sig(identifier@) {
                Some(s) => r is Some && *r->Some_0 == s,
                None => r is None,
            },
    {
        let mut i: usize = 0;
        assert(self.procedures@.skip(0) =~= self.procedures@);
        while i < self.procedures.len()
            invariant
                i <= self.procedures@.len(),
                find_proc(self.procedures@, identifier@) == find_proc(self.procedures@.skip(i as int), identifier@),
            decreases self.procedures.len() - i,
        {
            assert(self.procedures@.skip(i as int).drop_first() =~= self.procedures@.skip(i + 1));
            if same_name(self.procedures[i].0.as_str(), identifier) {
                return Some(&self.procedures[i].1);
            }
            i = i + 1;
        }
        None
    }

    /// Declares a variable unless the name is taken.
    pub fn add_variable(&mut self, identifier: String, value_type: Type) -> (r: Result<(), SemanticsError>)
        requires
            old(self).wf(),
        ensures
            final(self).wf(),
            final(self).procedures == old(self).procedures,
            final(self).return_type == old(self).return_type,
            old(self).var_type(identifier@) is Some ==> r == Err::<(), SemanticsError>(SemanticsError::Redeclared(identifier))
                && final(self).variables == old(self).variables,
            old(self).var_type(identifier@) is None ==> r is Ok && forall|n: Seq<char>| #[trigger] final(self).var_type(n)
                == if same_ident(identifier@, n) {
                Some(value_type)
            } else {
                old(self).var_type(n)
            },
            final(self).extends(*old(self)),
    {
        if self.lookup_variable(identifier.as_str()).is_some() {
            return Err(SemanticsError::Redeclared(identifier));
        }
        proof {
            lemma_find_var_none(self.variables@, identifier@);
        }
        let ghost before = self.variables@;
        let ghost entry = NamedValue(identifier, value_type);
        self.variables.push(NamedValue(identifier, value_type));
        proof {
            assert forall|n: Seq<char>| #[trigger] find_var(self.variables@, n) == if same_ident(identifier@, n) {
                Some(value_type)
            } else {
                find_var(before, n)
            } by {
                lemma_find_var_push(before, entry, n);
                if same_ident(identifier@, n) && find_var(before, n) is Some {
                    lemma_find_var_none(before, identifier@);
                    lemma_same_ident_find_var(before, identifier@, n);
                }
            }
            assert forall|n: Seq<char>| #[trigger] find_var(before, n) is Some implies find_var(self.variables@, n)
                == find_var(before, n) by {
                if same_ident(identifier@, n) {
                    lemma_same_ident_find_var(before, identifier@, n);
                }
            }
        }
        Ok(())
    }

    /// Declares a procedure unless the name is taken.
    pub fn add_procedure(&mut self, identifier: String, signature: ProcedureSignature) -> (r: Result<(), SemanticsError>)
        requires
            old(self).wf(),
        ensures
            final(self).wf(),
            final(self).variables == old(self).variables,
            final(self).return_type == old(self).return_type,
            old(self).proc_sig(identifier@) is Some ==> r == Err::<(), SemanticsError>(SemanticsError::Redeclared(identifier))
                && final(self).procedures == old(self).procedures,
            old(self).proc_sig(identifier@) is None ==> final(self).procedures@.len() == old(self).procedures@.len() + 1,
            old(self).proc_sig(identifier@) is None ==> r is Ok && forall|n: Seq<char>| #[trigger] final(self).proc_sig(n)
                == if same_ident(identifier@, n) {
                Some(signature)
            } else {
                old(self).proc_sig(n)
            },
            final(self).extends(*old(self)),
    {
        if self.lookup_procedure(identifier.as_str()).is_some() {
            return Err(SemanticsError::Redeclared(identifier));
        }
        proof {
            lemma_find_proc_none(self.procedures@, identifier@);
        }
        let ghost before = self.procedures@;
        let ghost entry = NamedSignature(identifier, signature);
        self.procedures.push(NamedSignature(identifier, signature));
        proof {
            assert forall|n: Seq<char>| #[trigger] find_proc(self.procedures@, n) == if same_ident(identifier@, n) {
                Some(signature)
            } else {
                find_proc(before, n)
            } by {
                lemma_find_proc_push(before, entry, n);
                if same_ident(identifier@, n) && find_proc(before, n) is Some {
                    lemma_find_proc_none(before, identifier@);
                    lemma_same_ident_find_proc(before, identifier@, n);
                }
            }
            assert forall|n: Seq<char>| #[trigger] find_proc(before, n) is Some implies find_proc(self.procedures@, n)
                == find_proc(before, n) by {
                if same_ident(identifier@, n) {
                    lemma_same_ident_find_proc(before, identifier@, n);
                }
            }
        }
        Ok(())
    }
}

/// In a well-formed scope no two variables, and no two procedures, are
/// declared under the same identifier.
pub proof fn lemma_scope_names_distinct(s: ScopeContext, i: int, j: int)
    requires
        s.wf(),
        i != j,
    ensures
        0 <= i < s.variables@.len() && 0 <= j < s.variables@.len() ==> !same_ident(
            s.variables@[i].0@,
            s.variables@[j].0@,
        ),
        0 <= i < s.procedures@.len() && 0 <= j < s.procedures@.len() ==> !same_ident(
            s.procedures@[i].0@,
            s.procedures@[j].0@,
        ),
{
    if 0 <= i < s.variables@.len() && 0 <= j < s.variables@.len() && j < i {
        let a = s.variables@[j].0@;
        let b = s.variables@[i].0@;
        assert(!same_ident(a, b));
        if same_ident(b, a) {
            assert forall|k: int| 0 <= k < a.len() implies #[trigger] fold_code(a[k]) == fold_code(b[k]) by {
                assert(fold_code(b[k]) == fold_code(a[k]));
            }
        }
    }
    if 0 <= i < s.procedures@.len() && 0 <= j < s.procedures@.len() && j < i {
        let a = s.procedures@[j].0@;
        let b = s.procedures@[i].0@;
        assert(!same_ident(a, b));
        if same_ident(b, a) {
            assert forall|k: int| 0 <= k < a.len() implies #[trigger] fold_code(a[k]) == fold_code(b[k]) by {
                assert(fold_code(b[k]) == fold_code(a[k]));
            }
        }
    }
}

/// Declarations only add names, so the built-in procedures stay declared.
pub proof fn lemma_builtins_kept(later: ScopeContext, earlier: ScopeContext)
    requires
        later.extends(earlier),
        earlier.has_builtins(),
    ensures
        later.has_builtins(),
{
    assert(earlier.proc_sig("getbool"@) is Some);
    assert(earlier.proc_sig("getinteger"@) is Some);
    assert(earlier.proc_sig("getfloat"@) is Some);
    assert(earlier.proc_sig("getstring"@) is Some);
    assert(earlier.proc_sig("putbool"@) is Some);
    assert(earlier.proc_sig("putinteger"@) is Some);
    assert(earlier.proc_sig("putfloat"@) is Some);
    assert(earlier.proc_sig("putstring"@) is Some);
    assert(earlier.proc_sig("sqrt"@) is Some);
}

/// A scope that extends one that extends a third extends the third.
pub proof fn lemma_extends_trans(a: ScopeContext, b: ScopeContext, c: ScopeContext)
    requires
        a.extends(b),
        b.extends(c),
    ensures
        a.extends(c),
{
    assert forall|n: Seq<char>| #[trigger] c.var_type(n) is Some implies a.var_type(n) == c.var_type(n) by {
        assert(b.var_type(n) == c.var_type(n));
    }
    assert forall|n: Seq<char>| #[trigger] c.proc_sig(n) is Some implies a.proc_sig(n) == c.proc_sig(n) by {
        assert(b.proc_sig(n) == c.proc_sig(n));
    }
}

/// Names that are the same identifier find the same variable.
pub proof fn lemma_same_ident_find_var(vars: Seq<NamedValue>, a: Seq<char>, b: Seq<char>)
    requires
        same_ident(a, b),
    ensures
        find_var(vars, a) == find_var(vars, b),
    decreases vars.len(),
{
    if vars.len() > 0 {
        lemma_same_ident_find_var(vars.drop_first(), a, b);
        let k = vars[0].0@;
        if same_ident(k, a) {
            assert(same_ident(k, b));
        } else if same_ident(k, b) {
            assert forall|i: int| 0 <= i < k.len() implies #[trigger] fold_code(k[i]) == fold_code(a[i]) by {
                assert(fold_code(b[i]) == fold_code(a[i]));
            }
        }
    }
}

/// Names that are the same identifier find the same procedure.
proof fn lemma_same_ident_find_proc(procs: Seq<NamedSignature>, a: Seq<char>, b: Seq<char>)
    requires
        same_ident(a, b),
    ensures
        find_proc(procs, a) == find_proc(procs, b),
    decreases procs.len(),
{
    if procs.len() > 0 {
        lemma_same_ident_find_proc(procs.drop_first(), a, b);
        let k = procs[0].0@;
        if same_ident(k, a) {
            assert(same_ident(k, b));
        } else if same_ident(k, b) {
            assert forall|i: int| 0 <= i < k.len() implies #[trigger] fold_code(k[i]) == fold_code(a[i]) by {
                assert(fold_code(b[i]) == fold_code(a[i]));
            }
        }
    }
}

} // verus!

verus! {

/// The scopes visible during analysis: the global scope and the current local
/// scope. The local scopes of enclosing procedures are saved on a stack and
/// are not visible.
#[derive(Debug)]
pub struct Context {
    global_scope: ScopeContext,
    scope_stack: Vec<ScopeContext>,
    local_scope: ScopeContext,
}

impl Context {
    pub closed spec fn global(&self) -> ScopeContext {
        self.global_scope
    }

    pub closed spec fn local(&self) -> ScopeContext {
        self.local_scope
    }

    /// The saved local scopes, the most recently saved last.
    pub closed spec fn saved(&self) -> Seq<ScopeContext> {
        self.scope_stack@
    }

    /// Every scope, visible or saved, has distinct names.
    pub open spec fn wf(&self) -> bool {
        &&& self.global().wf()
        &&& self.local().wf()
        &&& forall|i: int| 0 <= i < self.saved().len() ==> (#[trigger] self.saved()[i]).wf()
    }

    /// The type of a variable as name resolution finds it: local first.
    pub open spec fn resolve_var(&self, name: Seq<char>) -> Option<Type> {
        match self.local().var_type(name) {
            Some(t) => Some(t),
            None => self.global().var_type(name),
        }
    }

    /// The signature of a procedure as name resolution finds it: local first.
    pub open spec fn resolve_proc(&self, name: Seq<char>) -> Option<ProcedureSignature> {
        match self.local().proc_sig(name) {
            Some(s) => Some(s),
            None => self.global().proc_sig(name),
        }
    }

    pub fn new() -> (r: Self)
        ensures
            r.wf(),
            r.global().variables@.len() == 0,
            r.global().return_type == Type::Void,
            r.global().has_builtins(),
            r.saved().len() == 0,
            r.local().variables@.len() == 0,
            r.local().procedures@.len() == 0,
            r.local().return_type == Type::Void,
    {
        Context {
            global_scope: ScopeContext::new_global_ctx(),
            scope_stack: Vec::new(),
            local_scope: ScopeContext::new(Type::Void),
        }
    }

    pub fn into_global(self) -> (r: ScopeContext)
        ensures
            r == self.global(),
    {
        self.global_scope
    }

    /// Declares a variable in the global scope or in the local one.
    pub fn set_type(&mut self, is_global: bool, identifier: String, value_type: Type) -> (r: Result<(), SemanticsError>)
        requires
            old(self).wf(),
        ensures
            final(self).wf(),
            final(self).global().extends(old(self).global()),
            final(self).local().extends(old(self).local()),
            final(self).saved() == old(self).saved(),
            is_global ==> final(self).local() == old(self).local(),
            !is_global ==> final(self).global() == old(self).global(),
            is_global ==> final(self).global().procedures == old(self).global().procedures,
            is_global ==> final(self).global().return_type == old(self).global().return_type,
            is_global && old(self).global().var_type(identifier@) is Some ==> r == Err::<(), SemanticsError>(
                SemanticsError::Redeclared(identifier),
            ) && final(self).global() == old(self).global(),
            is_global && old(self).global().var_type(identifier@) is None ==> r is Ok && forall|n: Seq<char>|
                #[trigger] final(self).global().var_type(n) == if same_ident(identifier@, n) {
                Some(value_type)
            } else {
                old(self).global().var_type(n)
            },
            !is_global ==> final(self).local().procedures == old(self).local().procedures,
            !is_global ==> final(self).local().return_type == old(self).local().return_type,
            !is_global && old(self).local().var_type(identifier@) is Some ==> r == Err::<(), SemanticsError>(
                SemanticsError::Redeclared(identifier),
            ) && final(self).local() == old(self).local(),
            !is_global && old(self).local().var_type(identifier@) is None ==> r is Ok && forall|n: Seq<char>|
                #[trigger] final(self).local().var_type(n) == if same_ident(identifier@, n) {
                Some(value_type)
            } else {
                old(self).local().var_type(n)
            },
    {
        let r = if is_global {
            self.global_scope.add_variable(identifier, value_type)
        } else {
            self.local_scope.add_variable(identifier, value_type)
        };
        assert(forall|i: int| 0 <= i < self.saved().len() ==> #[trigger] self.saved()[i] == old(self).saved()[i]);
        r
    }

    /// Declares a procedure in the global scope or in the local one.
    pub fn set_procedure(&mut self, is_global: bool, identifier: String, signature: ProcedureSignature) -> (r: Result<(), SemanticsError>)
        requires
            old(self).wf(),
        ensures
            final(self).wf(),
            final(self).global().extends(old(self).global()),
            final(self).local().extends(old(self).local()),
            final(self).saved() == old(self).saved(),
            is_global ==> final(self).local() == old(self).local(),
            !is_global ==> final(self).global() == old(self).global(),
            is_global ==> final(self).global().variables == old(self).global().variables,
            is_global ==> final(self).global().return_type == old(self).global().return_type,
            is_global && old(self).global().proc_sig(identifier@) is Some ==> r == Err::<(), SemanticsError>(
                SemanticsError::Redeclared(identifier),
            ) && final(self).global() == old(self).global(),
            is_global && old(self).global().proc_sig(identifier@) is None ==> r is Ok && forall|n: Seq<char>|
                #[trigger] final(self).global().proc_sig(n) == if same_ident(identifier@, n) {
                Some(signature)
            } else {
                old(self).global().proc_sig(n)
            },
            !is_global ==> final(self).local().variables == old(self).local().variables,
            !is_global ==> final(self).local().return_type == old(self).local().return_type,
            !is_global && old(self).local().proc_sig(identifier@) is Some ==> r == Err::<(), SemanticsError>(
                SemanticsError::Redeclared(identifier),
            ) && final(self).local() == old(self).local(),
            !is_global && old(self).local().proc_sig(identifier@) is None ==> r is Ok && forall|n: Seq<char>|
                #[trigger] final(self).local().proc_sig(n) == if same_ident(identifier@, n) {
                Some(signature)
            } else {
                old(self).local().proc_sig(n)
            },
    {
        let r = if is_global {
            self.global_scope.add_procedure(identifier, signature)
        } else {
            self.local_scope.add_procedure(identifier, signature)
        };
        assert(forall|i: int| 0 <= i < self.saved().len() ==> #[trigger] self.saved()[i] == old(self).saved()[i]);
        r
    }

    /// The type of a variable, looked up in the local scope, then in the
    /// global one.
    pub fn get_variable_type(&self, identifier: &str) -> (r: Result<&Type, SemanticsError>)
        ensures
            match self.resolve_var(identifier@) {
                Some(t) => r is Ok && *r->Ok_0 == t,
                None => r matches Err(SemanticsError::UndefinedRef(s)) && s@ == identifier@,
            },
    {
        match self.local_scope.lookup_variable(identifier) {
            Some(t) => Ok(t),
            None => match self.global_scope.lookup_variable(identifier) {
                Some(t) => Ok(t),
                None => Err(SemanticsError::UndefinedRef(identifier.to_owned())),
            },
        }
    }

    /// The signature of a procedure, looked up in the local scope, then in
    /// the global one.
    pub fn get_procedure_signature(&self, identifier: &str) -> (r: Result<&ProcedureSignature, SemanticsError>)
        ensures
            match self.resolve_proc(identifier@) {
                Some(s) => r is Ok && *r->Ok_0 == s,
                None => r matches Err(SemanticsError::UndefinedRef(s)) && s@ == identifier@,
            },
    {
        match self.local_scope.lookup_procedure(identifier) {
            Some(s) => Ok(s),
            None => match self.global_scope.lookup_procedure(identifier) {
                Some(s) => Ok(s),
                None => Err(SemanticsError::UndefinedRef(identifier.to_owned())),
            },
        }
    }

    /// The type that `return` statements of the current scope must give.
    pub fn get_return_type(&self) -> (r: &Type)
        ensures
            *r == self.local().return_type,
    {
        &self.local_scope.return_type
    }

    /// Saves the current local scope and opens an empty one for a procedure
    /// body.
    pub fn start_stack(&mut self, return_type: Type)
        requires
            old(self).wf(),
        ensures
            final(self).wf(),
            final(self).global() == old(self).global(),
            final(self).saved() == old(self).saved().push(old(self).local()),
            final(self).local().variables@.len() == 0,
            final(self).local().procedures@.len() == 0,
            final(self).local().return_type == return_type,
    {
        let mut previous = ScopeContext::new(return_type);
        core::mem::swap(&mut self.local_scope, &mut previous);
        self.scope_stack.push(previous);
        assert forall|i: int| 0 <= i < self.saved().len() implies (#[trigger] self.saved()[i]).wf() by {
            if i < old(self).saved().len() {
                assert(self.saved()[i] == old(self).saved()[i]);
            }
        }
    }

    /// Closes the current local scope and returns it; the most recently saved
    /// scope becomes current again.
    pub fn end_stack(&mut self) -> (r: Result<ScopeContext, SemanticsError>)
        requires
            old(self).wf(),
        ensures
            final(self).wf(),
            final(self).global() == old(self).global(),
            old(self).saved().len() == 0 ==> (r matches Err(SemanticsError::OutOfScope)) && final(self).local()
                == old(self).local() && final(self).saved() == old(self).saved(),
            old(self).saved().len() > 0 ==> r == Ok::<ScopeContext, SemanticsError>(old(self).local())
                && final(self).local() == old(self).saved().last() && final(self).saved()
                == old(self).saved().drop_last(),
    {
        match self.scope_stack.pop() {
            Some(scope) => {
                let mut old_scope = scope;
                core::mem::swap(&mut self.local_scope, &mut old_scope);
                assert(old(self).saved()[old(self).saved().len() - 1] == self.local());
                assert forall|i: int| 0 <= i < self.saved().len() implies (#[trigger] self.saved()[i]).wf() by {
                    assert(self.saved()[i] == old(self).saved()[i]);
                }
                Ok(old_scope)
            },
            None => Err(SemanticsError::OutOfScope),
        }
    }
}

} // verus!
