//! General properties of the rules, stated over the spec functions that the
//! analysis is proved to follow.
use vstd::prelude::*;
use crate::ast;
use crate::errors::SemanticCheckError;
use crate::ir::{IRRoot, VarDecl0};
use crate::wf::{decls_of, ir_matches, sigs_of};
use crate::rules::{
    body_ctx, declare_var, find_method, method_call_check, methods_check, one, push_scope,
    resolve_var, sig_of, Ctx, ScopeKind,
};

verus! {

/// Shadowing: declaring in an inner scope a name that an outer scope already
/// declares is legal; inside the inner scope the name resolves to the inner
/// declaration, and once the scope is left, to what it resolved to before.
pub proof fn shadowing(c: Ctx, k: ScopeKind, d: VarDecl0)
    requires
        !(d.arr_len matches Some(n) && n <= 0),
    ensures
        declare_var(push_scope(c, k), d) is Ok,
        resolve_var(declare_var(push_scope(c, k), d)->Ok_0.scopes, d.id@) == Some(d),
        resolve_var(declare_var(push_scope(c, k), d)->Ok_0.scopes.drop_last(), d.id@)
            == resolve_var(c.scopes, d.id@),
{
    let inner = declare_var(push_scope(c, k), d)->Ok_0;
    assert(inner.scopes.last().vars =~= seq![d]);
    assert(inner.scopes.last().vars.drop_last() =~= Seq::<VarDecl0>::empty());
    assert(inner.scopes.drop_last() =~= c.scopes);
}

/// Self-recursion: in the context where a method's body is checked, the method's
/// own name resolves, to the method itself.
pub proof fn method_sees_itself(c: Ctx, m: ast::MethodDecl)
    ensures
        find_method(body_ctx(c, m).methods, m.id@) == Some(c.methods.len() as int),
{
    crate::rules::lemma_declare_all_frame(
        push_scope(
            Ctx { scopes: c.scopes, methods: c.methods.push(sig_of(m)) },
            ScopeKind::Method(c.methods.len() as usize, crate::ir::return_type_of(m.return_type)),
        ),
        crate::rules::arg_vars(m.args@),
    );
}

/// Methods are registered in declaration order: the body of the method at
/// position `i` sees the methods before it and itself, and none after it.
pub proof fn methods_seen_in_order(c: Ctx, ms: Seq<ast::MethodDecl>, i: int)
    requires
        0 <= i < ms.len(),
    ensures
        body_ctx(methods_check(c, ms.take(i)).0, ms[i]).methods == c.methods + ms.take(i + 1).map_values(
            |m: ast::MethodDecl| sig_of(m),
        ),
{
    crate::rules::lemma_methods_registered(c, ms.take(i));
    let c1 = methods_check(c, ms.take(i)).0;
    crate::rules::lemma_declare_all_frame(
        push_scope(
            Ctx { scopes: c1.scopes, methods: c1.methods.push(sig_of(ms[i])) },
            ScopeKind::Method(c1.methods.len() as usize, crate::ir::return_type_of(ms[i].return_type)),
        ),
        crate::rules::arg_vars(ms[i].args@),
    );
    assert(c.methods + ms.take(i + 1).map_values(|m: ast::MethodDecl| sig_of(m)) =~= (c.methods
        + ms.take(i).map_values(|m: ast::MethodDecl| sig_of(m))).push(sig_of(ms[i])));
}

/// A call of a name that no registered method has fails as used before declared,
/// whatever its arguments; so does a call of a method declared later.
pub proof fn unregistered_call_fails(c: Ctx, mc: ast::MethodCall0)
    requires
        find_method(c.methods, mc.name.id@) is None,
    ensures
        method_call_check(c, mc) == Err::<crate::ir::Type, Seq<SemanticCheckError>>(
            one(SemanticCheckError::UsedBeforeDeclared(mc.name.id)),
        ),
{
}

} // verus!

verus! {

/// Analysing one tree twice gives IRs of the same shape: both carry the tree's
/// import and field declarations and its method signatures, so they agree on
/// every declaration and signature.
pub proof fn analysis_shape_determined(p: ast::Program, a: IRRoot, b: IRRoot)
    requires
        ir_matches(p, a),
        ir_matches(p, b),
    ensures
        decls_of(a.decls@, a.root.import_decls@) == decls_of(b.decls@, b.root.import_decls@),
        decls_of(a.decls@, a.root.field_decls@) == decls_of(b.decls@, b.root.field_decls@),
        sigs_of(a) == sigs_of(b),
        a.root.method_decls@.len() == b.root.method_decls@.len(),
{
    assert(sigs_of(a).len() == a.root.method_decls@.len());
    assert(sigs_of(b).len() == b.root.method_decls@.len());
}

} // verus!
