//! The rules of the language as spec functions: the scope model that the analysis
//! works against, and for each part of the syntax tree the errors that it gives
//! (or, for an expression, its type).
//!
//! Two error policies are distinguished on purpose. A sibling group (declarations
//! of one group, statements of one block, the two operands of a binary operator)
//! is processed whole and its errors are concatenated. A dependent chain (a
//! call's arguments, the parts of one statement, a header and its body) stops at
//! its first failing part.
use vstd::prelude::*;
use crate::ast;
use crate::ir::{
    accepts_operand, assign_op_of, binary_op_of, binary_result, literal_of, literal_type,
    return_type_of, type_of, value_type, AssignOp, BinaryOp, MethodDecl, ReturnType, Type,
    VarDecl0,
};
use crate::errors::SemanticCheckError;

verus! {

pub type Errs = Seq<SemanticCheckError>;

/// What a scope is for; decides which `return`, `break` and `continue` are legal.
pub enum ScopeKind {
    Global,
    Method(MethodDecl, ReturnType),
    Loop,
    Branch,
}

/// One lexical scope: its kind and the variables declared in it, in order.
pub struct Scope {
    pub kind: ScopeKind,
    pub vars: Seq<VarDecl0>,
}

/// A method's signature as the call sites see it.
pub struct SigM {
    pub name: Seq<char>,
    pub ret: ReturnType,
    pub params: Seq<Type>,
}

/// The analysis context: the scope stack, innermost last, and the flat method
/// namespace in order of registration.
pub struct Ctx {
    pub scopes: Seq<Scope>,
    pub methods: Seq<SigM>,
}

pub open spec fn push_scope(c: Ctx, k: ScopeKind) -> Ctx {
    Ctx { scopes: c.scopes.push(Scope { kind: k, vars: seq![] }), methods: c.methods }
}

/// The declaration of `name` among `vars`, if any.
pub open spec fn find_var(vars: Seq<VarDecl0>, name: Seq<char>) -> Option<VarDecl0>
    decreases vars.len(),
{
    if vars.len() == 0 {
        None
    } else if vars.last().id@ == name {
        Some(vars.last())
    } else {
        find_var(vars.drop_last(), name)
    }
}

/// Resolution of a variable: the innermost scope that declares `name` decides.
pub open spec fn resolve_var(scopes: Seq<Scope>, name: Seq<char>) -> Option<VarDecl0>
    decreases scopes.len(),
{
    if scopes.len() == 0 {
        None
    } else {
        match find_var(scopes.last().vars, name) {
            Some(d) => Some(d),
            None => resolve_var(scopes.drop_last(), name),
        }
    }
}

/// What a name resolves to carries that name.
pub proof fn lemma_resolve_var_name(scopes: Seq<Scope>, name: Seq<char>)
    ensures
        resolve_var(scopes, name) matches Some(d) ==> d.id@ == name,
    decreases scopes.len(),
{
    if scopes.len() > 0 {
        lemma_find_var_name(scopes.last().vars, name);
        lemma_resolve_var_name(scopes.drop_last(), name);
    }
}

pub proof fn lemma_find_var_name(vars: Seq<VarDecl0>, name: Seq<char>)
    ensures
        find_var(vars, name) matches Some(d) ==> d.id@ == name,
    decreases vars.len(),
{
    if vars.len() > 0 {
        lemma_find_var_name(vars.drop_last(), name);
    }
}

/// The index of the method named `name`, the latest registered one if several.
pub open spec fn find_method(methods: Seq<SigM>, name: Seq<char>) -> Option<int>
    decreases methods.len(),
{
    if methods.len() == 0 {
        None
    } else if methods.last().name == name {
        Some(methods.len() - 1)
    } else {
        find_method(methods.drop_last(), name)
    }
}

pub proof fn lemma_find_method_range(methods: Seq<SigM>, name: Seq<char>)
    ensures
        find_method(methods, name) matches Some(k) ==> 0 <= k < methods.len() && methods[k].name
            == name,
    decreases methods.len(),
{
    if methods.len() > 0 {
        lemma_find_method_range(methods.drop_last(), name);
    }
}

/// The nearest enclosing method scope's method and return type.
pub open spec fn enclosing_method(scopes: Seq<Scope>) -> Option<(MethodDecl, ReturnType)>
    decreases scopes.len(),
{
    if scopes.len() == 0 {
        None
    } else {
        match scopes.last().kind {
            ScopeKind::Method(m, rt) => Some((m, rt)),
            _ => enclosing_method(scopes.drop_last()),
        }
    }
}

/// Whether some enclosing scope is a loop.
pub open spec fn in_loop(scopes: Seq<Scope>) -> bool
    decreases scopes.len(),
{
    if scopes.len() == 0 {
        false
    } else {
        scopes.last().kind is Loop || in_loop(scopes.drop_last())
    }
}

/// Declaring `d` in the innermost scope.
pub open spec fn declare_var(c: Ctx, d: VarDecl0) -> Result<Ctx, SemanticCheckError> {
    if d.arr_len is Some && d.arr_len->0 <= 0 {
        Err(SemanticCheckError::ArrayLenShouldPositive(d.id))
    } else if find_var(c.scopes.last().vars, d.id@) is Some {
        Err(SemanticCheckError::DuplicatedVar(d.id))
    } else {
        Ok(
            Ctx {
                scopes: c.scopes.update(
                    c.scopes.len() - 1,
                    Scope { kind: c.scopes.last().kind, vars: c.scopes.last().vars.push(d) },
                ),
                methods: c.methods,
            },
        )
    }
}

/// Declaring a sibling group in order: every one is tried, the errors are collected.
pub open spec fn declare_all(c: Ctx, ds: Seq<VarDecl0>) -> (Ctx, Errs)
    decreases ds.len(),
{
    if ds.len() == 0 {
        (c, seq![])
    } else {
        let (c1, e1) = declare_all(c, ds.drop_last());
        match declare_var(c1, ds.last()) {
            Ok(c2) => (c2, e1),
            Err(x) => (c1, e1.push(x)),
        }
    }
}

pub open spec fn group_vars(fd: ast::FieldDecl) -> Seq<VarDecl0> {
    fd.field_ids@.map_values(
        |f: ast::FieldDeclId| VarDecl0 { type_: type_of(fd.type_), id: f.id, arr_len: f.arr_len },
    )
}

/// The declarations of field groups, flattened in order.
pub open spec fn field_vars(fds: Seq<ast::FieldDecl>) -> Seq<VarDecl0>
    decreases fds.len(),
{
    if fds.len() == 0 {
        seq![]
    } else {
        field_vars(fds.drop_last()) + group_vars(fds.last())
    }
}

/// Imports are int-typed scalars.
pub open spec fn import_vars(is: Seq<ast::ImportDecl>) -> Seq<VarDecl0> {
    is.map_values(|i: ast::ImportDecl| VarDecl0 { type_: Type::Int, id: i.id, arr_len: None })
}

pub open spec fn arg_vars(args: Seq<ast::MethodArg>) -> Seq<VarDecl0> {
    args.map_values(
        |a: ast::MethodArg| VarDecl0 { type_: type_of(a.type_), id: a.id, arr_len: None },
    )
}

pub open spec fn sig_of(m: ast::MethodDecl) -> SigM {
    SigM {
        name: m.id@,
        ret: return_type_of(m.return_type),
        params: m.args@.map_values(|a: ast::MethodArg| type_of(a.type_)),
    }
}

pub open spec fn one(e: SemanticCheckError) -> Errs {
    seq![e]
}

/// Declaring a group keeps the scope stack's shape: only the innermost scope's
/// variables grow.
pub proof fn lemma_declare_all_frame(c: Ctx, ds: Seq<VarDecl0>)
    requires
        c.scopes.len() > 0,
    ensures
        declare_all(c, ds).0.scopes.len() == c.scopes.len(),
        declare_all(c, ds).0.scopes.drop_last() == c.scopes.drop_last(),
        declare_all(c, ds).0.scopes.last().kind == c.scopes.last().kind,
        declare_all(c, ds).0.methods == c.methods,
    decreases ds.len(),
{
    if ds.len() > 0 {
        lemma_declare_all_frame(c, ds.drop_last());
        let c1 = declare_all(c, ds.drop_last()).0;
        match declare_var(c1, ds.last()) {
            Ok(c2) => {
                assert(c2.scopes.drop_last() =~= c1.scopes.drop_last());
            },
            Err(_) => {},
        }
    }
}

pub proof fn lemma_declare_all_enclosing(c: Ctx, ds: Seq<VarDecl0>)
    requires
        c.scopes.len() > 0,
    ensures
        enclosing_method(declare_all(c, ds).0.scopes) == enclosing_method(c.scopes),
{
    lemma_declare_all_frame(c, ds);
}

/// A branch or loop scope does not change the enclosing method.
pub proof fn lemma_push_enclosing(c: Ctx, k: ScopeKind)
    requires
        !(k is Method),
    ensures
        enclosing_method(push_scope(c, k).scopes) == enclosing_method(c.scopes),
{
    assert(push_scope(c, k).scopes.drop_last() =~= c.scopes);
}

/// Entering a scope, declaring a group in it and leaving it again leaves the
/// context as it was.
pub proof fn lemma_scope_restored(c: Ctx, k: ScopeKind, ds: Seq<VarDecl0>)
    ensures
        (Ctx {
            scopes: declare_all(push_scope(c, k), ds).0.scopes.drop_last(),
            methods: declare_all(push_scope(c, k), ds).0.methods,
        }) == c,
{
    lemma_declare_all_frame(push_scope(c, k), ds);
    assert(push_scope(c, k).scopes.drop_last() =~= c.scopes);
}

/// A location resolves to its declaration; an array needs an int index, a scalar none.
pub open spec fn loc_check(c: Ctx, l: ast::Location) -> Result<VarDecl0, Errs>
    decreases l,
{
    match l {
        ast::Location::Id(id) => match resolve_var(c.scopes, id@) {
            None => Err(one(SemanticCheckError::UsedBeforeDeclared(id))),
            Some(d) => if d.arr_len is Some {
                Err(one(SemanticCheckError::LocationTypeMismatch))
            } else {
                Ok(d)
            },
        },
        ast::Location::IdExpr(ie) => match resolve_var(c.scopes, ie.id@) {
            None => Err(one(SemanticCheckError::UsedBeforeDeclared(ie.id))),
            Some(d) => match expr_check(c, *ie.expr) {
                Err(x) => Err(x),
                Ok(t) => if t != Type::Int {
                    Err(one(SemanticCheckError::TypeOfExprMustInt(ie.id)))
                } else if d.arr_len is None {
                    Err(one(SemanticCheckError::LocationTypeMismatch))
                } else {
                    Ok(d)
                },
            },
        },
    }
}

/// Both operands are checked; then they must agree and suit the operator.
pub open spec fn binary_check(
    op: BinaryOp,
    l: Result<Type, Errs>,
    r: Result<Type, Errs>,
) -> Result<Type, Errs> {
    match (l, r) {
        (Err(x), Err(y)) => Err(x + y),
        (Err(x), Ok(_)) => Err(x),
        (Ok(_), Err(y)) => Err(y),
        (Ok(lt), Ok(rt)) => if lt != rt || !accepts_operand(op, lt) {
            Err(one(SemanticCheckError::OperandsTypeMismatch))
        } else {
            Ok(binary_result(op))
        },
    }
}

pub open spec fn unary_check(op: ast::UnaryOp, e: Result<Type, Errs>) -> Result<Type, Errs> {
    match e {
        Err(x) => Err(x),
        Ok(t) => if (op is NegInt && t == Type::Int) || (op is NegBool && t == Type::Bool) {
            Ok(t)
        } else {
            Err(one(SemanticCheckError::OperandsTypeMismatch))
        },
    }
}

/// The type of an expression, or the errors that it gives.
pub open spec fn expr_check(c: Ctx, e: ast::Expr_) -> Result<Type, Errs>
    decreases e,
{
    match e {
        ast::Expr_::Location(l) => match loc_check(c, l) {
            Ok(d) => Ok(d.type_),
            Err(x) => Err(x),
        },
        ast::Expr_::MethodCall(m) => call_check(c, m),
        ast::Expr_::Literal(l) => Ok(literal_type(literal_of(l))),
        ast::Expr_::LenId(id) => match resolve_var(c.scopes, id@) {
            None => Err(one(SemanticCheckError::UsedBeforeDeclared(id))),
            Some(d) => if d.arr_len is Some {
                Ok(Type::Int)
            } else {
                Err(one(SemanticCheckError::IdMustArray(id)))
            },
        },
        ast::Expr_::Unary(u) => unary_check(u.op, expr_check(c, *u.expr)),
        ast::Expr_::Binary(b) => binary_check(
            binary_op_of(b.op),
            expr_check(c, *b.lhs),
            expr_check(c, *b.rhs),
        ),
    }
}

/// The types of call arguments, checked in order up to the first failure.
pub open spec fn args_check(c: Ctx, s: Seq<ast::Expr>) -> Result<Seq<Type>, Errs>
    decreases s,
{
    if s.len() == 0 {
        Ok(seq![])
    } else {
        match args_check(c, s.drop_last()) {
            Err(x) => Err(x),
            Ok(ts) => match expr_check(c, *s.last()) {
                Err(x) => Err(x),
                Ok(t) => Ok(ts.push(t)),
            },
        }
    }
}

/// Callout arguments: expressions are checked in order up to the first failure.
pub open spec fn import_args_check(c: Ctx, s: Seq<ast::ImportArg>) -> Result<(), Errs>
    decreases s,
{
    if s.len() == 0 {
        Ok(())
    } else {
        match import_args_check(c, s.drop_last()) {
            Err(x) => Err(x),
            Ok(_) => match s.last() {
                ast::ImportArg::Expr(e) => match expr_check(c, *e) {
                    Err(x) => Err(x),
                    Ok(_) => Ok(()),
                },
                ast::ImportArg::StringLiteral(_) => Ok(()),
            },
        }
    }
}

/// Argument types against a signature: first the count, then each type.
pub open spec fn sig_check(sig: SigM, ts: Seq<Type>) -> Result<Type, Errs> {
    if ts.len() != sig.params.len() {
        Err(one(SemanticCheckError::MethodSignatureMismatch))
    } else if exists|i: int| 0 <= i < ts.len() && ts[i] != sig.params[i] {
        Err(one(SemanticCheckError::InvalidMethodArgs))
    } else {
        Ok(value_type(sig.ret))
    }
}

/// A call of a program method: the name must be registered, then the arguments
/// are checked in order, then against the signature.
pub open spec fn method_call_check(c: Ctx, mc: ast::MethodCall0) -> Result<Type, Errs>
    decreases mc,
{
    match find_method(c.methods, mc.name.id@) {
        None => Err(one(SemanticCheckError::UsedBeforeDeclared(mc.name.id))),
        Some(i) => match args_check(c, mc.args@) {
            Err(x) => Err(x),
            Ok(ts) => sig_check(c.methods[i], ts),
        },
    }
}

/// A callout has no signature to check against; its value is an int.
pub open spec fn callout_check(c: Ctx, co: ast::MethodCall1) -> Result<Type, Errs>
    decreases co,
{
    match import_args_check(c, co.args@) {
        Err(x) => Err(x),
        Ok(_) => Ok(Type::Int),
    }
}

/// The type of a call's value.
pub open spec fn call_check(c: Ctx, m: ast::MethodCall) -> Result<Type, Errs>
    decreases m,
{
    match m {
        ast::MethodCall::Method(mc) => method_call_check(c, mc),
        ast::MethodCall::CallOut(co) => callout_check(c, co),
    }
}

/// `target op= value`: plain assignment needs equal types, the compound
/// forms and the increments an int target.
pub open spec fn assign_check(d: VarDecl0, op: AssignOp, t: Type) -> Errs {
    match op {
        AssignOp::Assign => if d.type_ == t {
            seq![]
        } else {
            one(SemanticCheckError::OperandsTypeMismatch)
        },
        AssignOp::CompoundAssignOp(_) => int_target(d),
    }
}

pub open spec fn int_target(d: VarDecl0) -> Errs {
    if d.type_ == Type::Int {
        seq![]
    } else {
        one(SemanticCheckError::OperandsTypeMismatch)
    }
}

pub open spec fn assign_errs(c: Ctx, a: ast::Assign) -> Errs {
    match loc_check(c, a.location) {
        Err(x) => x,
        Ok(d) => match a.assign_expr {
            ast::AssignExpr::AssignOpExpr(ae) => match expr_check(c, *ae.expr) {
                Err(x) => x,
                Ok(t) => assign_check(d, assign_op_of(ae.assign_op), t),
            },
            ast::AssignExpr::Increment(_) => int_target(d),
        },
    }
}

pub open spec fn for_update_errs(c: Ctx, u: ast::ForUpdate) -> Errs {
    match loc_check(c, u.location) {
        Err(x) => x,
        Ok(d) => match u.update_expr {
            ast::ForUpdateExpr::AssignExpr(a) => match expr_check(c, *a.expr) {
                Err(x) => x,
                Ok(_) => int_target(d),
            },
            ast::ForUpdateExpr::Increment(_) => int_target(d),
        },
    }
}

/// A value of type `val` (none for a bare `return`) against the return type `rt`.
pub open spec fn return_fits(val: Option<Type>, rt: ReturnType) -> bool {
    match (val, rt) {
        (Some(t), ReturnType::Type(tt)) => t == tt,
        (None, ReturnType::Void) => true,
        _ => false,
    }
}

pub open spec fn return_errs(c: Ctx, r: ast::Return) -> Errs {
    let val = match r.expr {
        Some(e) => match expr_check(c, *e) {
            Err(x) => Err(x),
            Ok(t) => Ok(Some(t)),
        },
        None => Ok(None),
    };
    match val {
        Err(x) => x,
        Ok(v) => match enclosing_method(c.scopes) {
            None => one(SemanticCheckError::InvalidReturn),
            Some((_, rt)) => if return_fits(v, rt) {
                seq![]
            } else {
                one(SemanticCheckError::ReturnTypeMismatch)
            },
        },
    }
}

pub open spec fn cond_errs(c: Ctx, e: ast::Expr_) -> Errs {
    match expr_check(c, e) {
        Err(x) => x,
        Ok(t) => if t != Type::Bool {
            one(SemanticCheckError::ConditionTypeShouldBool)
        } else {
            seq![]
        },
    }
}

/// The errors of one statement; none when it is legal.
pub open spec fn stmt_errs(c: Ctx, s: ast::Statement) -> Errs
    decreases s,
{
    match s {
        ast::Statement::Assign(a) => assign_errs(c, a),
        ast::Statement::MethodCall(m) => match call_check(c, m) {
            Err(x) => x,
            Ok(_) => seq![],
        },
        ast::Statement::IfElse(ie) => {
            let ce = cond_errs(c, *ie.expr);
            if ce.len() > 0 {
                ce
            } else {
                let e1 = block_errs(push_scope(c, ScopeKind::Branch), ie.if_block);
                if e1.len() > 0 {
                    e1
                } else {
                    match ie.else_block {
                        Some(b) => block_errs(push_scope(c, ScopeKind::Branch), b),
                        None => seq![],
                    }
                }
            }
        },
        ast::Statement::Loop(l) => match resolve_var(c.scopes, l.id@) {
            None => one(SemanticCheckError::UsedBeforeDeclared(l.id)),
            Some(_) => match expr_check(c, *l.init_expr) {
                Err(x) => x,
                Ok(t) => if t != Type::Int {
                    one(SemanticCheckError::OperandsTypeMismatch)
                } else {
                    match expr_check(c, *l.incre_expr) {
                        Err(x) => x,
                        Ok(_) => {
                            let ue = for_update_errs(c, l.update);
                            if ue.len() > 0 {
                                ue
                            } else {
                                block_errs(push_scope(c, ScopeKind::Loop), l.block)
                            }
                        },
                    }
                },
            },
        },
        ast::Statement::While(w) => {
            let ce = cond_errs(c, *w.expr);
            if ce.len() > 0 {
                ce
            } else {
                block_errs(push_scope(c, ScopeKind::Loop), w.block)
            }
        },
        ast::Statement::Return(r) => return_errs(c, r),
        ast::Statement::Break => if in_loop(c.scopes) {
            seq![]
        } else {
            one(SemanticCheckError::InvalidBreak)
        },
        ast::Statement::Continue => if in_loop(c.scopes) {
            seq![]
        } else {
            one(SemanticCheckError::InvalidContinue)
        },
    }
}

/// The statements of one block: each is checked, the errors are concatenated.
pub open spec fn stmts_errs(c: Ctx, s: Seq<ast::Statement>) -> Errs
    decreases s,
{
    if s.len() == 0 {
        seq![]
    } else {
        stmts_errs(c, s.drop_last()) + stmt_errs(c, s.last())
    }
}

/// A block declares its fields in the innermost scope, then runs its statements there.
pub open spec fn block_errs(c: Ctx, b: ast::Block) -> Errs
    decreases b,
{
    let (c2, e1) = declare_all(c, field_vars(b.field_decls@));
    e1 + stmts_errs(c2, b.statements@)
}

/// The context in which the body of `m` is checked: `m` is already registered,
/// so that it may call itself, and its parameters are declared in a new method
/// scope.
pub open spec fn body_ctx(c: Ctx, m: ast::MethodDecl) -> Ctx {
    let c1 = Ctx { scopes: c.scopes, methods: c.methods.push(sig_of(m)) };
    let inner = push_scope(
        c1,
        ScopeKind::Method(c.methods.len() as MethodDecl, return_type_of(m.return_type)),
    );
    declare_all(inner, arg_vars(m.args@)).0
}

/// A method is registered before its body is checked.
pub open spec fn method_check(c: Ctx, m: ast::MethodDecl) -> (Ctx, Errs) {
    let dup = if find_method(c.methods, m.id@) is Some {
        one(SemanticCheckError::DuplicatedMethod(m.id))
    } else {
        seq![]
    };
    let c1 = Ctx { scopes: c.scopes, methods: c.methods.push(sig_of(m)) };
    let inner = push_scope(
        c1,
        ScopeKind::Method(c.methods.len() as MethodDecl, return_type_of(m.return_type)),
    );
    let e2 = declare_all(inner, arg_vars(m.args@)).1;
    (c1, dup + e2 + block_errs(body_ctx(c, m), m.block))
}

pub open spec fn methods_check(c: Ctx, ms: Seq<ast::MethodDecl>) -> (Ctx, Errs)
    decreases ms.len(),
{
    if ms.len() == 0 {
        (c, seq![])
    } else {
        let (c1, e1) = methods_check(c, ms.drop_last());
        let (c2, e2) = method_check(c1, ms.last());
        (c2, e1 + e2)
    }
}

pub open spec fn main_name() -> Seq<char> {
    seq!['m', 'a', 'i', 'n']
}

/// The methods of `ms` named `main`, in order.
pub open spec fn mains_of(ms: Seq<ast::MethodDecl>) -> Seq<ast::MethodDecl>
    decreases ms.len(),
{
    if ms.len() == 0 {
        seq![]
    } else {
        mains_of(ms.drop_last()) + (if ms.last().id@ == main_name() {
            seq![ms.last()]
        } else {
            seq![]
        })
    }
}

pub open spec fn mains(p: ast::Program) -> Seq<ast::MethodDecl> {
    mains_of(p.method_decls@)
}

/// The whole-program preconditions on `main`. The parameter and return checks
/// are made, and collected together, when there is exactly one `main`.
pub open spec fn main_errs(p: ast::Program) -> Errs {
    let ms = mains(p);
    if ms.len() != 1 {
        one(SemanticCheckError::MainMethodShouldOnlyOne)
    } else {
        (if ms[0].args@.len() != 0 {
            one(SemanticCheckError::MainMethodArgsShouldEmpty)
        } else {
            seq![]
        }) + (if ms[0].return_type != ast::ReturnType::Void {
            one(SemanticCheckError::MainMethodShouldReturnVoid)
        } else {
            seq![]
        })
    }
}

pub open spec fn global_ctx() -> Ctx {
    Ctx { scopes: seq![Scope { kind: ScopeKind::Global, vars: seq![] }], methods: seq![] }
}

/// The errors of IR construction: imports, then fields, then methods, each group
/// checked whole.
pub open spec fn construct_errs(p: ast::Program) -> Errs {
    let (c1, e1) = declare_all(global_ctx(), import_vars(p.import_decls@));
    let (c2, e2) = declare_all(c1, field_vars(p.field_decls@));
    let (_, e3) = methods_check(c2, p.method_decls@);
    e1 + e2 + e3
}

/// All errors of a program: the preconditions gate everything else.
pub open spec fn program_errs(p: ast::Program) -> Errs {
    let pre = main_errs(p);
    if pre.len() > 0 {
        pre
    } else {
        construct_errs(p)
    }
}

/// After a group of methods, the namespace holds their signatures in order.
pub proof fn lemma_methods_registered(c: Ctx, ms: Seq<ast::MethodDecl>)
    ensures
        methods_check(c, ms).0.methods == c.methods + ms.map_values(
            |m: ast::MethodDecl| sig_of(m),
        ),
    decreases ms.len(),
{
    if ms.len() == 0 {
        assert(c.methods + ms.map_values(|m: ast::MethodDecl| sig_of(m)) =~= c.methods);
    } else {
        lemma_methods_registered(c, ms.drop_last());
        assert(c.methods + ms.map_values(|m: ast::MethodDecl| sig_of(m)) =~= (c.methods
            + ms.drop_last().map_values(|m: ast::MethodDecl| sig_of(m))).push(sig_of(ms.last())));
    }
}

} // verus!
