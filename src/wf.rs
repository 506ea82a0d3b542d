//! What a produced IR satisfies.
//!
//! Its invariants: every location names a live declaration and fits its shape,
//! every expression's stored type is the one its variant and operands give, every
//! call matches its method's signature, and every `break`, `continue` and
//! `return` names the node that encloses it.
//!
//! Its correspondence with the syntax tree it was built from: the same
//! declarations and signatures, and statement by statement, expression by
//! expression, the same variants, operators, literals and names.
use vstd::prelude::*;
use crate::ir::{
    assign_op_of, binary_op_of, compound_op_of, increment_of, literal_of, unary_op_of,
    accepts_operand, binary_result, literal_type, value_type, AssignExpr, AssignOp, Block,
    Break, Continue, Expr, Expr0, ExprType, ForUpdate, ForUpdateExpr, IRRoot, ImportArg,
    Location, MethodCall, MethodDecl, MethodDecl0, ReturnType, Statement0, Type, VarDecl,
    VarDecl0,
};
use crate::ast;
use crate::rules::{field_vars, import_vars, return_fits, sig_of};
use crate::rules::SigM;

verus! {

/// The type that an expression's variant and operands give it.
pub open spec fn derived_type(decls: Seq<VarDecl0>, sigs: Seq<SigM>, e: ExprType) -> Type {
    match e {
        ExprType::Location(l) => decls[l.id as int].type_,
        ExprType::MethodCall(m) => match m {
            MethodCall::Method(mc) => value_type(sigs[mc.decl as int].ret),
            MethodCall::Callout(_) => Type::Int,
        },
        ExprType::Literal(l) => literal_type(l),
        ExprType::LenId(_) => Type::Int,
        ExprType::Unary(u) => u.expr.type_,
        ExprType::Binary(b) => binary_result(b.op),
    }
}

pub open spec fn loc_wf(decls: Seq<VarDecl0>, sigs: Seq<SigM>, l: Location) -> bool
    decreases l,
{
    &&& (l.id as int) < decls.len()
    &&& match l.array_len {
        None => decls[l.id as int].arr_len is None,
        Some(i) => decls[l.id as int].arr_len is Some && i.type_ == Type::Int && expr_wf(
            decls,
            sigs,
            *i,
        ),
    }
}

/// Every expression of `s` is well formed.
pub open spec fn exprs_wf(decls: Seq<VarDecl0>, sigs: Seq<SigM>, s: Seq<Expr>) -> bool
    decreases s,
{
    if s.len() == 0 {
        true
    } else {
        exprs_wf(decls, sigs, s.drop_last()) && expr_wf(decls, sigs, *s.last())
    }
}

/// Every expression argument of a callout is well formed.
pub open spec fn import_args_wf(decls: Seq<VarDecl0>, sigs: Seq<SigM>, s: Seq<ImportArg>) -> bool
    decreases s,
{
    if s.len() == 0 {
        true
    } else {
        import_args_wf(decls, sigs, s.drop_last()) && match s.last() {
            ImportArg::Expr(a) => expr_wf(decls, sigs, *a),
            ImportArg::StringLiteral(_) => true,
        }
    }
}

pub open spec fn call_wf(decls: Seq<VarDecl0>, sigs: Seq<SigM>, m: MethodCall) -> bool
    decreases m,
{
    match m {
        MethodCall::Method(mc) => {
            &&& (mc.decl as int) < sigs.len()
            &&& mc.args@.len() == sigs[mc.decl as int].params.len()
            &&& exprs_wf(decls, sigs, mc.args@)
            &&& forall|i: int|
                0 <= i < mc.args@.len() ==> #[trigger] mc.args@[i].type_ == sigs[mc.decl
                    as int].params[i]
        },
        MethodCall::Callout(co) => import_args_wf(decls, sigs, co.args@),
    }
}

/// An expression is well formed over the declaration arena `decls` and the
/// method signatures `sigs`.
pub open spec fn expr_wf(decls: Seq<VarDecl0>, sigs: Seq<SigM>, e: Expr0) -> bool
    decreases e,
{
    &&& e.type_ == derived_type(decls, sigs, e.expr)
    &&& match e.expr {
        ExprType::Location(l) => loc_wf(decls, sigs, l),
        ExprType::MethodCall(m) => call_wf(decls, sigs, m),
        ExprType::Literal(_) => true,
        ExprType::LenId(_) => true,
        ExprType::Unary(u) => {
            &&& expr_wf(decls, sigs, *u.expr)
            &&& (u.op is NegInt ==> u.expr.type_ == Type::Int)
            &&& (u.op is NegBool ==> u.expr.type_ == Type::Bool)
        },
        ExprType::Binary(b) => {
            &&& expr_wf(decls, sigs, *b.lhs)
            &&& expr_wf(decls, sigs, *b.rhs)
            &&& b.lhs.type_ == b.rhs.type_
            &&& accepts_operand(b.op, b.lhs.type_)
        },
    }
}

/// `b` starts with `a`.
pub open spec fn extends<T>(a: Seq<T>, b: Seq<T>) -> bool {
    a.len() <= b.len() && b.subrange(0, a.len() as int) == a
}

pub proof fn lemma_loc_wf_mono(
    d1: Seq<VarDecl0>,
    g1: Seq<SigM>,
    d2: Seq<VarDecl0>,
    g2: Seq<SigM>,
    l: Location,
)
    requires
        extends(d1, d2),
        extends(g1, g2),
        loc_wf(d1, g1, l),
    ensures
        loc_wf(d2, g2, l),
    decreases l,
{
    assert(d2[l.id as int] == d2.subrange(0, d1.len() as int)[l.id as int]);
    if let Some(i) = l.array_len {
        lemma_expr_wf_mono(d1, g1, d2, g2, *i);
    }
}

pub proof fn lemma_exprs_wf_mono(
    d1: Seq<VarDecl0>,
    g1: Seq<SigM>,
    d2: Seq<VarDecl0>,
    g2: Seq<SigM>,
    s: Seq<Expr>,
)
    requires
        extends(d1, d2),
        extends(g1, g2),
        exprs_wf(d1, g1, s),
    ensures
        exprs_wf(d2, g2, s),
    decreases s,
{
    if s.len() > 0 {
        lemma_exprs_wf_mono(d1, g1, d2, g2, s.drop_last());
        lemma_expr_wf_mono(d1, g1, d2, g2, *s.last());
    }
}

pub proof fn lemma_import_args_wf_mono(
    d1: Seq<VarDecl0>,
    g1: Seq<SigM>,
    d2: Seq<VarDecl0>,
    g2: Seq<SigM>,
    s: Seq<ImportArg>,
)
    requires
        extends(d1, d2),
        extends(g1, g2),
        import_args_wf(d1, g1, s),
    ensures
        import_args_wf(d2, g2, s),
    decreases s,
{
    if s.len() > 0 {
        lemma_import_args_wf_mono(d1, g1, d2, g2, s.drop_last());
        if let ImportArg::Expr(a) = s.last() {
            lemma_expr_wf_mono(d1, g1, d2, g2, *a);
        }
    }
}

pub proof fn lemma_call_wf_mono(
    d1: Seq<VarDecl0>,
    g1: Seq<SigM>,
    d2: Seq<VarDecl0>,
    g2: Seq<SigM>,
    m: MethodCall,
)
    requires
        extends(d1, d2),
        extends(g1, g2),
        call_wf(d1, g1, m),
    ensures
        call_wf(d2, g2, m),
    decreases m,
{
    match m {
        MethodCall::Method(mc) => {
            assert(g2[mc.decl as int] == g2.subrange(0, g1.len() as int)[mc.decl as int]);
            lemma_exprs_wf_mono(d1, g1, d2, g2, mc.args@);
        },
        MethodCall::Callout(co) => {
            lemma_import_args_wf_mono(d1, g1, d2, g2, co.args@);
        },
    }
}

/// Well-formedness survives the growth of the arenas it refers to.
pub proof fn lemma_expr_wf_mono(
    d1: Seq<VarDecl0>,
    g1: Seq<SigM>,
    d2: Seq<VarDecl0>,
    g2: Seq<SigM>,
    e: Expr0,
)
    requires
        extends(d1, d2),
        extends(g1, g2),
        expr_wf(d1, g1, e),
    ensures
        expr_wf(d2, g2, e),
    decreases e,
{
    match e.expr {
        ExprType::Location(l) => {
            assert(loc_wf(d1, g1, l));
            assert((l.id as int) < d1.len());
            assert(d2[l.id as int] == d2.subrange(0, d1.len() as int)[l.id as int]);
            lemma_loc_wf_mono(d1, g1, d2, g2, l);
        },
        ExprType::MethodCall(m) => {
            assert(call_wf(d1, g1, m));
            if let MethodCall::Method(mc) = m {
                assert((mc.decl as int) < g1.len());
                assert(g2[mc.decl as int] == g2.subrange(0, g1.len() as int)[mc.decl as int]);
            }
            lemma_call_wf_mono(d1, g1, d2, g2, m);
        },
        ExprType::Unary(u) => {
            lemma_expr_wf_mono(d1, g1, d2, g2, *u.expr);
        },
        ExprType::Binary(b) => {
            lemma_expr_wf_mono(d1, g1, d2, g2, *b.lhs);
            lemma_expr_wf_mono(d1, g1, d2, g2, *b.rhs);
        },
        _ => {},
    }
}

pub proof fn lemma_update_wf_mono(
    d1: Seq<VarDecl0>,
    g1: Seq<SigM>,
    d2: Seq<VarDecl0>,
    g2: Seq<SigM>,
    u: ForUpdate,
)
    requires
        extends(d1, d2),
        extends(g1, g2),
        update_wf(d1, g1, u),
    ensures
        update_wf(d2, g2, u),
{
    lemma_loc_wf_mono(d1, g1, d2, g2, u.id);
    assert(d2[u.id.id as int] == d2.subrange(0, d1.len() as int)[u.id.id as int]);
    if let ForUpdateExpr::AssignExpr(a) = u.update_expr {
        lemma_expr_wf_mono(d1, g1, d2, g2, *a.expr);
    }
}

pub proof fn lemma_handles_wf_mono(d1: Seq<VarDecl0>, d2: Seq<VarDecl0>, hs: Seq<VarDecl>)
    requires
        d1.len() <= d2.len(),
        handles_wf(d1, hs),
    ensures
        handles_wf(d2, hs),
{
}

/// The loop that a `break` or `continue` may leave: the innermost enclosing one.
pub open spec fn continue_of(b: Break) -> Continue {
    match b {
        Break::For(n) => Continue::For(n),
        Break::While(n) => Continue::While(n),
    }
}

pub open spec fn assign_wf(d: Seq<VarDecl0>, g: Seq<SigM>, dst: Location, a: AssignExpr) -> bool {
    &&& loc_wf(d, g, dst)
    &&& match a {
        AssignExpr::AssignOpExpr(ae) => {
            &&& expr_wf(d, g, *ae.expr)
            &&& match ae.assign_op {
                AssignOp::Assign => d[dst.id as int].type_ == ae.expr.type_,
                AssignOp::CompoundAssignOp(_) => d[dst.id as int].type_ == Type::Int,
            }
        },
        AssignExpr::Increment(_) => d[dst.id as int].type_ == Type::Int,
    }
}

pub open spec fn update_wf(d: Seq<VarDecl0>, g: Seq<SigM>, u: ForUpdate) -> bool {
    &&& loc_wf(d, g, u.id)
    &&& d[u.id.id as int].type_ == Type::Int
    &&& match u.update_expr {
        ForUpdateExpr::AssignExpr(a) => expr_wf(d, g, *a.expr),
        ForUpdateExpr::Increment(_) => true,
    }
}

/// A statement is well formed inside the loop `lp` (the innermost enclosing one,
/// if any) and the method `fr` (with its return type).
pub open spec fn stmt_wf(
    d: Seq<VarDecl0>,
    g: Seq<SigM>,
    lp: Option<Break>,
    fr: Option<(MethodDecl, ReturnType)>,
    s: Statement0,
) -> bool
    decreases s,
{
    match s {
        Statement0::Assign(a) => assign_wf(d, g, a.dst, a.assign_expr),
        Statement0::MethodCall(m) => call_wf(d, g, m),
        Statement0::IfElse(ie) => {
            &&& expr_wf(d, g, *ie.cond)
            &&& ie.cond.type_ == Type::Bool
            &&& ie.if_block matches Some(b) && block_wf(d, g, lp, fr, b)
            &&& (ie.else_block matches Some(b) ==> block_wf(d, g, lp, fr, b))
        },
        Statement0::For(f) => {
            &&& (f.id as int) < d.len()
            &&& expr_wf(d, g, *f.init_expr)
            &&& f.init_expr.type_ == Type::Int
            &&& expr_wf(d, g, *f.incre_expr)
            &&& update_wf(d, g, f.update)
            &&& f.block matches Some(b) && block_wf(d, g, Some(Break::For(f.node)), fr, b)
        },
        Statement0::While(w) => {
            &&& expr_wf(d, g, *w.cond)
            &&& w.cond.type_ == Type::Bool
            &&& w.block matches Some(b) && block_wf(d, g, Some(Break::While(w.node)), fr, b)
        },
        Statement0::Return(r) => {
            &&& fr matches Some((m, rt)) && m == r.func && return_fits(
                match r.val {
                    Some(v) => Some(v.type_),
                    None => None,
                },
                rt,
            )
            &&& (r.val matches Some(v) ==> expr_wf(d, g, *v))
        },
        Statement0::Break(b) => lp == Some(b),
        Statement0::Continue(c) => (lp matches Some(b) && continue_of(b) == c),
    }
}

pub open spec fn stmts_wf(
    d: Seq<VarDecl0>,
    g: Seq<SigM>,
    lp: Option<Break>,
    fr: Option<(MethodDecl, ReturnType)>,
    s: Seq<Statement0>,
) -> bool
    decreases s,
{
    if s.len() == 0 {
        true
    } else {
        stmts_wf(d, g, lp, fr, s.drop_last()) && stmt_wf(d, g, lp, fr, s.last())
    }
}

pub open spec fn handles_wf(d: Seq<VarDecl0>, hs: Seq<VarDecl>) -> bool {
    forall|k: int| 0 <= k < hs.len() ==> (#[trigger] hs[k] as int) < d.len()
}

pub open spec fn block_wf(
    d: Seq<VarDecl0>,
    g: Seq<SigM>,
    lp: Option<Break>,
    fr: Option<(MethodDecl, ReturnType)>,
    b: Block,
) -> bool
    decreases b,
{
    handles_wf(d, b.field_decls@) && stmts_wf(d, g, lp, fr, b.statements@)
}

pub proof fn lemma_stmt_wf_mono(
    d1: Seq<VarDecl0>,
    g1: Seq<SigM>,
    d2: Seq<VarDecl0>,
    g2: Seq<SigM>,
    lp: Option<Break>,
    fr: Option<(MethodDecl, ReturnType)>,
    s: Statement0,
)
    requires
        extends(d1, d2),
        extends(g1, g2),
        stmt_wf(d1, g1, lp, fr, s),
    ensures
        stmt_wf(d2, g2, lp, fr, s),
    decreases s,
{
    match s {
        Statement0::Assign(a) => {
            lemma_loc_wf_mono(d1, g1, d2, g2, a.dst);
            assert(d2[a.dst.id as int] == d2.subrange(0, d1.len() as int)[a.dst.id as int]);
            if let AssignExpr::AssignOpExpr(ae) = a.assign_expr {
                lemma_expr_wf_mono(d1, g1, d2, g2, *ae.expr);
            }
        },
        Statement0::MethodCall(m) => lemma_call_wf_mono(d1, g1, d2, g2, m),
        Statement0::IfElse(ie) => {
            lemma_expr_wf_mono(d1, g1, d2, g2, *ie.cond);
            if let Some(b) = ie.if_block {
                lemma_block_wf_mono(d1, g1, d2, g2, lp, fr, b);
            }
            if let Some(b) = ie.else_block {
                lemma_block_wf_mono(d1, g1, d2, g2, lp, fr, b);
            }
        },
        Statement0::For(f) => {
            lemma_expr_wf_mono(d1, g1, d2, g2, *f.init_expr);
            lemma_expr_wf_mono(d1, g1, d2, g2, *f.incre_expr);
            lemma_loc_wf_mono(d1, g1, d2, g2, f.update.id);
            assert(d2[f.update.id.id as int] == d2.subrange(0, d1.len() as int)[f.update.id.id as int]);
            if let ForUpdateExpr::AssignExpr(a) = f.update.update_expr {
                lemma_expr_wf_mono(d1, g1, d2, g2, *a.expr);
            }
            if let Some(b) = f.block {
                lemma_block_wf_mono(d1, g1, d2, g2, Some(Break::For(f.node)), fr, b);
            }
        },
        Statement0::While(w) => {
            lemma_expr_wf_mono(d1, g1, d2, g2, *w.cond);
            if let Some(b) = w.block {
                lemma_block_wf_mono(d1, g1, d2, g2, Some(Break::While(w.node)), fr, b);
            }
        },
        Statement0::Return(r) => {
            if let Some(v) = r.val {
                lemma_expr_wf_mono(d1, g1, d2, g2, *v);
            }
        },
        _ => {},
    }
}

pub proof fn lemma_stmts_wf_mono(
    d1: Seq<VarDecl0>,
    g1: Seq<SigM>,
    d2: Seq<VarDecl0>,
    g2: Seq<SigM>,
    lp: Option<Break>,
    fr: Option<(MethodDecl, ReturnType)>,
    s: Seq<Statement0>,
)
    requires
        extends(d1, d2),
        extends(g1, g2),
        stmts_wf(d1, g1, lp, fr, s),
    ensures
        stmts_wf(d2, g2, lp, fr, s),
    decreases s,
{
    if s.len() > 0 {
        lemma_stmts_wf_mono(d1, g1, d2, g2, lp, fr, s.drop_last());
        lemma_stmt_wf_mono(d1, g1, d2, g2, lp, fr, s.last());
    }
}

pub proof fn lemma_block_wf_mono(
    d1: Seq<VarDecl0>,
    g1: Seq<SigM>,
    d2: Seq<VarDecl0>,
    g2: Seq<SigM>,
    lp: Option<Break>,
    fr: Option<(MethodDecl, ReturnType)>,
    b: Block,
)
    requires
        extends(d1, d2),
        extends(g1, g2),
        block_wf(d1, g1, lp, fr, b),
    ensures
        block_wf(d2, g2, lp, fr, b),
    decreases b,
{
    lemma_stmts_wf_mono(d1, g1, d2, g2, lp, fr, b.statements@);
}

/// The signature of a method of the IR, as its call sites see it.
pub open spec fn sig_of_decl(d: Seq<VarDecl0>, m: MethodDecl0) -> SigM {
    SigM {
        name: m.name@,
        ret: m.return_type,
        params: m.args@.map_values(|h: VarDecl| d[h as int].type_),
    }
}

pub open spec fn sigs_of(ir: IRRoot) -> Seq<SigM> {
    ir.root.method_decls@.map_values(|m: MethodDecl0| sig_of_decl(ir.decls@, m))
}

/// The method numbered `i` is well formed: its body is there, and checked
/// against its own return type with no enclosing loop.
pub open spec fn method_wf(d: Seq<VarDecl0>, g: Seq<SigM>, i: int, m: MethodDecl0) -> bool {
    &&& handles_wf(d, m.args@)
    &&& m.block matches Some(b) && block_wf(d, g, None, Some((i as MethodDecl, m.return_type)), b)
}

pub proof fn lemma_method_wf_mono(
    d1: Seq<VarDecl0>,
    g1: Seq<SigM>,
    d2: Seq<VarDecl0>,
    g2: Seq<SigM>,
    i: int,
    m: MethodDecl0,
)
    requires
        extends(d1, d2),
        extends(g1, g2),
        method_wf(d1, g1, i, m),
    ensures
        method_wf(d2, g2, i, m),
        sig_of_decl(d2, m) == sig_of_decl(d1, m),
{
    lemma_block_wf_mono(
        d1,
        g1,
        d2,
        g2,
        None,
        Some((i as MethodDecl, m.return_type)),
        m.block->Some_0,
    );
    assert forall|k: int| 0 <= k < m.args@.len() implies d2[m.args@[k] as int] == d1[m.args@[k] as int] by {
        assert((m.args@[k] as int) < d1.len());
        assert(d2[m.args@[k] as int] == d2.subrange(0, d1.len() as int)[m.args@[k] as int]);
    }
    assert(sig_of_decl(d2, m).params =~= sig_of_decl(d1, m).params);
}

/// The invariants of a produced IR.
pub open spec fn ir_wf(ir: IRRoot) -> bool {
    &&& handles_wf(ir.decls@, ir.root.import_decls@)
    &&& handles_wf(ir.decls@, ir.root.field_decls@)
    &&& forall|i: int|
        0 <= i < ir.root.method_decls@.len() ==> method_wf(
            ir.decls@,
            sigs_of(ir),
            i,
            #[trigger] ir.root.method_decls@[i],
        )
}

/// An IR location has the shape of its source location: an index exactly where
/// the source has one, matching it.
pub open spec fn loc_matches(d: Seq<VarDecl0>, a: ast::Location, l: Location) -> bool
    decreases a,
{
    match a {
        ast::Location::Id(id) => d[l.id as int].id@ == id@ && l.array_len is None,
        ast::Location::IdExpr(ie) => d[l.id as int].id@ == ie.id@ && match l.array_len {
            Some(i) => expr_matches(d, *ie.expr, *i),
            None => false,
        },
    }
}

/// An IR expression has the variant, operator, literal and operands of its
/// source expression.
pub open spec fn expr_matches(d: Seq<VarDecl0>, a: ast::Expr_, e: Expr0) -> bool
    decreases a,
{
    match a {
        ast::Expr_::Location(l) => match e.expr {
            ExprType::Location(il) => loc_matches(d, l, il),
            _ => false,
        },
        ast::Expr_::MethodCall(m) => match e.expr {
            ExprType::MethodCall(im) => call_matches(d, m, im),
            _ => false,
        },
        ast::Expr_::Literal(l) => e.expr == ExprType::Literal(literal_of(l)),
        ast::Expr_::LenId(id) => match e.expr {
            ExprType::LenId(s) => s@ == id@,
            _ => false,
        },
        ast::Expr_::Unary(u) => match e.expr {
            ExprType::Unary(iu) => iu.op == unary_op_of(u.op) && expr_matches(d, *u.expr, *iu.expr),
            _ => false,
        },
        ast::Expr_::Binary(b) => match e.expr {
            ExprType::Binary(ib) => {
                &&& ib.op == binary_op_of(b.op)
                &&& expr_matches(d, *b.lhs, *ib.lhs)
                &&& expr_matches(d, *b.rhs, *ib.rhs)
            },
            _ => false,
        },
    }
}

pub open spec fn exprs_match(d: Seq<VarDecl0>, a: Seq<ast::Expr>, s: Seq<Expr>) -> bool
    decreases a,
{
    &&& a.len() == s.len()
    &&& (a.len() > 0 ==> exprs_match(d, a.drop_last(), s.drop_last()) && expr_matches(d,
        *a.last(),
        *s.last(),
    ))
}

pub open spec fn import_args_match(d: Seq<VarDecl0>, a: Seq<ast::ImportArg>, s: Seq<ImportArg>) -> bool
    decreases a,
{
    &&& a.len() == s.len()
    &&& (a.len() > 0 ==> import_args_match(d, a.drop_last(), s.drop_last()) && match (
        a.last(),
        s.last(),
    ) {
        (ast::ImportArg::Expr(x), ImportArg::Expr(y)) => expr_matches(d, *x, *y),
        (ast::ImportArg::StringLiteral(x), ImportArg::StringLiteral(y)) => y@ == x@,
        _ => false,
    })
}

pub open spec fn call_matches(d: Seq<VarDecl0>, a: ast::MethodCall, m: MethodCall) -> bool
    decreases a,
{
    match a {
        ast::MethodCall::Method(mc) => match m {
            MethodCall::Method(imc) => exprs_match(d, mc.args@, imc.args@),
            _ => false,
        },
        ast::MethodCall::CallOut(co) => match m {
            MethodCall::Callout(ic) => ic.name@ == co.name.id@ && import_args_match(d,
                co.args@,
                ic.args@,
            ),
            _ => false,
        },
    }
}

pub open spec fn assign_matches(d: Seq<VarDecl0>, a: ast::AssignExpr, x: AssignExpr) -> bool {
    match a {
        ast::AssignExpr::AssignOpExpr(ae) => match x {
            AssignExpr::AssignOpExpr(ie) => ie.assign_op == assign_op_of(ae.assign_op)
                && expr_matches(d, *ae.expr, *ie.expr),
            _ => false,
        },
        ast::AssignExpr::Increment(i) => x == AssignExpr::Increment(increment_of(i)),
    }
}

pub open spec fn update_matches(d: Seq<VarDecl0>, a: ast::ForUpdate, u: ForUpdate) -> bool {
    &&& loc_matches(d, a.location, u.id)
    &&& match a.update_expr {
        ast::ForUpdateExpr::AssignExpr(ae) => match u.update_expr {
            ForUpdateExpr::AssignExpr(ie) => ie.compound_assign_op == compound_op_of(
                ae.compound_assign_op,
            ) && expr_matches(d, *ae.expr, *ie.expr),
            _ => false,
        },
        ast::ForUpdateExpr::Increment(i) => u.update_expr == ForUpdateExpr::Increment(
            increment_of(i),
        ),
    }
}

/// An IR statement has the kind of its source statement, and its blocks those of
/// the source's blocks.
pub open spec fn stmt_matches(d: Seq<VarDecl0>, a: ast::Statement, s: Statement0) -> bool
    decreases a,
{
    match a {
        ast::Statement::Assign(aa) => match s {
            Statement0::Assign(ia) => loc_matches(d, aa.location, ia.dst) && assign_matches(d,
                aa.assign_expr,
                ia.assign_expr,
            ),
            _ => false,
        },
        ast::Statement::MethodCall(m) => match s {
            Statement0::MethodCall(im) => call_matches(d, m, im),
            _ => false,
        },
        ast::Statement::IfElse(ai) => match s {
            Statement0::IfElse(si) => {
                &&& expr_matches(d, *ai.expr, *si.cond)
                &&& (si.if_block matches Some(b) && block_matches(d, ai.if_block, b))
                &&& match ai.else_block {
                    Some(ab) => (si.else_block matches Some(b) && block_matches(d, ab, b)),
                    None => si.else_block is None,
                }
            },
            _ => false,
        },
        ast::Statement::Loop(al) => match s {
            Statement0::For(sf) => {
                &&& d[sf.id as int].id@ == al.id@
                &&& expr_matches(d, *al.init_expr, *sf.init_expr)
                &&& expr_matches(d, *al.incre_expr, *sf.incre_expr)
                &&& update_matches(d, al.update, sf.update)
                &&& (sf.block matches Some(b) && block_matches(d, al.block, b))
            },
            _ => false,
        },
        ast::Statement::While(aw) => match s {
            Statement0::While(sw) => {
                &&& expr_matches(d, *aw.expr, *sw.cond)
                &&& (sw.block matches Some(b) && block_matches(d, aw.block, b))
            },
            _ => false,
        },
        ast::Statement::Return(ar) => match s {
            Statement0::Return(sr) => match (ar.expr, sr.val) {
                (Some(x), Some(v)) => expr_matches(d, *x, *v),
                (None, None) => true,
                _ => false,
            },
            _ => false,
        },
        ast::Statement::Break => s is Break,
        ast::Statement::Continue => s is Continue,
    }
}

pub open spec fn stmts_match(d: Seq<VarDecl0>, a: Seq<ast::Statement>, s: Seq<Statement0>) -> bool
    decreases a,
{
    &&& a.len() == s.len()
    &&& (a.len() > 0 ==> stmts_match(d, a.drop_last(), s.drop_last()) && stmt_matches(d,
        a.last(),
        s.last(),
    ))
}

pub open spec fn block_matches(d: Seq<VarDecl0>, a: ast::Block, b: Block) -> bool
    decreases a,
{
    stmts_match(d, a.statements@, b.statements@)
}

pub proof fn lemma_loc_matches_mono(
    d1: Seq<VarDecl0>,
    d2: Seq<VarDecl0>,
    g: Seq<SigM>,
    a: ast::Location,
    l: Location,
)
    requires
        extends(d1, d2),
        loc_wf(d1, g, l),
        loc_matches(d1, a, l),
    ensures
        loc_matches(d2, a, l),
    decreases a,
{
    assert(d2[l.id as int] == d2.subrange(0, d1.len() as int)[l.id as int]);
    if let ast::Location::IdExpr(ie) = a {
        lemma_expr_matches_mono(d1, d2, g, *ie.expr, *l.array_len->Some_0);
    }
}

/// Matching a tree survives the growth of the declaration arena.
pub proof fn lemma_expr_matches_mono(
    d1: Seq<VarDecl0>,
    d2: Seq<VarDecl0>,
    g: Seq<SigM>,
    a: ast::Expr_,
    e: Expr0,
)
    requires
        extends(d1, d2),
        expr_wf(d1, g, e),
        expr_matches(d1, a, e),
    ensures
        expr_matches(d2, a, e),
    decreases a,
{
    match a {
        ast::Expr_::Location(l) => {
            lemma_loc_matches_mono(d1, d2, g, l, e.expr->Location_0);
        },
        ast::Expr_::MethodCall(m) => {
            lemma_call_matches_mono(d1, d2, g, m, e.expr->MethodCall_0);
        },
        ast::Expr_::Unary(u) => {
            lemma_expr_matches_mono(d1, d2, g, *u.expr, *e.expr->Unary_0.expr);
        },
        ast::Expr_::Binary(b) => {
            lemma_expr_matches_mono(d1, d2, g, *b.lhs, *e.expr->Binary_0.lhs);
            lemma_expr_matches_mono(d1, d2, g, *b.rhs, *e.expr->Binary_0.rhs);
        },
        _ => {},
    }
}

pub proof fn lemma_exprs_match_mono(
    d1: Seq<VarDecl0>,
    d2: Seq<VarDecl0>,
    g: Seq<SigM>,
    a: Seq<ast::Expr>,
    s: Seq<Expr>,
)
    requires
        extends(d1, d2),
        exprs_wf(d1, g, s),
        exprs_match(d1, a, s),
    ensures
        exprs_match(d2, a, s),
    decreases a,
{
    if a.len() > 0 {
        lemma_exprs_match_mono(d1, d2, g, a.drop_last(), s.drop_last());
        lemma_expr_matches_mono(d1, d2, g, *a.last(), *s.last());
    }
}

pub proof fn lemma_import_args_match_mono(
    d1: Seq<VarDecl0>,
    d2: Seq<VarDecl0>,
    g: Seq<SigM>,
    a: Seq<ast::ImportArg>,
    s: Seq<ImportArg>,
)
    requires
        extends(d1, d2),
        import_args_wf(d1, g, s),
        import_args_match(d1, a, s),
    ensures
        import_args_match(d2, a, s),
    decreases a,
{
    if a.len() > 0 {
        lemma_import_args_match_mono(d1, d2, g, a.drop_last(), s.drop_last());
        if let ast::ImportArg::Expr(x) = a.last() {
            lemma_expr_matches_mono(d1, d2, g, *x, *s.last()->Expr_0);
        }
    }
}

pub proof fn lemma_call_matches_mono(
    d1: Seq<VarDecl0>,
    d2: Seq<VarDecl0>,
    g: Seq<SigM>,
    a: ast::MethodCall,
    m: MethodCall,
)
    requires
        extends(d1, d2),
        call_wf(d1, g, m),
        call_matches(d1, a, m),
    ensures
        call_matches(d2, a, m),
    decreases a,
{
    match a {
        ast::MethodCall::Method(mc) => {
            lemma_exprs_match_mono(d1, d2, g, mc.args@, m->Method_0.args@);
        },
        ast::MethodCall::CallOut(co) => {
            lemma_import_args_match_mono(d1, d2, g, co.args@, m->Callout_0.args@);
        },
    }
}

pub proof fn lemma_stmt_matches_mono(
    d1: Seq<VarDecl0>,
    d2: Seq<VarDecl0>,
    g: Seq<SigM>,
    lp: Option<Break>,
    fr: Option<(MethodDecl, ReturnType)>,
    a: ast::Statement,
    s: Statement0,
)
    requires
        extends(d1, d2),
        stmt_wf(d1, g, lp, fr, s),
        stmt_matches(d1, a, s),
    ensures
        stmt_matches(d2, a, s),
    decreases a,
{
    match a {
        ast::Statement::Assign(aa) => {
            let ia = s->Assign_0;
            lemma_loc_matches_mono(d1, d2, g, aa.location, ia.dst);
            if let ast::AssignExpr::AssignOpExpr(ae) = aa.assign_expr {
                lemma_expr_matches_mono(d1, d2, g, *ae.expr, *ia.assign_expr->AssignOpExpr_0.expr);
            }
        },
        ast::Statement::MethodCall(m) => {
            lemma_call_matches_mono(d1, d2, g, m, s->MethodCall_0);
        },
        ast::Statement::IfElse(ai) => {
            let si = s->IfElse_0;
            lemma_expr_matches_mono(d1, d2, g, *ai.expr, *si.cond);
            lemma_block_matches_mono(d1, d2, g, lp, fr, ai.if_block, si.if_block->Some_0);
            if let Some(ab) = ai.else_block {
                lemma_block_matches_mono(d1, d2, g, lp, fr, ab, si.else_block->Some_0);
            }
        },
        ast::Statement::Loop(al) => {
            let sf = s->For_0;
            assert(d2[sf.id as int] == d2.subrange(0, d1.len() as int)[sf.id as int]);
            lemma_expr_matches_mono(d1, d2, g, *al.init_expr, *sf.init_expr);
            lemma_expr_matches_mono(d1, d2, g, *al.incre_expr, *sf.incre_expr);
            lemma_loc_matches_mono(d1, d2, g, al.update.location, sf.update.id);
            if let ast::ForUpdateExpr::AssignExpr(ae) = al.update.update_expr {
                lemma_expr_matches_mono(
                    d1,
                    d2,
                    g,
                    *ae.expr,
                    *sf.update.update_expr->AssignExpr_0.expr,
                );
            }
            lemma_block_matches_mono(
                d1,
                d2,
                g,
                Some(Break::For(sf.node)),
                fr,
                al.block,
                sf.block->Some_0,
            );
        },
        ast::Statement::While(aw) => {
            let sw = s->While_0;
            lemma_expr_matches_mono(d1, d2, g, *aw.expr, *sw.cond);
            lemma_block_matches_mono(
                d1,
                d2,
                g,
                Some(Break::While(sw.node)),
                fr,
                aw.block,
                sw.block->Some_0,
            );
        },
        ast::Statement::Return(ar) => {
            if let Some(x) = ar.expr {
                lemma_expr_matches_mono(d1, d2, g, *x, *s->Return_0.val->Some_0);
            }
        },
        _ => {},
    }
}

pub proof fn lemma_stmts_match_mono(
    d1: Seq<VarDecl0>,
    d2: Seq<VarDecl0>,
    g: Seq<SigM>,
    lp: Option<Break>,
    fr: Option<(MethodDecl, ReturnType)>,
    a: Seq<ast::Statement>,
    s: Seq<Statement0>,
)
    requires
        extends(d1, d2),
        stmts_wf(d1, g, lp, fr, s),
        stmts_match(d1, a, s),
    ensures
        stmts_match(d2, a, s),
    decreases a,
{
    if a.len() > 0 {
        lemma_stmts_match_mono(d1, d2, g, lp, fr, a.drop_last(), s.drop_last());
        lemma_stmt_matches_mono(d1, d2, g, lp, fr, a.last(), s.last());
    }
}

pub proof fn lemma_block_matches_mono(
    d1: Seq<VarDecl0>,
    d2: Seq<VarDecl0>,
    g: Seq<SigM>,
    lp: Option<Break>,
    fr: Option<(MethodDecl, ReturnType)>,
    a: ast::Block,
    b: Block,
)
    requires
        extends(d1, d2),
        block_wf(d1, g, lp, fr, b),
        block_matches(d1, a, b),
    ensures
        block_matches(d2, a, b),
    decreases a,
{
    lemma_stmts_match_mono(d1, d2, g, lp, fr, a.statements@, b.statements@);
}

/// The declarations that the handles `hs` name.
pub open spec fn decls_of(d: Seq<VarDecl0>, hs: Seq<VarDecl>) -> Seq<VarDecl0> {
    hs.map_values(|h: VarDecl| d[h as int])
}

/// The IR is that of the syntax tree `p`: the same imports and fields, the same
/// methods with the same signatures, each body with its statements.
pub open spec fn ir_matches(p: ast::Program, ir: IRRoot) -> bool {
    &&& decls_of(ir.decls@, ir.root.import_decls@) == import_vars(p.import_decls@)
    &&& decls_of(ir.decls@, ir.root.field_decls@) == field_vars(p.field_decls@)
    &&& sigs_of(ir) == p.method_decls@.map_values(|m: ast::MethodDecl| sig_of(m))
    &&& forall|i: int|
        0 <= i < ir.root.method_decls@.len() ==> ((#[trigger] ir.root.method_decls@[i]).block matches Some(
            b,
        ) && block_matches(ir.decls@, p.method_decls@[i].block, b))
}

} // verus!
