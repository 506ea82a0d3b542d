//! The IR builder and type checker: one top-down pass over the syntax tree that
//! resolves every name against the scope stack, computes every expression's
//! type, and either builds the IR or collects the errors.
use vstd::prelude::*;
use crate::ast;
use crate::env::{kind_of, nearest_loop, EnvStack, EnvType, MethodSig, NodeKind};
use crate::errors::{one_err, IRResult, SemanticCheckError};
use crate::ir;
use crate::ir::{
    assign_op_of, binary_op_of, binary_result, increment_of, type_of, unary_op_of, value_type, Type,
    VarDecl0,
};
use crate::pre_check::main_errors;
use crate::rules::{
    arg_vars, args_check, assign_errs, binary_check, block_errs, call_check, callout_check,
    construct_errs, declare_all, enclosing_method, expr_check, field_vars, find_method,
    for_update_errs, global_ctx, group_vars, import_args_check, import_vars,
    lemma_declare_all_enclosing, lemma_declare_all_frame, lemma_push_enclosing,
    lemma_scope_restored, loc_check, main_errs, method_call_check, method_check, methods_check,
    lemma_resolve_var_name, one, program_errs, push_scope, return_errs, return_fits, sig_of,
    stmt_errs,
    stmts_errs, unary_check, Ctx, Errs, ScopeKind,
};
use crate::wf::{
    assign_wf, block_matches, block_wf, call_wf, continue_of, decls_of, derived_type, expr_wf,
    exprs_wf, extends, handles_wf, import_args_wf, ir_matches, ir_wf, lemma_block_wf_mono,
    lemma_expr_wf_mono, lemma_handles_wf_mono, lemma_method_wf_mono, lemma_stmts_wf_mono,
    lemma_update_wf_mono, loc_wf, method_wf, sig_of_decl, sigs_of, stmt_matches, stmt_wf,
    stmts_match, stmts_wf, update_wf, lemma_expr_matches_mono, lemma_loc_matches_mono,
    lemma_block_matches_mono, lemma_stmts_match_mono, loc_matches, expr_matches, exprs_match,
    import_args_match, call_matches, assign_matches, update_matches,
};

verus! {

/// The entry point of the analysis. It holds no state: every analysis builds a
/// scope stack of its own, so analyses never interfere.
pub struct SemanticAnalyzer {}

/// Once a prefix of the arguments fails, the whole list fails the same way.
proof fn lemma_args_err_extends(c: Ctx, s: Seq<ast::Expr>, k: int)
    requires
        0 <= k <= s.len(),
        args_check(c, s.subrange(0, k)) is Err,
    ensures
        args_check(c, s) == args_check(c, s.subrange(0, k)),
    decreases s.len() - k,
{
    if k < s.len() {
        let t = s.subrange(0, k + 1);
        assert(t.drop_last() =~= s.subrange(0, k));
        lemma_args_err_extends(c, s, k + 1);
    } else {
        assert(s.subrange(0, k) =~= s);
    }
}

proof fn lemma_import_args_err_extends(c: Ctx, s: Seq<ast::ImportArg>, k: int)
    requires
        0 <= k <= s.len(),
        import_args_check(c, s.subrange(0, k)) is Err,
    ensures
        import_args_check(c, s) == import_args_check(c, s.subrange(0, k)),
    decreases s.len() - k,
{
    if k < s.len() {
        let t = s.subrange(0, k + 1);
        assert(t.drop_last() =~= s.subrange(0, k));
        lemma_import_args_err_extends(c, s, k + 1);
    } else {
        assert(s.subrange(0, k) =~= s);
    }
}

fn get_ir_location(envs: &EnvStack, dst: &ast::Location) -> (r: IRResult<ir::Location>)
    requires
        envs.wf(),
    ensures
        match r {
            Ok(l) => loc_check(envs.ctx(), *dst) == Ok::<VarDecl0, Errs>(envs.decls@[l.id as int])
                && loc_wf(envs.decls@, envs.ctx().methods, l) && loc_matches(envs.decls@, *dst, l),
            Err(es) => loc_check(envs.ctx(), *dst) == Err::<VarDecl0, Errs>(es@) && es@.len() > 0,
        },
    decreases dst,
{
    let id = match dst {
        ast::Location::Id(id) => id,
        ast::Location::IdExpr(arr) => &arr.id,
    };
    proof {
        lemma_resolve_var_name(envs.ctx().scopes, id@);
    }
    let h = match envs.get_var_decl(id) {
        Some(h) => h,
        None => return Err(one_err(SemanticCheckError::UsedBeforeDeclared(id.clone()))),
    };
    match dst {
        ast::Location::Id(_) => {
            if envs.decls[h].arr_len.is_some() {
                Err(one_err(SemanticCheckError::LocationTypeMismatch))
            } else {
                Ok(ir::Location { id: h, array_len: None })
            }
        },
        ast::Location::IdExpr(arr) => {
            let i = match get_ir_expr(envs, &*arr.expr) {
                Ok(i) => i,
                Err(e) => return Err(e),
            };
            if i.type_ != Type::Int {
                Err(one_err(SemanticCheckError::TypeOfExprMustInt(arr.id.clone())))
            } else if envs.decls[h].arr_len.is_none() {
                Err(one_err(SemanticCheckError::LocationTypeMismatch))
            } else {
                Ok(ir::Location { id: h, array_len: Some(i) })
            }
        },
    }
}

/// The type that an IR expression's variant gives it.
fn get_ir_expr_type(envs: &EnvStack, e: &ir::ExprType) -> (r: Type)
    requires
        match e {
            ir::ExprType::Location(l) => (l.id as int) < envs.decls@.len(),
            ir::ExprType::MethodCall(ir::MethodCall::Method(mc)) => (mc.decl as int)
                < envs.methods@.len(),
            _ => true,
        },
    ensures
        r == derived_type(envs.decls@, envs.ctx().methods, *e),
{
    match e {
        ir::ExprType::Location(l) => envs.decls[l.id].type_,
        ir::ExprType::MethodCall(m) => match m {
            ir::MethodCall::Method(mc) => ir::ReturnType::to_type(
                &envs.methods[mc.decl].return_type,
            ),
            ir::MethodCall::Callout(_) => Type::Int,
        },
        ir::ExprType::Literal(l) => match l {
            ir::Literal::IntLiteral(_) => Type::Int,
            ir::Literal::BoolLiteral(_) => Type::Bool,
            ir::Literal::CharLiteral(_) => Type::Char,
        },
        ir::ExprType::LenId(_) => Type::Int,
        ir::ExprType::Binary(b) => b.op.get_return_type(),
        ir::ExprType::Unary(u) => u.expr.type_,
    }
}

fn get_ir_expr(envs: &EnvStack, expr: &ast::Expr_) -> (r: IRResult<ir::Expr>)
    requires
        envs.wf(),
    ensures
        match r {
            Ok(x) => expr_check(envs.ctx(), *expr) == Ok::<Type, Errs>(x.type_) && expr_wf(
                envs.decls@,
                envs.ctx().methods,
                *x,
            ) && expr_matches(envs.decls@, *expr, *x),
            Err(es) => expr_check(envs.ctx(), *expr) == Err::<Type, Errs>(es@) && es@.len() > 0,
        },
    decreases expr,
{
    let e = match expr {
        ast::Expr_::Location(l) => match get_ir_location(envs, l) {
            Ok(l) => ir::ExprType::Location(l),
            Err(e) => return Err(e),
        },
        ast::Expr_::MethodCall(m) => match get_ir_method_call(envs, m) {
            Ok(m) => ir::ExprType::MethodCall(m),
            Err(e) => return Err(e),
        },
        ast::Expr_::Literal(l) => ir::ExprType::Literal(ir::Literal::from(l)),
        ast::Expr_::LenId(l) => match get_ir_len_id(envs, l) {
            Ok(l) => ir::ExprType::LenId(l),
            Err(e) => return Err(e),
        },
        ast::Expr_::Binary(b) => match get_ir_binary(envs, b) {
            Ok(b) => ir::ExprType::Binary(b),
            Err(e) => return Err(e),
        },
        ast::Expr_::Unary(u) => match get_ir_unary(envs, u) {
            Ok(u) => ir::ExprType::Unary(u),
            Err(e) => return Err(e),
        },
    };
    let type_ = get_ir_expr_type(envs, &e);
    Ok(Box::new(ir::Expr0 { type_, expr: e }))
}

fn get_ir_len_id(envs: &EnvStack, id: &String) -> (r: IRResult<String>)
    requires
        envs.wf(),
    ensures
        match r {
            Ok(s) => s@ == id@ && expr_check(envs.ctx(), ast::Expr_::LenId(*id)) == Ok::<
                Type,
                Errs,
            >(Type::Int),
            Err(es) => expr_check(envs.ctx(), ast::Expr_::LenId(*id)) == Err::<Type, Errs>(es@)
                && es@.len() > 0,
        },
{
    let h = match envs.get_var_decl(id) {
        Some(h) => h,
        None => return Err(one_err(SemanticCheckError::UsedBeforeDeclared(id.clone()))),
    };
    if envs.decls[h].arr_len.is_some() {
        Ok(id.clone())
    } else {
        Err(one_err(SemanticCheckError::IdMustArray(id.clone())))
    }
}

fn get_ir_binary(envs: &EnvStack, binary: &ast::Binary) -> (r: IRResult<ir::Binary>)
    requires
        envs.wf(),
    ensures
        ({
            let c = envs.ctx();
            let spec_r = binary_check(
                binary_op_of(binary.op),
                expr_check(c, *binary.lhs),
                expr_check(c, *binary.rhs),
            );
            match r {
                Ok(b) => spec_r == Ok::<Type, Errs>(binary_result(b.op)) && b.op == binary_op_of(
                    binary.op,
                ) && expr_wf(envs.decls@, c.methods, *b.lhs) && expr_wf(
                    envs.decls@,
                    c.methods,
                    *b.rhs,
                ) && b.lhs.type_ == b.rhs.type_ && ir::accepts_operand(b.op, b.lhs.type_)
                    && expr_matches(envs.decls@, *binary.lhs, *b.lhs) && expr_matches(
                    envs.decls@,
                    *binary.rhs,
                    *b.rhs,
                ),
                Err(es) => spec_r == Err::<Type, Errs>(es@) && es@.len() > 0,
            }
        }),
    decreases binary,
{
    let mut errors: Vec<SemanticCheckError> = Vec::new();
    let lhs = match get_ir_expr(envs, &*binary.lhs) {
        Ok(l) => Some(l),
        Err(mut e) => {
            errors.append(&mut e);
            None
        },
    };
    let rhs = match get_ir_expr(envs, &*binary.rhs) {
        Ok(r) => Some(r),
        Err(mut e) => {
            errors.append(&mut e);
            None
        },
    };
    if errors.len() > 0 {
        return Err(errors);
    }
    let lhs = lhs.unwrap();
    let rhs = rhs.unwrap();
    if lhs.type_ != rhs.type_ {
        return Err(one_err(SemanticCheckError::OperandsTypeMismatch));
    }
    let op = ir::BinaryOp::from(&binary.op);
    let operand_type = lhs.type_;
    let ok = match op {
        ir::BinaryOp::Add
        | ir::BinaryOp::Sub
        | ir::BinaryOp::Mul
        | ir::BinaryOp::Div
        | ir::BinaryOp::Mod
        | ir::BinaryOp::GT
        | ir::BinaryOp::GE
        | ir::BinaryOp::LT
        | ir::BinaryOp::LE => operand_type == Type::Int,
        ir::BinaryOp::EQ | ir::BinaryOp::NE => true,
        ir::BinaryOp::Or | ir::BinaryOp::And => operand_type == Type::Bool,
    };
    if !ok {
        return Err(one_err(SemanticCheckError::OperandsTypeMismatch));
    }
    Ok(ir::Binary { lhs, rhs, op })
}

fn get_ir_unary(envs: &EnvStack, unary: &ast::Unary) -> (r: IRResult<ir::Unary>)
    requires
        envs.wf(),
    ensures
        ({
            let c = envs.ctx();
            let spec_r = unary_check(unary.op, expr_check(c, *unary.expr));
            match r {
                Ok(u) => spec_r == Ok::<Type, Errs>(u.expr.type_) && expr_wf(
                    envs.decls@,
                    c.methods,
                    *u.expr,
                ) && (u.op is NegInt ==> u.expr.type_ == Type::Int) && (u.op is NegBool
                    ==> u.expr.type_ == Type::Bool) && u.op == unary_op_of(unary.op)
                    && expr_matches(envs.decls@, *unary.expr, *u.expr),
                Err(es) => spec_r == Err::<Type, Errs>(es@) && es@.len() > 0,
            }
        }),
    decreases unary,
{
    let expr = match get_ir_expr(envs, &*unary.expr) {
        Ok(u) => u,
        Err(e) => return Err(e),
    };
    let type_ = expr.type_;
    match unary.op {
        ast::UnaryOp::NegInt => if type_ == Type::Int {
            return Ok(ir::Unary { expr, op: ir::UnaryOp::NegInt });
        },
        ast::UnaryOp::NegBool => if type_ == Type::Bool {
            return Ok(ir::Unary { expr, op: ir::UnaryOp::NegBool });
        },
    }
    Err(one_err(SemanticCheckError::OperandsTypeMismatch))
}

fn get_ir_method_call(envs: &EnvStack, method: &ast::MethodCall) -> (r: IRResult<ir::MethodCall>)
    requires
        envs.wf(),
    ensures
        match r {
            Ok(m) => call_check(envs.ctx(), *method) == Ok::<Type, Errs>(
                derived_type(envs.decls@, envs.ctx().methods, ir::ExprType::MethodCall(m)),
            ) && call_wf(envs.decls@, envs.ctx().methods, m) && (m matches ir::MethodCall::Method(
                mc,
            ) ==> (mc.decl as int) < envs.methods@.len()) && call_matches(envs.decls@, *method, m),
            Err(es) => call_check(envs.ctx(), *method) == Err::<Type, Errs>(es@) && es@.len() > 0,
        },
    decreases method,
{
    match method {
        ast::MethodCall::Method(m) => match get_ir_method(envs, m) {
            Ok(m) => Ok(ir::MethodCall::Method(m)),
            Err(e) => Err(e),
        },
        ast::MethodCall::CallOut(c) => match get_ir_callout(envs, c) {
            Ok(c) => Ok(ir::MethodCall::Callout(c)),
            Err(e) => Err(e),
        },
    }
}

fn get_ir_method(envs: &EnvStack, method: &ast::MethodCall0) -> (r: IRResult<ir::MethodCall0>)
    requires
        envs.wf(),
    ensures
        match r {
            Ok(m) => method_call_check(envs.ctx(), *method) == Ok::<Type, Errs>(
                value_type(envs.ctx().methods[m.decl as int].ret),
            ) && call_wf(envs.decls@, envs.ctx().methods, ir::MethodCall::Method(m)) && exprs_match(envs.decls@,
                method.args@,
                m.args@,
            ),
            Err(es) => method_call_check(envs.ctx(), *method) == Err::<Type, Errs>(es@) && es@.len()
                > 0,
        },
    decreases method,
{
    let ghost c = envs.ctx();
    let decl = match envs.get_method_decl(&method.name.id) {
        Some(m) => m,
        None => return Err(
            one_err(SemanticCheckError::UsedBeforeDeclared(method.name.id.clone())),
        ),
    };
    let mut args: Vec<ir::Expr> = Vec::new();
    let mut i: usize = 0;
    assert(method.args@.subrange(0, 0) =~= Seq::<ast::Expr>::empty());
    assert(args@.map_values(|a: ir::Expr| a.type_) =~= Seq::<Type>::empty());
    while i < method.args.len()
        invariant
            envs.wf(),
            c == envs.ctx(),
            i <= method.args@.len(),
            args@.len() == i,
            args_check(c, method.args@.subrange(0, i as int)) == Ok::<Seq<Type>, Errs>(
                args@.map_values(|a: ir::Expr| a.type_),
            ),
            exprs_wf(envs.decls@, c.methods, args@),
            exprs_match(envs.decls@, method.args@.subrange(0, i as int), args@),
            find_method(c.methods, method.name.id@) == Some(decl as int),
            (decl as int) < envs.methods@.len(),
        decreases method.args@.len() - i,
    {
        let ghost s = method.args@.subrange(0, i as int + 1);
        let ghost old_args = args@;
        let ghost old_types = args@.map_values(|a: ir::Expr| a.type_);
        proof {
            assert(s.drop_last() =~= method.args@.subrange(0, i as int));
        }
        match get_ir_expr(envs, &*method.args[i]) {
            Ok(a) => args.push(a),
            Err(e) => {
                proof {
                    lemma_args_err_extends(c, method.args@, i as int + 1);
                }
                return Err(e);
            },
        }
        assert(args@.map_values(|a: ir::Expr| a.type_) =~= old_types.push(args@.last().type_));
        assert(args@.drop_last() =~= old_args);
        i = i + 1;
    }
    assert(method.args@.subrange(0, i as int) =~= method.args@);
    let n = envs.methods[decl].arg_types.len();
    if args.len() != n {
        return Err(one_err(SemanticCheckError::MethodSignatureMismatch));
    }
    let mut k: usize = 0;
    while k < n
        invariant
            k <= n,
            c == envs.ctx(),
            find_method(c.methods, method.name.id@) == Some(decl as int),
            args_check(c, method.args@) == Ok::<Seq<Type>, Errs>(
                args@.map_values(|a: ir::Expr| a.type_),
            ),
            exprs_wf(envs.decls@, c.methods, args@),
            exprs_match(envs.decls@, method.args@, args@),
            (decl as int) < envs.methods@.len(),
            n == args@.len(),
            n == envs.methods@[decl as int].arg_types@.len(),
            forall|j: int| 0 <= j < k ==> args@[j].type_ == envs.methods@[decl as int].arg_types@[j],
        decreases n - k,
    {
        if args[k].type_ != envs.methods[decl].arg_types[k] {
            assert(args@.map_values(|a: ir::Expr| a.type_)[k as int] != c.methods[decl
                as int].params[k as int]);
            return Err(one_err(SemanticCheckError::InvalidMethodArgs));
        }
        k = k + 1;
    }
    let ghost ts = args@.map_values(|a: ir::Expr| a.type_);
    assert(c.methods[decl as int].params == envs.methods@[decl as int].arg_types@);
    assert(forall|j: int| 0 <= j < n ==> ts[j] == c.methods[decl as int].params[j]);
    assert(forall|j: int| 0 <= j < n ==> args@[j].type_ == ts[j]);
    Ok(ir::MethodCall0 { decl, args })
}

fn get_ir_callout(envs: &EnvStack, callout: &ast::MethodCall1) -> (r: IRResult<ir::MethodCall1>)
    requires
        envs.wf(),
    ensures
        match r {
            Ok(m) => callout_check(envs.ctx(), *callout) == Ok::<Type, Errs>(Type::Int) && call_wf(
                envs.decls@,
                envs.ctx().methods,
                ir::MethodCall::Callout(m),
            ) && m.name@ == callout.name.id@ && import_args_match(envs.decls@, callout.args@, m.args@),
            Err(es) => callout_check(envs.ctx(), *callout) == Err::<Type, Errs>(es@) && es@.len() > 0,
        },
    decreases callout,
{
    let ghost c = envs.ctx();
    let mut args: Vec<ir::ImportArg> = Vec::new();
    let mut i: usize = 0;
    while i < callout.args.len()
        invariant
            envs.wf(),
            c == envs.ctx(),
            i <= callout.args@.len(),
            args@.len() == i,
            import_args_check(c, callout.args@.subrange(0, i as int)) == Ok::<(), Errs>(()),
            import_args_wf(envs.decls@, c.methods, args@),
            import_args_match(envs.decls@, callout.args@.subrange(0, i as int), args@),
        decreases callout.args@.len() - i,
    {
        let ghost s = callout.args@.subrange(0, i as int + 1);
        let ghost old_args = args@;
        proof {
            assert(s.drop_last() =~= callout.args@.subrange(0, i as int));
        }
        match &callout.args[i] {
            ast::ImportArg::Expr(e) => match get_ir_expr(envs, &**e) {
                Ok(a) => args.push(ir::ImportArg::Expr(a)),
                Err(e) => {
                    proof {
                        lemma_import_args_err_extends(c, callout.args@, i as int + 1);
                    }
                    return Err(e);
                },
            },
            ast::ImportArg::StringLiteral(s) => args.push(ir::ImportArg::StringLiteral(s.clone())),
        }
        assert(args@.drop_last() =~= old_args);
        i = i + 1;
    }
    assert(callout.args@.subrange(0, i as int) =~= callout.args@);
    Ok(ir::MethodCall1 { name: callout.name.id.clone(), args })
}

} // verus!

verus! {

/// Declares `vs` in order in the innermost scope: every one is tried, the
/// errors are collected.
fn declare_vars(envs: &mut EnvStack, vs: Vec<VarDecl0>) -> (r: IRResult<Vec<ir::VarDecl>>)
    requires
        old(envs).wf(),
        old(envs).envs@.len() > 0,
    ensures
        final(envs).wf(),
        final(envs).envs@.len() == old(envs).envs@.len(),
        final(envs).types() == old(envs).types(),
        final(envs).methods == old(envs).methods,
        final(envs).nodes == old(envs).nodes,
        extends(old(envs).decls@, final(envs).decls@),
        final(envs).ctx() == declare_all(old(envs).ctx(), vs@).0,
        match r {
            Ok(ids) => declare_all(old(envs).ctx(), vs@).1.len() == 0 && ids@.len() == vs@.len()
                && (forall|k: int|
                0 <= k < ids@.len() ==> (#[trigger] ids@[k] as int) < final(envs).decls@.len()
                    && final(envs).decls@[ids@[k] as int] == vs@[k]) && decls_of(
                final(envs).decls@,
                ids@,
            ) == vs@,
            Err(es) => es@ == declare_all(old(envs).ctx(), vs@).1 && es@.len() > 0,
        },
{
    let ghost orig = vs@;
    let ghost c0 = envs.ctx();
    let mut vs = vs;
    let mut errors: Vec<SemanticCheckError> = Vec::new();
    let mut ids: Vec<ir::VarDecl> = Vec::new();
    let mut k: usize = 0;
    assert(orig.subrange(0, 0) =~= Seq::<VarDecl0>::empty());
    assert(orig.subrange(0, orig.len() as int) =~= orig);
    assert(envs.decls@.subrange(0, envs.decls@.len() as int) =~= envs.decls@);
    let n = vs.len();
    while vs.len() > 0
        invariant
            envs.wf(),
            old(envs).envs@.len() > 0,
            envs.envs@.len() == old(envs).envs@.len(),
            envs.types() == old(envs).types(),
            envs.methods == old(envs).methods,
            envs.nodes == old(envs).nodes,
            extends(old(envs).decls@, envs.decls@),
            0 <= k <= orig.len(),
            vs@ == orig.subrange(k as int, orig.len() as int),
            declare_all(c0, orig.subrange(0, k as int)) == (envs.ctx(), errors@),
            orig.len() == n,
            forall|j: int| 0 <= j < ids@.len() ==> (#[trigger] ids@[j] as int) < envs.decls@.len(),
            errors@.len() == 0 ==> ids@.len() == k && forall|j: int|
                0 <= j < ids@.len() ==> envs.decls@[#[trigger] ids@[j] as int] == orig[j],
        decreases vs@.len(),
    {
        assert(k < orig.len());
        let v = vs.remove(0);
        let ghost pre = orig.subrange(0, k as int + 1);
        assert(pre.drop_last() =~= orig.subrange(0, k as int));
        assert(pre.last() == v);
        assert(vs@ =~= orig.subrange(k as int + 1, orig.len() as int));
        let ghost d0 = envs.decls@;
        let ghost ids0 = ids@;
        match envs.add_var(v) {
            Ok(id) => {
                ids.push(id);
                assert(envs.decls@ == d0.push(orig[k as int]));
                assert(forall|j: int| 0 <= j < ids0.len() ==> ids@[j] == ids0[j]);
                if errors.len() == 0 {
                    assert forall|j: int| 0 <= j < ids@.len() implies envs.decls@[#[trigger] ids@[j]
                        as int] == orig[j] by {
                        if j < ids0.len() {
                            assert(ids@[j] == ids0[j]);
                            assert((ids0[j] as int) < d0.len());
                            assert(d0[ids0[j] as int] == orig[j]);
                            assert(envs.decls@[ids0[j] as int] == d0[ids0[j] as int]);
                        } else {
                            assert(ids0.len() == k);
                            assert(ids@[j] == id);
                            assert(id as int == d0.len());
                        }
                    }
                }
                assert(envs.decls@.subrange(0, d0.len() as int) =~= d0);
                assert(envs.decls@.subrange(0, old(envs).decls@.len() as int) =~= old(envs).decls@);
            },
            Err(e) => errors.push(e),
        }
        k = k + 1;
    }
    if errors.len() == 0 {
        assert(decls_of(envs.decls@, ids@) =~= orig);
        Ok(ids)
    } else {
        Err(errors)
    }
}

/// The declarations of the field groups `fields`, flattened in order.
fn field_decl_vars(fields: &Vec<ast::FieldDecl>) -> (r: Vec<VarDecl0>)
    ensures
        r@ == field_vars(fields@),
{
    let mut out: Vec<VarDecl0> = Vec::new();
    let mut g: usize = 0;
    assert(fields@.subrange(0, 0) =~= Seq::<ast::FieldDecl>::empty());
    while g < fields.len()
        invariant
            g <= fields@.len(),
            out@ == field_vars(fields@.subrange(0, g as int)),
        decreases fields@.len() - g,
    {
        let fd = &fields[g];
        let ghost base = out@;
        let mut j: usize = 0;
        assert(out@ =~= base + group_vars(*fd).subrange(0, 0));
        while j < fd.field_ids.len()
            invariant
                j <= fd.field_ids@.len(),
                out@ == base + group_vars(*fd).subrange(0, j as int),
            decreases fd.field_ids@.len() - j,
        {
            let f = &fd.field_ids[j];
            out.push(VarDecl0 { type_: ir::Type::from(&fd.type_), id: f.id.clone(), arr_len: f.arr_len });
            assert(out@ =~= base + group_vars(*fd).subrange(0, j as int + 1));
            j = j + 1;
        }
        assert(group_vars(*fd).subrange(0, j as int) =~= group_vars(*fd));
        assert(fields@.subrange(0, g as int + 1).drop_last() =~= fields@.subrange(0, g as int));
        g = g + 1;
    }
    assert(fields@.subrange(0, g as int) =~= fields@);
    out
}

fn get_ir_import_decls(envs: &mut EnvStack, imports: &Vec<ast::ImportDecl>) -> (r: IRResult<
    Vec<ir::VarDecl>,
>)
    requires
        old(envs).wf(),
        old(envs).envs@.len() > 0,
    ensures
        final(envs).wf(),
        final(envs).envs@.len() == old(envs).envs@.len(),
        final(envs).types() == old(envs).types(),
        final(envs).methods == old(envs).methods,
        final(envs).nodes == old(envs).nodes,
        extends(old(envs).decls@, final(envs).decls@),
        final(envs).ctx() == declare_all(old(envs).ctx(), import_vars(imports@)).0,
        match r {
            Ok(ids) => declare_all(old(envs).ctx(), import_vars(imports@)).1.len() == 0
                && handles_wf(final(envs).decls@, ids@) && decls_of(final(envs).decls@, ids@)
                == import_vars(imports@),
            Err(es) => es@ == declare_all(old(envs).ctx(), import_vars(imports@)).1 && es@.len() > 0,
        },
{
    let mut vs: Vec<VarDecl0> = Vec::new();
    let mut i: usize = 0;
    while i < imports.len()
        invariant
            i <= imports@.len(),
            vs@ == import_vars(imports@).subrange(0, i as int),
        decreases imports@.len() - i,
    {
        vs.push(VarDecl0 { type_: Type::Int, id: imports[i].id.clone(), arr_len: None });
        assert(vs@ =~= import_vars(imports@).subrange(0, i as int + 1));
        i = i + 1;
    }
    assert(vs@ =~= import_vars(imports@));
    declare_vars(envs, vs)
}

fn get_ir_field_decls(envs: &mut EnvStack, fields: &Vec<ast::FieldDecl>) -> (r: IRResult<
    Vec<ir::VarDecl>,
>)
    requires
        old(envs).wf(),
        old(envs).envs@.len() > 0,
    ensures
        final(envs).wf(),
        final(envs).envs@.len() == old(envs).envs@.len(),
        final(envs).types() == old(envs).types(),
        final(envs).methods == old(envs).methods,
        final(envs).nodes == old(envs).nodes,
        extends(old(envs).decls@, final(envs).decls@),
        final(envs).ctx() == declare_all(old(envs).ctx(), field_vars(fields@)).0,
        match r {
            Ok(ids) => declare_all(old(envs).ctx(), field_vars(fields@)).1.len() == 0 && handles_wf(
                final(envs).decls@,
                ids@,
            ) && decls_of(final(envs).decls@, ids@) == field_vars(fields@),
            Err(es) => es@ == declare_all(old(envs).ctx(), field_vars(fields@)).1 && es@.len() > 0,
        },
{
    let vs = field_decl_vars(fields);
    declare_vars(envs, vs)
}

} // verus!

verus! {

/// The loop that a `break` in a scope of this kind leaves.
pub open spec fn loop_target(t: Option<EnvType>) -> Option<ir::Break> {
    match t {
        Some(EnvType::For(n)) => Some(ir::Break::For(n)),
        Some(EnvType::While(n)) => Some(ir::Break::While(n)),
        _ => None,
    }
}

/// The innermost loop that encloses the statements analysed in `e`.
pub open spec fn frame_loop(e: EnvStack) -> Option<ir::Break> {
    loop_target(nearest_loop(e.types()))
}

/// The method, and its return type, that encloses the statements analysed in `e`.
pub open spec fn frame_method(e: EnvStack) -> Option<(ir::MethodDecl, ir::ReturnType)> {
    enclosing_method(e.ctx().scopes)
}

/// What a statement keeps of the scope stack: its shape, its methods, and the
/// declarations made so far.
pub open spec fn kept(o: EnvStack, n: EnvStack) -> bool {
    &&& n.wf()
    &&& n.envs@.len() == o.envs@.len()
    &&& n.types() == o.types()
    &&& n.methods == o.methods
    &&& extends(o.decls@, n.decls@)
}

fn get_ir_assign_expr(envs: &EnvStack, expr: &ast::AssignExpr) -> (r: IRResult<ir::AssignExpr>)
    requires
        envs.wf(),
    ensures
        match *expr {
            ast::AssignExpr::AssignOpExpr(ae) => match r {
                Ok(x) => x matches ir::AssignExpr::AssignOpExpr(ie) && ie.assign_op == assign_op_of(
                    ae.assign_op,
                ) && expr_check(envs.ctx(), *ae.expr) == Ok::<Type, Errs>(ie.expr.type_)
                    && expr_wf(envs.decls@, envs.ctx().methods, *ie.expr),
                Err(es) => expr_check(envs.ctx(), *ae.expr) == Err::<Type, Errs>(es@) && es@.len()
                    > 0,
            },
            ast::AssignExpr::Increment(i) => r == Ok::<ir::AssignExpr, Vec<SemanticCheckError>>(
                ir::AssignExpr::Increment(increment_of(i)),
            ),
        },
        r matches Ok(x) ==> assign_matches(envs.decls@, *expr, x),
{
    match expr {
        ast::AssignExpr::AssignOpExpr(a) => {
            let op = ir::AssignOp::from(&a.assign_op);
            let expr = match get_ir_expr(envs, &*a.expr) {
                Ok(expr) => expr,
                Err(e) => return Err(e),
            };
            Ok(ir::AssignExpr::AssignOpExpr(ir::AssignOpExpr { assign_op: op, expr }))
        },
        ast::AssignExpr::Increment(inc) => Ok(ir::AssignExpr::Increment(ir::Increment::from(inc))),
    }
}

fn get_ir_assign(envs: &EnvStack, assign: &ast::Assign) -> (r: IRResult<ir::Assign>)
    requires
        envs.wf(),
    ensures
        match r {
            Ok(a) => assign_errs(envs.ctx(), *assign).len() == 0 && assign_wf(
                envs.decls@,
                envs.ctx().methods,
                a.dst,
                a.assign_expr,
            ) && loc_matches(envs.decls@, assign.location, a.dst) && assign_matches(envs.decls@,
                assign.assign_expr,
                a.assign_expr,
            ),
            Err(es) => es@ == assign_errs(envs.ctx(), *assign) && es@.len() > 0,
        },
{
    let dst = match get_ir_location(envs, &assign.location) {
        Ok(d) => d,
        Err(e) => return Err(e),
    };
    let assign_expr = match get_ir_assign_expr(envs, &assign.assign_expr) {
        Ok(a) => a,
        Err(e) => return Err(e),
    };
    let dst_type = envs.decls[dst.id].type_;
    let ok = match &assign_expr {
        ir::AssignExpr::AssignOpExpr(a) => match a.assign_op {
            ir::AssignOp::CompoundAssignOp(_) => dst_type == Type::Int,
            ir::AssignOp::Assign => dst_type == a.expr.type_,
        },
        ir::AssignExpr::Increment(_) => dst_type == Type::Int,
    };
    if !ok {
        return Err(one_err(SemanticCheckError::OperandsTypeMismatch));
    }
    Ok(ir::Assign { dst, assign_expr })
}

fn get_ir_for_update(envs: &EnvStack, update: &ast::ForUpdate) -> (r: IRResult<ir::ForUpdate>)
    requires
        envs.wf(),
    ensures
        match r {
            Ok(u) => for_update_errs(envs.ctx(), *update).len() == 0 && update_wf(
                envs.decls@,
                envs.ctx().methods,
                u,
            ) && update_matches(envs.decls@, *update, u),
            Err(es) => es@ == for_update_errs(envs.ctx(), *update) && es@.len() > 0,
        },
{
    let id = match get_ir_location(envs, &update.location) {
        Ok(l) => l,
        Err(e) => return Err(e),
    };
    let update_expr = match &update.update_expr {
        ast::ForUpdateExpr::AssignExpr(a) => {
            let compound_assign_op = ir::CompoundAssignOp::from(&a.compound_assign_op);
            let expr = match get_ir_expr(envs, &*a.expr) {
                Ok(expr) => expr,
                Err(e) => return Err(e),
            };
            ir::ForUpdateExpr::AssignExpr(ir::ForUpdateAssignExpr { compound_assign_op, expr })
        },
        ast::ForUpdateExpr::Increment(i) => ir::ForUpdateExpr::Increment(ir::Increment::from(i)),
    };
    if envs.decls[id.id].type_ != Type::Int {
        return Err(one_err(SemanticCheckError::OperandsTypeMismatch));
    }
    Ok(ir::ForUpdate { id, update_expr })
}

fn get_ir_return(envs: &EnvStack, ret: &ast::Return) -> (r: IRResult<ir::Return>)
    requires
        envs.wf(),
    ensures
        match r {
            Ok(x) => return_errs(envs.ctx(), *ret).len() == 0 && (enclosing_method(
                envs.ctx().scopes,
            ) matches Some((m, rt)) && m == x.func && return_fits(
                match x.val {
                    Some(v) => Some(v.type_),
                    None => None,
                },
                rt,
            )) && (x.val matches Some(v) ==> expr_wf(envs.decls@, envs.ctx().methods, *v)) && match (
                ret.expr,
                x.val,
            ) {
                (Some(e), Some(v)) => expr_matches(envs.decls@, *e, *v),
                (None, None) => true,
                _ => false,
            },
            Err(es) => es@ == return_errs(envs.ctx(), *ret) && es@.len() > 0,
        },
{
    let val = match &ret.expr {
        Some(expr) => match get_ir_expr(envs, &**expr) {
            Ok(expr) => Some(expr),
            Err(e) => return Err(e),
        },
        None => None,
    };
    let (func, rt) = match envs.get_cur_scope_method_decl() {
        Some(m) => m,
        None => return Err(one_err(SemanticCheckError::InvalidReturn)),
    };
    match val {
        Some(v) => {
            if let ir::ReturnType::Type(t) = rt {
                if t == v.type_ {
                    return Ok(ir::Return { func, val: Some(v) });
                }
            }
            Err(one_err(SemanticCheckError::ReturnTypeMismatch))
        },
        None => {
            if rt == ir::ReturnType::Void {
                Ok(ir::Return { func, val: None })
            } else {
                Err(one_err(SemanticCheckError::ReturnTypeMismatch))
            }
        },
    }
}

fn get_ir_break(envs: &EnvStack) -> (r: IRResult<ir::Break>)
    ensures
        match r {
            Ok(b) => stmt_errs(envs.ctx(), ast::Statement::Break).len() == 0 && loop_target(
                nearest_loop(envs.types()),
            ) == Some(b),
            Err(es) => es@ == stmt_errs(envs.ctx(), ast::Statement::Break) && es@.len() > 0,
        },
{
    match envs.get_cur_scope_loop() {
        Some(EnvType::For(n)) => Ok(ir::Break::For(n)),
        Some(EnvType::While(n)) => Ok(ir::Break::While(n)),
        _ => Err(one_err(SemanticCheckError::InvalidBreak)),
    }
}

fn get_ir_continue(envs: &EnvStack) -> (r: IRResult<ir::Continue>)
    ensures
        match r {
            Ok(c) => stmt_errs(envs.ctx(), ast::Statement::Continue).len() == 0 && (loop_target(
                nearest_loop(envs.types()),
            ) matches Some(b) && continue_of(b) == c),
            Err(es) => es@ == stmt_errs(envs.ctx(), ast::Statement::Continue) && es@.len() > 0,
        },
{
    match envs.get_cur_scope_loop() {
        Some(EnvType::For(n)) => Ok(ir::Continue::For(n)),
        Some(EnvType::While(n)) => Ok(ir::Continue::While(n)),
        _ => Err(one_err(SemanticCheckError::InvalidContinue)),
    }
}

} // verus!

verus! {

fn get_ir_block(envs: &mut EnvStack, block: &ast::Block) -> (r: IRResult<ir::Block>)
    requires
        old(envs).wf(),
        old(envs).envs@.len() > 0,
    ensures
        kept(*old(envs), *final(envs)),
        final(envs).ctx() == declare_all(old(envs).ctx(), field_vars(block.field_decls@)).0,
        match r {
            Ok(b) => block_errs(old(envs).ctx(), *block).len() == 0 && block_wf(
                final(envs).decls@,
                final(envs).ctx().methods,
                frame_loop(*old(envs)),
                frame_method(*old(envs)),
                b,
            ) && block_matches(final(envs).decls@, *block, b),
            Err(es) => es@ == block_errs(old(envs).ctx(), *block) && es@.len() > 0,
        },
    decreases block, 0nat,
{
    proof {
        lemma_extends_refl(envs.decls@);
    }
    let ghost c0 = envs.ctx();
    let mut errors: Vec<SemanticCheckError> = Vec::new();
    let field_decls = match get_ir_field_decls(envs, &block.field_decls) {
        Err(mut e) => {
            errors.append(&mut e);
            None
        },
        Ok(f) => Some(f),
    };
    let ghost c2 = envs.ctx();
    let ghost e1 = errors@;
    let ghost mid = *envs;
    let ghost lp = frame_loop(*old(envs));
    let ghost fr = frame_method(*old(envs));
    proof {
        lemma_extends_refl(envs.decls@);
        lemma_declare_all_enclosing(c0, field_vars(block.field_decls@));
    }
    let mut statements: Vec<ir::Statement0> = Vec::new();
    let mut i: usize = 0;
    assert(block.statements@.subrange(0, 0) =~= Seq::<ast::Statement>::empty());
    assert(envs.types() == old(envs).types());
    assert(stmts_match(envs.decls@, block.statements@.subrange(0, 0), statements@));
    assert(errors@ =~= e1 + stmts_errs(c2, block.statements@.subrange(0, 0)));
    while i < block.statements.len()
        invariant
            kept(*old(envs), *envs),
            kept(mid, *envs),
            old(envs).envs@.len() > 0,
            envs.ctx() == c2,
            i <= block.statements@.len(),
            errors@ == e1 + stmts_errs(c2, block.statements@.subrange(0, i as int)),
            field_decls is None ==> e1.len() > 0,
            field_decls matches Some(f) ==> handles_wf(mid.decls@, f@),
            lp == frame_loop(*envs),
            fr == frame_method(*envs),
            stmts_wf(envs.decls@, c2.methods, lp, fr, statements@),
            errors@.len() == 0 ==> stmts_match(
                envs.decls@,
                block.statements@.subrange(0, i as int),
                statements@,
            ),
        decreases block.statements@.len() - i,
    {
        let ghost before = *envs;
        let ghost done = block.statements@.subrange(0, i as int + 1);
        assert(done.drop_last() =~= block.statements@.subrange(0, i as int));
        let ghost st0 = statements@;
        match get_ir_statement(envs, &block.statements[i]) {
            Err(mut e) => errors.append(&mut e),
            Ok(st) => statements.push(st),
        }
        proof {
            lemma_extends_refl(c2.methods);
            if errors@.len() == 0 {
                lemma_stmts_match_mono(
                    before.decls@,
                    envs.decls@,
                    c2.methods,
                    lp,
                    fr,
                    block.statements@.subrange(0, i as int),
                    st0,
                );
            }
            lemma_stmts_wf_mono(before.decls@, c2.methods, envs.decls@, c2.methods, lp, fr, st0);
            if statements@.len() > st0.len() {
                assert(statements@.drop_last() =~= st0);
                assert(done.last() == block.statements@[i as int]);
            } else {
                assert(statements@ =~= st0);
            }
        }
        assert(errors@ =~= e1 + stmts_errs(c2, done));
        proof {
            lemma_extends_trans(old(envs).decls@, before.decls@, envs.decls@);
            lemma_extends_trans(mid.decls@, before.decls@, envs.decls@);
        }
        i = i + 1;
    }
    assert(block.statements@.subrange(0, i as int) =~= block.statements@);
    if errors.len() == 0 {
        proof {
            lemma_handles_wf_mono(mid.decls@, envs.decls@, field_decls->Some_0@);
        }
        Ok(ir::Block { field_decls: field_decls.unwrap(), statements })
    } else {
        Err(errors)
    }
}

proof fn lemma_decls_of_mono(d1: Seq<VarDecl0>, d2: Seq<VarDecl0>, hs: Seq<ir::VarDecl>)
    requires
        extends(d1, d2),
        handles_wf(d1, hs),
    ensures
        decls_of(d2, hs) == decls_of(d1, hs),
{
    assert forall|k: int| 0 <= k < hs.len() implies d2[hs[k] as int] == d1[hs[k] as int] by {
        assert(d2[hs[k] as int] == d2.subrange(0, d1.len() as int)[hs[k] as int]);
    }
    assert(decls_of(d2, hs) =~= decls_of(d1, hs));
}

proof fn lemma_extends_refl<T>(a: Seq<T>)
    ensures
        extends(a, a),
{
    assert(a.subrange(0, a.len() as int) =~= a);
}

proof fn lemma_extends_trans<T>(a: Seq<T>, b: Seq<T>, c: Seq<T>)
    requires
        extends(a, b),
        extends(b, c),
    ensures
        extends(a, c),
{
    assert(c.subrange(0, a.len() as int) =~= b.subrange(0, a.len() as int));
}

fn get_ir_statement(envs: &mut EnvStack, statement: &ast::Statement) -> (r: IRResult<
    ir::Statement0,
>)
    requires
        old(envs).wf(),
        old(envs).envs@.len() > 0,
    ensures
        kept(*old(envs), *final(envs)),
        final(envs).ctx() == old(envs).ctx(),
        match r {
            Ok(x) => stmt_errs(old(envs).ctx(), *statement).len() == 0 && stmt_wf(
                final(envs).decls@,
                final(envs).ctx().methods,
                frame_loop(*old(envs)),
                frame_method(*old(envs)),
                x,
            ) && stmt_matches(final(envs).decls@, *statement, x),
            Err(es) => es@ == stmt_errs(old(envs).ctx(), *statement) && es@.len() > 0,
        },
    decreases statement, 0nat,
{
    proof {
        lemma_extends_refl(envs.decls@);
    }
    match statement {
        ast::Statement::Assign(assign) => match get_ir_assign(envs, assign) {
            Ok(a) => Ok(ir::Statement0::Assign(a)),
            Err(e) => Err(e),
        },
        ast::Statement::Break => match get_ir_break(envs) {
            Ok(b) => Ok(ir::Statement0::Break(b)),
            Err(e) => Err(e),
        },
        ast::Statement::Continue => match get_ir_continue(envs) {
            Ok(c) => Ok(ir::Statement0::Continue(c)),
            Err(e) => Err(e),
        },
        ast::Statement::IfElse(if_else) => match get_ir_if_else(envs, if_else) {
            Ok(ie) => Ok(ir::Statement0::IfElse(ie)),
            Err(e) => Err(e),
        },
        ast::Statement::Loop(fo) => match get_ir_for(envs, fo) {
            Ok(f) => Ok(ir::Statement0::For(f)),
            Err(e) => Err(e),
        },
        ast::Statement::MethodCall(method) => match get_ir_method_call(envs, method) {
            Ok(m) => Ok(ir::Statement0::MethodCall(m)),
            Err(e) => Err(e),
        },
        ast::Statement::Return(ret) => match get_ir_return(envs, ret) {
            Ok(r) => Ok(ir::Statement0::Return(r)),
            Err(e) => Err(e),
        },
        ast::Statement::While(whl) => match get_ir_while(envs, whl) {
            Ok(w) => Ok(ir::Statement0::While(w)),
            Err(e) => Err(e),
        },
    }
}

/// Analyses `block` in a new scope of type `t`, which is left again on every path.
fn get_ir_scoped_block(envs: &mut EnvStack, t: EnvType, block: &ast::Block) -> (r: IRResult<
    ir::Block,
>)
    requires
        old(envs).wf(),
    ensures
        kept(*old(envs), *final(envs)),
        final(envs).ctx() == old(envs).ctx(),
        match r {
            Ok(b) => block_errs(push_scope(old(envs).ctx(), kind_of(t)), *block).len() == 0
                && block_wf(
                final(envs).decls@,
                final(envs).ctx().methods,
                loop_target(nearest_loop(old(envs).types().push(t))),
                enclosing_method(push_scope(old(envs).ctx(), kind_of(t)).scopes),
                b,
            ) && block_matches(final(envs).decls@, *block, b),
            Err(es) => es@ == block_errs(push_scope(old(envs).ctx(), kind_of(t)), *block)
                && es@.len() > 0,
        },
    decreases block, 1nat,
{
    envs.push(t);
    let r = get_ir_block(envs, block);
    envs.pop();
    proof {
        lemma_scope_restored(old(envs).ctx(), kind_of(t), field_vars(block.field_decls@));
        assert(envs.types() =~= old(envs).types());
    }
    r
}

fn get_ir_if_else(envs: &mut EnvStack, if_else: &ast::IfElse) -> (r: IRResult<ir::IfElse0>)
    requires
        old(envs).wf(),
        old(envs).envs@.len() > 0,
    ensures
        kept(*old(envs), *final(envs)),
        final(envs).ctx() == old(envs).ctx(),
        match r {
            Ok(x) => stmt_errs(old(envs).ctx(), ast::Statement::IfElse(*if_else)).len() == 0 && stmt_wf(
                final(envs).decls@,
                final(envs).ctx().methods,
                frame_loop(*old(envs)),
                frame_method(*old(envs)),
                ir::Statement0::IfElse(x),
            ) && stmt_matches(
                final(envs).decls@,
                ast::Statement::IfElse(*if_else),
                ir::Statement0::IfElse(x),
            ),
            Err(es) => es@ == stmt_errs(old(envs).ctx(), ast::Statement::IfElse(*if_else))
                && es@.len() > 0,
        },
    decreases if_else, 0nat,
{
    proof {
        lemma_extends_refl(envs.decls@);
    }
    let cond = match get_ir_expr(envs, &*if_else.expr) {
        Ok(c) => c,
        Err(e) => return Err(e),
    };
    if cond.type_ != Type::Bool {
        return Err(one_err(SemanticCheckError::ConditionTypeShouldBool));
    }
    let node = envs.new_node(NodeKind::IfElse);
    proof {
        assert(old(envs).types().push(EnvType::If(node)).drop_last() =~= old(envs).types());
        assert(old(envs).types().push(EnvType::Else(node)).drop_last() =~= old(envs).types());
        lemma_push_enclosing(old(envs).ctx(), ScopeKind::Branch);
    }
    let if_block = match get_ir_scoped_block(envs, EnvType::If(node), &if_else.if_block) {
        Ok(b) => b,
        Err(e) => return Err(e),
    };
    let ghost e0 = *envs;
    proof {
        lemma_extends_refl(old(envs).ctx().methods);
        lemma_expr_wf_mono(
            old(envs).decls@,
            old(envs).ctx().methods,
            envs.decls@,
            envs.ctx().methods,
            *cond,
        );
        lemma_expr_matches_mono(
            old(envs).decls@,
            envs.decls@,
            old(envs).ctx().methods,
            *if_else.expr,
            *cond,
        );
    }
    let else_block = match &if_else.else_block {
        Some(b) => {
            let r = get_ir_scoped_block(envs, EnvType::Else(node), b);
            proof {
                lemma_extends_trans(old(envs).decls@, e0.decls@, envs.decls@);
                lemma_expr_matches_mono(
                    e0.decls@,
                    envs.decls@,
                    old(envs).ctx().methods,
                    *if_else.expr,
                    *cond,
                );
                lemma_block_matches_mono(
                    e0.decls@,
                    envs.decls@,
                    old(envs).ctx().methods,
                    frame_loop(*old(envs)),
                    frame_method(*old(envs)),
                    if_else.if_block,
                    if_block,
                );
                lemma_expr_wf_mono(
                    e0.decls@,
                    old(envs).ctx().methods,
                    envs.decls@,
                    envs.ctx().methods,
                    *cond,
                );
                lemma_block_wf_mono(
                    e0.decls@,
                    old(envs).ctx().methods,
                    envs.decls@,
                    envs.ctx().methods,
                    frame_loop(*old(envs)),
                    frame_method(*old(envs)),
                    if_block,
                );
            }
            match r {
                Ok(b) => Some(b),
                Err(e) => return Err(e),
            }
        },
        None => None,
    };
    Ok(ir::IfElse0 { node, cond, if_block: Some(if_block), else_block })
}

fn get_ir_for(envs: &mut EnvStack, lop: &ast::Loop) -> (r: IRResult<ir::For0>)
    requires
        old(envs).wf(),
        old(envs).envs@.len() > 0,
    ensures
        kept(*old(envs), *final(envs)),
        final(envs).ctx() == old(envs).ctx(),
        match r {
            Ok(x) => stmt_errs(old(envs).ctx(), ast::Statement::Loop(*lop)).len() == 0 && stmt_wf(
                final(envs).decls@,
                final(envs).ctx().methods,
                frame_loop(*old(envs)),
                frame_method(*old(envs)),
                ir::Statement0::For(x),
            ) && stmt_matches(final(envs).decls@, ast::Statement::Loop(*lop), ir::Statement0::For(x)),
            Err(es) => es@ == stmt_errs(old(envs).ctx(), ast::Statement::Loop(*lop)) && es@.len()
                > 0,
        },
    decreases lop, 0nat,
{
    proof {
        lemma_extends_refl(envs.decls@);
    }
    let id = match envs.get_var_decl(&lop.id) {
        Some(id) => id,
        None => return Err(one_err(SemanticCheckError::UsedBeforeDeclared(lop.id.clone()))),
    };
    proof {
        lemma_resolve_var_name(envs.ctx().scopes, lop.id@);
    }
    let init_expr = match get_ir_expr(envs, &*lop.init_expr) {
        Ok(i) => i,
        Err(e) => return Err(e),
    };
    if init_expr.type_ != Type::Int {
        return Err(one_err(SemanticCheckError::OperandsTypeMismatch));
    }
    let incre_expr = match get_ir_expr(envs, &*lop.incre_expr) {
        Ok(i) => i,
        Err(e) => return Err(e),
    };
    let update = match get_ir_for_update(envs, &lop.update) {
        Ok(u) => u,
        Err(e) => return Err(e),
    };
    let node = envs.new_node(NodeKind::For);
    proof {
        lemma_push_enclosing(old(envs).ctx(), ScopeKind::Loop);
    }
    let block = match get_ir_scoped_block(envs, EnvType::For(node), &lop.block) {
        Ok(b) => b,
        Err(e) => return Err(e),
    };
    proof {
        let g = old(envs).ctx().methods;
        lemma_extends_refl(g);
        lemma_expr_wf_mono(old(envs).decls@, g, envs.decls@, g, *init_expr);
        lemma_expr_wf_mono(old(envs).decls@, g, envs.decls@, g, *incre_expr);
        lemma_update_wf_mono(old(envs).decls@, g, envs.decls@, g, update);
        let (d1, d2) = (old(envs).decls@, envs.decls@);
        lemma_expr_matches_mono(d1, d2, g, *lop.init_expr, *init_expr);
        lemma_expr_matches_mono(d1, d2, g, *lop.incre_expr, *incre_expr);
        lemma_loc_matches_mono(d1, d2, g, lop.update.location, update.id);
        if lop.update.update_expr is AssignExpr {
            lemma_expr_matches_mono(
                d1,
                d2,
                g,
                *lop.update.update_expr->AssignExpr_0.expr,
                *update.update_expr->AssignExpr_0.expr,
            );
        }
        assert(d2[id as int] == d2.subrange(0, d1.len() as int)[id as int]);
    }
    Ok(ir::For0 { node, id, init_expr, incre_expr, update, block: Some(block) })
}

fn get_ir_while(envs: &mut EnvStack, whl: &ast::While) -> (r: IRResult<ir::While0>)
    requires
        old(envs).wf(),
        old(envs).envs@.len() > 0,
    ensures
        kept(*old(envs), *final(envs)),
        final(envs).ctx() == old(envs).ctx(),
        match r {
            Ok(x) => stmt_errs(old(envs).ctx(), ast::Statement::While(*whl)).len() == 0 && stmt_wf(
                final(envs).decls@,
                final(envs).ctx().methods,
                frame_loop(*old(envs)),
                frame_method(*old(envs)),
                ir::Statement0::While(x),
            ) && stmt_matches(final(envs).decls@, ast::Statement::While(*whl), ir::Statement0::While(x)),
            Err(es) => es@ == stmt_errs(old(envs).ctx(), ast::Statement::While(*whl)) && es@.len()
                > 0,
        },
    decreases whl, 0nat,
{
    proof {
        lemma_extends_refl(envs.decls@);
    }
    let cond = match get_ir_expr(envs, &*whl.expr) {
        Ok(expr) => expr,
        Err(e) => return Err(e),
    };
    if cond.type_ != Type::Bool {
        return Err(one_err(SemanticCheckError::ConditionTypeShouldBool));
    }
    let node = envs.new_node(NodeKind::While);
    proof {
        lemma_push_enclosing(old(envs).ctx(), ScopeKind::Loop);
    }
    let block = match get_ir_scoped_block(envs, EnvType::While(node), &whl.block) {
        Ok(b) => b,
        Err(e) => return Err(e),
    };
    proof {
        let g = old(envs).ctx().methods;
        lemma_extends_refl(g);
        lemma_expr_wf_mono(old(envs).decls@, g, envs.decls@, g, *cond);
        lemma_expr_matches_mono(old(envs).decls@, envs.decls@, g, *whl.expr, *cond);
    }
    Ok(ir::While0 { node, cond, block: Some(block) })
}

} // verus!

verus! {

fn get_ir_method_arg(arg: &ast::MethodArg) -> (r: VarDecl0)
    ensures
        r == (VarDecl0 { type_: type_of(arg.type_), id: arg.id, arr_len: None }),
{
    VarDecl0 { type_: ir::Type::from(&arg.type_), id: arg.id.clone(), arr_len: None }
}

/// Registers a method, then analyses its parameters and body in a new method scope.
fn get_ir_method_decl(envs: &mut EnvStack, method: &ast::MethodDecl) -> (r: IRResult<
    ir::MethodDecl0,
>)
    requires
        old(envs).wf(),
        nearest_loop(old(envs).types()) is None,
    ensures
        final(envs).wf(),
        final(envs).envs@.len() == old(envs).envs@.len(),
        final(envs).types() == old(envs).types(),
        final(envs).methods@.len() == old(envs).methods@.len() + 1,
        extends(old(envs).decls@, final(envs).decls@),
        final(envs).ctx() == method_check(old(envs).ctx(), *method).0,
        match r {
            Ok(m) => method_check(old(envs).ctx(), *method).1.len() == 0 && method_wf(
                final(envs).decls@,
                final(envs).ctx().methods,
                old(envs).methods@.len() as int,
                m,
            ) && sig_of_decl(final(envs).decls@, m) == sig_of(*method) && block_matches(final(envs).decls@,
                method.block,
                m.block->Some_0,
            ),
            Err(es) => es@ == method_check(old(envs).ctx(), *method).1 && es@.len() > 0,
        },
{
    let mut errors: Vec<SemanticCheckError> = Vec::new();
    let mut arg_decls: Vec<VarDecl0> = Vec::new();
    let mut arg_types: Vec<Type> = Vec::new();
    let ghost types = method.args@.map_values(|a: ast::MethodArg| type_of(a.type_));
    let mut i: usize = 0;
    while i < method.args.len()
        invariant
            i <= method.args@.len(),
            arg_decls@ == arg_vars(method.args@).subrange(0, i as int),
            arg_types@ == types.subrange(0, i as int),
            types == method.args@.map_values(|a: ast::MethodArg| type_of(a.type_)),
        decreases method.args@.len() - i,
    {
        arg_decls.push(get_ir_method_arg(&method.args[i]));
        arg_types.push(ir::Type::from(&method.args[i].type_));
        assert(arg_decls@ =~= arg_vars(method.args@).subrange(0, i as int + 1));
        assert(arg_types@ =~= types.subrange(0, i as int + 1));
        i = i + 1;
    }
    assert(arg_decls@ =~= arg_vars(method.args@));
    assert(arg_types@ =~= types);
    let return_type = ir::ReturnType::from(&method.return_type);
    let decl = envs.methods.len();
    let sig = MethodSig { name: method.id.clone(), return_type, arg_types };
    assert(sig@ == sig_of(*method));
    if let Err(e) = envs.add_method(sig) {
        errors.push(e);
    }
    let ghost c1 = envs.ctx();
    let ghost before_push = *envs;
    envs.push(EnvType::Method(decl, return_type));
    proof {
        assert(before_push.types().push(EnvType::Method(decl, return_type)).drop_last()
            =~= old(envs).types());
    }
    let ghost inner = envs.ctx();
    let ghost vs = arg_decls@;
    let ghost mut args_ok = true;
    let args = match declare_vars(envs, arg_decls) {
        Ok(ids) => ids,
        Err(mut e) => {
            errors.append(&mut e);
            proof {
                args_ok = false;
            }
            Vec::new()
        },
    };
    let ghost c2 = envs.ctx();
    let ghost d2 = envs.decls@;
    proof {
        lemma_declare_all_enclosing(inner, arg_vars(method.args@));
    }
    let block = get_ir_block(envs, &method.block);
    envs.pop();
    proof {
        lemma_declare_all_frame(inner, arg_vars(method.args@));
        lemma_declare_all_frame(c2, field_vars(method.block.field_decls@));
        assert(envs.ctx().scopes =~= c1.scopes);
        assert(envs.types() =~= old(envs).types());
        lemma_extends_trans(old(envs).decls@, d2, envs.decls@);
    }
    match block {
        Err(mut e) => {
            errors.append(&mut e);
            Err(errors)
        },
        Ok(b) => {
            if errors.len() == 0 {
                let m = ir::MethodDecl0 {
                    return_type,
                    name: method.id.clone(),
                    args,
                    block: Some(b),
                };
                proof {
                    assert(args_ok);
                    let df = envs.decls@;
                    assert forall|k: int| 0 <= k < m.args@.len() implies df[m.args@[k] as int]
                        == vs[k] by {
                        assert(df[m.args@[k] as int] == df.subrange(0, d2.len() as int)[m.args@[k]
                            as int]);
                    }
                    assert(sig_of_decl(df, m).params =~= sig_of(*method).params);
                }
                Ok(m)
            } else {
                Err(errors)
            }
        },
    }
}

fn get_ir_method_decls(envs: &mut EnvStack, methods: &Vec<ast::MethodDecl>) -> (r: IRResult<
    Vec<ir::MethodDecl0>,
>)
    requires
        old(envs).wf(),
        nearest_loop(old(envs).types()) is None,
        old(envs).methods@.len() == 0,
    ensures
        final(envs).wf(),
        final(envs).envs@.len() == old(envs).envs@.len(),
        final(envs).types() == old(envs).types(),
        extends(old(envs).decls@, final(envs).decls@),
        final(envs).ctx() == methods_check(old(envs).ctx(), methods@).0,
        match r {
            Ok(ms) => methods_check(old(envs).ctx(), methods@).1.len() == 0 && ms@.len()
                == final(envs).ctx().methods.len() && forall|i: int|
                0 <= i < ms@.len() ==> method_wf(
                    final(envs).decls@,
                    final(envs).ctx().methods,
                    i,
                    #[trigger] ms@[i],
                ) && sig_of_decl(final(envs).decls@, ms@[i]) == final(envs).ctx().methods[i]
                    && block_matches(final(envs).decls@, methods@[i].block, ms@[i].block->Some_0),
            Err(es) => es@ == methods_check(old(envs).ctx(), methods@).1 && es@.len() > 0,
        },
{
    let ghost c0 = envs.ctx();
    let mut errors: Vec<SemanticCheckError> = Vec::new();
    let mut method_decls: Vec<ir::MethodDecl0> = Vec::new();
    let mut i: usize = 0;
    proof {
        lemma_extends_refl(envs.decls@);
    }
    assert(methods@.subrange(0, 0) =~= Seq::<ast::MethodDecl>::empty());
    while i < methods.len()
        invariant
            envs.wf(),
            envs.envs@.len() == old(envs).envs@.len(),
            envs.types() == old(envs).types(),
            extends(old(envs).decls@, envs.decls@),
            i <= methods@.len(),
            methods_check(c0, methods@.subrange(0, i as int)) == (envs.ctx(), errors@),
            nearest_loop(old(envs).types()) is None,
            envs.methods@.len() == i,
            errors@.len() == 0 ==> method_decls@.len() == i && forall|k: int|
                0 <= k < i ==> method_wf(
                    envs.decls@,
                    envs.ctx().methods,
                    k,
                    #[trigger] method_decls@[k],
                ) && sig_of_decl(envs.decls@, method_decls@[k]) == envs.ctx().methods[k]
                    && block_matches(envs.decls@, methods@[k].block, method_decls@[k].block->Some_0),
        decreases methods@.len() - i,
    {
        let ghost s = methods@.subrange(0, i as int + 1);
        let ghost before = *envs;
        assert(s.drop_last() =~= methods@.subrange(0, i as int));
        let ghost md0 = method_decls@;
        match get_ir_method_decl(envs, &methods[i]) {
            Err(mut e) => errors.append(&mut e),
            Ok(m) => method_decls.push(m),
        }
        proof {
            lemma_extends_trans(old(envs).decls@, before.decls@, envs.decls@);
            let g1 = before.ctx().methods;
            let g2 = envs.ctx().methods;
            assert(g2.subrange(0, g1.len() as int) =~= g1);
            if errors@.len() == 0 {
                assert forall|k: int| 0 <= k < i implies method_wf(
                    envs.decls@,
                    g2,
                    k,
                    #[trigger] method_decls@[k],
                ) && sig_of_decl(envs.decls@, method_decls@[k]) == g2[k]
                    && block_matches(envs.decls@, methods@[k].block, method_decls@[k].block->Some_0) by {
                    assert(method_decls@[k] == md0[k]);
                    lemma_block_matches_mono(
                        before.decls@,
                        envs.decls@,
                        g1,
                        None,
                        Some((k as ir::MethodDecl, md0[k].return_type)),
                        methods@[k].block,
                        md0[k].block->Some_0,
                    );
                    lemma_method_wf_mono(before.decls@, g1, envs.decls@, g2, k, md0[k]);
                    assert(g2[k] == g2.subrange(0, g1.len() as int)[k]);
                }
            }
        }
        i = i + 1;
    }
    assert(methods@.subrange(0, i as int) =~= methods@);
    if errors.len() == 0 {
        Ok(method_decls)
    } else {
        Err(errors)
    }
}

impl SemanticAnalyzer {
    pub fn new() -> (r: Self) {
        SemanticAnalyzer {  }
    }

    /// Analyses a program: the preconditions first, and only if they hold the
    /// construction of the IR. The result is the IR exactly when the program breaks
    /// no rule; it is then well formed and follows the tree. Otherwise it is the
    /// complete list of errors, in the order in which the rules find them.
    pub fn create_ir(&self, p: ast::Program) -> (r: IRResult<ir::IRRoot>)
        ensures
            match r {
                Ok(ir) => program_errs(p).len() == 0 && ir_wf(ir) && ir_matches(p, ir),
                Err(es) => es@ == program_errs(p) && es@.len() > 0,
            },
    {
        if let Err(errors) = self.pre_check(&p) {
            return Err(errors);
        }
        self.construct_ir(p)
    }

    /// The whole-program preconditions, all checked and collected.
    pub fn pre_check(&self, p: &ast::Program) -> (r: IRResult<()>)
        ensures
            match r {
                Ok(_) => main_errs(*p).len() == 0,
                Err(es) => es@ == main_errs(*p) && es@.len() > 0,
            },
    {
        let errors = main_errors(p);
        if errors.len() == 0 {
            Ok(())
        } else {
            Err(errors)
        }
    }

    /// Builds the IR: imports, then fields, then methods, each group processed
    /// whole and all errors merged.
    pub fn construct_ir(&self, p: ast::Program) -> (r: IRResult<ir::IRRoot>)
        ensures
            match r {
                Ok(ir) => construct_errs(p).len() == 0 && ir_wf(ir) && ir_matches(p, ir),
                Err(es) => es@ == construct_errs(p) && es@.len() > 0,
            },
    {
        let mut envs = EnvStack::new();
        envs.push(EnvType::Global);
        proof {
            assert(envs.ctx().scopes[0].vars =~= Seq::<VarDecl0>::empty());
            assert(envs.ctx().scopes =~= global_ctx().scopes);
            assert(envs.ctx().methods =~= global_ctx().methods);
            assert(envs.types() =~= seq![EnvType::Global]);
            assert(envs.types().drop_last() =~= Seq::<EnvType>::empty());
            reveal_with_fuel(nearest_loop, 2);
            assert(nearest_loop(envs.types()) is None);
        }
        let mut errors: Vec<SemanticCheckError> = Vec::new();
        let import_decls = match get_ir_import_decls(&mut envs, &p.import_decls) {
            Err(mut e) => {
                errors.append(&mut e);
                None
            },
            Ok(imports) => Some(imports),
        };
        let ghost d_imports = envs.decls@;
        let field_decls = match get_ir_field_decls(&mut envs, &p.field_decls) {
            Err(mut e) => {
                errors.append(&mut e);
                None
            },
            Ok(fields) => Some(fields),
        };
        let ghost d_fields = envs.decls@;
        let ghost c_fields = envs.ctx();
        let method_decls = match get_ir_method_decls(&mut envs, &p.method_decls) {
            Err(mut e) => {
                errors.append(&mut e);
                None
            },
            Ok(methods) => Some(methods),
        };
        envs.pop();
        if errors.len() == 0 {
            let ir = ir::IRRoot {
                root: ir::ProgramDecl {
                    import_decls: import_decls.unwrap(),
                    field_decls: field_decls.unwrap(),
                    method_decls: method_decls.unwrap(),
                },
                decls: envs.decls,
            };
            proof {
                assert(sigs_of(ir) =~= envs.ctx().methods);
                crate::rules::lemma_methods_registered(c_fields, p.method_decls@);
                assert(envs.ctx().methods =~= p.method_decls@.map_values(
                    |m: ast::MethodDecl| sig_of(m),
                ));
                lemma_extends_trans(d_imports, d_fields, ir.decls@);
                lemma_decls_of_mono(d_imports, ir.decls@, ir.root.import_decls@);
                lemma_decls_of_mono(d_fields, ir.decls@, ir.root.field_decls@);
                lemma_handles_wf_mono(d_imports, ir.decls@, ir.root.import_decls@);
                lemma_handles_wf_mono(d_fields, ir.decls@, ir.root.field_decls@);
            }
            Ok(ir)
        } else {
            Err(errors)
        }
    }
}

} // verus!
