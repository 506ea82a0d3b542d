use decafc::ast::{
    Assign, AssignExpr, AssignOpExpr, AssignOp, BinaryOp, Block, Expr, Expr_, FieldDecl,
    FieldDeclId, IdExpr, IfElse, ImportArg, ImportDecl, Increment, Literal, BoolLiteral, Location,
    Loop, MethodArg, MethodCall, MethodCall0, MethodCall1, MethodDecl, MethodName, Program,
    RelOp, ArithOp, ForUpdate, ForUpdateExpr, Return, ReturnType, Statement, Type, Unary,
    UnaryOp, While, Binary, CondOp, EqOp,
};
use decafc::errors::SemanticCheckError;
use decafc::ir::{Break as IrBreak, IRRoot, Statement0, Type as IrType};
use decafc::SemanticAnalyzer;

fn s(x: &str) -> String {
    x.to_string()
}

fn num(n: i32) -> Expr {
    Box::new(Expr_::Literal(Literal::IntLiteral(n)))
}

fn boolean(b: bool) -> Expr {
    Box::new(Expr_::Literal(Literal::BoolLiteral(if b { BoolLiteral::True } else { BoolLiteral::False })))
}

fn var(name: &str) -> Expr {
    Box::new(Expr_::Location(Location::Id(s(name))))
}

fn elem(name: &str, index: Expr) -> Expr {
    Box::new(Expr_::Location(Location::IdExpr(IdExpr { id: s(name), expr: index })))
}

fn bin(lhs: Expr, op: BinaryOp, rhs: Expr) -> Expr {
    Box::new(Expr_::Binary(Binary { lhs, rhs, op }))
}

fn call(name: &str, args: Vec<Expr>) -> MethodCall {
    MethodCall::Method(MethodCall0 { name: MethodName { id: s(name) }, args })
}

fn call_expr(name: &str, args: Vec<Expr>) -> Expr {
    Box::new(Expr_::MethodCall(call(name, args)))
}

fn assign(loc: Location, e: Expr) -> Statement {
    Statement::Assign(Assign {
        location: loc,
        assign_expr: AssignExpr::AssignOpExpr(AssignOpExpr { assign_op: AssignOp::Assign, expr: e }),
    })
}

fn set(name: &str, e: Expr) -> Statement {
    assign(Location::Id(s(name)), e)
}

fn fields(t: Type, names: &[(&str, Option<i32>)]) -> FieldDecl {
    FieldDecl {
        type_: t,
        field_ids: names.iter().map(|(n, l)| FieldDeclId { id: s(n), arr_len: *l }).collect(),
    }
}

fn block(field_decls: Vec<FieldDecl>, statements: Vec<Statement>) -> Block {
    Block { field_decls, statements }
}

fn method(ret: ReturnType, name: &str, args: &[(Type, &str)], body: Block) -> MethodDecl {
    MethodDecl {
        return_type: ret,
        id: s(name),
        args: args.iter().map(|(t, n)| MethodArg { type_: *t, id: s(n) }).collect(),
        block: body,
    }
}

fn main_with(body: Block) -> MethodDecl {
    method(ReturnType::Void, "main", &[], body)
}

fn program(field_decls: Vec<FieldDecl>, method_decls: Vec<MethodDecl>) -> Program {
    Program { import_decls: Vec::new(), field_decls, method_decls }
}

fn analyze(p: Program) -> Result<IRRoot, Vec<SemanticCheckError>> {
    SemanticAnalyzer::new().create_ir(p)
}

fn errors_of(p: Program) -> Vec<SemanticCheckError> {
    match analyze(p) {
        Ok(_) => panic!("expected errors"),
        Err(e) => e,
    }
}

fn for_loop(var_name: &str, init: Expr, cond: Expr, body: Block) -> Statement {
    Statement::Loop(Loop {
        id: s(var_name),
        init_expr: init,
        incre_expr: cond,
        update: ForUpdate {
            location: Location::Id(s(var_name)),
            update_expr: ForUpdateExpr::Increment(Increment::SelfAdd),
        },
        block: body,
    })
}

#[test]
fn two_main_methods_give_only_main_not_unique() {
    let p = program(vec![], vec![main_with(block(vec![], vec![])), main_with(block(vec![], vec![]))]);
    assert_eq!(errors_of(p), vec![SemanticCheckError::MainMethodShouldOnlyOne]);
}

#[test]
fn array_assigned_without_index() {
    let p = program(
        vec![fields(Type::Int, &[("a", Some(5))])],
        vec![main_with(block(vec![], vec![set("a", num(3))]))],
    );
    assert_eq!(errors_of(p), vec![SemanticCheckError::LocationTypeMismatch]);
}

#[test]
fn int_condition_is_rejected() {
    let body = block(
        vec![fields(Type::Int, &[("a", None)])],
        vec![Statement::IfElse(IfElse { expr: var("a"), if_block: block(vec![], vec![]), else_block: None })],
    );
    let p = program(vec![], vec![main_with(body)]);
    assert_eq!(errors_of(p), vec![SemanticCheckError::ConditionTypeShouldBool]);
}

#[test]
fn break_outside_loop() {
    let p = program(vec![], vec![main_with(block(vec![], vec![Statement::Break]))]);
    assert_eq!(errors_of(p), vec![SemanticCheckError::InvalidBreak]);
}

#[test]
fn continue_outside_loop() {
    let p = program(vec![], vec![main_with(block(vec![], vec![Statement::Continue]))]);
    assert_eq!(errors_of(p), vec![SemanticCheckError::InvalidContinue]);
}

#[test]
fn int_result_assigned_to_bool() {
    let f = method(
        ReturnType::Type(Type::Int),
        "f",
        &[(Type::Int, "x")],
        block(vec![], vec![Statement::Return(Return {
            expr: Some(bin(var("x"), BinaryOp::ArithOp(ArithOp::Add), num(1))),
        })]),
    );
    let m = main_with(block(vec![fields(Type::Bool, &[("b", None)])], vec![set("b", call_expr("f", vec![num(1)]))]));
    assert_eq!(errors_of(program(vec![], vec![f, m])), vec![SemanticCheckError::OperandsTypeMismatch]);
}

#[test]
fn bool_for_init_stops_before_the_body() {
    let body = block(vec![], vec![set("undeclared", num(1))]);
    let m = main_with(block(
        vec![fields(Type::Int, &[("i", None)])],
        vec![for_loop("i", boolean(true), bin(var("i"), BinaryOp::RelOp(RelOp::Less), num(10)), body)],
    ));
    assert_eq!(errors_of(program(vec![], vec![m])), vec![SemanticCheckError::OperandsTypeMismatch]);
}

#[test]
fn inner_declaration_shadows_outer() {
    let inner = block(vec![fields(Type::Bool, &[("x", None)])], vec![set("x", boolean(true))]);
    let m = main_with(block(
        vec![],
        vec![
            Statement::IfElse(IfElse { expr: boolean(true), if_block: inner, else_block: None }),
            set("x", num(1)),
        ],
    ));
    assert!(analyze(program(vec![fields(Type::Int, &[("x", None)])], vec![m])).is_ok());
}

#[test]
fn inner_declaration_does_not_leak() {
    let inner = block(vec![fields(Type::Bool, &[("y", None)])], vec![]);
    let m = main_with(block(
        vec![],
        vec![
            Statement::IfElse(IfElse { expr: boolean(true), if_block: inner, else_block: None }),
            set("y", boolean(true)),
        ],
    ));
    assert_eq!(errors_of(program(vec![], vec![m])), vec![SemanticCheckError::UsedBeforeDeclared(s("y"))]);
}

#[test]
fn method_calls_itself() {
    let f = method(
        ReturnType::Type(Type::Int),
        "f",
        &[(Type::Int, "n")],
        block(vec![], vec![Statement::Return(Return { expr: Some(call_expr("f", vec![var("n")])) })]),
    );
    assert!(analyze(program(vec![], vec![f, main_with(block(vec![], vec![]))])).is_ok());
}

#[test]
fn call_of_later_method_fails() {
    let g = method(ReturnType::Void, "g", &[], block(vec![], vec![Statement::MethodCall(call("h", vec![]))]));
    let h = method(ReturnType::Void, "h", &[], block(vec![], vec![]));
    let p = program(vec![], vec![g, h, main_with(block(vec![], vec![]))]);
    assert_eq!(errors_of(p), vec![SemanticCheckError::UsedBeforeDeclared(s("h"))]);
}

fn sample_program() -> Program {
    // int A[10]; int n;
    // int sum(int k) { int i, t; t = 0; for (i = 0; i < k; i++) { if (A[i] > 0) { t += A[i]; } else { continue; } } return t; }
    // void main() { int r; bool done; n = 10; r = sum(n); done = r == 0 || !(r < 0); while (!done) { done = true; break; } callout("printf", "%d", r, len A); }
    let loop_body = block(
        vec![],
        vec![Statement::IfElse(IfElse {
            expr: bin(elem("A", var("i")), BinaryOp::RelOp(RelOp::Greater), num(0)),
            if_block: block(vec![], vec![Statement::Assign(Assign {
                location: Location::Id(s("t")),
                assign_expr: AssignExpr::AssignOpExpr(AssignOpExpr {
                    assign_op: AssignOp::CompoundAssignOp(decafc::ast::CompoundAssignOp::AddAssign),
                    expr: elem("A", var("i")),
                }),
            })]),
            else_block: Some(block(vec![], vec![Statement::Continue])),
        })],
    );
    let sum = method(
        ReturnType::Type(Type::Int),
        "sum",
        &[(Type::Int, "k")],
        block(
            vec![fields(Type::Int, &[("i", None), ("t", None)])],
            vec![
                set("t", num(0)),
                for_loop("i", num(0), bin(var("i"), BinaryOp::RelOp(RelOp::Less), var("k")), loop_body),
                Statement::Return(Return { expr: Some(var("t")) }),
            ],
        ),
    );
    let done_expr = bin(
        bin(var("r"), BinaryOp::EqOp(EqOp::EQ), num(0)),
        BinaryOp::CondOp(CondOp::Or),
        Box::new(Expr_::Unary(Unary {
            expr: bin(var("r"), BinaryOp::RelOp(RelOp::Less), num(0)),
            op: UnaryOp::NegBool,
        })),
    );
    let m = main_with(block(
        vec![fields(Type::Int, &[("r", None)]), fields(Type::Bool, &[("done", None)])],
        vec![
            set("n", num(10)),
            set("r", call_expr("sum", vec![var("n")])),
            set("done", done_expr),
            Statement::While(While {
                expr: Box::new(Expr_::Unary(Unary { expr: var("done"), op: UnaryOp::NegBool })),
                block: block(vec![], vec![set("done", boolean(true)), Statement::Break]),
            }),
            Statement::MethodCall(MethodCall::CallOut(MethodCall1 {
                name: MethodName { id: s("printf") },
                args: vec![
                    ImportArg::StringLiteral(s("%d")),
                    ImportArg::Expr(var("r")),
                    ImportArg::Expr(Box::new(Expr_::LenId(s("A")))),
                ],
            })),
        ],
    ));
    Program {
        import_decls: vec![ImportDecl { id: s("printf_count") }],
        field_decls: vec![fields(Type::Int, &[("A", Some(10)), ("n", None)])],
        method_decls: vec![sum, m],
    }
}

#[test]
fn valid_program_gives_ir() {
    let ir = analyze(sample_program()).expect("valid program");
    assert_eq!(ir.root.method_decls.len(), 2);
    assert_eq!(ir.root.import_decls.len(), 1);
    assert_eq!(ir.root.field_decls.len(), 2);
}

#[test]
fn analysis_is_repeatable() {
    let a = analyze(sample_program()).expect("valid program");
    let b = analyze(sample_program()).expect("valid program");
    assert_eq!(format!("{:?}", a), format!("{:?}", b));
}

fn void_method(name: &str, args: &[(Type, &str)], body: Block) -> MethodDecl {
    method(ReturnType::Void, name, args, body)
}

fn empty() -> Block {
    block(vec![], vec![])
}

#[test]
fn duplicated_variable_in_one_scope() {
    let p = program(
        vec![fields(Type::Int, &[("a", None)]), fields(Type::Bool, &[("a", None)])],
        vec![main_with(empty())],
    );
    assert_eq!(errors_of(p), vec![SemanticCheckError::DuplicatedVar(s("a"))]);
}

#[test]
fn parameter_and_local_share_a_scope() {
    let f = void_method("f", &[(Type::Int, "x")], block(vec![fields(Type::Int, &[("x", None)])], vec![]));
    let p = program(vec![], vec![f, main_with(empty())]);
    assert_eq!(errors_of(p), vec![SemanticCheckError::DuplicatedVar(s("x"))]);
}

#[test]
fn duplicated_method() {
    let p = program(vec![], vec![void_method("f", &[], empty()), void_method("f", &[], empty()), main_with(empty())]);
    assert_eq!(errors_of(p), vec![SemanticCheckError::DuplicatedMethod(s("f"))]);
}

#[test]
fn missing_main() {
    let p = program(vec![], vec![void_method("f", &[], empty())]);
    assert_eq!(errors_of(p), vec![SemanticCheckError::MainMethodShouldOnlyOne]);
}

#[test]
fn main_with_parameters() {
    let p = program(vec![], vec![void_method("main", &[(Type::Int, "x")], empty())]);
    assert_eq!(errors_of(p), vec![SemanticCheckError::MainMethodArgsShouldEmpty]);
}

#[test]
fn main_failing_two_preconditions_reports_both() {
    let p = program(vec![], vec![method(ReturnType::Type(Type::Int), "main", &[(Type::Int, "x")], empty())]);
    assert_eq!(
        errors_of(p),
        vec![SemanticCheckError::MainMethodArgsShouldEmpty, SemanticCheckError::MainMethodShouldReturnVoid]
    );
}

#[test]
fn preconditions_gate_construction() {
    // the undeclared name would be reported if construction ran
    let p = program(vec![], vec![method(ReturnType::Type(Type::Bool), "main", &[], block(vec![], vec![set("zz", num(1))]))]);
    assert_eq!(errors_of(p), vec![SemanticCheckError::MainMethodShouldReturnVoid]);
}

#[test]
fn zero_array_length() {
    let p = program(vec![fields(Type::Int, &[("a", Some(0)), ("b", Some(-2)), ("c", Some(1))])], vec![main_with(empty())]);
    assert_eq!(
        errors_of(p),
        vec![SemanticCheckError::ArrayLenShouldPositive(s("a")), SemanticCheckError::ArrayLenShouldPositive(s("b"))]
    );
}

#[test]
fn length_of_scalar() {
    let m = main_with(block(
        vec![fields(Type::Int, &[("b", None), ("c", None)])],
        vec![set("c", Box::new(Expr_::LenId(s("b"))))],
    ));
    assert_eq!(errors_of(program(vec![], vec![m])), vec![SemanticCheckError::IdMustArray(s("b"))]);
}

#[test]
fn length_of_undeclared() {
    let m = main_with(block(vec![fields(Type::Int, &[("c", None)])], vec![set("c", Box::new(Expr_::LenId(s("q"))))]));
    assert_eq!(errors_of(program(vec![], vec![m])), vec![SemanticCheckError::UsedBeforeDeclared(s("q"))]);
}

#[test]
fn bool_array_index() {
    let m = main_with(block(vec![], vec![assign(Location::IdExpr(IdExpr { id: s("a"), expr: boolean(true) }), num(1))]));
    let p = program(vec![fields(Type::Int, &[("a", Some(3))])], vec![m]);
    assert_eq!(errors_of(p), vec![SemanticCheckError::TypeOfExprMustInt(s("a"))]);
}

#[test]
fn scalar_with_index() {
    let m = main_with(block(vec![], vec![assign(Location::IdExpr(IdExpr { id: s("b"), expr: num(0) }), num(1))]));
    let p = program(vec![fields(Type::Int, &[("b", None)])], vec![m]);
    assert_eq!(errors_of(p), vec![SemanticCheckError::LocationTypeMismatch]);
}

#[test]
fn wrong_argument_count() {
    let f = void_method("f", &[(Type::Int, "x")], empty());
    let m = main_with(block(vec![], vec![Statement::MethodCall(call("f", vec![]))]));
    assert_eq!(errors_of(program(vec![], vec![f, m])), vec![SemanticCheckError::MethodSignatureMismatch]);
}

#[test]
fn wrong_argument_type() {
    let f = void_method("f", &[(Type::Int, "x"), (Type::Bool, "y")], empty());
    let m = main_with(block(vec![], vec![Statement::MethodCall(call("f", vec![num(1), num(2)]))]));
    assert_eq!(errors_of(program(vec![], vec![f, m])), vec![SemanticCheckError::InvalidMethodArgs]);
}

#[test]
fn void_method_returning_value() {
    let m = main_with(block(vec![], vec![Statement::Return(Return { expr: Some(num(1)) })]));
    assert_eq!(errors_of(program(vec![], vec![m])), vec![SemanticCheckError::ReturnTypeMismatch]);
}

#[test]
fn int_method_returning_nothing() {
    let f = method(ReturnType::Type(Type::Int), "f", &[], block(vec![], vec![Statement::Return(Return { expr: None })]));
    assert_eq!(errors_of(program(vec![], vec![f, main_with(empty())])), vec![SemanticCheckError::ReturnTypeMismatch]);
}

#[test]
fn int_method_returning_bool() {
    let f = method(ReturnType::Type(Type::Int), "f", &[], block(vec![], vec![Statement::Return(Return { expr: Some(boolean(false)) })]));
    assert_eq!(errors_of(program(vec![], vec![f, main_with(empty())])), vec![SemanticCheckError::ReturnTypeMismatch]);
}

#[test]
fn negating_a_bool_arithmetically() {
    let e = Box::new(Expr_::Unary(Unary { expr: boolean(true), op: UnaryOp::NegInt }));
    let m = main_with(block(vec![fields(Type::Int, &[("x", None)])], vec![set("x", e)]));
    assert_eq!(errors_of(program(vec![], vec![m])), vec![SemanticCheckError::OperandsTypeMismatch]);
}

#[test]
fn logical_operator_on_ints() {
    let e = bin(num(1), BinaryOp::CondOp(CondOp::And), num(2));
    let m = main_with(block(vec![fields(Type::Bool, &[("b", None)])], vec![set("b", e)]));
    assert_eq!(errors_of(program(vec![], vec![m])), vec![SemanticCheckError::OperandsTypeMismatch]);
}

#[test]
fn mixed_operand_types() {
    let e = bin(num(1), BinaryOp::EqOp(EqOp::EQ), boolean(true));
    let m = main_with(block(vec![fields(Type::Bool, &[("b", None)])], vec![set("b", e)]));
    assert_eq!(errors_of(program(vec![], vec![m])), vec![SemanticCheckError::OperandsTypeMismatch]);
}

#[test]
fn equality_of_bools_is_bool() {
    let e = bin(boolean(false), BinaryOp::EqOp(EqOp::NE), boolean(true));
    let m = main_with(block(vec![fields(Type::Bool, &[("b", None)])], vec![set("b", e)]));
    assert!(analyze(program(vec![], vec![m])).is_ok());
}

#[test]
fn relational_result_is_not_int() {
    let e = bin(num(1), BinaryOp::RelOp(RelOp::LessEq), num(2));
    let m = main_with(block(vec![fields(Type::Int, &[("x", None)])], vec![set("x", e)]));
    assert_eq!(errors_of(program(vec![], vec![m])), vec![SemanticCheckError::OperandsTypeMismatch]);
}

#[test]
fn compound_assignment_to_bool() {
    let st = Statement::Assign(Assign {
        location: Location::Id(s("b")),
        assign_expr: AssignExpr::AssignOpExpr(AssignOpExpr {
            assign_op: AssignOp::CompoundAssignOp(decafc::ast::CompoundAssignOp::SubAssign),
            expr: num(1),
        }),
    });
    let m = main_with(block(vec![fields(Type::Bool, &[("b", None)])], vec![st]));
    assert_eq!(errors_of(program(vec![], vec![m])), vec![SemanticCheckError::OperandsTypeMismatch]);
}

#[test]
fn increment_of_bool() {
    let st = Statement::Assign(Assign { location: Location::Id(s("b")), assign_expr: AssignExpr::Increment(Increment::SelfSub) });
    let m = main_with(block(vec![fields(Type::Bool, &[("b", None)])], vec![st]));
    assert_eq!(errors_of(program(vec![], vec![m])), vec![SemanticCheckError::OperandsTypeMismatch]);
}

#[test]
fn sibling_statements_accumulate_errors() {
    let m = main_with(block(vec![], vec![set("a", num(1)), Statement::Break, set("b", num(2))]));
    assert_eq!(
        errors_of(program(vec![], vec![m])),
        vec![
            SemanticCheckError::UsedBeforeDeclared(s("a")),
            SemanticCheckError::InvalidBreak,
            SemanticCheckError::UsedBeforeDeclared(s("b")),
        ]
    );
}

#[test]
fn sibling_groups_accumulate_errors() {
    let f = void_method("f", &[], block(vec![], vec![Statement::Continue]));
    let p = Program {
        import_decls: vec![ImportDecl { id: s("x") }, ImportDecl { id: s("x") }],
        field_decls: vec![fields(Type::Int, &[("z", Some(0))])],
        method_decls: vec![f, main_with(empty())],
    };
    assert_eq!(
        errors_of(p),
        vec![
            SemanticCheckError::DuplicatedVar(s("x")),
            SemanticCheckError::ArrayLenShouldPositive(s("z")),
            SemanticCheckError::InvalidContinue,
        ]
    );
}

#[test]
fn both_operands_are_checked() {
    let m = main_with(block(vec![fields(Type::Int, &[("x", None)])], vec![set("x", bin(var("a"), BinaryOp::ArithOp(ArithOp::Mul), var("b")))]));
    assert_eq!(
        errors_of(program(vec![], vec![m])),
        vec![SemanticCheckError::UsedBeforeDeclared(s("a")), SemanticCheckError::UsedBeforeDeclared(s("b"))]
    );
}

#[test]
fn call_arguments_stop_at_first_failure() {
    let f = void_method("f", &[(Type::Int, "x"), (Type::Int, "y")], empty());
    let m = main_with(block(vec![], vec![Statement::MethodCall(call("f", vec![var("a"), var("b")]))]));
    assert_eq!(errors_of(program(vec![], vec![f, m])), vec![SemanticCheckError::UsedBeforeDeclared(s("a"))]);
}

#[test]
fn callout_arguments_stop_at_first_failure() {
    let st = Statement::MethodCall(MethodCall::CallOut(MethodCall1 {
        name: MethodName { id: s("printf") },
        args: vec![ImportArg::StringLiteral(s("x")), ImportArg::Expr(var("a")), ImportArg::Expr(var("b"))],
    }));
    let m = main_with(block(vec![], vec![st]));
    assert_eq!(errors_of(program(vec![], vec![m])), vec![SemanticCheckError::UsedBeforeDeclared(s("a"))]);
}

#[test]
fn int_while_condition() {
    let st = Statement::While(While { expr: num(1), block: block(vec![], vec![Statement::Break]) });
    assert_eq!(errors_of(program(vec![], vec![main_with(block(vec![], vec![st]))])), vec![SemanticCheckError::ConditionTypeShouldBool]);
}

#[test]
fn for_over_undeclared_variable() {
    let st = for_loop("i", num(0), boolean(true), empty());
    assert_eq!(errors_of(program(vec![], vec![main_with(block(vec![], vec![st]))])), vec![SemanticCheckError::UsedBeforeDeclared(s("i"))]);
}

#[test]
fn failing_if_branch_skips_else() {
    let st = Statement::IfElse(IfElse {
        expr: boolean(true),
        if_block: block(vec![], vec![set("a", num(1))]),
        else_block: Some(block(vec![], vec![set("b", num(1))])),
    });
    assert_eq!(errors_of(program(vec![], vec![main_with(block(vec![], vec![st]))])), vec![SemanticCheckError::UsedBeforeDeclared(s("a"))]);
}

#[test]
fn continue_inside_branch_inside_loop() {
    let inner = Statement::IfElse(IfElse { expr: boolean(true), if_block: block(vec![], vec![Statement::Continue]), else_block: None });
    let st = Statement::While(While { expr: boolean(true), block: block(vec![], vec![inner]) });
    assert!(analyze(program(vec![], vec![main_with(block(vec![], vec![st]))])).is_ok());
}

#[test]
fn break_names_its_loop() {
    let ir = analyze(sample_program()).expect("valid program");
    let main = &ir.root.method_decls[1];
    let stmts = &main.block.as_ref().unwrap().statements;
    let w = match &stmts[3] {
        Statement0::While(w) => w,
        _ => panic!("expected a while"),
    };
    let body = &w.block.as_ref().unwrap().statements;
    match &body[1] {
        Statement0::Break(IrBreak::While(n)) => assert_eq!(*n, w.node),
        _ => panic!("expected a break of the while"),
    }
}

#[test]
fn locations_name_their_declarations() {
    let ir = analyze(sample_program()).expect("valid program");
    let main = &ir.root.method_decls[1];
    let stmts = &main.block.as_ref().unwrap().statements;
    match &stmts[0] {
        Statement0::Assign(a) => {
            assert_eq!(ir.decls[a.dst.id].id, "n");
            assert_eq!(ir.decls[a.dst.id].type_, IrType::Int);
            assert_eq!(a.dst.id, ir.root.field_decls[1]);
        }
        _ => panic!("expected an assignment"),
    }
}

#[test]
fn pre_check_alone() {
    let a = SemanticAnalyzer::new();
    let p = program(vec![], vec![main_with(empty())]);
    assert!(a.pre_check(&p).is_ok());
    assert_eq!(decafc::pre_check::check_main(&p), Ok(()));
    let q = program(vec![], vec![]);
    assert_eq!(a.pre_check(&q).unwrap_err(), vec![SemanticCheckError::MainMethodShouldOnlyOne]);
    assert_eq!(decafc::pre_check::check_main(&q), Err(SemanticCheckError::MainMethodShouldOnlyOne));
}

#[test]
fn construct_ir_without_preconditions() {
    let p = program(vec![fields(Type::Int, &[("a", None)])], vec![]);
    let ir = SemanticAnalyzer::new().construct_ir(p).expect("no errors");
    assert_eq!(ir.decls.len(), 1);
}
