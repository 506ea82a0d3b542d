use decafc::ast;
use decafc::ir::{AssignOp, BinaryOp, CompoundAssignOp, Increment, Literal, ReturnType, Type};

#[test]
fn operator_result_types() {
    assert_eq!(BinaryOp::from(&ast::BinaryOp::ArithOp(ast::ArithOp::Mod)), BinaryOp::Mod);
    assert_eq!(BinaryOp::from(&ast::BinaryOp::RelOp(ast::RelOp::GreaterEq)), BinaryOp::GE);
    assert_eq!(BinaryOp::from(&ast::BinaryOp::CondOp(ast::CondOp::Or)), BinaryOp::Or);
    assert_eq!(BinaryOp::Mod.get_return_type(), Type::Int);
    assert_eq!(BinaryOp::GE.get_return_type(), Type::Bool);
    assert_eq!(BinaryOp::NE.get_return_type(), Type::Bool);
    assert_eq!(BinaryOp::And.get_return_type(), Type::Bool);
}

#[test]
fn return_and_value_types() {
    assert_eq!(ReturnType::from(&ast::ReturnType::Type(ast::Type::Bool)), ReturnType::Type(Type::Bool));
    assert_eq!(ReturnType::to_type(&ReturnType::Void), Type::Void);
    assert_eq!(ReturnType::to_type(&ReturnType::Type(Type::Int)), Type::Int);
    assert_eq!(Type::from(&ast::Type::Int), Type::Int);
}

#[test]
fn literal_and_assignment_forms() {
    assert_eq!(Literal::from(&ast::Literal::BoolLiteral(ast::BoolLiteral::False)), Literal::BoolLiteral(false));
    assert_eq!(Literal::from(&ast::Literal::CharLiteral('q')), Literal::CharLiteral('q'));
    assert_eq!(Literal::from(&ast::Literal::IntLiteral(-7)), Literal::IntLiteral(-7));
    assert_eq!(
        AssignOp::from(&ast::AssignOp::CompoundAssignOp(ast::CompoundAssignOp::SubAssign)),
        AssignOp::CompoundAssignOp(CompoundAssignOp::SubAssign)
    );
    assert_eq!(Increment::from(&ast::Increment::SelfSub), Increment::SelfSub);
}
