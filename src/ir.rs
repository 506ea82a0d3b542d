//! The typed, resolved intermediate representation.
//!
//! Declarations are kept in arenas and referred to by handle: a variable by its
//! index in `IRRoot::decls`, a method by its index in `ProgramDecl::method_decls`,
//! a loop or branch node by the number it was given when it was created.
use vstd::prelude::*;
use crate::ast;

verus! {

pub type Id = String;

/// Handle of a variable declaration: its index in the declaration arena.
pub type VarDecl = usize;

/// Handle of a method declaration: its index in the program's method list.
pub type MethodDecl = usize;

/// Handle of a loop or branch node.
pub type NodeId = usize;

pub type Expr = Box<Expr0>;

#[derive(Debug)]
pub struct IRRoot {
    pub root: ProgramDecl,
    /// Every variable declaration of the program, indexed by `VarDecl`.
    pub decls: Vec<VarDecl0>,
}

#[derive(Debug)]
pub struct ProgramDecl {
    pub import_decls: Vec<VarDecl>,
    pub field_decls: Vec<VarDecl>,
    pub method_decls: Vec<MethodDecl0>,
}

#[derive(Debug, Clone)]
pub struct VarDecl0 {
    pub type_: Type,
    pub id: Id,
    pub arr_len: Option<i32>,
}

#[derive(Debug)]
pub struct MethodDecl0 {
    pub return_type: ReturnType,
    pub name: Id,
    pub args: Vec<VarDecl>,
    pub block: Option<Block>,
}

#[derive(Debug, Clone, Copy, PartialEq, Eq, Structural)]
pub enum ReturnType {
    Type(Type),
    Void,
}

pub open spec fn return_type_of(t: ast::ReturnType) -> ReturnType {
    match t {
        ast::ReturnType::Type(tt) => ReturnType::Type(type_of(tt)),
        ast::ReturnType::Void => ReturnType::Void,
    }
}

/// The type of a value of a method with this return type (`Void` for void).
pub open spec fn value_type(t: ReturnType) -> Type {
    match t {
        ReturnType::Type(tt) => tt,
        ReturnType::Void => Type::Void,
    }
}

impl ReturnType {
    pub fn from(t: &ast::ReturnType) -> (r: Self)
        ensures
            r == return_type_of(*t),
    {
        match t {
            ast::ReturnType::Type(tt) => ReturnType::Type(Type::from(tt)),
            ast::ReturnType::Void => ReturnType::Void,
        }
    }

    pub fn to_type(t: &ReturnType) -> (r: Type)
        ensures
            r == value_type(*t),
    {
        match t {
            ReturnType::Type(tt) => *tt,
            ReturnType::Void => Type::Void,
        }
    }
}

#[derive(Debug, Clone, Copy, PartialEq, Eq, Structural)]
pub enum Type {
    Int,
    Bool,
    Char,
    Void,
}

pub open spec fn type_of(t: ast::Type) -> Type {
    match t {
        ast::Type::Int => Type::Int,
        ast::Type::Bool => Type::Bool,
    }
}

impl Type {
    pub fn from(t: &ast::Type) -> (r: Self)
        ensures
            r == type_of(*t),
    {
        match t {
            ast::Type::Int => Type::Int,
            ast::Type::Bool => Type::Bool,
        }
    }
}

#[derive(Debug)]
pub struct Block {
    pub field_decls: Vec<VarDecl>,
    pub statements: Vec<Statement0>,
}

#[derive(Debug)]
pub enum Statement0 {
    Assign(Assign),
    MethodCall(MethodCall),
    IfElse(IfElse0),
    For(For0),
    While(While0),
    Return(Return),
    Break(Break),
    Continue(Continue),
}

#[derive(Debug)]
pub struct Assign {
    pub dst: Location,
    pub assign_expr: AssignExpr,
}

/// A resolved reference to a declaration, with the index expression for an
/// array element.
#[derive(Debug)]
pub struct Location {
    pub id: VarDecl,
    pub array_len: Option<Expr>,
}

#[derive(Debug)]
pub enum AssignExpr {
    AssignOpExpr(AssignOpExpr),
    Increment(Increment),
}

#[derive(Debug)]
pub struct AssignOpExpr {
    pub assign_op: AssignOp,
    pub expr: Expr,
}

#[derive(Debug, Clone, Copy, PartialEq, Eq, Structural)]
pub enum AssignOp {
    Assign,
    CompoundAssignOp(CompoundAssignOp),
}

pub open spec fn assign_op_of(t: ast::AssignOp) -> AssignOp {
    match t {
        ast::AssignOp::Assign => AssignOp::Assign,
        ast::AssignOp::CompoundAssignOp(tt) => AssignOp::CompoundAssignOp(compound_op_of(tt)),
    }
}

impl AssignOp {
    pub fn from(t: &ast::AssignOp) -> (r: Self)
        ensures
            r == assign_op_of(*t),
    {
        match t {
            ast::AssignOp::Assign => AssignOp::Assign,
            ast::AssignOp::CompoundAssignOp(tt) => AssignOp::CompoundAssignOp(
                CompoundAssignOp::from(tt),
            ),
        }
    }
}

#[derive(Debug, Clone, Copy, PartialEq, Eq, Structural)]
pub enum CompoundAssignOp {
    AddAssign,
    SubAssign,
}

pub open spec fn compound_op_of(t: ast::CompoundAssignOp) -> CompoundAssignOp {
    match t {
        ast::CompoundAssignOp::AddAssign => CompoundAssignOp::AddAssign,
        ast::CompoundAssignOp::SubAssign => CompoundAssignOp::SubAssign,
    }
}

impl CompoundAssignOp {
    pub fn from(t: &ast::CompoundAssignOp) -> (r: Self)
        ensures
            r == compound_op_of(*t),
    {
        match t {
            ast::CompoundAssignOp::AddAssign => CompoundAssignOp::AddAssign,
            ast::CompoundAssignOp::SubAssign => CompoundAssignOp::SubAssign,
        }
    }
}

#[derive(Debug, Clone, Copy, PartialEq, Eq, Structural)]
pub enum Increment {
    SelfAdd,
    SelfSub,
}

pub open spec fn increment_of(i: ast::Increment) -> Increment {
    match i {
        ast::Increment::SelfAdd => Increment::SelfAdd,
        ast::Increment::SelfSub => Increment::SelfSub,
    }
}

impl Increment {
    pub fn from(i: &ast::Increment) -> (r: Self)
        ensures
            r == increment_of(*i),
    {
        match i {
            ast::Increment::SelfAdd => Increment::SelfAdd,
            ast::Increment::SelfSub => Increment::SelfSub,
        }
    }
}

#[derive(Debug)]
pub enum MethodCall {
    Method(MethodCall0),
    Callout(MethodCall1),
}

/// A call resolved to a method of the program.
#[derive(Debug)]
pub struct MethodCall0 {
    pub decl: MethodDecl,
    pub args: Vec<Expr>,
}

/// A callout to an external symbol.
#[derive(Debug)]
pub struct MethodCall1 {
    pub name: String,
    pub args: Vec<ImportArg>,
}

#[derive(Debug)]
pub enum ImportArg {
    Expr(Expr),
    StringLiteral(String),
}

#[derive(Debug)]
pub struct IfElse0 {
    pub node: NodeId,
    pub cond: Expr,
    pub if_block: Option<Block>,
    pub else_block: Option<Block>,
}

#[derive(Debug)]
pub struct For0 {
    pub node: NodeId,
    pub id: VarDecl,
    pub init_expr: Expr,
    pub incre_expr: Expr,
    pub update: ForUpdate,
    pub block: Option<Block>,
}

#[derive(Debug)]
pub struct ForUpdate {
    pub id: Location,
    pub update_expr: ForUpdateExpr,
}

#[derive(Debug)]
pub enum ForUpdateExpr {
    AssignExpr(ForUpdateAssignExpr),
    Increment(Increment),
}

#[derive(Debug)]
pub struct ForUpdateAssignExpr {
    pub compound_assign_op: CompoundAssignOp,
    pub expr: Expr,
}

#[derive(Debug)]
pub struct While0 {
    pub node: NodeId,
    pub cond: Expr,
    pub block: Option<Block>,
}

#[derive(Debug)]
pub struct Return {
    pub func: MethodDecl,
    pub val: Option<Expr>,
}

/// The loop node that a `break` leaves.
#[derive(Debug, Clone, Copy, PartialEq, Eq, Structural)]
pub enum Break {
    For(NodeId),
    While(NodeId),
}

/// The loop node that a `continue` goes back to.
#[derive(Debug, Clone, Copy, PartialEq, Eq, Structural)]
pub enum Continue {
    For(NodeId),
    While(NodeId),
}

/// An expression with its statically computed type.
#[derive(Debug)]
pub struct Expr0 {
    pub type_: Type,
    pub expr: ExprType,
}

#[derive(Debug)]
pub enum ExprType {
    Location(Location),
    MethodCall(MethodCall),
    Literal(Literal),
    LenId(Id),
    Unary(Unary),
    Binary(Binary),
}

#[derive(Debug)]
pub struct Unary {
    pub expr: Expr,
    pub op: UnaryOp,
}

#[derive(Debug, Clone, Copy, PartialEq, Eq, Structural)]
pub enum UnaryOp {
    NegInt,
    NegBool,
}

pub open spec fn unary_op_of(op: ast::UnaryOp) -> UnaryOp {
    match op {
        ast::UnaryOp::NegInt => UnaryOp::NegInt,
        ast::UnaryOp::NegBool => UnaryOp::NegBool,
    }
}

#[derive(Debug)]
pub struct Binary {
    pub lhs: Expr,
    pub rhs: Expr,
    pub op: BinaryOp,
}

#[derive(Debug, Clone, Copy, PartialEq, Eq, Structural)]
pub enum BinaryOp {
    Add,
    Sub,
    Mul,
    Div,
    Mod,
    GT,
    LT,
    LE,
    GE,
    EQ,
    NE,
    And,
    Or,
}

pub open spec fn binary_op_of(t: ast::BinaryOp) -> BinaryOp {
    match t {
        ast::BinaryOp::ArithOp(a) => match a {
            ast::ArithOp::Add => BinaryOp::Add,
            ast::ArithOp::Sub => BinaryOp::Sub,
            ast::ArithOp::Mul => BinaryOp::Mul,
            ast::ArithOp::Div => BinaryOp::Div,
            ast::ArithOp::Mod => BinaryOp::Mod,
        },
        ast::BinaryOp::RelOp(a) => match a {
            ast::RelOp::Greater => BinaryOp::GT,
            ast::RelOp::GreaterEq => BinaryOp::GE,
            ast::RelOp::Less => BinaryOp::LT,
            ast::RelOp::LessEq => BinaryOp::LE,
        },
        ast::BinaryOp::EqOp(a) => match a {
            ast::EqOp::EQ => BinaryOp::EQ,
            ast::EqOp::NE => BinaryOp::NE,
        },
        ast::BinaryOp::CondOp(a) => match a {
            ast::CondOp::Or => BinaryOp::Or,
            ast::CondOp::And => BinaryOp::And,
        },
    }
}

/// Arithmetic operators: int operands, int result.
pub open spec fn is_arith(op: BinaryOp) -> bool {
    op is Add || op is Sub || op is Mul || op is Div || op is Mod
}

/// Relational operators: int operands, bool result.
pub open spec fn is_rel(op: BinaryOp) -> bool {
    op is GT || op is LT || op is LE || op is GE
}

/// Equality operators: operands of any one type, bool result.
pub open spec fn is_eq(op: BinaryOp) -> bool {
    op is EQ || op is NE
}

/// Logical operators: bool operands, bool result.
pub open spec fn is_cond(op: BinaryOp) -> bool {
    op is And || op is Or
}

/// Whether `op` accepts two operands of type `t`.
pub open spec fn accepts_operand(op: BinaryOp, t: Type) -> bool {
    ||| (is_arith(op) || is_rel(op)) && t == Type::Int
    ||| is_eq(op)
    ||| is_cond(op) && t == Type::Bool
}

pub open spec fn binary_result(op: BinaryOp) -> Type {
    if is_arith(op) {
        Type::Int
    } else {
        Type::Bool
    }
}

impl BinaryOp {
    pub fn from(t: &ast::BinaryOp) -> (r: Self)
        ensures
            r == binary_op_of(*t),
    {
        match t {
            ast::BinaryOp::ArithOp(a) => match a {
                ast::ArithOp::Add => BinaryOp::Add,
                ast::ArithOp::Sub => BinaryOp::Sub,
                ast::ArithOp::Mul => BinaryOp::Mul,
                ast::ArithOp::Div => BinaryOp::Div,
                ast::ArithOp::Mod => BinaryOp::Mod,
            },
            ast::BinaryOp::RelOp(a) => match a {
                ast::RelOp::Greater => BinaryOp::GT,
                ast::RelOp::GreaterEq => BinaryOp::GE,
                ast::RelOp::Less => BinaryOp::LT,
                ast::RelOp::LessEq => BinaryOp::LE,
            },
            ast::BinaryOp::EqOp(a) => match a {
                ast::EqOp::EQ => BinaryOp::EQ,
                ast::EqOp::NE => BinaryOp::NE,
            },
            ast::BinaryOp::CondOp(a) => match a {
                ast::CondOp::Or => BinaryOp::Or,
                ast::CondOp::And => BinaryOp::And,
            },
        }
    }

    pub fn get_return_type(&self) -> (r: Type)
        ensures
            r == binary_result(*self),
    {
        match self {
            BinaryOp::Or => Type::Bool,
            BinaryOp::And => Type::Bool,
            BinaryOp::EQ => Type::Bool,
            BinaryOp::NE => Type::Bool,
            BinaryOp::GT => Type::Bool,
            BinaryOp::LT => Type::Bool,
            BinaryOp::GE => Type::Bool,
            BinaryOp::LE => Type::Bool,
            BinaryOp::Add => Type::Int,
            BinaryOp::Sub => Type::Int,
            BinaryOp::Mul => Type::Int,
            BinaryOp::Div => Type::Int,
            BinaryOp::Mod => Type::Int,
        }
    }
}

#[derive(Debug, Clone, Copy, PartialEq, Eq, Structural)]
pub enum Literal {
    IntLiteral(i32),
    CharLiteral(char),
    BoolLiteral(bool),
}

pub open spec fn literal_of(l: ast::Literal) -> Literal {
    match l {
        ast::Literal::IntLiteral(i) => Literal::IntLiteral(i),
        ast::Literal::BoolLiteral(b) => Literal::BoolLiteral(b is True),
        ast::Literal::CharLiteral(c) => Literal::CharLiteral(c),
    }
}

pub open spec fn literal_type(l: Literal) -> Type {
    match l {
        Literal::IntLiteral(_) => Type::Int,
        Literal::BoolLiteral(_) => Type::Bool,
        Literal::CharLiteral(_) => Type::Char,
    }
}

impl Literal {
    pub fn from(l: &ast::Literal) -> (r: Self)
        ensures
            r == literal_of(*l),
    {
        match l {
            ast::Literal::IntLiteral(i) => Literal::IntLiteral(*i),
            ast::Literal::BoolLiteral(b) => match b {
                ast::BoolLiteral::True => Literal::BoolLiteral(true),
                ast::BoolLiteral::False => Literal::BoolLiteral(false),
            },
            ast::Literal::CharLiteral(c) => Literal::CharLiteral(*c),
        }
    }
}

} // verus!
