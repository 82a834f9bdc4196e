use vstd::prelude::*;

use crate::ast::token::TokenKind;
use crate::common::source::Pos;
use crate::sema::types::TypeId;

verus! {

/// Where a node of the syntax tree came from.
#[derive(Debug, Clone, Copy)]
pub struct NodeMeta {
    pub id: usize,
    pub pos: Pos,
    pub end: Pos,
}

/// The typed syntax tree of one source file.
#[derive(Debug)]
pub struct TypedAst {
    pub decls: Vec<Decl>,
}

#[derive(Debug)]
pub enum Decl {
    Func(FuncNode),
    Extern(ExternNode),
}

#[derive(Debug)]
pub struct FuncNode {
    pub meta: NodeMeta,
    pub name: String,
    pub public: bool,
    pub ty: TypeId,
    pub params: Vec<String>,
    pub body: BlockNode,
}

#[derive(Debug)]
pub struct ExternNode {
    pub meta: NodeMeta,
    pub ty: TypeId,
    pub name: String,
}

#[derive(Debug)]
pub struct BlockNode {
    pub stmts: Vec<Stmt>,
}

#[derive(Debug)]
pub enum Stmt {
    ExprStmt(Expr),
    Return(ReturnNode),
    VarDecl(VarDeclNode),
    VarAssign(VarAssignNode),
    OpAssign(OpAssignNode),
    If(IfNode),
    While(WhileNode),
    For(ForNode),
    Break(BreakNode),
    Continue(ContinueNode),
}

#[derive(Debug)]
pub struct ReturnNode {
    pub meta: NodeMeta,
    pub ty: TypeId,
    pub expr: Option<Expr>,
}

#[derive(Debug)]
pub struct VarDeclNode {
    pub meta: NodeMeta,
    pub ty: TypeId,
    pub name: String,
    pub value: Expr,
}

#[derive(Debug)]
pub struct VarAssignNode {
    pub meta: NodeMeta,
    pub ty: TypeId,
    pub lval: Expr,
    pub rval: Expr,
}

#[derive(Debug, Clone, Copy, PartialEq, Eq, Structural)]
pub enum AssignOp {
    Plus,
    Minus,
    Mult,
    Div,
}

#[derive(Debug)]
pub struct OpAssignNode {
    pub meta: NodeMeta,
    pub ty: TypeId,
    pub lval: Box<Expr>,
    pub rval: Box<Expr>,
    pub op: AssignOp,
}

#[derive(Debug)]
pub struct IfNode {
    pub meta: NodeMeta,
    pub expr: Expr,
    pub block: BlockNode,
    pub elseif: Box<ElseBlock>,
}

#[derive(Debug)]
pub enum ElseBlock {
    ElseIf(Box<IfNode>),
    Else(Box<BlockNode>),
    NoElse,
}

#[derive(Debug)]
pub struct WhileNode {
    pub meta: NodeMeta,
    pub expr: Expr,
    pub block: BlockNode,
}

#[derive(Debug)]
pub struct ForNode {
    pub meta: NodeMeta,
    pub initializer: Box<Stmt>,
    pub condition: Box<Expr>,
    pub increment: Box<Stmt>,
    pub block: BlockNode,
}

#[derive(Debug)]
pub struct BreakNode {
    pub meta: NodeMeta,
}

#[derive(Debug)]
pub struct ContinueNode {
    pub meta: NodeMeta,
}

#[derive(Debug)]
pub enum Expr {
    Literal(LiteralNode),
    Call(CallNode),
    NamespaceMember(NamespaceMemberNode),
    Binary(BinaryNode),
    Unary(UnaryNode),
    Cast(CastNode),
}

#[derive(Debug)]
pub enum LiteralKind {
    Int(i64),
    Uint(u64),
    /// A float, kept as the text it was written with.
    Float(String),
    String(String),
    Ident(String),
    Bool(bool),
    Char(u8),
}

#[derive(Debug)]
pub struct LiteralNode {
    pub meta: NodeMeta,
    pub ty: TypeId,
    pub kind: LiteralKind,
}

#[derive(Debug)]
pub struct CallNode {
    pub meta: NodeMeta,
    pub ty: TypeId,
    pub callee: Box<Expr>,
    pub args: Vec<Expr>,
}

#[derive(Debug)]
pub struct NamespaceMemberNode {
    pub meta: NodeMeta,
    pub ty: TypeId,
    pub name: String,
    pub field: String,
}

/// What a Koi binary operator gives on integer operands: the arithmetic
/// result, with division rounding toward zero; for a comparison, 1 when it
/// holds and 0 when it does not; for `&&` and `||`, 1 or 0 by the truth of
/// the operands (any value but 0 is true).
pub open spec fn koi_binary_value(op: BinaryOp, a: int, b: int) -> int {
    match op {
        BinaryOp::Plus => a + b,
        BinaryOp::Minus => a - b,
        BinaryOp::Mult => a * b,
        BinaryOp::Divide => crate::common::arith::trunc_div(a, b),
        BinaryOp::Modulo => crate::common::arith::trunc_rem(a, b),
        BinaryOp::Equal => crate::common::arith::truth(a == b),
        BinaryOp::NotEqual => crate::common::arith::truth(a != b),
        BinaryOp::Greater => crate::common::arith::truth(a > b),
        BinaryOp::GreaterEq => crate::common::arith::truth(a >= b),
        BinaryOp::Less => crate::common::arith::truth(a < b),
        BinaryOp::LessEq => crate::common::arith::truth(a <= b),
        BinaryOp::LogicAnd => crate::common::arith::truth(a != 0 && b != 0),
        BinaryOp::LogicOr => crate::common::arith::truth(a != 0 || b != 0),
    }
}

/// What a Koi unary operator gives on an integer operand: `-` its
/// negation, `!` 1 when the operand is false (0) and 0 otherwise.
pub open spec fn koi_unary_value(op: UnaryOp, a: int) -> int {
    match op {
        UnaryOp::Minus => -a,
        UnaryOp::LogicNot => crate::common::arith::truth(a == 0),
    }
}

#[derive(Debug, Clone, Copy, PartialEq, Eq, Structural)]
pub enum BinaryOp {
    Plus,
    Minus,
    Mult,
    Divide,
    Modulo,
    Equal,
    NotEqual,
    Greater,
    GreaterEq,
    Less,
    LessEq,
    LogicAnd,
    LogicOr,
}

#[derive(Debug, Clone, Copy, PartialEq, Eq, Structural)]
pub enum UnaryOp {
    Minus,
    LogicNot,
}

#[derive(Debug)]
pub struct BinaryNode {
    pub meta: NodeMeta,
    pub ty: TypeId,
    pub op: BinaryOp,
    pub lhs: Box<Expr>,
    pub rhs: Box<Expr>,
}

#[derive(Debug)]
pub struct UnaryNode {
    pub meta: NodeMeta,
    pub ty: TypeId,
    pub op: UnaryOp,
    pub rhs: Box<Expr>,
}

/// How a cast converts its value.
#[derive(Debug, Clone, Copy, PartialEq, Eq, Structural)]
pub enum CastKind {
    Identity,
    IntegerNarrowing,
    IntegerWidening,
    FloatNarrowing,
    FloatWidening,
    IntToFloat,
    FloatToInt,
    InvalidCast,
}

#[derive(Debug)]
pub struct CastNode {
    pub meta: NodeMeta,
    pub expr: Box<Expr>,
    pub ty: TypeId,
    pub cast_kind: CastKind,
}

/// The type of an expression.
pub open spec fn expr_type(e: Expr) -> TypeId {
    match e {
        Expr::Literal(n) => n.ty,
        Expr::Call(n) => n.ty,
        Expr::NamespaceMember(n) => n.ty,
        Expr::Binary(n) => n.ty,
        Expr::Unary(n) => n.ty,
        Expr::Cast(n) => n.ty,
    }
}

/// The variable an expression names, when it is a plain identifier.
pub open spec fn spec_try_identifier(e: Expr) -> Option<String> {
    match e {
        Expr::Literal(n) => match n.kind {
            LiteralKind::Ident(name) => Some(name),
            _ => None,
        },
        _ => None,
    }
}

impl Expr {
    pub fn type_id(&self) -> (t: TypeId)
        ensures
            t == expr_type(*self),
    {
        match self {
            Expr::Literal(n) => n.ty,
            Expr::Call(n) => n.ty,
            Expr::NamespaceMember(n) => n.ty,
            Expr::Binary(n) => n.ty,
            Expr::Unary(n) => n.ty,
            Expr::Cast(n) => n.ty,
        }
    }

    pub fn meta(&self) -> (m: NodeMeta)
        ensures
            m == match *self {
                Expr::Literal(n) => n.meta,
                Expr::Call(n) => n.meta,
                Expr::NamespaceMember(n) => n.meta,
                Expr::Binary(n) => n.meta,
                Expr::Unary(n) => n.meta,
                Expr::Cast(n) => n.meta,
            },
    {
        match self {
            Expr::Literal(n) => n.meta,
            Expr::Call(n) => n.meta,
            Expr::NamespaceMember(n) => n.meta,
            Expr::Binary(n) => n.meta,
            Expr::Unary(n) => n.meta,
            Expr::Cast(n) => n.meta,
        }
    }

    /// The variable the expression names, when it is a plain identifier.
    pub fn try_identifier(&self) -> (r: Option<&String>)
        ensures
            r matches Some(s) ==> spec_try_identifier(*self) == Some(*s),
            r is None ==> spec_try_identifier(*self) is None,
    {
        match self {
            Expr::Literal(n) => match &n.kind {
                LiteralKind::Ident(name) => Some(name),
                _ => None,
            },
            _ => None,
        }
    }
}

/// The binary operator a token stands for.
pub open spec fn spec_binary_op(k: TokenKind) -> Option<BinaryOp> {
    match k {
        TokenKind::Plus => Some(BinaryOp::Plus),
        TokenKind::Minus => Some(BinaryOp::Minus),
        TokenKind::Star => Some(BinaryOp::Mult),
        TokenKind::Slash => Some(BinaryOp::Divide),
        TokenKind::Percent => Some(BinaryOp::Modulo),
        TokenKind::EqEq => Some(BinaryOp::Equal),
        TokenKind::NotEq => Some(BinaryOp::NotEqual),
        TokenKind::Greater => Some(BinaryOp::Greater),
        TokenKind::GreaterEq => Some(BinaryOp::GreaterEq),
        TokenKind::Less => Some(BinaryOp::Less),
        TokenKind::LessEq => Some(BinaryOp::LessEq),
        TokenKind::And => Some(BinaryOp::LogicAnd),
        TokenKind::Or => Some(BinaryOp::LogicOr),
        _ => None,
    }
}

pub fn binary_op_of(k: &TokenKind) -> (r: Option<BinaryOp>)
    ensures
        r == spec_binary_op(*k),
{
    match k {
        TokenKind::Plus => Some(BinaryOp::Plus),
        TokenKind::Minus => Some(BinaryOp::Minus),
        TokenKind::Star => Some(BinaryOp::Mult),
        TokenKind::Slash => Some(BinaryOp::Divide),
        TokenKind::Percent => Some(BinaryOp::Modulo),
        TokenKind::EqEq => Some(BinaryOp::Equal),
        TokenKind::NotEq => Some(BinaryOp::NotEqual),
        TokenKind::Greater => Some(BinaryOp::Greater),
        TokenKind::GreaterEq => Some(BinaryOp::GreaterEq),
        TokenKind::Less => Some(BinaryOp::Less),
        TokenKind::LessEq => Some(BinaryOp::LessEq),
        TokenKind::And => Some(BinaryOp::LogicAnd),
        TokenKind::Or => Some(BinaryOp::LogicOr),
        _ => None,
    }
}

} // verus!
