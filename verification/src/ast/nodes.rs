use vstd::prelude::*;

use crate::ast::token::Token;
use crate::common::source::Pos;

verus! {

pub type NodeId = usize;

/// The syntax tree of one source file.
#[derive(Debug)]
pub struct Ast {
    pub imports: Vec<ImportNode>,
    pub decls: Vec<Decl>,
}

/// Top level declarations.
#[derive(Debug)]
pub enum Decl {
    Func(Box<FuncNode>),
    Extern(Box<FuncDeclNode>),
}

/// Statements, found inside blocks.
#[derive(Debug)]
pub enum Stmt {
    ExprStmt(Expr),
    Return(ReturnNode),
    Block(BlockNode),
    VarDecl(VarDeclNode),
    VarAssign(VarAssignNode),
    OpAssign(OpAssignNode),
    While(WhileNode),
    For(ForNode),
    If(IfNode),
    Break(Token),
    Continue(Token),
}

/// Expressions, evaluated to produce a value.
#[derive(Debug)]
pub enum Expr {
    Literal(Token),
    Group(GroupExpr),
    Call(CallExpr),
    Member(MemberNode),
    Binary(BinaryExpr),
    Unary(UnaryExpr),
    Cast(CastExpr),
}

/// The written form of a type.
#[derive(Debug, Clone)]
pub enum TypeNode {
    Ident(Token),
    Imported { namespace: Token, ty: Token },
}

#[derive(Debug)]
pub struct CallExpr {
    pub callee: Box<Expr>,
    pub lparen: Token,
    pub args: Vec<Expr>,
    pub rparen: Token,
}

#[derive(Debug)]
pub struct MemberNode {
    pub expr: Box<Expr>,
    pub dot: Token,
    pub field: Token,
}

#[derive(Debug)]
pub struct BinaryExpr {
    pub lhs: Box<Expr>,
    pub op: Token,
    pub rhs: Box<Expr>,
}

#[derive(Debug)]
pub struct UnaryExpr {
    pub op: Token,
    pub rhs: Box<Expr>,
}

#[derive(Debug)]
pub struct CastExpr {
    pub expr: Box<Expr>,
    pub kw: Token,
    pub ty: TypeNode,
}

#[derive(Debug)]
pub struct GroupExpr {
    pub lparen: Token,
    pub inner: Box<Expr>,
    pub rparen: Token,
}

#[derive(Debug)]
pub struct VarDeclNode {
    pub constant: bool,
    pub name: Token,
    pub symbol: Token,
    pub expr: Expr,
}

#[derive(Debug)]
pub struct VarAssignNode {
    pub lval: Expr,
    pub equal: Token,
    pub expr: Expr,
}

#[derive(Debug)]
pub struct OpAssignNode {
    pub lval: Expr,
    pub op: Token,
    pub rval: Expr,
}

#[derive(Debug)]
pub struct ReturnNode {
    pub kw: Token,
    pub expr: Option<Expr>,
}

#[derive(Debug)]
pub struct WhileNode {
    pub kw: Token,
    pub expr: Expr,
    pub block: BlockNode,
}

#[derive(Debug)]
pub struct ForNode {
    pub kw: Token,
    pub initializer: Box<Stmt>,
    pub condition: Box<Expr>,
    pub increment: Box<Stmt>,
    pub block: BlockNode,
}

#[derive(Debug)]
pub struct IfNode {
    pub kw: Token,
    pub expr: Expr,
    pub block: BlockNode,
    pub elseif: Box<ElseBlock>,
}

#[derive(Debug)]
pub enum ElseBlock {
    ElseIf(Box<IfNode>),
    Else(Box<BlockNode>),
    NoElse,
}

#[derive(Debug)]
pub struct ImportNode {
    pub kw: Token,
    /// Names separated by period.
    pub names: Vec<Token>,
    /// Named items to import inside curly braces.
    pub imports: Vec<Token>,
    /// Alias name. Can only be present if there are no named items.
    pub alias: Option<Token>,
    /// Final token of the statement.
    pub end_tok: Token,
}

#[derive(Debug)]
pub struct FuncDeclNode {
    pub public: bool,
    pub name: Token,
    pub lparen: Token,
    pub params: Vec<Field>,
    pub rparen: Token,
    pub ret_type: Option<TypeNode>,
}

#[derive(Debug)]
pub struct FuncNode {
    pub public: bool,
    pub name: Token,
    pub lparen: Token,
    pub params: Vec<Field>,
    pub rparen: Token,
    pub ret_type: Option<TypeNode>,
    pub body: BlockNode,
}

#[derive(Debug)]
pub struct BlockNode {
    pub lbrace: Token,
    pub stmts: Vec<Stmt>,
    pub rbrace: Token,
}

#[derive(Debug, Clone)]
pub struct Field {
    pub name: Token,
    pub typ: TypeNode,
}

/// A node of the syntax tree: where it starts, where it ends, and its id,
/// the offset of its first position, unique in its file.
pub trait Node {
    fn pos(&self) -> Pos;
    fn end(&self) -> Pos;
    fn id(&self) -> NodeId;
}

impl Node for Token {
    fn pos(&self) -> (r: Pos)
        ensures
            r == self.pos,
    {
        self.pos
    }

    fn end(&self) -> (r: Pos)
        ensures
            r == self.end_pos,
    {
        self.end_pos
    }

    fn id(&self) -> (r: NodeId)
        ensures
            r == self.pos.offset,
    {
        self.pos.offset
    }
}

impl Node for TypeNode {
    fn pos(&self) -> (r: Pos)
        ensures
            r == match *self {
                TypeNode::Ident(t) => t.pos,
                TypeNode::Imported { namespace, .. } => namespace.pos,
            },
    {
        match self {
            TypeNode::Ident(t) => t.pos,
            TypeNode::Imported { namespace, .. } => namespace.pos,
        }
    }

    fn end(&self) -> (r: Pos)
        ensures
            r == match *self {
                TypeNode::Ident(t) => t.end_pos,
                TypeNode::Imported { ty, .. } => ty.end_pos,
            },
    {
        match self {
            TypeNode::Ident(t) => t.end_pos,
            TypeNode::Imported { ty, .. } => ty.end_pos,
        }
    }

    fn id(&self) -> (r: NodeId)
        ensures
            r == match *self {
                TypeNode::Ident(t) => t.pos.offset,
                TypeNode::Imported { namespace, .. } => namespace.pos.offset,
            },
    {
        match self {
            TypeNode::Ident(t) => t.pos.offset,
            TypeNode::Imported { namespace, .. } => namespace.pos.offset,
        }
    }
}

/// The first token of an expression.
pub open spec fn expr_first(e: Expr) -> Token
    decreases e,
{
    match e {
        Expr::Literal(t) => t,
        Expr::Group(g) => g.lparen,
        Expr::Call(c) => expr_first(*c.callee),
        Expr::Member(m) => expr_first(*m.expr),
        Expr::Binary(b) => expr_first(*b.lhs),
        Expr::Unary(u) => u.op,
        Expr::Cast(c) => expr_first(*c.expr),
    }
}

/// The last token of an expression.
pub open spec fn expr_last(e: Expr) -> Token
    decreases e,
{
    match e {
        Expr::Literal(t) => t,
        Expr::Group(g) => g.rparen,
        Expr::Call(c) => c.rparen,
        Expr::Member(m) => m.field,
        Expr::Binary(b) => expr_last(*b.rhs),
        Expr::Unary(u) => expr_last(*u.rhs),
        Expr::Cast(c) => match c.ty {
            TypeNode::Ident(t) => t,
            TypeNode::Imported { ty, .. } => ty,
        },
    }
}

impl Expr {
    /// The first token of the expression.
    pub fn first(&self) -> (t: &Token)
        ensures
            *t == expr_first(*self),
        decreases self,
    {
        match self {
            Expr::Literal(t) => t,
            Expr::Group(g) => &g.lparen,
            Expr::Call(c) => c.callee.first(),
            Expr::Member(m) => m.expr.first(),
            Expr::Binary(b) => b.lhs.first(),
            Expr::Unary(u) => &u.op,
            Expr::Cast(c) => c.expr.first(),
        }
    }

    /// The last token of the expression.
    pub fn last(&self) -> (t: &Token)
        ensures
            *t == expr_last(*self),
        decreases self,
    {
        match self {
            Expr::Literal(t) => t,
            Expr::Group(g) => &g.rparen,
            Expr::Call(c) => &c.rparen,
            Expr::Member(m) => &m.field,
            Expr::Binary(b) => b.rhs.last(),
            Expr::Unary(u) => u.rhs.last(),
            Expr::Cast(c) => match &c.ty {
                TypeNode::Ident(t) => t,
                TypeNode::Imported { ty, .. } => ty,
            },
        }
    }
}

impl Node for Expr {
    fn pos(&self) -> (r: Pos)
        ensures
            r == expr_first(*self).pos,
    {
        self.first().pos
    }

    fn end(&self) -> (r: Pos)
        ensures
            r == expr_last(*self).end_pos,
    {
        self.last().end_pos
    }

    fn id(&self) -> (r: NodeId)
        ensures
            r == expr_first(*self).pos.offset,
    {
        self.pos().offset
    }
}

impl Node for FuncNode {
    fn pos(&self) -> (r: Pos)
        ensures
            r == self.name.pos,
    {
        self.name.pos
    }

    fn end(&self) -> (r: Pos)
        ensures
            r == self.name.end_pos,
    {
        self.name.end_pos
    }

    fn id(&self) -> (r: NodeId)
        ensures
            r == self.name.pos.offset,
    {
        self.name.pos.offset
    }
}

impl Node for FuncDeclNode {
    fn pos(&self) -> (r: Pos)
        ensures
            r == self.name.pos,
    {
        self.name.pos
    }

    fn end(&self) -> (r: Pos)
        ensures
            r == self.name.end_pos,
    {
        self.name.end_pos
    }

    fn id(&self) -> (r: NodeId)
        ensures
            r == self.name.pos.offset,
    {
        self.name.pos.offset
    }
}

impl Node for ImportNode {
    fn pos(&self) -> (r: Pos)
        ensures
            r == self.kw.pos,
    {
        self.kw.pos
    }

    fn end(&self) -> (r: Pos)
        ensures
            r == self.end_tok.end_pos,
    {
        self.end_tok.end_pos
    }

    fn id(&self) -> (r: NodeId)
        ensures
            r == self.kw.pos.offset,
    {
        self.kw.pos.offset
    }
}

impl Node for BlockNode {
    fn pos(&self) -> (r: Pos)
        ensures
            r == self.lbrace.pos,
    {
        self.lbrace.pos
    }

    fn end(&self) -> (r: Pos)
        ensures
            r == self.rbrace.pos,
    {
        self.rbrace.pos
    }

    fn id(&self) -> (r: NodeId)
        ensures
            r == self.lbrace.pos.offset,
    {
        self.lbrace.pos.offset
    }
}

impl Node for ReturnNode {
    fn pos(&self) -> (r: Pos)
        ensures
            r == self.kw.pos,
    {
        self.kw.pos
    }

    fn end(&self) -> (r: Pos)
        ensures
            r == match self.expr {
                Some(e) => expr_last(e).end_pos,
                None => self.kw.pos,
            },
    {
        match &self.expr {
            Some(e) => e.last().end_pos,
            None => self.kw.pos,
        }
    }

    fn id(&self) -> (r: NodeId)
        ensures
            r == self.kw.pos.offset,
    {
        self.kw.pos.offset
    }
}

impl Node for VarDeclNode {
    fn pos(&self) -> (r: Pos)
        ensures
            r == self.name.pos,
    {
        self.name.pos
    }

    fn end(&self) -> (r: Pos)
        ensures
            r == expr_last(self.expr).end_pos,
    {
        self.expr.last().end_pos
    }

    fn id(&self) -> (r: NodeId)
        ensures
            r == self.name.pos.offset,
    {
        self.name.pos.offset
    }
}

impl Node for VarAssignNode {
    fn pos(&self) -> (r: Pos)
        ensures
            r == expr_first(self.lval).pos,
    {
        self.lval.first().pos
    }

    fn end(&self) -> (r: Pos)
        ensures
            r == expr_last(self.expr).end_pos,
    {
        self.expr.last().end_pos
    }

    fn id(&self) -> (r: NodeId)
        ensures
            r == expr_first(self.lval).pos.offset,
    {
        self.pos().offset
    }
}

impl Node for OpAssignNode {
    fn pos(&self) -> (r: Pos)
        ensures
            r == expr_first(self.lval).pos,
    {
        self.lval.first().pos
    }

    fn end(&self) -> (r: Pos)
        ensures
            r == expr_last(self.rval).end_pos,
    {
        self.rval.last().end_pos
    }

    fn id(&self) -> (r: NodeId)
        ensures
            r == expr_first(self.lval).pos.offset,
    {
        self.pos().offset
    }
}

impl Node for WhileNode {
    fn pos(&self) -> (r: Pos)
        ensures
            r == self.kw.pos,
    {
        self.kw.pos
    }

    fn end(&self) -> (r: Pos)
        ensures
            r == self.block.rbrace.pos,
    {
        self.block.rbrace.pos
    }

    fn id(&self) -> (r: NodeId)
        ensures
            r == self.kw.pos.offset,
    {
        self.kw.pos.offset
    }
}

impl Node for ForNode {
    fn pos(&self) -> (r: Pos)
        ensures
            r == self.kw.pos,
    {
        self.kw.pos
    }

    fn end(&self) -> (r: Pos)
        ensures
            r == self.block.rbrace.pos,
    {
        self.block.rbrace.pos
    }

    fn id(&self) -> (r: NodeId)
        ensures
            r == self.kw.pos.offset,
    {
        self.kw.pos.offset
    }
}

impl Node for IfNode {
    fn pos(&self) -> (r: Pos)
        ensures
            r == self.kw.pos,
    {
        self.kw.pos
    }

    fn end(&self) -> (r: Pos)
        ensures
            r == self.block.rbrace.pos,
    {
        self.block.rbrace.pos
    }

    fn id(&self) -> (r: NodeId)
        ensures
            r == self.kw.pos.offset,
    {
        self.kw.pos.offset
    }
}

} // verus!
