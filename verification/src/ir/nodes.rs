use vstd::prelude::*;

use crate::ir::types::{IRTypeId, IRTypeInterner};

verus! {

pub type ConstId = usize;

pub type ParamId = usize;

pub type DataIndex = usize;

/// The whole program, one unit per module.
pub struct ProgramIR {
    pub units: Vec<Unit>,
}

/// The lowered form of one module.
pub struct Unit {
    pub types: IRTypeInterner,
    pub name: String,
    pub decls: Vec<Decl>,
    pub data: Vec<Data>,
}

/// A constant data segment.
#[derive(Debug)]
pub enum Data {
    String(String),
}

pub enum Decl {
    Extern(ExternDecl),
    Func(FuncDecl),
}

pub struct ExternDecl {
    pub name: String,
    pub params: Vec<IRTypeId>,
    pub ret: IRTypeId,
}

pub struct FuncDecl {
    pub public: bool,
    pub name: String,
    pub params: Vec<IRTypeId>,
    pub ret: IRTypeId,
    pub body: Block,
    /// The bytes of stack the function's variables take.
    pub stacksize: usize,
}

pub struct Block {
    pub ins: Vec<Ins>,
}

/// A place a value can be written to.
#[derive(Debug, Clone, Copy, PartialEq, Eq, Structural)]
pub enum LValue {
    Const(ConstId),
    Param(ParamId),
}

pub enum Ins {
    Store(StoreIns),
    Assign(AssignIns),
    Call(CallIns),
    Intrinsic(IntrinsicIns),
    Return(IRTypeId, RValue),
    Binary(BinaryIns),
    Unary(UnaryIns),
    Cast(CastIns),
    If(IfIns),
    While(WhileIns),
    Conditional(CondIns),
    Break,
    Continue,
}

#[derive(Debug, Clone, Copy, PartialEq, Eq, Structural)]
pub enum IRCondOp {
    And,
    Or,
}

/// A short-circuit operation: the right side, with its instructions, is only
/// evaluated when the left side does not decide the result.
pub struct CondIns {
    pub op: IRCondOp,
    pub lhs_ins: Vec<Ins>,
    pub lhs: RValue,
    pub rhs_ins: Vec<Ins>,
    pub rhs: RValue,
    pub result: ConstId,
}

/// What a machine binary operation gives on integer operands: the
/// arithmetic result, with division rounding toward zero, or for a
/// comparison 1 when it holds and 0 when it does not.
pub open spec fn ir_binary_value(op: IRBinaryOp, a: int, b: int) -> int {
    match op {
        IRBinaryOp::Add => a + b,
        IRBinaryOp::Sub => a - b,
        IRBinaryOp::Mul => a * b,
        IRBinaryOp::Div => crate::common::arith::trunc_div(a, b),
        IRBinaryOp::Mod => crate::common::arith::trunc_rem(a, b),
        IRBinaryOp::Eq => crate::common::arith::truth(a == b),
        IRBinaryOp::Ne => crate::common::arith::truth(a != b),
        IRBinaryOp::Gt => crate::common::arith::truth(a > b),
        IRBinaryOp::Ge => crate::common::arith::truth(a >= b),
        IRBinaryOp::Lt => crate::common::arith::truth(a < b),
        IRBinaryOp::Le => crate::common::arith::truth(a <= b),
    }
}

/// What a machine unary operation gives on an integer operand: its
/// negation, or for `Not` 1 when the operand is 0 (false) and 0 otherwise.
pub open spec fn ir_unary_value(op: IRUnaryOp, a: int) -> int {
    match op {
        IRUnaryOp::Neg => -a,
        IRUnaryOp::Not => crate::common::arith::truth(a == 0),
    }
}

/// The operator compares its operands.
pub open spec fn is_comparison(op: IRBinaryOp) -> bool {
    op is Eq || op is Ne || op is Gt || op is Ge || op is Lt || op is Le
}

#[derive(Debug, Clone, Copy, PartialEq, Eq, Structural)]
pub enum IRBinaryOp {
    Add,
    Sub,
    Mul,
    Div,
    Mod,
    Eq,
    Ne,
    Gt,
    Ge,
    Lt,
    Le,
}

#[derive(Debug, Clone, Copy, PartialEq, Eq, Structural)]
pub enum IRUnaryOp {
    Neg,
    Not,
}

pub struct BinaryIns {
    pub ty: IRTypeId,
    pub op: IRBinaryOp,
    pub lhs: RValue,
    pub rhs: RValue,
    pub result: ConstId,
}

pub struct UnaryIns {
    pub ty: IRTypeId,
    pub op: IRUnaryOp,
    pub rhs: RValue,
    pub result: ConstId,
}

pub struct CastIns {
    pub from_ty: IRTypeId,
    pub to_ty: IRTypeId,
    pub rval: RValue,
    pub result: ConstId,
}

pub struct StoreIns {
    pub ty: IRTypeId,
    pub const_id: ConstId,
    pub rval: RValue,
}

pub struct AssignIns {
    pub ty: IRTypeId,
    pub lval: LValue,
    pub rval: RValue,
}

pub struct IfIns {
    pub cond: RValue,
    pub block: Block,
    pub elseif: Vec<ElseIf>,
    pub elseblock: Option<Block>,
}

pub struct ElseIf {
    pub cond_ins: Vec<Ins>,
    pub cond: RValue,
    pub block: Block,
}

pub struct WhileIns {
    pub cond_ins: Vec<Ins>,
    pub cond: RValue,
    pub block: Block,
    pub post: Option<Vec<Ins>>,
}

pub struct CallIns {
    pub ty: IRTypeId,
    pub callee: RValue,
    pub args: Vec<(IRTypeId, RValue)>,
    pub result: LValue,
}

#[derive(Debug, Clone, Copy, PartialEq, Eq, Structural)]
pub enum IntrinsicKind {
    Exit,
}

pub struct IntrinsicIns {
    pub kind: IntrinsicKind,
    pub ty: IRTypeId,
    pub args: Vec<(IRTypeId, RValue)>,
    pub result: Option<LValue>,
}

/// A value an instruction reads. A float is kept as the text it was
/// written with.
#[derive(Debug)]
pub enum RValue {
    Void,
    Float(String),
    Int(i64),
    Uint(u64),
    Const(ConstId),
    Param(usize),
    Function(String),
    Data(DataIndex),
}

impl IntrinsicKind {
    pub fn name(&self) -> (r: &'static str)
        ensures
            r@ == "exit"@,
    {
        match self {
            IntrinsicKind::Exit => "exit",
        }
    }
}

/// The name of the operator, in lower case.
pub open spec fn spec_i_r_binary_op_name(op: IRBinaryOp) -> Seq<char> {
    match op {
        IRBinaryOp::Add => "add"@,
        IRBinaryOp::Sub => "sub"@,
        IRBinaryOp::Mul => "mul"@,
        IRBinaryOp::Div => "div"@,
        IRBinaryOp::Mod => "mod"@,
        IRBinaryOp::Eq => "eq"@,
        IRBinaryOp::Ne => "ne"@,
        IRBinaryOp::Gt => "gt"@,
        IRBinaryOp::Ge => "ge"@,
        IRBinaryOp::Lt => "lt"@,
        IRBinaryOp::Le => "le"@,
    }
}

impl IRBinaryOp {
    pub fn name(&self) -> (r: &'static str)
        ensures
            r@ == spec_i_r_binary_op_name(*self),
    {
        match self {
            IRBinaryOp::Add => "add",
            IRBinaryOp::Sub => "sub",
            IRBinaryOp::Mul => "mul",
            IRBinaryOp::Div => "div",
            IRBinaryOp::Mod => "mod",
            IRBinaryOp::Eq => "eq",
            IRBinaryOp::Ne => "ne",
            IRBinaryOp::Gt => "gt",
            IRBinaryOp::Ge => "ge",
            IRBinaryOp::Lt => "lt",
            IRBinaryOp::Le => "le",
        }
    }
}

/// The name of the operator, in lower case.
pub open spec fn spec_i_r_cond_op_name(op: IRCondOp) -> Seq<char> {
    match op {
        IRCondOp::And => "and"@,
        IRCondOp::Or => "or"@,
    }
}

impl IRCondOp {
    pub fn name(&self) -> (r: &'static str)
        ensures
            r@ == spec_i_r_cond_op_name(*self),
    {
        match self {
            IRCondOp::And => "and",
            IRCondOp::Or => "or",
        }
    }
}

/// The name of the operator, in lower case.
pub open spec fn spec_i_r_unary_op_name(op: IRUnaryOp) -> Seq<char> {
    match op {
        IRUnaryOp::Neg => "neg"@,
        IRUnaryOp::Not => "not"@,
    }
}

impl IRUnaryOp {
    pub fn name(&self) -> (r: &'static str)
        ensures
            r@ == spec_i_r_unary_op_name(*self),
    {
        match self {
            IRUnaryOp::Neg => "neg",
            IRUnaryOp::Not => "not",
        }
    }
}

impl RValue {
    /// A copy of the value.
    pub fn copy(&self) -> (r: RValue)
        ensures
            r == *self,
    {
        match self {
            RValue::Void => RValue::Void,
            RValue::Float(s) => RValue::Float(s.clone()),
            RValue::Int(n) => RValue::Int(*n),
            RValue::Uint(n) => RValue::Uint(*n),
            RValue::Const(c) => RValue::Const(*c),
            RValue::Param(p) => RValue::Param(*p),
            RValue::Function(s) => RValue::Function(s.clone()),
            RValue::Data(d) => RValue::Data(*d),
        }
    }
}

} // verus!
