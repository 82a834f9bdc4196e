use vstd::prelude::*;

use crate::ast::nodes as ast;
use crate::ast::nodes::Node;
use crate::ast::token::{Token, TokenKind};
use crate::common::error::{Diagnostics, Report, Res};
use crate::common::source::Pos;
use crate::common::text::{push_str, push_u64, str_eq};
use crate::common::vartable::{scoped_lookup, VarTable};
use crate::sema::context::Context;
use crate::sema::module::NamespaceList;
use crate::sema::symbols::{Symbol, SymbolKind, SymbolList};
use crate::sema::type_interner::spec_resolve;
use crate::sema::typed as types;
use crate::sema::typed::{
    expr_type, BinaryOp, CastKind, LiteralKind, NodeMeta, UnaryOp,
};
use crate::sema::types::{
    prim_index, spec_bytes, spec_is_float, spec_is_int, spec_is_uint, FunctionType, PrimitiveType,
    TypeId, TypeKind,
};

verus! {

/// A declared variable or function parameter. Bindings shadow global
/// symbols like functions and types.
pub struct Binding {
    pub ty: TypeId,
    pub is_const: bool,
    pub pos: Pos,
}

/// Every binding in every scope has a type below `n`.
pub open spec fn bindings_valid(scopes: Seq<Map<Seq<char>, Binding>>, n: int) -> bool {
    forall|i: int, k: Seq<char>| 0 <= i < scopes.len() && #[trigger] scopes[i].contains_key(k) ==> scopes[i][k].ty < n
}

proof fn lemma_lookup_valid(scopes: Seq<Map<Seq<char>, Binding>>, n: int, name: Seq<char>)
    requires
        bindings_valid(scopes, n),
    ensures
        scoped_lookup(scopes, name) matches Some(b) ==> b.ty < n,
    decreases scopes.len(),
{
    if scopes.len() > 0 {
        if !scopes.last().contains_key(name) {
            let d = scopes.drop_last();
            assert forall|i: int, k: Seq<char>| 0 <= i < d.len() && #[trigger] d[i].contains_key(k) implies d[i][k].ty < n by {
                assert(scopes[i] == d[i]);
            }
            lemma_lookup_valid(d, n, name);
        } else {
            assert(scopes[scopes.len() - 1].contains_key(name));
        }
    }
}

/// Every symbol the module names exists in the context.
pub open spec fn symbols_valid(syms: &SymbolList, ctx: &Context) -> bool {
    &&& syms.wf()
    &&& forall|k: Seq<char>| #[trigger] syms@.contains_key(k) ==> syms@[k].id < ctx.symbols@.len()
}

/// Every symbol of every namespace exists in the context.
pub open spec fn namespaces_valid(nsl: &NamespaceList, ctx: &Context) -> bool {
    &&& nsl.wf()
    &&& forall|k: Seq<char>, j: Seq<char>| #[trigger] nsl@.contains_key(k) && #[trigger] nsl@[k]@.contains_key(j)
        ==> nsl@[k]@[j] < ctx.symbols@.len()
}

/// The number of types in the context.
pub open spec fn ntypes(ctx: &Context) -> int {
    ctx.types.kinds().len() as int
}

/// How a cast from one type to another converts, for types that are not
/// equivalent.
pub open spec fn spec_cast_kind(from: TypeKind, to: TypeKind) -> CastKind {
    match (from, to) {
        (TypeKind::Primitive(f), TypeKind::Primitive(t)) => {
            let from_int = spec_is_int(f) || spec_is_uint(f);
            let to_int = spec_is_int(t) || spec_is_uint(t);
            if from_int && to_int {
                if spec_bytes(f) >= spec_bytes(t) { CastKind::IntegerNarrowing } else { CastKind::IntegerWidening }
            } else if spec_is_float(f) && spec_is_float(t) {
                if spec_bytes(f) >= spec_bytes(t) { CastKind::FloatNarrowing } else { CastKind::FloatWidening }
            } else if from_int && spec_is_float(t) {
                CastKind::IntToFloat
            } else if spec_is_float(f) && to_int {
                CastKind::FloatToInt
            } else {
                CastKind::InvalidCast
            }
        },
        _ => CastKind::InvalidCast,
    }
}

/// May the operator be used on operands of a type that is or is not a
/// number, is or is not `bool`, and is or is not an integer?
pub open spec fn spec_op_allowed(op: BinaryOp, is_num: bool, is_bool: bool, is_integer: bool) -> bool {
    match op {
        BinaryOp::Plus | BinaryOp::Minus | BinaryOp::Mult | BinaryOp::Divide => is_num,
        BinaryOp::Modulo => is_integer,
        BinaryOp::Equal | BinaryOp::NotEqual => is_num || is_bool,
        BinaryOp::Greater | BinaryOp::GreaterEq | BinaryOp::Less | BinaryOp::LessEq => is_num,
        BinaryOp::LogicAnd | BinaryOp::LogicOr => is_bool,
    }
}

/// The type a binary expression has, given the type of its operands.
pub open spec fn spec_binary_type(op: BinaryOp, operand: TypeId) -> TypeId {
    match op {
        BinaryOp::Plus | BinaryOp::Minus | BinaryOp::Mult | BinaryOp::Divide => operand,
        BinaryOp::Modulo => prim_index(PrimitiveType::U32) as TypeId,
        _ => prim_index(PrimitiveType::Bool) as TypeId,
    }
}

/// Comparisons and logical operators have type `bool`, arithmetic keeps the
/// operands' type, and the remainder is a `u32`.
pub proof fn law_binary_types(op: BinaryOp, operand: TypeId)
    ensures
        (op == BinaryOp::Equal || op == BinaryOp::NotEqual || op == BinaryOp::Greater || op == BinaryOp::GreaterEq
            || op == BinaryOp::Less || op == BinaryOp::LessEq || op == BinaryOp::LogicAnd || op == BinaryOp::LogicOr)
            ==> spec_binary_type(op, operand) == prim_index(PrimitiveType::Bool),
        (op == BinaryOp::Plus || op == BinaryOp::Minus || op == BinaryOp::Mult || op == BinaryOp::Divide)
            ==> spec_binary_type(op, operand) == operand,
        op == BinaryOp::Modulo ==> spec_binary_type(op, operand) == prim_index(PrimitiveType::U32),
{
}

/// A constant that fits a narrower integer type fits every wider type of
/// the same signedness.
pub proof fn law_int_fits_widening(n: int)
    ensures
        spec_int_fits(n, PrimitiveType::I8) ==> spec_int_fits(n, PrimitiveType::I16),
        spec_int_fits(n, PrimitiveType::I16) ==> spec_int_fits(n, PrimitiveType::I32),
        spec_int_fits(n, PrimitiveType::I32) ==> spec_int_fits(n, PrimitiveType::I64),
        spec_int_fits(n, PrimitiveType::U8) ==> spec_int_fits(n, PrimitiveType::U16),
        spec_int_fits(n, PrimitiveType::U16) ==> spec_int_fits(n, PrimitiveType::U32),
        spec_int_fits(n, PrimitiveType::U32) ==> spec_int_fits(n, PrimitiveType::U64),
{
}

/// Is the type a number: an integer or a float primitive?
pub open spec fn spec_is_number(ctx: &Context, id: TypeId) -> bool {
    id < ntypes(ctx) && (ctx.types.kinds()[id as int] matches TypeKind::Primitive(p) && (spec_is_int(p)
        || spec_is_uint(p) || spec_is_float(p)))
}

/// Are the two types the same once aliases are resolved?
pub open spec fn spec_equivalent(ctx: &Context, a: TypeId, b: TypeId) -> bool {
    spec_resolve(ctx.types.kinds(), a as int) == spec_resolve(ctx.types.kinds(), b as int)
}

/// The assignment operator a token stands for.
pub open spec fn spec_assign_op(k: TokenKind) -> Option<types::AssignOp> {
    match k {
        TokenKind::PlusEq => Some(types::AssignOp::Plus),
        TokenKind::MinusEq => Some(types::AssignOp::Minus),
        TokenKind::StarEq => Some(types::AssignOp::Mult),
        TokenKind::SlashEq => Some(types::AssignOp::Div),
        _ => None,
    }
}

/// The callee of the call has a function type; the call has its return
/// type, and as many arguments as it has parameters, each of the
/// parameter's type.
pub open spec fn call_well_typed(ctx: &Context, c: types::CallNode) -> bool {
    &&& expr_type(*c.callee) < ntypes(ctx)
    &&& ctx.types.kinds()[expr_type(*c.callee) as int] matches TypeKind::Function(f) && c.ty == f.ret
        && c.args@.len() == f.params@.len() && forall|j: int| 0 <= j < c.args@.len() ==> expr_type(
        #[trigger] c.args@[j],
    ) == f.params@[j]
}

/// May the binary operator be used on operands of the type?
pub open spec fn spec_binary_allowed(ctx: &Context, op: BinaryOp, ty: TypeId) -> bool {
    spec_op_allowed(
        op,
        ctx.types.kinds()[ty as int] matches TypeKind::Primitive(p) && (spec_is_int(p) || spec_is_uint(p)
            || spec_is_float(p)),
        spec_resolve(ctx.types.kinds(), ty as int) == spec_resolve(ctx.types.kinds(), prim_index(PrimitiveType::Bool) as int),
        ctx.types.kinds()[crate::sema::type_interner::spec_inner_kind(ctx.types.kinds(), ty as int)] matches TypeKind::Primitive(p)
            && (spec_is_int(p) || spec_is_uint(p)),
    )
}

/// `bool` values can be compared for equality and combined with `&&` and
/// `||`: on operands of a type that is `bool`, or an alias of it, `==`,
/// `!=`, `&&` and `||` are allowed, and each gives a `bool`.
pub proof fn law_bool_operators(ctx: &Context, ty: TypeId)
    requires
        spec_equivalent(ctx, ty, prim_index(PrimitiveType::Bool) as TypeId),
    ensures
        spec_binary_allowed(ctx, BinaryOp::Equal, ty),
        spec_binary_allowed(ctx, BinaryOp::NotEqual, ty),
        spec_binary_allowed(ctx, BinaryOp::LogicAnd, ty),
        spec_binary_allowed(ctx, BinaryOp::LogicOr, ty),
        spec_binary_type(BinaryOp::Equal, ty) == prim_index(PrimitiveType::Bool),
        spec_binary_type(BinaryOp::NotEqual, ty) == prim_index(PrimitiveType::Bool),
        spec_binary_type(BinaryOp::LogicAnd, ty) == prim_index(PrimitiveType::Bool),
        spec_binary_type(BinaryOp::LogicOr, ty) == prim_index(PrimitiveType::Bool),
{
}

/// Integers have a remainder: on operands of a signed or unsigned integer
/// type, `%` is allowed and gives a `u32`.
pub proof fn law_integer_remainder(ctx: &Context, ty: TypeId)
    requires
        0 <= ty < ntypes(ctx),
        ctx.types.kinds()[ty as int] matches TypeKind::Primitive(p) && (spec_is_int(p) || spec_is_uint(p)),
    ensures
        spec_binary_allowed(ctx, BinaryOp::Modulo, ty),
        spec_binary_type(BinaryOp::Modulo, ty) == prim_index(PrimitiveType::U32),
{
    assert(crate::sema::type_interner::spec_inner_kind(ctx.types.kinds(), ty as int) == ty);
}

/// `bool` is no number: on `bool` operands, arithmetic, the remainder and
/// the ordering comparisons are refused.
pub proof fn law_bool_is_no_number(ctx: &Context)
    requires
        ctx.wf(),
    ensures
        forall|op: BinaryOp|
            (op is Plus || op is Minus || op is Mult || op is Divide || op is Modulo || op is Greater
                || op is GreaterEq || op is Less || op is LessEq) ==> !#[trigger] spec_binary_allowed(
                ctx,
                op,
                prim_index(PrimitiveType::Bool) as TypeId,
            ),
{
    ctx.types.lemma_wf();
    crate::sema::types::lemma_prim_index(PrimitiveType::Bool);
    let b = prim_index(PrimitiveType::Bool) as int;
    assert(ctx.types.kinds()[b] == TypeKind::Primitive(PrimitiveType::Bool));
    assert(crate::sema::type_interner::spec_inner_kind(ctx.types.kinds(), b) == b);
}

/// Numbers can be added, subtracted, multiplied, divided and compared: on
/// operands of a number type, `+ - * /` are allowed and keep the type, and
/// `== != < <= > >=` are allowed and give a `bool`.
pub proof fn law_number_operators(ctx: &Context, ty: TypeId)
    requires
        spec_is_number(ctx, ty),
    ensures
        forall|op: BinaryOp|
            (op is Plus || op is Minus || op is Mult || op is Divide) ==> #[trigger] spec_binary_allowed(ctx, op, ty)
                && spec_binary_type(op, ty) == ty,
        forall|op: BinaryOp|
            (op is Equal || op is NotEqual || op is Greater || op is GreaterEq || op is Less || op is LessEq)
                ==> #[trigger] spec_binary_allowed(ctx, op, ty) && spec_binary_type(op, ty) == prim_index(
                PrimitiveType::Bool,
            ),
{
}

/// How a cast between the two types converts.
pub open spec fn spec_cast_between(ctx: &Context, from: TypeId, to: TypeId) -> CastKind {
    if spec_equivalent(ctx, from, to) {
        CastKind::Identity
    } else {
        spec_cast_kind(
            ctx.types.kinds()[crate::sema::type_interner::spec_inner_kind(ctx.types.kinds(), from as int)],
            ctx.types.kinds()[crate::sema::type_interner::spec_inner_kind(ctx.types.kinds(), to as int)],
        )
    }
}

/// A literal has the type of its kind: an integer is an `i32`, a float an
/// `f32`, a string a `string` and `true` or `false` a `bool`.
pub open spec fn literal_well_typed(l: types::LiteralNode) -> bool {
    match l.kind {
        LiteralKind::Int(_) => l.ty == prim_index(PrimitiveType::I32),
        LiteralKind::Float(_) => l.ty == prim_index(PrimitiveType::F32),
        LiteralKind::String(_) => l.ty == prim_index(PrimitiveType::String),
        LiteralKind::Bool(_) => l.ty == prim_index(PrimitiveType::Bool),
        _ => true,
    }
}

/// The typing rule of a unary expression: `!` takes a `bool` and gives a
/// `bool`, `-` takes a number and gives its type.
pub open spec fn unary_well_typed(ctx: &Context, u: types::UnaryNode) -> bool {
    ||| u.op == UnaryOp::LogicNot && u.ty == prim_index(PrimitiveType::Bool) && spec_equivalent(
        ctx,
        expr_type(*u.rhs),
        prim_index(PrimitiveType::Bool) as TypeId,
    )
    ||| u.op == UnaryOp::Minus && u.ty == expr_type(*u.rhs) && spec_is_number(ctx, u.ty)
}

/// The typing rule of a binary expression: both sides have one type, the
/// operator may be used on it, and the expression has the operator's type.
pub open spec fn binary_well_typed(ctx: &Context, b: types::BinaryNode) -> bool {
    &&& expr_type(*b.lhs) == expr_type(*b.rhs)
    &&& b.ty == spec_binary_type(b.op, expr_type(*b.lhs))
    &&& spec_binary_allowed(ctx, b.op, expr_type(*b.lhs))
}

/// The expression, and every expression in it, follows the typing rules
/// that the checker enforces; each has a type of the context.
pub open spec fn expr_well_typed(ctx: &Context, e: types::Expr) -> bool
    decreases e,
{
    &&& expr_type(e) < ntypes(ctx)
    &&& match e {
        types::Expr::Literal(l) => literal_well_typed(l),
        types::Expr::Call(c) => call_well_typed(ctx, c) && expr_well_typed(ctx, *c.callee) && forall|j: int|
            0 <= j < c.args@.len() ==> expr_well_typed(ctx, #[trigger] c.args@[j]),
        types::Expr::NamespaceMember(_) => true,
        types::Expr::Binary(b) => binary_well_typed(ctx, b) && expr_well_typed(ctx, *b.lhs) && expr_well_typed(
            ctx,
            *b.rhs,
        ),
        types::Expr::Unary(u) => unary_well_typed(ctx, u) && expr_well_typed(ctx, *u.rhs),
        types::Expr::Cast(c) => c.cast_kind != CastKind::InvalidCast && c.cast_kind == spec_cast_between(
            ctx,
            expr_type(*c.expr),
            c.ty,
        ) && c.ty < ntypes(ctx) && expr_well_typed(ctx, *c.expr),
    }
}

/// The expression is well typed and its type is `bool`.
pub open spec fn cond_well_typed(ctx: &Context, e: types::Expr) -> bool {
    expr_well_typed(ctx, e) && spec_equivalent(ctx, expr_type(e), prim_index(PrimitiveType::Bool) as TypeId)
}

/// The statement, and every statement and expression in it, follows the
/// typing rules that the checker enforces, in a function that returns
/// `rtype`.
pub open spec fn stmt_well_typed(ctx: &Context, rtype: TypeId, s: types::Stmt) -> bool
    decreases s,
{
    match s {
        types::Stmt::ExprStmt(e) => expr_well_typed(ctx, e),
        types::Stmt::Return(n) => n.ty == rtype && match n.expr {
            Some(e) => expr_well_typed(ctx, e) && expr_type(e) == rtype,
            None => rtype == prim_index(PrimitiveType::Void),
        },
        types::Stmt::VarDecl(n) => expr_well_typed(ctx, n.value) && n.ty == expr_type(n.value) && n.ty
            != prim_index(PrimitiveType::Void),
        types::Stmt::VarAssign(n) => expr_well_typed(ctx, n.lval) && expr_well_typed(ctx, n.rval) && expr_type(n.lval)
            == expr_type(n.rval) && n.ty == expr_type(n.rval),
        types::Stmt::OpAssign(n) => expr_well_typed(ctx, *n.lval) && expr_well_typed(ctx, *n.rval) && n.ty
            == expr_type(*n.lval) && n.ty == expr_type(*n.rval) && spec_is_number(ctx, n.ty),
        types::Stmt::If(n) => if_well_typed(ctx, rtype, n),
        types::Stmt::While(n) => cond_well_typed(ctx, n.expr) && block_well_typed(ctx, rtype, n.block),
        types::Stmt::For(n) => stmt_well_typed(ctx, rtype, *n.initializer) && cond_well_typed(ctx, *n.condition)
            && stmt_well_typed(ctx, rtype, *n.increment) && block_well_typed(ctx, rtype, n.block),
        types::Stmt::Break(_) => true,
        types::Stmt::Continue(_) => true,
    }
}

/// Every statement of the block is well typed.
pub open spec fn block_well_typed(ctx: &Context, rtype: TypeId, b: types::BlockNode) -> bool
    decreases b,
{
    forall|j: int| 0 <= j < b.stmts@.len() ==> stmt_well_typed(ctx, rtype, #[trigger] b.stmts@[j])
}

/// The conditions of the `if` and its `else if`s are `bool`s, and its
/// blocks are well typed.
pub open spec fn if_well_typed(ctx: &Context, rtype: TypeId, n: types::IfNode) -> bool
    decreases n,
{
    &&& cond_well_typed(ctx, n.expr)
    &&& block_well_typed(ctx, rtype, n.block)
    &&& match *n.elseif {
        types::ElseBlock::ElseIf(m) => if_well_typed(ctx, rtype, *m),
        types::ElseBlock::Else(b) => block_well_typed(ctx, rtype, *b),
        types::ElseBlock::NoElse => true,
    }
}

/// A function's body is well typed for the function's return type.
pub open spec fn decl_well_typed(ctx: &Context, d: types::Decl) -> bool {
    match d {
        types::Decl::Func(f) => f.ty < ntypes(ctx) && (ctx.types.kinds()[f.ty as int] matches TypeKind::Function(ft)
            && block_well_typed(ctx, ft.ret, f.body)),
        types::Decl::Extern(e) => e.ty < ntypes(ctx),
    }
}

/// Does the assignment target name a constant? A variable is a constant
/// when it was declared one; a member is one when its base is; anything
/// that is neither a name nor a member cannot be assigned to.
pub open spec fn spec_is_constant(scopes: Seq<Map<Seq<char>, Binding>>, lval: ast::Expr) -> bool
    decreases lval,
{
    match lval {
        ast::Expr::Literal(token) => match token.kind {
            TokenKind::IdentLit(name) => match scoped_lookup(scopes, name@) {
                Some(b) => b.is_const,
                None => false,
            },
            _ => false,
        },
        ast::Expr::Member(node) => spec_is_constant(scopes, *node.expr),
        _ => true,
    }
}

/// Does the signed constant fit in the primitive?
pub open spec fn spec_int_fits(n: int, to: PrimitiveType) -> bool {
    match to {
        PrimitiveType::I8 => -128 <= n <= 127,
        PrimitiveType::I16 => -32768 <= n <= 32767,
        PrimitiveType::I32 => -2147483648 <= n <= 2147483647,
        PrimitiveType::I64 => true,
        PrimitiveType::U8 => 0 <= n <= 255,
        PrimitiveType::U16 => 0 <= n <= 65535,
        PrimitiveType::U32 => 0 <= n <= 4294967295,
        PrimitiveType::U64 => n >= 0,
        _ => true,
    }
}

/// Does the unsigned constant fit in the primitive?
pub open spec fn spec_uint_fits(n: int, to: PrimitiveType) -> bool {
    match to {
        PrimitiveType::I8 => n <= 127,
        PrimitiveType::I16 => n <= 32767,
        PrimitiveType::I32 => n <= 2147483647,
        PrimitiveType::I64 => n <= 9223372036854775807,
        PrimitiveType::U8 => n <= 255,
        PrimitiveType::U16 => n <= 65535,
        PrimitiveType::U32 => n <= 4294967295,
        _ => true,
    }
}

/// Does the signed constant `n` fit in the primitive `to`?
pub fn lit_int_fits(n: i64, to: PrimitiveType) -> (r: bool)
    ensures
        r == spec_int_fits(n as int, to),
{
    match to {
        PrimitiveType::I8 => -128 <= n && n <= 127,
        PrimitiveType::I16 => -32768 <= n && n <= 32767,
        PrimitiveType::I32 => -2147483648 <= n && n <= 2147483647,
        PrimitiveType::I64 => true,
        PrimitiveType::U8 => 0 <= n && n <= 255,
        PrimitiveType::U16 => 0 <= n && n <= 65535,
        PrimitiveType::U32 => 0 <= n && n <= 4294967295,
        PrimitiveType::U64 => n >= 0,
        _ => true,
    }
}

/// Does the unsigned constant `n` fit in the primitive `to`?
pub fn lit_uint_fits(n: u64, to: PrimitiveType) -> (r: bool)
    ensures
        r == spec_uint_fits(n as int, to),
{
    match to {
        PrimitiveType::I8 => n <= 127,
        PrimitiveType::I16 => n <= 32767,
        PrimitiveType::I32 => n <= 2147483647,
        PrimitiveType::I64 => n <= 9223372036854775807,
        PrimitiveType::U8 => n <= 255,
        PrimitiveType::U16 => n <= 65535,
        PrimitiveType::U32 => n <= 4294967295,
        _ => true,
    }
}

/// The value of a constant expression: an integer literal, possibly negated.
pub enum ConstVal {
    Int(i64),
    Uint(u64),
}

/// Two's complement negation: the negation, except that the least value
/// stays as it is.
pub open spec fn wrap_neg(n: i64) -> i64 {
    if n == i64::MIN { n } else { (-n) as i64 }
}

pub fn wrapping_neg(n: i64) -> (r: i64)
    ensures
        r == wrap_neg(n),
{
    if n == i64::MIN { n } else { -n }
}

/// The value of an integer literal under any number of minus signs. Negation
/// of a signed value wraps, and an unsigned value turns signed when negated.
pub open spec fn spec_const_value(e: types::Expr) -> Option<ConstVal>
    decreases e,
{
    match e {
        types::Expr::Literal(lit) => match lit.kind {
            LiteralKind::Int(n) => Some(ConstVal::Int(n)),
            LiteralKind::Uint(n) => Some(ConstVal::Uint(n)),
            _ => None,
        },
        types::Expr::Unary(u) => if u.op == UnaryOp::Minus {
            match spec_const_value(*u.rhs) {
                Some(ConstVal::Int(n)) => Some(ConstVal::Int(wrap_neg(n))),
                Some(ConstVal::Uint(n)) => Some(ConstVal::Int(wrap_neg(n as i64))),
                None => None,
            }
        } else {
            None
        },
        _ => None,
    }
}

pub fn try_const_value(expr: &types::Expr) -> (r: Option<ConstVal>)
    ensures
        r == spec_const_value(*expr),
    decreases expr,
{
    match expr {
        types::Expr::Literal(lit) => match &lit.kind {
            LiteralKind::Int(n) => Some(ConstVal::Int(*n)),
            LiteralKind::Uint(n) => Some(ConstVal::Uint(*n)),
            _ => None,
        },
        types::Expr::Unary(u) => {
            if u.op == UnaryOp::Minus {
                match try_const_value(&u.rhs) {
                    Some(ConstVal::Int(n)) => Some(ConstVal::Int(wrapping_neg(n))),
                    Some(ConstVal::Uint(n)) => {
                        let s = n as i64;
                        Some(ConstVal::Int(wrapping_neg(s)))
                    },
                    None => None,
                }
            } else {
                None
            }
        },
        _ => None,
    }
}

/// `a`, `b` and `c` joined.
fn cat3(a: &str, b: &str, c: &str) -> (r: String)
    ensures
        r@ == a@ + b@ + c@,
{
    let mut r = String::from_str(a);
    push_str(&mut r, b);
    push_str(&mut r, c);
    r
}

/// `a` to `e` joined.
fn cat5(a: &str, b: &str, c: &str, d: &str, e: &str) -> (r: String)
    ensures
        r@ == a@ + b@ + c@ + d@ + e@,
{
    let mut r = String::from_str(a);
    push_str(&mut r, b);
    push_str(&mut r, c);
    push_str(&mut r, d);
    push_str(&mut r, e);
    r
}

fn error_at(msg: &str, pos: &Pos, end: &Pos) -> (r: Report)
    ensures
        r.message@ == msg@,
        r.pos == *pos,
        r.end == *end,
{
    Report::code_error(msg, pos, end)
}

fn error_token(msg: &str, tok: &Token) -> (r: Report)
    ensures
        r.message@ == msg@,
        r.pos == tok.pos,
        r.end == tok.end_pos,
{
    Report::code_error(msg, &tok.pos, &tok.end_pos)
}

fn error_expr(msg: &str, e: &types::Expr) -> (r: Report)
    ensures
        r.message@ == msg@,
{
    let m = e.meta();
    Report::code_error(msg, &m.pos, &m.end)
}

/// The name an identifier token holds, or the token's text.
pub fn token_name(tok: &Token) -> (r: String)
    ensures
        tok.kind matches TokenKind::IdentLit(s) ==> r@ == s@,
        r@ == crate::ast::token::kind_text(tok.kind),
{
    match &tok.kind {
        TokenKind::IdentLit(s) => s.clone(),
        _ => tok.to_string(),
    }
}

fn meta_of_token(tok: &Token) -> (m: NodeMeta)
    ensures
        m.id == tok.id,
        m.pos == tok.pos,
        m.end == tok.end_pos,
{
    NodeMeta { id: tok.id, pos: tok.pos, end: tok.end_pos }
}

/// Checks the types of one source file and produces its typed syntax tree.
/// The module's symbols and the context are only read while it works.
/// The type a written type names: a type symbol of the module, or a member
/// of an imported namespace.
pub open spec fn type_node_value(ctx: &Context, syms: &SymbolList, nsl: &NamespaceList, node: ast::TypeNode) -> Option<TypeId> {
    match node {
        ast::TypeNode::Ident(tok) => {
            let n = crate::ast::token::kind_text(tok.kind);
            if syms@.contains_key(n) {
                Some(ctx.symbols@[syms@[n].id as int].ty)
            } else {
                None
            }
        },
        ast::TypeNode::Imported { namespace, ty } => {
            let ns = crate::ast::token::kind_text(namespace.kind);
            let m = crate::ast::token::kind_text(ty.kind);
            if nsl@.contains_key(ns) && nsl@[ns]@.contains_key(m) {
                Some(ctx.symbols@[nsl@[ns]@[m] as int].ty)
            } else {
                None
            }
        },
    }
}

/// The constant an expression spells: an integer literal, or the negation
/// of a constant.
pub open spec fn ast_const_value(e: ast::Expr) -> Option<ConstVal>
    decreases e,
{
    match e {
        ast::Expr::Literal(t) => match t.kind {
            TokenKind::IntLit(n) => Some(ConstVal::Int(n)),
            _ => None,
        },
        ast::Expr::Group(g) => ast_const_value(*g.inner),
        ast::Expr::Unary(u) => if u.op.kind is Minus {
            match ast_const_value(*u.rhs) {
                Some(ConstVal::Int(n)) => Some(ConstVal::Int(wrap_neg(n))),
                Some(ConstVal::Uint(n)) => Some(ConstVal::Int(wrap_neg(n as i64))),
                None => None,
            }
        } else {
            None
        },
        _ => None,
    }
}

/// The constant `c`, if any, fits in the type `ty` is made of.
pub open spec fn const_fits(ctx: &Context, c: Option<ConstVal>, ty: TypeId) -> bool {
    !(ctx.types.kinds()[crate::sema::type_interner::spec_inner_kind(ctx.types.kinds(), ty as int)] matches TypeKind::Primitive(
        to,
    ) && match c {
        Some(ConstVal::Int(n)) => !spec_int_fits(n as int, to),
        Some(ConstVal::Uint(n)) => !spec_uint_fits(n as int, to),
        None => false,
    })
}

/// The kind of cast from type `from` to type `to`.
pub open spec fn cast_kind_of(ctx: &Context, from: TypeId, to: TypeId) -> CastKind {
    if spec_resolve(ctx.types.kinds(), from as int) == spec_resolve(ctx.types.kinds(), to as int) {
        CastKind::Identity
    } else {
        spec_cast_kind(
            ctx.types.kinds()[crate::sema::type_interner::spec_inner_kind(ctx.types.kinds(), from as int)],
            ctx.types.kinds()[crate::sema::type_interner::spec_inner_kind(ctx.types.kinds(), to as int)],
        )
    }
}

pub struct FileChecker {
    nsl: NamespaceList,
    vars: VarTable<Binding>,
    rtype: TypeId,
    has_returned: bool,
    is_main: bool,
    in_loop: bool,
}

impl FileChecker {
    pub closed spec fn wf(&self, ctx: &Context, syms: &SymbolList) -> bool {
        &&& ctx.wf()
        &&& symbols_valid(syms, ctx)
        &&& namespaces_valid(&self.nsl, ctx)
        &&& self.vars.wf()
        &&& bindings_valid(self.vars@, ntypes(ctx))
        &&& self.rtype < ntypes(ctx)
    }

    pub fn new(ctx: &Context, syms: &SymbolList, nsl: NamespaceList, is_main: bool) -> (r: Self)
        requires
            ctx.wf(),
            symbols_valid(syms, ctx),
            namespaces_valid(&nsl, ctx),
        ensures
            r.wf(ctx, syms),
    {
        let vars: VarTable<Binding> = VarTable::new();
        proof {
            ctx.types.lemma_wf();
            assert forall|i: int, k: Seq<char>| 0 <= i < vars@.len() && #[trigger] vars@[i].contains_key(k) implies vars@[i][k].ty < ntypes(ctx) by {
                assert(vars@[i] == Map::<Seq<char>, Binding>::empty());
            }
        }
        FileChecker { nsl, vars, rtype: 0, has_returned: false, is_main, in_loop: false }
    }

    /// The namespaces of the file, for the module to keep.
    pub closed spec fn spec_nsl(&self) -> NamespaceList {
        self.nsl
    }

    pub fn into_namespaces(self, ctx: &Context, syms: &SymbolList) -> (r: NamespaceList)
        requires
            self.wf(ctx, syms),
        ensures
            r == self.spec_nsl(),
            namespaces_valid(&r, ctx),
    {
        self.nsl
    }

    /// Checks every declaration and returns the typed declarations, or every
    /// error found, one at most for each declaration.
    pub fn emit_ast(&mut self, ctx: &Context, syms: &SymbolList, ast: &ast::Ast) -> (r: Res<Vec<types::Decl>>)
        requires
            old(self).wf(ctx, syms),
        ensures
            r matches Ok(d) ==> forall|j: int| 0 <= j < d@.len() ==> decl_well_typed(ctx, #[trigger] d@[j]),
            final(self).wf(ctx, syms),
            r matches Ok(d) ==> d@.len() == ast.decls@.len(),
    {
        let mut diag = Diagnostics::new();
        let mut decls: Vec<types::Decl> = Vec::new();
        let mut i: usize = 0;
        while i < ast.decls.len()
            invariant
                self.wf(ctx, syms),
                i <= ast.decls@.len(),
                diag@.len() == 0 ==> decls@.len() == i,
                forall|j: int| 0 <= j < decls@.len() ==> decl_well_typed(ctx, #[trigger] decls@[j]),
            decreases ast.decls@.len() - i,
        {
            let r = match &ast.decls[i] {
                ast::Decl::Func(node) => self.emit_func(ctx, syms, node),
                ast::Decl::Extern(node) => self.emit_extern(ctx, syms, node),
            };
            match r {
                Ok(d) => decls.push(d),
                Err(e) => diag.add(e),
            }
            i = i + 1;
        }
        if diag.num_errors() > 0 {
            return Err(diag);
        }
        Ok(decls)
    }

    fn emit_func(&mut self, ctx: &Context, syms: &SymbolList, node: &ast::FuncNode) -> (r: Result<types::Decl, Report>)
        requires
            old(self).wf(ctx, syms),
        ensures
            r matches Ok(d) ==> decl_well_typed(ctx, d),
            final(self).wf(ctx, syms),
    {
        let meta = NodeMeta { id: node.id(), pos: node.pos(), end: node.end() };
        self.vars.clear();
        let fid = self.get(ctx, syms, &node.name)?;
        let f = match &ctx.types.lookup(fid).kind {
            TypeKind::Function(f) => f,
            _ => {
                return Err(error_token("not a function", &node.name));
            },
        };
        let name = token_name(&node.name);
        proof {
            ctx.types.lemma_wf();
            assert(crate::sema::types::kind_refs_below(ctx.types.kinds()[fid as int], fid as int));
        }
        if str_eq(name.as_str(), "main") {
            self.check_main_function(ctx, f, node)?;
        }
        self.vars.push_scope();
        self.rtype = f.ret;
        self.has_returned = false;
        if f.params.len() != node.params.len() {
            return Err(error_token("function was not declared properly", &node.name));
        }
        let mut i: usize = 0;
        while i < f.params.len()
            invariant
                self.wf(ctx, syms),
                self.vars@.len() >= 2,
                self.rtype == f.ret,
                f.params@.len() == node.params@.len(),
                forall|j: int| 0 <= j < f.params@.len() ==> (#[trigger] f.params@[j]) < ntypes(ctx),
            decreases f.params@.len() - i,
        {
            let ty = f.params[i];
            let _ = self.bind(ctx, &node.params[i].name, ty, false)?;
            i = i + 1;
        }
        let body = self.emit_block(ctx, syms, &node.body)?;
        self.vars.pop_scope();
        if !self.has_returned && f.ret != ctx.types.void() {
            let mut msg = String::from_str("missing return in function '");
            push_str(&mut msg, name.as_str());
            push_str(&mut msg, "'");
            return Err(error_token(msg.as_str(), &node.name));
        }
        let mut params: Vec<String> = Vec::new();
        let mut j: usize = 0;
        while j < node.params.len()
            decreases node.params@.len() - j,
        {
            params.push(token_name(&node.params[j].name));
            j = j + 1;
        }
        Ok(types::Decl::Func(types::FuncNode { meta, name, public: node.public, ty: fid, params, body }))
    }

    fn check_main_function(&self, ctx: &Context, f: &FunctionType, node: &ast::FuncNode) -> (r: Result<(), Report>)
        requires
            ctx.wf(),
            f.ret < ntypes(ctx),
        ensures
            r is Ok <==> (self.is_main && crate::sema::type_interner::spec_resolve(ctx.types.kinds(), f.ret as int)
                == crate::sema::type_interner::spec_resolve(
                ctx.types.kinds(),
                crate::sema::types::prim_index(PrimitiveType::I32) as int,
            ) && f.params@.len() == 0),
    {
        if !self.is_main {
            return Err(error_at("main function can only be declared in main module", &node.pos(), &node.end()));
        }
        let return_type = ctx.types.primitive(PrimitiveType::I32);
        if !ctx.types.equivalent(f.ret, return_type) {
            let a = ctx.types.type_to_string(return_type);
            let b = ctx.types.type_to_string(f.ret);
            let msg = cat5("main function must return '", a.as_str(), "', got '", b.as_str(), "'");
            return match &node.ret_type {
                Some(ty) => Err(error_at(msg.as_str(), &ty.pos(), &ty.end())),
                None => Err(error_token(msg.as_str(), &node.rparen)),
            };
        }
        if f.params.len() > 0 {
            return Err(error_at("main function must not take any arguments", &node.pos(), &node.end()));
        }
        Ok(())
    }

    fn emit_extern(&mut self, ctx: &Context, syms: &SymbolList, node: &ast::FuncDeclNode) -> (r: Result<types::Decl, Report>)
        requires
            old(self).wf(ctx, syms),
        ensures
            r matches Ok(d) ==> decl_well_typed(ctx, d),
            final(self).wf(ctx, syms),
            r is Ok <==> syms@.contains_key(extern_name(syms, crate::ast::token::kind_text(node.name.kind))),
            r matches Ok(d) ==> (d matches types::Decl::Extern(e) && e.name@ == extern_name(
                syms,
                crate::ast::token::kind_text(node.name.kind),
            ) && e.ty == ctx.symbols@[syms@[e.name@].id as int].ty),
    {
        let meta = NodeMeta { id: node.id(), pos: node.pos(), end: node.end() };
        let real_name = token_name(&node.name);
        let name = match syms.get_alias(&real_name) {
            Some(alias) => alias.clone(),
            None => real_name,
        };
        match get_symbol(ctx, syms, name.as_str()) {
            Ok(sym) => Ok(types::Decl::Extern(types::ExternNode { ty: sym.ty, meta, name })),
            Err(_) => Err(error_token("not declared", &node.name)),
        }
    }

    fn emit_block(&mut self, ctx: &Context, syms: &SymbolList, node: &ast::BlockNode) -> (r: Result<types::BlockNode, Report>)
        requires
            old(self).wf(ctx, syms),
        ensures
            final(self).rtype == old(self).rtype,
            r matches Ok(b) ==> block_well_typed(ctx, old(self).rtype, b),
            final(self).wf(ctx, syms),
            r is Ok ==> final(self).vars@.len() == old(self).vars@.len(),
            r matches Ok(b) ==> b.stmts@.len() == node.stmts@.len(),
        decreases node, 0nat,
    {
        proof {
            self.vars.lemma_depth();
        }
        self.vars.push_scope();
        let mut stmts: Vec<types::Stmt> = Vec::new();
        let mut i: usize = 0;
        while i < node.stmts.len()
            invariant
                self.wf(ctx, syms),
                self.vars@.len() == old(self).vars@.len() + 1,
                i <= node.stmts@.len(),
                stmts@.len() == i,
                self.rtype == old(self).rtype,
                forall|j: int| 0 <= j < i ==> stmt_well_typed(ctx, old(self).rtype, #[trigger] stmts@[j]),
            decreases node.stmts@.len() - i,
        {
            proof {
                assert(decreases_to!(node => node.stmts@[i as int])) by {
                    assert(decreases_to!(node => node.stmts));
                    assert(decreases_to!(node.stmts => node.stmts@));
                    assert(decreases_to!(node.stmts@ => node.stmts@[i as int]));
                }
            }
            let s = self.emit_stmt(ctx, syms, &node.stmts[i])?;
            stmts.push(s);
            i = i + 1;
        }
        self.pop(ctx, syms);
        Ok(types::BlockNode { stmts })
    }

    fn pop(&mut self, ctx: &Context, syms: &SymbolList)
        requires
            old(self).wf(ctx, syms),
            old(self).vars@.len() > 1,
        ensures
            final(self).rtype == old(self).rtype,
            final(self).wf(ctx, syms),
            final(self).vars@ == old(self).vars@.drop_last(),
            final(self).has_returned == old(self).has_returned,
            final(self).in_loop == old(self).in_loop,
    {
        let ghost before = self.vars@;
        self.vars.pop_scope();
        assert forall|i: int, k: Seq<char>| 0 <= i < self.vars@.len() && #[trigger] self.vars@[i].contains_key(k) implies self.vars@[i][k].ty < ntypes(ctx) by {
            assert(self.vars@[i] == before[i]);
        }
    }

    #[verifier::spinoff_prover]
    #[verifier::rlimit(60)]
    fn emit_stmt(&mut self, ctx: &Context, syms: &SymbolList, stmt: &ast::Stmt) -> (r: Result<types::Stmt, Report>)
        requires
            old(self).wf(ctx, syms),
        ensures
            final(self).rtype == old(self).rtype,
            r matches Ok(st) ==> stmt_well_typed(ctx, old(self).rtype, st),
            final(self).wf(ctx, syms),
            r is Ok ==> final(self).vars@.len() == old(self).vars@.len(),
            *stmt matches ast::Stmt::ExprStmt(e) ==> (r is Ok <==> old(self).check_type(ctx, syms, e) is Some),
            (*stmt is Break || *stmt is Continue) ==> (r is Ok <==> old(self).in_loop),
            *stmt is Block ==> r is Err,
            *stmt matches ast::Stmt::Return(n) ==> (r is Ok <==> match n.expr {
                Some(e) => old(self).check_type(ctx, syms, e) == Some(old(self).rtype),
                None => old(self).rtype == prim_index(PrimitiveType::Void),
            }),
            *stmt matches ast::Stmt::VarAssign(n) ==> (r is Ok <==> {
                &&& !spec_is_constant(old(self).vars@, n.lval)
                &&& old(self).check_type(ctx, syms, n.lval) is Some
                &&& old(self).check_type(ctx, syms, n.lval) == old(self).check_type(ctx, syms, n.expr)
            }),
            *stmt matches ast::Stmt::OpAssign(n) ==> (r is Ok <==> {
                &&& !spec_is_constant(old(self).vars@, n.lval)
                &&& old(self).check_type(ctx, syms, n.lval) is Some
                &&& old(self).check_type(ctx, syms, n.lval) == old(self).check_type(ctx, syms, n.rval)
                &&& spec_assign_op(n.op.kind) is Some
                &&& spec_is_number(ctx, old(self).check_type(ctx, syms, n.lval)->0)
            }),
            *stmt matches ast::Stmt::VarDecl(n) ==> (r is Ok <==> {
                let name = crate::ast::token::kind_text(n.name.kind);
                &&& old(self).check_type(ctx, syms, n.expr) is Some
                &&& old(self).check_type(ctx, syms, n.expr) != Some(prim_index(PrimitiveType::Void) as TypeId)
                &&& !(syms@.contains_key(name) && ctx.symbols@[syms@[name].id as int].kind == SymbolKind::Type)
                &&& !old(self).nsl@.contains_key(name)
                &&& !old(self).vars@.last().contains_key(name)
            }),
            *stmt matches ast::Stmt::While(n) ==> (r is Ok ==> (old(self).check_type(ctx, syms, n.expr) matches Some(
                t,
            ) && spec_equivalent(ctx, t, prim_index(PrimitiveType::Bool) as TypeId))),
        decreases stmt, 1nat,
    {
        match stmt {
            ast::Stmt::ExprStmt(e) => Ok(types::Stmt::ExprStmt(self.emit_expr(ctx, syms, e)?)),
            ast::Stmt::Return(n) => self.emit_return(ctx, syms, n),
            ast::Stmt::VarDecl(n) => self.emit_var_decl(ctx, syms, n),
            ast::Stmt::VarAssign(n) => self.emit_var_assign(ctx, syms, n),
            ast::Stmt::While(n) => {
                let expr = self.emit_expr(ctx, syms, &n.expr)?;
                self.assert_expr_is_type(ctx, PrimitiveType::Bool, &expr)?;
                let block = self.emit_loop_block(ctx, syms, &n.block)?;
                let meta = NodeMeta { id: n.id(), pos: n.pos(), end: n.end() };
                Ok(types::Stmt::While(types::WhileNode { meta, expr, block }))
            },
            ast::Stmt::For(n) => {
                let meta = NodeMeta { id: n.id(), pos: n.pos(), end: n.end() };
                let initializer = self.emit_stmt(ctx, syms, &n.initializer)?;
                let condition = self.emit_expr(ctx, syms, &n.condition)?;
                self.assert_expr_is_type(ctx, PrimitiveType::Bool, &condition)?;
                let increment = self.emit_stmt(ctx, syms, &n.increment)?;
                let block = self.emit_loop_block(ctx, syms, &n.block)?;
                Ok(types::Stmt::For(types::ForNode {
                    meta,
                    initializer: Box::new(initializer),
                    condition: Box::new(condition),
                    increment: Box::new(increment),
                    block,
                }))
            },
            ast::Stmt::If(n) => Ok(types::Stmt::If(self.emit_if(ctx, syms, n)?)),
            ast::Stmt::Block(b) => Err(error_at("unexpected block", &b.pos(), &b.end())),
            ast::Stmt::Break(tok) => {
                if !self.in_loop {
                    return Err(error_token("break cannot be used outside a loop", tok));
                }
                Ok(types::Stmt::Break(types::BreakNode { meta: meta_of_token(tok) }))
            },
            ast::Stmt::Continue(tok) => {
                if !self.in_loop {
                    return Err(error_token("continue cannot be used outside a loop", tok));
                }
                Ok(types::Stmt::Continue(types::ContinueNode { meta: meta_of_token(tok) }))
            },
            ast::Stmt::OpAssign(n) => self.emit_op_assign(ctx, syms, n),
        }
    }

    /// A loop body: checked with the loop flag set, and without changing
    /// whether the function is known to have returned.
    fn emit_loop_block(&mut self, ctx: &Context, syms: &SymbolList, block: &ast::BlockNode) -> (r: Result<types::BlockNode, Report>)
        requires
            old(self).wf(ctx, syms),
        ensures
            final(self).rtype == old(self).rtype,
            r matches Ok(b) ==> block_well_typed(ctx, old(self).rtype, b),
            final(self).wf(ctx, syms),
            r is Ok ==> final(self).vars@.len() == old(self).vars@.len(),
            r is Ok ==> final(self).has_returned == old(self).has_returned,
            r is Ok ==> final(self).in_loop == old(self).in_loop,
        decreases block, 1nat,
    {
        let prev_in_loop = self.in_loop;
        let has_returned = self.has_returned;
        self.in_loop = true;
        let b = self.emit_block(ctx, syms, block)?;
        self.in_loop = prev_in_loop;
        self.has_returned = has_returned;
        Ok(b)
    }

    fn emit_op_assign(&mut self, ctx: &Context, syms: &SymbolList, node: &ast::OpAssignNode) -> (r: Result<types::Stmt, Report>)
        requires
            old(self).wf(ctx, syms),
        ensures
            final(self).rtype == old(self).rtype,
            r matches Ok(st) ==> stmt_well_typed(ctx, old(self).rtype, st),
            final(self).wf(ctx, syms),
            final(self).vars@ == old(self).vars@,
            spec_is_constant(old(self).vars@, node.lval) ==> (r matches Err(e) && e.message@
                == "cannot assign new value to a constant"@),
            r matches Ok(s) ==> (s matches types::Stmt::OpAssign(n) && !spec_is_constant(old(self).vars@, node.lval)
                && n.ty == expr_type(*n.lval) && n.ty == expr_type(*n.rval) && spec_is_number(ctx, n.ty)
                && spec_assign_op(node.op.kind) == Some(n.op)),
            r is Ok <==> {
                &&& !spec_is_constant(old(self).vars@, node.lval)
                &&& old(self).check_type(ctx, syms, node.lval) is Some
                &&& old(self).check_type(ctx, syms, node.lval) == old(self).check_type(ctx, syms, node.rval)
                &&& spec_assign_op(node.op.kind) is Some
                &&& spec_is_number(ctx, old(self).check_type(ctx, syms, node.lval)->0)
            },
    {
        let meta = NodeMeta { id: node.id(), pos: node.pos(), end: node.end() };
        if self.is_constant(&node.lval) {
            return Err(error_at("cannot assign new value to a constant", &node.lval.pos(), &node.lval.end()));
        }
        let lval = self.emit_expr(ctx, syms, &node.lval)?;
        let rval = self.emit_expr(ctx, syms, &node.rval)?;
        if lval.type_id() != rval.type_id() {
            let a = ctx.types.type_to_string(lval.type_id());
            let b = ctx.types.type_to_string(rval.type_id());
            let msg = cat5("mismatched types in assignment. expected '", a.as_str(), "', got '", b.as_str(), "'");
            return Err(error_expr(msg.as_str(), &rval));
        }
        let (op, op_str) = match node.op.kind {
            TokenKind::PlusEq => (types::AssignOp::Plus, "+="),
            TokenKind::MinusEq => (types::AssignOp::Minus, "-="),
            TokenKind::StarEq => (types::AssignOp::Mult, "*="),
            TokenKind::SlashEq => (types::AssignOp::Div, "/="),
            _ => {
                return Err(error_token("not an assignment operator", &node.op));
            },
        };
        if !ctx.types.is_number(lval.type_id()) {
            let t = ctx.types.type_to_string(lval.type_id());
            let msg = cat5("operator '", op_str, "' cannot be used on type '", t.as_str(), "'");
            return Err(error_expr(msg.as_str(), &rval));
        }
        let ty = rval.type_id();
        Ok(types::Stmt::OpAssign(types::OpAssignNode { meta, ty, lval: Box::new(lval), rval: Box::new(rval), op }))
    }

    fn emit_if(&mut self, ctx: &Context, syms: &SymbolList, node: &ast::IfNode) -> (r: Result<types::IfNode, Report>)
        requires
            old(self).wf(ctx, syms),
        ensures
            final(self).rtype == old(self).rtype,
            r matches Ok(n) ==> if_well_typed(ctx, old(self).rtype, n),
            final(self).wf(ctx, syms),
            r is Ok ==> final(self).vars@.len() == old(self).vars@.len(),
        decreases node, 1nat,
    {
        let meta = NodeMeta { id: node.id(), pos: node.pos(), end: node.end() };
        let expr = self.emit_expr(ctx, syms, &node.expr)?;
        self.assert_expr_is_type(ctx, PrimitiveType::Bool, &expr)?;
        let block = self.emit_block(ctx, syms, &node.block)?;
        let this_returned = self.has_returned;
        let (elseif, exhaustive_return) = match &*node.elseif {
            ast::ElseBlock::ElseIf(n) => {
                self.has_returned = false;
                let b = self.emit_if(ctx, syms, n)?;
                (Box::new(types::ElseBlock::ElseIf(Box::new(b))), self.has_returned)
            },
            ast::ElseBlock::Else(n) => {
                self.has_returned = false;
                let b = self.emit_block(ctx, syms, n)?;
                (Box::new(types::ElseBlock::Else(Box::new(b))), self.has_returned)
            },
            ast::ElseBlock::NoElse => (Box::new(types::ElseBlock::NoElse), false),
        };
        self.has_returned = this_returned && exhaustive_return;
        Ok(types::IfNode { meta, expr, block, elseif })
    }

    fn emit_var_assign(&mut self, ctx: &Context, syms: &SymbolList, node: &ast::VarAssignNode) -> (r: Result<types::Stmt, Report>)
        requires
            old(self).wf(ctx, syms),
        ensures
            final(self).rtype == old(self).rtype,
            r matches Ok(st) ==> stmt_well_typed(ctx, old(self).rtype, st),
            final(self).wf(ctx, syms),
            final(self).vars@ == old(self).vars@,
            r is Ok <==> {
                &&& !spec_is_constant(old(self).vars@, node.lval)
                &&& old(self).check_type(ctx, syms, node.lval) is Some
                &&& old(self).check_type(ctx, syms, node.lval) == old(self).check_type(ctx, syms, node.expr)
            },
    {
        let meta = NodeMeta { id: node.id(), pos: node.pos(), end: node.end() };
        if self.is_constant(&node.lval) {
            return Err(error_at("cannot assign new value to a constant", &node.lval.pos(), &node.lval.end()));
        }
        let lval = self.emit_expr(ctx, syms, &node.lval)?;
        let rval = self.emit_expr(ctx, syms, &node.expr)?;
        if lval.type_id() != rval.type_id() {
            let a = ctx.types.type_to_string(lval.type_id());
            let b = ctx.types.type_to_string(rval.type_id());
            let msg = cat5("mismatched types in assignment. expected '", a.as_str(), "', got '", b.as_str(), "'");
            return Err(error_expr(msg.as_str(), &rval));
        }
        let ty = rval.type_id();
        Ok(types::Stmt::VarAssign(types::VarAssignNode { meta, ty, lval, rval }))
    }

    fn emit_var_decl(&mut self, ctx: &Context, syms: &SymbolList, node: &ast::VarDeclNode) -> (r: Result<types::Stmt, Report>)
        requires
            old(self).wf(ctx, syms),
        ensures
            final(self).rtype == old(self).rtype,
            r matches Ok(st) ==> stmt_well_typed(ctx, old(self).rtype, st),
            final(self).wf(ctx, syms),
            final(self).vars@.len() == old(self).vars@.len(),
            r is Ok <==> {
                let n = crate::ast::token::kind_text(node.name.kind);
                &&& old(self).check_type(ctx, syms, node.expr) is Some
                &&& old(self).check_type(ctx, syms, node.expr) != Some(prim_index(PrimitiveType::Void) as TypeId)
                &&& !(syms@.contains_key(n) && ctx.symbols@[syms@[n].id as int].kind == SymbolKind::Type)
                &&& !old(self).nsl@.contains_key(n)
                &&& !old(self).vars@.last().contains_key(n)
            },
    {
        let meta = NodeMeta { id: node.id(), pos: node.pos(), end: node.end() };
        let typed_expr = self.emit_expr(ctx, syms, &node.expr)?;
        let name = token_name(&node.name);
        if typed_expr.type_id() == ctx.types.void() {
            return Err(error_expr("cannot assign void type to variable", &typed_expr));
        }
        match get_symbol(ctx, syms, name.as_str()) {
            Ok(sym) => {
                if sym.kind == SymbolKind::Type {
                    return Err(error_token("shadowing a type is not allowed", &node.name));
                }
            },
            Err(_) => {},
        }
        if self.nsl.get(name.as_str()).is_ok() {
            return Err(error_token("shadowing a namespace is not allowed", &node.name));
        }
        let ty = self.bind(ctx, &node.name, typed_expr.type_id(), node.constant)?;
        Ok(types::Stmt::VarDecl(types::VarDeclNode { meta, ty, name, value: typed_expr }))
    }

    fn emit_return(&mut self, ctx: &Context, syms: &SymbolList, node: &ast::ReturnNode) -> (r: Result<types::Stmt, Report>)
        requires
            old(self).wf(ctx, syms),
        ensures
            final(self).rtype == old(self).rtype,
            r matches Ok(st) ==> stmt_well_typed(ctx, old(self).rtype, st),
            final(self).wf(ctx, syms),
            final(self).vars@ == old(self).vars@,
            final(self).has_returned,
            r matches Ok(types::Stmt::Return(n)) ==> n.ty == old(self).rtype,
            r is Ok <==> match node.expr {
                Some(e) => old(self).check_type(ctx, syms, e) == Some(old(self).rtype),
                None => old(self).rtype == prim_index(PrimitiveType::Void),
            },
    {
        let r = self.return_stmt(ctx, syms, node);
        self.has_returned = true;
        r
    }

    /// The checked `return` statement, or the error it is refused with.
    fn return_stmt(&self, ctx: &Context, syms: &SymbolList, node: &ast::ReturnNode) -> (r: Result<types::Stmt, Report>)
        requires
            self.wf(ctx, syms),
        ensures
            r matches Ok(st) ==> stmt_well_typed(ctx, self.rtype, st),
            r matches Ok(types::Stmt::Return(n)) ==> n.ty == self.rtype,
            r is Ok <==> match node.expr {
                Some(e) => self.check_type(ctx, syms, e) == Some(self.rtype),
                None => self.rtype == prim_index(PrimitiveType::Void),
            },
    {
        let meta = NodeMeta { id: node.id(), pos: node.pos(), end: node.end() };
        match &node.expr {
            Some(expr) => {
                let typed_expr = self.emit_expr(ctx, syms, expr)?;
                if typed_expr.type_id() != self.rtype {
                    let a = ctx.types.type_to_string(self.rtype);
                    let b = ctx.types.type_to_string(typed_expr.type_id());
                    let msg = cat5("incorrect return type: expected '", a.as_str(), "', got '", b.as_str(), "'");
                    Err(error_expr(msg.as_str(), &typed_expr))
                } else {
                    Ok(types::Stmt::Return(types::ReturnNode { meta, ty: typed_expr.type_id(), expr: Some(typed_expr) }))
                }
            },
            None => {
                if self.rtype != ctx.types.void() {
                    let a = ctx.types.type_to_string(self.rtype);
                    let msg = cat3("incorrect return type: expected '", a.as_str(), "'");
                    Err(error_token(msg.as_str(), &node.kw))
                } else {
                    Ok(types::Stmt::Return(types::ReturnNode { meta, expr: None, ty: ctx.types.void() }))
                }
            },
        }
    }

    pub fn emit_expr(&self, ctx: &Context, syms: &SymbolList, expr: &ast::Expr) -> (r: Result<types::Expr, Report>)
        requires
            self.wf(ctx, syms),
        ensures
            r is Ok <==> self.check_type(ctx, syms, *expr) is Some,
            r matches Ok(e) ==> self.check_type(ctx, syms, *expr) == Some(expr_type(e)),
            r matches Ok(e) ==> spec_const_value(e) == ast_const_value(*expr),
            r matches Ok(e) ==> expr_type(e) < ntypes(ctx),
            r matches Ok(e) ==> expr_well_typed(ctx, e),
        decreases expr,
    {
        match expr {
            ast::Expr::Literal(tok) => self.emit_literal(ctx, syms, tok),
            ast::Expr::Group(g) => self.emit_expr(ctx, syms, &g.inner),
            ast::Expr::Call(node) => self.emit_call(ctx, syms, node),
            ast::Expr::Member(node) => self.emit_member(ctx, syms, node),
            ast::Expr::Binary(node) => self.emit_binary(ctx, syms, node),
            ast::Expr::Unary(node) => self.emit_unary(ctx, syms, node),
            ast::Expr::Cast(node) => self.emit_cast(ctx, syms, node),
        }
    }

    fn emit_cast(&self, ctx: &Context, syms: &SymbolList, node: &ast::CastExpr) -> (r: Result<types::Expr, Report>)
        requires
            self.wf(ctx, syms),
        ensures
            r is Ok <==> self.check_type(ctx, syms, ast::Expr::Cast(*node)) is Some,
            r matches Ok(e) ==> self.check_type(ctx, syms, ast::Expr::Cast(*node)) == Some(expr_type(e)),
            r matches Ok(e) ==> spec_const_value(e) == ast_const_value(ast::Expr::Cast(*node)),
            r matches Ok(e) ==> expr_type(e) < ntypes(ctx),
            r matches Ok(e) ==> expr_well_typed(ctx, e),
        decreases node,
    {
        let meta = NodeMeta { id: node.kw.id, pos: node.expr.pos(), end: node.ty.end() };
        let expr = self.emit_expr(ctx, syms, &node.expr)?;
        let ty = self.eval_type(ctx, syms, &node.ty)?;
        let cast_kind = check_if_can_cast(ctx, expr.type_id(), ty);
        if cast_kind == CastKind::InvalidCast {
            return Err(error_at("invalid cast", &meta.pos, &meta.end));
        }
        check_const_bounds(ctx, &expr, ty, &meta)?;
        Ok(types::Expr::Cast(types::CastNode { meta, expr: Box::new(expr), ty, cast_kind }))
    }

    fn emit_literal(&self, ctx: &Context, syms: &SymbolList, tok: &Token) -> (r: Result<types::Expr, Report>)
        requires
            self.wf(ctx, syms),
        ensures
            r is Ok <==> self.check_type(ctx, syms, ast::Expr::Literal(*tok)) is Some,
            r matches Ok(e) ==> self.check_type(ctx, syms, ast::Expr::Literal(*tok)) == Some(expr_type(e)),
            r matches Ok(e) ==> spec_const_value(e) == ast_const_value(ast::Expr::Literal(*tok)),
            r matches Ok(e) ==> expr_type(e) < ntypes(ctx),
            r matches Ok(e) ==> expr_well_typed(ctx, e),
            r matches Ok(e) ==> (tok.kind is IntLit ==> expr_type(e) == prim_index(PrimitiveType::I32)),
            r matches Ok(e) ==> (tok.kind is StringLit ==> expr_type(e) == prim_index(PrimitiveType::String)),
            r matches Ok(e) ==> ((tok.kind is True || tok.kind is False) ==> expr_type(e) == prim_index(PrimitiveType::Bool)),
            r matches Ok(e) ==> (tok.kind is FloatLit ==> expr_type(e) == prim_index(PrimitiveType::F32)),
            r is Ok <==> (tok.kind is IntLit || tok.kind is FloatLit || tok.kind is StringLit || tok.kind is True
                || tok.kind is False || (tok.kind is IdentLit && self.name_has_value(
                ctx,
                syms,
                crate::ast::token::kind_text(tok.kind),
            ))),
    {
        proof {
            ctx.types.lemma_wf();
        }
        let (ty, kind) = match &tok.kind {
            TokenKind::IntLit(n) => (ctx.types.primitive(PrimitiveType::I32), LiteralKind::Int(*n)),
            TokenKind::FloatLit(s) => (ctx.types.primitive(PrimitiveType::F32), LiteralKind::Float(s.clone())),
            TokenKind::StringLit(s) => (ctx.types.primitive(PrimitiveType::String), LiteralKind::String(s.clone())),
            TokenKind::True => (ctx.types.primitive(PrimitiveType::Bool), LiteralKind::Bool(true)),
            TokenKind::False => (ctx.types.primitive(PrimitiveType::Bool), LiteralKind::Bool(false)),
            TokenKind::IdentLit(name) => {
                let id = match self.get(ctx, syms, tok) {
                    Ok(id) => id,
                    Err(err) => {
                        if self.nsl.get(name.as_str()).is_ok() {
                            return Err(error_token("namespace cannot be used as a value", tok));
                        }
                        return Err(err);
                    },
                };
                (id, LiteralKind::Ident(name.clone()))
            },
            _ => {
                return Err(error_token("not a value", tok));
            },
        };
        Ok(types::Expr::Literal(types::LiteralNode { meta: meta_of_token(tok), ty, kind }))
    }

    fn emit_unary(&self, ctx: &Context, syms: &SymbolList, node: &ast::UnaryExpr) -> (r: Result<types::Expr, Report>)
        requires
            self.wf(ctx, syms),
        ensures
            r is Ok <==> self.check_type(ctx, syms, ast::Expr::Unary(*node)) is Some,
            r matches Ok(e) ==> self.check_type(ctx, syms, ast::Expr::Unary(*node)) == Some(expr_type(e)),
            r matches Ok(e) ==> spec_const_value(e) == ast_const_value(ast::Expr::Unary(*node)),
            r matches Ok(e) ==> expr_type(e) < ntypes(ctx),
            r matches Ok(e) ==> expr_well_typed(ctx, e),
            r matches Ok(e) ==> (e matches types::Expr::Unary(u) && expr_type(*u.rhs) < ntypes(ctx) && ((
            node.op.kind is Not && u.op == UnaryOp::LogicNot && u.ty == prim_index(PrimitiveType::Bool)
                && spec_equivalent(ctx, expr_type(*u.rhs), prim_index(PrimitiveType::Bool) as TypeId)) || (
            node.op.kind is Minus && u.op == UnaryOp::Minus && u.ty == expr_type(*u.rhs) && spec_is_number(
                ctx,
                u.ty,
            )))),
            !(node.op.kind is Not || node.op.kind is Minus) ==> r is Err,
        decreases node,
    {
        let meta = NodeMeta { id: node.op.id, pos: node.op.pos, end: node.rhs.end() };
        let rhs = self.emit_expr(ctx, syms, &node.rhs)?;
        match node.op.kind {
            TokenKind::Not => {
                let bool_t = ctx.types.primitive(PrimitiveType::Bool);
                if !ctx.types.equivalent(rhs.type_id(), bool_t) {
                    let t = ctx.types.type_to_string(rhs.type_id());
                    let msg = cat3("'!' operator can only be used on type 'bool', got '", t.as_str(), "'");
                    return Err(error_expr(msg.as_str(), &rhs));
                }
                Ok(types::Expr::Unary(types::UnaryNode { ty: bool_t, meta, op: UnaryOp::LogicNot, rhs: Box::new(rhs) }))
            },
            TokenKind::Minus => {
                if !ctx.types.is_number(rhs.type_id()) {
                    let t = ctx.types.type_to_string(rhs.type_id());
                    let msg = cat3("'-' operator can only be used on number types, got '", t.as_str(), "'");
                    return Err(error_expr(msg.as_str(), &rhs));
                }
                let ty = rhs.type_id();
                Ok(types::Expr::Unary(types::UnaryNode { meta, op: UnaryOp::Minus, ty, rhs: Box::new(rhs) }))
            },
            _ => Err(error_token("not a unary operator", &node.op)),
        }
    }

    fn emit_binary(&self, ctx: &Context, syms: &SymbolList, node: &ast::BinaryExpr) -> (r: Result<types::Expr, Report>)
        requires
            self.wf(ctx, syms),
        ensures
            r is Ok <==> self.check_type(ctx, syms, ast::Expr::Binary(*node)) is Some,
            r matches Ok(e) ==> self.check_type(ctx, syms, ast::Expr::Binary(*node)) == Some(expr_type(e)),
            r matches Ok(e) ==> spec_const_value(e) == ast_const_value(ast::Expr::Binary(*node)),
            r matches Ok(e) ==> expr_type(e) < ntypes(ctx),
            r matches Ok(e) ==> expr_well_typed(ctx, e),
            r matches Ok(e) ==> (e matches types::Expr::Binary(b) && b.ty == spec_binary_type(b.op, expr_type(*b.lhs))
                && expr_type(*b.lhs) == expr_type(*b.rhs) && types::spec_binary_op(node.op.kind) == Some(b.op)
                && spec_binary_allowed(ctx, b.op, expr_type(*b.lhs))),
            types::spec_binary_op(node.op.kind) is None ==> r is Err,
        decreases node,
    {
        let meta = NodeMeta { id: node.op.id, pos: node.lhs.pos(), end: node.rhs.end() };
        let lhs = self.emit_expr(ctx, syms, &node.lhs)?;
        let rhs = self.emit_expr(ctx, syms, &node.rhs)?;
        if lhs.type_id() != rhs.type_id() {
            let a = ctx.types.type_to_string(lhs.type_id());
            let b = ctx.types.type_to_string(rhs.type_id());
            let msg = cat5("mismatched types in expression: '", a.as_str(), "' and '", b.as_str(), "'");
            return Err(error_at(msg.as_str(), &meta.pos, &meta.end));
        }
        let op = match types::binary_op_of(&node.op.kind) {
            Some(op) => op,
            None => {
                return Err(error_token("not a binary operator", &node.op));
            },
        };
        check_binary_op_type(ctx, op, lhs.type_id(), &meta)?;
        proof {
            ctx.types.lemma_wf();
        }
        let ty = binary_type(ctx, op, lhs.type_id());
        Ok(types::Expr::Binary(types::BinaryNode { ty, meta, op, lhs: Box::new(lhs), rhs: Box::new(rhs) }))
    }

    fn emit_call(&self, ctx: &Context, syms: &SymbolList, node: &ast::CallExpr) -> (r: Result<types::Expr, Report>)
        requires
            self.wf(ctx, syms),
        ensures
            r is Ok <==> self.check_type(ctx, syms, ast::Expr::Call(*node)) is Some,
            r matches Ok(e) ==> self.check_type(ctx, syms, ast::Expr::Call(*node)) == Some(expr_type(e)),
            r matches Ok(e) ==> spec_const_value(e) == ast_const_value(ast::Expr::Call(*node)),
            r matches Ok(e) ==> expr_type(e) < ntypes(ctx),
            r matches Ok(e) ==> expr_well_typed(ctx, e),
            r matches Ok(e) ==> (e matches types::Expr::Call(c) && call_well_typed(ctx, c) && c.args@.len()
                == node.args@.len()),
        decreases node,
    {
        let meta = NodeMeta { id: node.lparen.id, pos: node.callee.pos(), end: node.rparen.end_pos };
        let callee = self.emit_expr(ctx, syms, &node.callee)?;
        let f = match ctx.types.try_function(callee.type_id()) {
            Some(f) => f,
            None => {
                return Err(error_expr("not a function", &callee));
            },
        };
        proof {
            ctx.types.lemma_wf();
            assert(crate::sema::types::kind_refs_below(ctx.types.kinds()[expr_type(callee) as int], expr_type(callee) as int));
        }
        if f.params.len() != node.args.len() {
            let mut msg = String::from_str("function takes ");
            push_u64(&mut msg, f.params.len() as u64);
            push_str(&mut msg, " arguments, got ");
            push_u64(&mut msg, node.args.len() as u64);
            let cm = callee.meta();
            let t = ctx.types.type_to_string(callee.type_id());
            let info = cat3("definition: ", t.as_str(), "");
            return Err(error_at(msg.as_str(), &cm.pos, &node.rparen.pos).with_info(info.as_str()));
        }
        let ghost ft = expr_type(callee);
        let mut args: Vec<types::Expr> = Vec::new();
        let mut i: usize = 0;
        while i < node.args.len()
            invariant
                self.wf(ctx, syms),
                self.check_type(ctx, syms, *node.callee) == Some(ft),
                ft < ntypes(ctx),
                ctx.types.kinds()[ft as int] == TypeKind::Function(*f),
                f.params@.len() == node.args@.len(),
                forall|j: int| 0 <= j < f.params@.len() ==> (#[trigger] f.params@[j]) < ntypes(ctx),
                i <= node.args@.len(),
                args@.len() == i,
                forall|j: int| 0 <= j < i ==> expr_type(#[trigger] args@[j]) == f.params@[j],
                forall|j: int| 0 <= j < i ==> expr_well_typed(ctx, #[trigger] args@[j]),
                forall|j: int| 0 <= j < i ==> self.check_type(ctx, syms, #[trigger] node.args@[j]) == Some(f.params@[j]),
            decreases node.args@.len() - i,
        {
            proof {
                assert(decreases_to!(node => node.args@[i as int])) by {
                    assert(decreases_to!(node => node.args));
                    assert(decreases_to!(node.args => node.args@));
                    assert(decreases_to!(node.args@ => node.args@[i as int]));
                }
            }
            let typed_arg = match self.emit_expr(ctx, syms, &node.args[i]) {
                Ok(a) => a,
                Err(e) => {
                    proof {
                        assert(self.check_type(ctx, syms, node.args@[i as int]) != Some(f.params@[i as int]));
                    }
                    return Err(e);
                },
            };
            let arg_id = typed_arg.type_id();
            let param_id = f.params[i];
            if arg_id != param_id {
                proof {
                    assert(self.check_type(ctx, syms, node.args@[i as int]) != Some(f.params@[i as int]));
                }
                let a = ctx.types.type_to_string(param_id);
                let b = ctx.types.type_to_string(arg_id);
                let msg = cat5("mismatched types in function call. expected '", a.as_str(), "', got '", b.as_str(), "'");
                let err = error_expr(msg.as_str(), &typed_arg);
                proof {
                    let c = ast::Expr::Call(*node)->Call_0;
                    assert(c == *node);
                    assert(self.check_type(ctx, syms, c.args@[i as int]) != Some(f.params@[i as int]));
                    assert(self.check_type(ctx, syms, ast::Expr::Call(*node)) is None);
                }
                return Err(err);
            }
            args.push(typed_arg);
            i = i + 1;
        }
        Ok(types::Expr::Call(types::CallNode { meta, ty: f.ret, callee: Box::new(callee), args }))
    }

    fn emit_member(&self, ctx: &Context, syms: &SymbolList, node: &ast::MemberNode) -> (r: Result<types::Expr, Report>)
        requires
            self.wf(ctx, syms),
        ensures
            r is Ok <==> self.check_type(ctx, syms, ast::Expr::Member(*node)) is Some,
            r matches Ok(e) ==> self.check_type(ctx, syms, ast::Expr::Member(*node)) == Some(expr_type(e)),
            r matches Ok(e) ==> spec_const_value(e) == ast_const_value(ast::Expr::Member(*node)),
            r matches Ok(e) ==> expr_type(e) < ntypes(ctx),
            r matches Ok(e) ==> expr_well_typed(ctx, e),
            r is Ok <==> (*node.expr matches ast::Expr::Literal(t) && (t.kind matches TokenKind::IdentLit(name)
                && self.nsl@.contains_key(name@) && self.nsl@[name@]@.contains_key(
                crate::ast::token::kind_text(node.field.kind),
            ))),
            r matches Ok(e) ==> (e matches types::Expr::NamespaceMember(m) && m.field@ == crate::ast::token::kind_text(
                node.field.kind,
            ) && self.nsl@.contains_key(m.name@) && m.ty == ctx.symbols@[self.nsl@[m.name@]@[m.field@] as int].ty),
        decreases node,
    {
        let meta = NodeMeta { id: node.dot.id, pos: node.expr.pos(), end: node.field.end_pos };
        let field = token_name(&node.field);
        match if_identifier_get_name(&node.expr) {
            Some(name) => {
                match self.nsl.get(name.as_str()) {
                    Ok(ns) => {
                        let id = match ns.get(field.as_str()) {
                            Some(id) => id,
                            None => {
                                let msg = cat5("namespace '", ns.name(), "' has no member '", field.as_str(), "'");
                                return Err(error_token(msg.as_str(), &node.field));
                            },
                        };
                        let symbol = ctx.symbols.get(id);
                        return Ok(types::Expr::NamespaceMember(types::NamespaceMemberNode {
                            ty: symbol.ty,
                            name,
                            meta,
                            field,
                        }));
                    },
                    Err(_) => {},
                }
            },
            None => {},
        }
        let expr = self.emit_expr(ctx, syms, &node.expr)?;
        let t = ctx.types.type_to_string(expr.type_id());
        let msg = cat3("type '", t.as_str(), "' has no fields");
        Err(error_expr(msg.as_str(), &expr))
    }

    /// Checks that the expression has the given primitive type.
    fn assert_expr_is_type(&self, ctx: &Context, expect: PrimitiveType, expr: &types::Expr) -> (r: Result<(), Report>)
        requires
            ctx.wf(),
            expr_type(*expr) < ntypes(ctx),
        ensures
            r is Ok <==> spec_resolve(ctx.types.kinds(), expr_type(*expr) as int) == spec_resolve(
                ctx.types.kinds(),
                prim_index(expect) as int,
            ),
    {
        let expect_t = ctx.types.primitive(expect);
        if !ctx.types.equivalent(expr.type_id(), expect_t) {
            let a = ctx.types.type_to_string(expect_t);
            let b = ctx.types.type_to_string(expr.type_id());
            let msg = cat5("expression must be of type '", a.as_str(), "', got '", b.as_str(), "'");
            return Err(error_expr(msg.as_str(), expr));
        }
        Ok(())
    }

    /// The name stands for a value: a variable, or a function of the
    /// module.
    /// The checker accepts comparing two `bool` values: when both sides of
    /// `==` or `!=` check with one type that is `bool` or an alias of it,
    /// the comparison checks, with type `bool`. Comparing two values of one
    /// number type with `== != < <= > >=` checks too, with type `bool`.
    pub proof fn law_comparisons_check(&self, ctx: &Context, syms: &SymbolList, e: ast::Expr, t: TypeId)
        requires
            e matches ast::Expr::Binary(b) && self.check_type(ctx, syms, *b.lhs) == Some(t) && self.check_type(
                ctx,
                syms,
                *b.rhs,
            ) == Some(t) && ((spec_equivalent(ctx, t, prim_index(PrimitiveType::Bool) as TypeId) && (b.op.kind is EqEq
                || b.op.kind is NotEq)) || (spec_is_number(ctx, t) && (b.op.kind is EqEq || b.op.kind is NotEq
                || b.op.kind is Greater || b.op.kind is GreaterEq || b.op.kind is Less || b.op.kind is LessEq))),
        ensures
            self.check_type(ctx, syms, e) == Some(prim_index(PrimitiveType::Bool) as TypeId),
    {
        let b = e->Binary_0;
        let op = types::spec_binary_op(b.op.kind)->0;
        if spec_equivalent(ctx, t, prim_index(PrimitiveType::Bool) as TypeId) && (b.op.kind is EqEq || b.op.kind is NotEq) {
            law_bool_operators(ctx, t);
        } else {
            law_number_operators(ctx, t);
            assert(spec_binary_allowed(ctx, op, t));
        }
    }

    /// The type of the value a name stands for: the innermost variable of
    /// that name, else a function of the module.
    pub closed spec fn name_type(&self, ctx: &Context, syms: &SymbolList, n: Seq<char>) -> Option<TypeId> {
        match scoped_lookup(self.vars@, n) {
            Some(b) => Some(b.ty),
            None => if syms@.contains_key(n) && ctx.symbols@[syms@[n].id as int].kind is Function {
                Some(ctx.symbols@[syms@[n].id as int].ty)
            } else {
                None
            },
        }
    }

    /// The type the checker gives an expression, `None` when it reports an
    /// error: literals have their primitive types and names the types they
    /// are bound to; `!` takes a `bool`, `-` a number; a binary operation
    /// takes two operands of one type the operator allows; a call takes a
    /// function with arguments of its parameter types; a member is a member
    /// of an imported namespace; a cast names a type the value can be cast
    /// to, and a constant must fit in it.
    pub closed spec fn check_type(&self, ctx: &Context, syms: &SymbolList, e: ast::Expr) -> Option<TypeId>
        decreases e,
    {
        match e {
            ast::Expr::Literal(tok) => match tok.kind {
                TokenKind::IntLit(_) => Some(prim_index(PrimitiveType::I32) as TypeId),
                TokenKind::FloatLit(_) => Some(prim_index(PrimitiveType::F32) as TypeId),
                TokenKind::StringLit(_) => Some(prim_index(PrimitiveType::String) as TypeId),
                TokenKind::True | TokenKind::False => Some(prim_index(PrimitiveType::Bool) as TypeId),
                TokenKind::IdentLit(_) => self.name_type(ctx, syms, crate::ast::token::kind_text(tok.kind)),
                _ => None,
            },
            ast::Expr::Group(g) => self.check_type(ctx, syms, *g.inner),
            ast::Expr::Member(m) => if (*m.expr matches ast::Expr::Literal(t) && (t.kind matches TokenKind::IdentLit(
                name,
            ) && self.nsl@.contains_key(name@) && self.nsl@[name@]@.contains_key(
                crate::ast::token::kind_text(m.field.kind),
            ))) {
                let name = crate::ast::token::kind_text(m.expr->Literal_0.kind);
                Some(ctx.symbols@[self.nsl@[name]@[crate::ast::token::kind_text(m.field.kind)] as int].ty)
            } else {
                None
            },
            ast::Expr::Unary(u) => match self.check_type(ctx, syms, *u.rhs) {
                Some(t) => if u.op.kind is Not && spec_equivalent(ctx, t, prim_index(PrimitiveType::Bool) as TypeId) {
                    Some(prim_index(PrimitiveType::Bool) as TypeId)
                } else if u.op.kind is Minus && spec_is_number(ctx, t) {
                    Some(t)
                } else {
                    None
                },
                None => None,
            },
            ast::Expr::Binary(b) => match (self.check_type(ctx, syms, *b.lhs), self.check_type(ctx, syms, *b.rhs)) {
                (Some(l), Some(r)) => match types::spec_binary_op(b.op.kind) {
                    Some(op) => if l == r && spec_binary_allowed(ctx, op, l) {
                        Some(spec_binary_type(op, l))
                    } else {
                        None
                    },
                    None => None,
                },
                _ => None,
            },
            ast::Expr::Call(c) => match self.check_type(ctx, syms, *c.callee) {
                Some(ft) => if ft < ntypes(ctx) && ctx.types.kinds()[ft as int] is Function {
                    let f = ctx.types.kinds()[ft as int]->Function_0;
                    if f.params@.len() == c.args@.len() && forall|j: int|
                        0 <= j < c.args@.len() ==> self.check_type(ctx, syms, #[trigger] c.args@[j]) == Some(
                            f.params@[j],
                        ) {
                        Some(f.ret)
                    } else {
                        None
                    }
                } else {
                    None
                },
                None => None,
            },
            ast::Expr::Cast(c) => match (self.check_type(ctx, syms, *c.expr), type_node_value(ctx, syms, &self.nsl, c.ty)) {
                (Some(from), Some(to)) => if cast_kind_of(ctx, from, to) != CastKind::InvalidCast && const_fits(
                    ctx,
                    ast_const_value(*c.expr),
                    to,
                ) {
                    Some(to)
                } else {
                    None
                },
                _ => None,
            },
        }
    }

    spec fn name_has_value(&self, ctx: &Context, syms: &SymbolList, n: Seq<char>) -> bool {
        scoped_lookup(self.vars@, n) is Some || (syms@.contains_key(n) && ctx.symbols@[syms@[n].id as int].kind is Function)
    }

    /// Binds a name to a type in the innermost scope, or fails with
    /// "already declared" when that scope binds it already.
    fn bind(&mut self, ctx: &Context, name: &Token, id: TypeId, constant: bool) -> (r: Result<TypeId, Report>)
        requires
            ctx.wf(),
            old(self).vars.wf(),
            bindings_valid(old(self).vars@, ntypes(ctx)),
            id < ntypes(ctx),
        ensures
            final(self).vars.wf(),
            bindings_valid(final(self).vars@, ntypes(ctx)),
            final(self).vars@.len() == old(self).vars@.len(),
            final(self).nsl == old(self).nsl,
            final(self).rtype == old(self).rtype,
            final(self).has_returned == old(self).has_returned,
            final(self).in_loop == old(self).in_loop,
            final(self).is_main == old(self).is_main,
            r matches Ok(t) ==> t == id,
            r is Ok <==> !old(self).vars@.last().contains_key(crate::ast::token::kind_text(name.kind)),
            r is Ok ==> final(self).vars@ == old(self).vars@.update(
                old(self).vars@.len() - 1,
                old(self).vars@.last().insert(
                    crate::ast::token::kind_text(name.kind),
                    Binding { ty: id, is_const: constant, pos: name.pos },
                ),
            ),
            r is Err ==> final(self).vars@ == old(self).vars@,
    {
        let key = token_name(name);
        let ghost kn = key@;
        let ghost before = self.vars@;
        proof {
            self.vars.lemma_depth();
        }
        let b = Binding { ty: id, is_const: constant, pos: name.pos };
        let ghost gb = b;
        if !self.vars.bind(key, b) {
            let mut info = String::from_str("previously declared on line ");
            let n = token_name(name);
            match self.vars.get(n.as_str()) {
                Some(b) => {
                    let row = if b.pos.row < usize::MAX { b.pos.row + 1 } else { b.pos.row };
                    push_u64(&mut info, row as u64);
                },
                None => {},
            }
            return Err(error_token("already declared", name).with_info(info.as_str()));
        }
        assert(self.vars@ == before.update(before.len() - 1, before.last().insert(kn, gb)));
        assert forall|i: int, k: Seq<char>| 0 <= i < self.vars@.len() && #[trigger] self.vars@[i].contains_key(k) implies self.vars@[i][k].ty < ntypes(ctx) by {
            if i < before.len() - 1 {
                assert(self.vars@[i] == before[i]);
            } else {
                assert(i == before.len() - 1);
                assert(self.vars@[i] == before[i].insert(kn, gb));
                if k != kn {
                    assert(before[i].contains_key(k));
                    assert(self.vars@[i][k] == before[i][k]);
                } else {
                    assert(self.vars@[i][k] == gb);
                }
            }
        }
        Ok(id)
    }

    /// The type of the variable or function a name stands for, or an error
    /// when it is not declared or names a type.
    fn get(&self, ctx: &Context, syms: &SymbolList, name: &Token) -> (r: Result<TypeId, Report>)
        requires
            self.wf(ctx, syms),
        ensures
            r matches Ok(t) ==> t < ntypes(ctx),
            scoped_lookup(self.vars@, crate::ast::token::kind_text(name.kind)) matches Some(b) ==> r == Ok::<
                TypeId,
                Report,
            >(b.ty),
            scoped_lookup(self.vars@, crate::ast::token::kind_text(name.kind)) is None ==> (r is Ok <==> (syms@.contains_key(
                crate::ast::token::kind_text(name.kind),
            ) && ctx.symbols@[syms@[crate::ast::token::kind_text(name.kind)].id as int].kind is Function)),
            scoped_lookup(self.vars@, crate::ast::token::kind_text(name.kind)) is None ==> (r matches Ok(t) ==> t
                == ctx.symbols@[syms@[crate::ast::token::kind_text(name.kind)].id as int].ty),
    {
        let n = token_name(name);
        proof {
            lemma_lookup_valid(self.vars@, ntypes(ctx), n@);
        }
        match self.vars.get(n.as_str()) {
            Some(var) => {
                return Ok(var.ty);
            },
            None => {},
        }
        match get_symbol(ctx, syms, n.as_str()) {
            Ok(sym) => match sym.kind {
                SymbolKind::Function { .. } => Ok(sym.ty),
                SymbolKind::Type => Err(error_token("a type cannot be used as a value", name)),
            },
            Err(_) => Err(error_token("not declared", name)),
        }
    }

    /// Is the l-value a constant: a constant variable, or anything that is
    /// not a variable or a member of one?
    fn is_constant(&self, lval: &ast::Expr) -> (r: bool)
        requires
            self.vars.wf(),
        ensures
            r == spec_is_constant(self.vars@, *lval),
        decreases lval,
    {
        match lval {
            ast::Expr::Literal(token) => match &token.kind {
                TokenKind::IdentLit(name) => match self.vars.get(name.as_str()) {
                    Some(b) => b.is_const,
                    None => false,
                },
                _ => false,
            },
            ast::Expr::Member(node) => self.is_constant(&node.expr),
            _ => true,
        }
    }

    /// Evaluates a written type to its type id.
    fn eval_type(&self, ctx: &Context, syms: &SymbolList, node: &ast::TypeNode) -> (r: Result<TypeId, Report>)
        requires
            self.wf(ctx, syms),
        ensures
            r matches Ok(t) ==> t < ntypes(ctx),
            r is Ok <==> type_node_value(ctx, syms, &self.nsl, *node) is Some,
            r matches Ok(t) ==> type_node_value(ctx, syms, &self.nsl, *node) == Some(t),
    {
        eval_type_in(ctx, syms, &self.nsl, node)
    }
}

/// Evaluates a written type: a type symbol of the module, or a member of an
/// imported namespace.
pub fn eval_type_in(ctx: &Context, syms: &SymbolList, nsl: &NamespaceList, node: &ast::TypeNode) -> (r: Result<TypeId, Report>)
    requires
        ctx.wf(),
        symbols_valid(syms, ctx),
        namespaces_valid(nsl, ctx),
    ensures
        r matches Ok(t) ==> t < ntypes(ctx),
        *node matches ast::TypeNode::Ident(tok) ==> {
            let n = crate::ast::token::kind_text(tok.kind);
            &&& r is Ok <==> syms@.contains_key(n)
            &&& r matches Ok(t) ==> t == ctx.symbols@[syms@[n].id as int].ty
        },
        *node matches ast::TypeNode::Imported { namespace, ty } ==> {
            let ns = crate::ast::token::kind_text(namespace.kind);
            let m = crate::ast::token::kind_text(ty.kind);
            &&& r is Ok <==> (nsl@.contains_key(ns) && nsl@[ns]@.contains_key(m))
            &&& r matches Ok(t) ==> t == ctx.symbols@[nsl@[ns]@[m] as int].ty
        },
{
    match node {
        ast::TypeNode::Ident(token) => {
            let name = token_name(token);
            match get_symbol(ctx, syms, name.as_str()) {
                Ok(sym) => Ok(sym.ty),
                Err(_) => Err(error_token("not a type", token)),
            }
        },
        ast::TypeNode::Imported { namespace, ty } => {
            let nsname = token_name(namespace);
            let ns = match nsl.get(nsname.as_str()) {
                Ok(ns) => ns,
                Err(_) => {
                    return Err(error_token("not an imported namespace", namespace));
                },
            };
            let tyname = token_name(ty);
            match ns.get(tyname.as_str()) {
                Some(id) => Ok(ctx.symbols.get(id).ty),
                None => {
                    let msg = cat5("namespace '", nsname.as_str(), "' has no member '", tyname.as_str(), "'");
                    Err(error_token(msg.as_str(), ty))
                },
            }
        },
    }
}

/// The symbol a module knows by `name`, or "not declared".
pub fn get_symbol<'a>(ctx: &'a Context, syms: &SymbolList, name: &str) -> (r: Result<&'a Symbol, String>)
    requires
        ctx.wf(),
        symbols_valid(syms, ctx),
    ensures
        r matches Ok(s) ==> syms@.contains_key(name@) && *s == ctx.symbols@[syms@[name@].id as int]
            && s.ty < ntypes(ctx),
        r is Err ==> !syms@.contains_key(name@),
{
    match syms.get(name) {
        Ok(sym) => Ok(ctx.symbols.get(sym.id)),
        Err(e) => Err(e),
    }
}

/// The name an extern function is known by in the module: its alias, when
/// it has one.
pub open spec fn extern_name(syms: &SymbolList, declared: Seq<char>) -> Seq<char> {
    if syms.spec_aliases().contains_key(declared) {
        syms.spec_aliases()[declared]@
    } else {
        declared
    }
}

/// The identifier an expression is, if it is one.
fn if_identifier_get_name(expr: &ast::Expr) -> (r: Option<String>)
    ensures
        *expr matches ast::Expr::Literal(t) ==> (t.kind matches TokenKind::IdentLit(name) ==> r == Some(name)),
        !(*expr matches ast::Expr::Literal(t) && t.kind is IdentLit) ==> r is None,
{
    match expr {
        ast::Expr::Literal(token) => match &token.kind {
            TokenKind::IdentLit(name) => Some(name.clone()),
            _ => None,
        },
        _ => None,
    }
}

/// How a value of type `from` is cast to type `to`: the identity when the
/// types are equivalent, else by the kinds beneath their aliases.
pub fn check_if_can_cast(ctx: &Context, from: TypeId, to: TypeId) -> (r: CastKind)
    requires
        ctx.wf(),
        from < ntypes(ctx),
        to < ntypes(ctx),
    ensures
        spec_resolve(ctx.types.kinds(), from as int) == spec_resolve(ctx.types.kinds(), to as int) ==> r
            == CastKind::Identity,
        spec_resolve(ctx.types.kinds(), from as int) != spec_resolve(ctx.types.kinds(), to as int) ==> r
            == spec_cast_kind(
            ctx.types.kinds()[crate::sema::type_interner::spec_inner_kind(ctx.types.kinds(), from as int)],
            ctx.types.kinds()[crate::sema::type_interner::spec_inner_kind(ctx.types.kinds(), to as int)],
        ),
{
    if ctx.types.equivalent(from, to) {
        return CastKind::Identity;
    }
    let from_id = ctx.types.inner_kind(from);
    let to_id = ctx.types.inner_kind(to);
    let fk = &ctx.types.lookup(from_id).kind;
    let tk = &ctx.types.lookup(to_id).kind;
    match (fk, tk) {
        (TypeKind::Primitive(f), TypeKind::Primitive(t)) => {
            let from_int = f.is_int() || f.is_uint();
            let to_int = t.is_int() || t.is_uint();
            if from_int && to_int {
                if f.bytes() >= t.bytes() {
                    CastKind::IntegerNarrowing
                } else {
                    CastKind::IntegerWidening
                }
            } else if f.is_float() && t.is_float() {
                if f.bytes() >= t.bytes() {
                    CastKind::FloatNarrowing
                } else {
                    CastKind::FloatWidening
                }
            } else if from_int && t.is_float() {
                CastKind::IntToFloat
            } else if f.is_float() && to_int {
                CastKind::FloatToInt
            } else {
                CastKind::InvalidCast
            }
        },
        _ => CastKind::InvalidCast,
    }
}

/// Checks that an operator may be used on operands of type `ty`, or fails
/// with "operator '..' cannot be used on type '..'".
pub fn check_binary_op_type(ctx: &Context, op: BinaryOp, ty: TypeId, meta: &NodeMeta) -> (r: Result<(), Report>)
    requires
        ctx.wf(),
        ty < ntypes(ctx),
    ensures
        r is Ok <==> spec_op_allowed(
            op,
            ctx.types.kinds()[ty as int] matches TypeKind::Primitive(p) && (spec_is_int(p) || spec_is_uint(p)
                || spec_is_float(p)),
            spec_resolve(ctx.types.kinds(), ty as int) == spec_resolve(
                ctx.types.kinds(),
                prim_index(PrimitiveType::Bool) as int,
            ),
            ctx.types.kinds()[crate::sema::type_interner::spec_inner_kind(ctx.types.kinds(), ty as int)] matches TypeKind::Primitive(p)
                && (spec_is_int(p) || spec_is_uint(p)),
        ),
{
    let bool_t = ctx.types.primitive(PrimitiveType::Bool);
    let is_num = ctx.types.is_number(ty);
    let is_bool = ctx.types.equivalent(ty, bool_t);
    let resolved = ctx.types.inner_kind(ty);
    let is_integer = match &ctx.types.lookup(resolved).kind {
        TypeKind::Primitive(p) => p.is_int() || p.is_uint(),
        _ => false,
    };
    let (valid, op_str) = match op {
        BinaryOp::Plus => (is_num, "+"),
        BinaryOp::Minus => (is_num, "-"),
        BinaryOp::Mult => (is_num, "*"),
        BinaryOp::Divide => (is_num, "/"),
        BinaryOp::Modulo => (is_integer, "%"),
        BinaryOp::Equal => (is_num || is_bool, "=="),
        BinaryOp::NotEqual => (is_num || is_bool, "!="),
        BinaryOp::Greater => (is_num, ">"),
        BinaryOp::GreaterEq => (is_num, ">="),
        BinaryOp::Less => (is_num, "<"),
        BinaryOp::LessEq => (is_num, "<="),
        BinaryOp::LogicAnd => (is_bool, "&&"),
        BinaryOp::LogicOr => (is_bool, "||"),
    };
    if !valid {
        let t = ctx.types.type_to_string(ty);
        let msg = cat5("operator '", op_str, "' cannot be used on type '", t.as_str(), "'");
        return Err(error_at(msg.as_str(), &meta.pos, &meta.end));
    }
    Ok(())
}

/// The type of a binary expression whose operands have type `operand`.
pub fn binary_type(ctx: &Context, op: BinaryOp, operand: TypeId) -> (r: TypeId)
    requires
        ctx.wf(),
    ensures
        r == spec_binary_type(op, operand),
{
    match op {
        BinaryOp::Plus | BinaryOp::Minus | BinaryOp::Mult | BinaryOp::Divide => operand,
        BinaryOp::Modulo => ctx.types.primitive(PrimitiveType::U32),
        _ => ctx.types.primitive(PrimitiveType::Bool),
    }
}

/// Fails with "constant value overflows target type '..'" when a constant
/// integer is cast to a primitive it does not fit.
pub fn check_const_bounds(ctx: &Context, expr: &types::Expr, ty: TypeId, meta: &NodeMeta) -> (r: Result<(), Report>)
    requires
        ctx.wf(),
        ty < ntypes(ctx),
    ensures
        r is Err <==> (ctx.types.kinds()[crate::sema::type_interner::spec_inner_kind(ctx.types.kinds(), ty as int)] matches TypeKind::Primitive(to)
            && match spec_const_value(*expr) {
                Some(ConstVal::Int(n)) => !spec_int_fits(n as int, to),
                Some(ConstVal::Uint(n)) => !spec_uint_fits(n as int, to),
                None => false,
            }),
{
    let to_id = ctx.types.inner_kind(ty);
    let to = match &ctx.types.lookup(to_id).kind {
        TypeKind::Primitive(p) => *p,
        _ => {
            return Ok(());
        },
    };
    let overflows = match try_const_value(expr) {
        Some(ConstVal::Int(n)) => !lit_int_fits(n, to),
        Some(ConstVal::Uint(n)) => !lit_uint_fits(n, to),
        None => false,
    };
    if overflows {
        let t = ctx.types.type_to_string(ty);
        let msg = cat3("constant value overflows target type '", t.as_str(), "'");
        Err(error_at(msg.as_str(), &meta.pos, &meta.end))
    } else {
        Ok(())
    }
}

} // verus!
