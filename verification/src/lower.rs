use vstd::prelude::*;

use crate::common::error::{Diagnostics, Report, Res};
use crate::common::names::NameMap;
use crate::common::source::Pos;
use crate::common::text::{push_str, str_eq};
use crate::common::vartable::{scoped_lookup, VarTable};
use crate::ir::nodes::{
    AssignIns, BinaryIns, Block, CallIns, CastIns, CondIns, ConstId, Data, DataIndex, Decl, ElseIf,
    ExternDecl, FuncDecl, IRBinaryOp, IRCondOp, IRUnaryOp, IfIns, Ins, LValue, ParamId, RValue,
    StoreIns, UnaryIns, Unit, WhileIns,
};
use crate::ir::types::{ir_eq, ir_refs_below, IRType, IRTypeId, IRTypeInterner, Primitive};
use crate::sema::context::Context;
use crate::sema::module::{ModuleId, ModuleKind, NamespaceList};
use crate::sema::symbols::{Symbol, SymbolId, SymbolKind, SymbolList, SymbolOrigin};
use crate::sema::type_interner::TypeInterner;
use crate::sema::typed as typed;
use crate::sema::typed::{AssignOp, BinaryOp, CastKind, LiteralKind, UnaryOp};
use crate::sema::types::{kind_refs_below, PrimitiveType, TypeId, TypeKind};

verus! {

/// The machine primitive a Koi primitive is lowered to: `bool` and `byte`
/// become `u8`.
pub open spec fn spec_primitive_to_ir(p: PrimitiveType) -> Primitive {
    match p {
        PrimitiveType::Void => Primitive::Void,
        PrimitiveType::I8 => Primitive::I8,
        PrimitiveType::I16 => Primitive::I16,
        PrimitiveType::I32 => Primitive::I32,
        PrimitiveType::I64 => Primitive::I64,
        PrimitiveType::U8 | PrimitiveType::Byte | PrimitiveType::Bool => Primitive::U8,
        PrimitiveType::U16 => Primitive::U16,
        PrimitiveType::U32 => Primitive::U32,
        PrimitiveType::U64 => Primitive::U64,
        PrimitiveType::F32 => Primitive::F32,
        PrimitiveType::F64 => Primitive::F64,
        PrimitiveType::String => Primitive::String,
    }
}

pub fn primitive_to_ir(p: PrimitiveType) -> (r: Primitive)
    ensures
        r == spec_primitive_to_ir(p),
{
    match p {
        PrimitiveType::Void => Primitive::Void,
        PrimitiveType::I8 => Primitive::I8,
        PrimitiveType::I16 => Primitive::I16,
        PrimitiveType::I32 => Primitive::I32,
        PrimitiveType::I64 => Primitive::I64,
        PrimitiveType::U8 | PrimitiveType::Byte => Primitive::U8,
        PrimitiveType::U16 => Primitive::U16,
        PrimitiveType::U32 => Primitive::U32,
        PrimitiveType::U64 => Primitive::U64,
        PrimitiveType::F32 => Primitive::F32,
        PrimitiveType::F64 => Primitive::F64,
        PrimitiveType::Bool => Primitive::U8,
        PrimitiveType::String => Primitive::String,
    }
}

/// Whether the machine type `r` of `irs` is the lowering of the Koi type
/// `ty` of `kinds`: a primitive becomes its machine primitive, an alias or a
/// unique type the lowering of the type it wraps, an array or a pointer a
/// `u64`, and a function the function type of its lowered parameters and
/// lowered result.
pub open spec fn lowers_type(kinds: Seq<TypeKind>, ty: int, irs: Seq<IRType>, r: int) -> bool
    decreases ty,
{
    if ty < 0 || ty >= kinds.len() || r < 0 || r >= irs.len() {
        false
    } else {
        match kinds[ty] {
            TypeKind::Primitive(p) => ir_eq(irs[r], IRType::Primitive(spec_primitive_to_ir(p))),
            TypeKind::Alias(inner) => inner < ty && lowers_type(kinds, inner as int, irs, r),
            TypeKind::Unique(_, inner) => inner < ty && lowers_type(kinds, inner as int, irs, r),
            TypeKind::Array(_) => ir_eq(irs[r], IRType::Primitive(Primitive::U64)),
            TypeKind::Pointer(_) => ir_eq(irs[r], IRType::Primitive(Primitive::U64)),
            TypeKind::Function(f) => match irs[r] {
                IRType::Function(ps, rt) => {
                    &&& kind_refs_below(kinds[ty], ty)
                    &&& ps@.len() == f.params@.len()
                    &&& lowers_type(kinds, f.ret as int, irs, rt as int)
                    &&& forall|j: int|
                        0 <= j < ps@.len() ==> lowers_type(kinds, f.params@[j] as int, irs, (#[trigger] ps@[j]) as int)
                },
                _ => false,
            },
        }
    }
}

/// A lowering stays one when more machine types are added after it.
pub proof fn lemma_lowers_type_grows(kinds: Seq<TypeKind>, ty: int, irs: Seq<IRType>, more: Seq<IRType>, r: int)
    requires
        lowers_type(kinds, ty, irs, r),
        irs.is_prefix_of(more),
    ensures
        lowers_type(kinds, ty, more, r),
    decreases ty,
{
    assert(irs[r] == more[r]);
    match kinds[ty] {
        TypeKind::Alias(inner) => lemma_lowers_type_grows(kinds, inner as int, irs, more, r),
        TypeKind::Unique(_, inner) => lemma_lowers_type_grows(kinds, inner as int, irs, more, r),
        TypeKind::Function(f) => {
            match irs[r] {
                IRType::Function(ps, rt) => {
                    assert(more[r] == IRType::Function(ps, rt));
                    lemma_lowers_type_grows(kinds, f.ret as int, irs, more, rt as int);
                    assert forall|j: int| 0 <= j < ps@.len() implies lowers_type(
                        kinds,
                        f.params@[j] as int,
                        more,
                        (#[trigger] ps@[j]) as int,
                    ) by {
                        assert(f.params@[j] < ty);
                        lemma_lowers_type_grows(kinds, f.params@[j] as int, irs, more, ps@[j] as int);
                    }
                },
                _ => {},
            }
        },
        _ => {},
    }
}

/// Converts a Koi type to the id of its machine type, adding machine types
/// to `types` as needed.
pub fn to_ir(types_ctx: &TypeInterner, ty: TypeId, types: &mut IRTypeInterner) -> (r: IRTypeId)
    requires
        types_ctx.wf(),
        ty < types_ctx.kinds().len(),
        old(types).wf(),
    ensures
        final(types).wf(),
        r < final(types)@.len(),
        old(types)@.is_prefix_of(final(types)@),
        lowers_type(types_ctx.kinds(), ty as int, final(types)@, r as int),
    decreases ty,
{
    proof {
        types_ctx.lemma_wf();
    }
    match &types_ctx.lookup(ty).kind {
        TypeKind::Primitive(p) => types.get_or_intern(IRType::Primitive(primitive_to_ir(*p))),
        TypeKind::Function(f) => {
            assert(kind_refs_below(types_ctx.kinds()[ty as int], ty as int));
            let ghost kinds = types_ctx.kinds();
            let mut params: Vec<IRTypeId> = Vec::new();
            let mut i: usize = 0;
            while i < f.params.len()
                invariant
                    types_ctx.wf(),
                    types.wf(),
                    kinds == types_ctx.kinds(),
                    old(types)@.is_prefix_of(types@),
                    forall|j: int| 0 <= j < f.params@.len() ==> #[trigger] f.params@[j] < ty,
                    f.ret < ty,
                    ty < types_ctx.kinds().len(),
                    i <= f.params@.len(),
                    params@.len() == i,
                    forall|j: int| 0 <= j < params@.len() ==> #[trigger] params@[j] < types@.len(),
                    forall|j: int| 0 <= j < params@.len() ==> lowers_type(kinds, f.params@[j] as int, types@, #[trigger] params@[j] as int),
                decreases f.params@.len() - i,
            {
                let ghost before = types@;
                let p = to_ir(types_ctx, f.params[i], types);
                proof {
                    assert forall|j: int| 0 <= j < params@.len() implies #[trigger] params@[j] < types@.len()
                        && lowers_type(kinds, f.params@[j] as int, types@, params@[j] as int) by {
                        lemma_lowers_type_grows(kinds, f.params@[j] as int, before, types@, params@[j] as int);
                    }
                }
                params.push(p);
                i = i + 1;
            }
            let ghost before = types@;
            let ret = to_ir(types_ctx, f.ret, types);
            proof {
                assert forall|j: int| 0 <= j < params@.len() implies #[trigger] params@[j] < types@.len()
                    && lowers_type(kinds, f.params@[j] as int, types@, params@[j] as int) by {
                    lemma_lowers_type_grows(kinds, f.params@[j] as int, before, types@, params@[j] as int);
                }
            }
            let ghost mid = types@;
            let ghost pv = params@;
            let r = types.get_or_intern(IRType::Function(params, ret));
            proof {
                assert(old(types)@.is_prefix_of(mid));
                assert(mid.is_prefix_of(types@));
                lemma_lowers_type_grows(kinds, f.ret as int, mid, types@, ret as int);
                match types@[r as int] {
                    IRType::Function(ps, rt) => {
                        assert(ps@ == pv);
                        assert forall|j: int| 0 <= j < ps@.len() implies f.params@[j] < ty && lowers_type(
                            kinds,
                            f.params@[j] as int,
                            types@,
                            (#[trigger] ps@[j]) as int,
                        ) by {
                            lemma_lowers_type_grows(kinds, f.params@[j] as int, mid, types@, pv[j] as int);
                        }
                    },
                    _ => {},
                }
            }
            r
        },
        TypeKind::Alias(inner) => {
            assert(kind_refs_below(types_ctx.kinds()[ty as int], ty as int));
            to_ir(types_ctx, *inner, types)
        },
        TypeKind::Unique(_, inner) => {
            assert(kind_refs_below(types_ctx.kinds()[ty as int], ty as int));
            to_ir(types_ctx, *inner, types)
        },
        TypeKind::Array(_) => types.get_or_intern(IRType::Primitive(Primitive::U64)),
        TypeKind::Pointer(_) => types.get_or_intern(IRType::Primitive(Primitive::U64)),
    }
}

/// Converts each of a list of Koi types to its machine type.
pub fn to_ir_type_list(types_ctx: &TypeInterner, params: &Vec<TypeId>, types: &mut IRTypeInterner) -> (r: Vec<IRTypeId>)
    requires
        types_ctx.wf(),
        forall|j: int| 0 <= j < params@.len() ==> #[trigger] params@[j] < types_ctx.kinds().len(),
        old(types).wf(),
    ensures
        final(types).wf(),
        r@.len() == params@.len(),
        forall|j: int| 0 <= j < r@.len() ==> #[trigger] r@[j] < final(types)@.len(),
        old(types)@.is_prefix_of(final(types)@),
{
    let mut r: Vec<IRTypeId> = Vec::new();
    let mut i: usize = 0;
    while i < params.len()
        invariant
            types_ctx.wf(),
            forall|j: int| 0 <= j < params@.len() ==> #[trigger] params@[j] < types_ctx.kinds().len(),
            types.wf(),
            old(types)@.is_prefix_of(types@),
            i <= params@.len(),
            r@.len() == i,
            forall|j: int| 0 <= j < r@.len() ==> #[trigger] r@[j] < types@.len(),
        decreases params@.len() - i,
    {
        let ghost before = types@;
        let t = to_ir(types_ctx, params[i], types);
        assert forall|j: int| 0 <= j < r@.len() implies #[trigger] r@[j] < types@.len() by {
            assert(before.len() <= types@.len());
        }
        r.push(t);
        i = i + 1;
    }
    r
}

/// The name a symbol has in the output: its own name when names are not
/// mangled, for `main`, and for extern and unmangled symbols; else an
/// underscore, its module path with underscores, another underscore and its
/// name.
pub open spec fn mangled_name(no_mangle_names: bool, symbol: Symbol) -> Seq<char> {
    if no_mangle_names || symbol.no_mangle || symbol.origin is Extern || symbol.name@ == "main"@ {
        symbol.name@
    } else {
        match symbol.origin {
            SymbolOrigin::Module { modpath, .. } => "_"@ + crate::sema::modpath::underscored(modpath@) + "_"@
                + symbol.name@,
            SymbolOrigin::Library(modpath) => "_"@ + crate::sema::modpath::underscored(modpath@) + "_"@
                + symbol.name@,
            _ => symbol.name@,
        }
    }
}

/// When names are not mangled, every symbol keeps its own name; `main` and
/// extern symbols keep theirs always.
pub proof fn law_unmangled_names(no_mangle_names: bool, symbol: Symbol)
    ensures
        no_mangle_names ==> mangled_name(no_mangle_names, symbol) == symbol.name@,
        symbol.name@ == "main"@ ==> mangled_name(no_mangle_names, symbol) == symbol.name@,
        symbol.origin is Extern ==> mangled_name(no_mangle_names, symbol) == symbol.name@,
{
}

/// The name of a symbol in the output.
pub fn mangle_symbol_name(no_mangle_names: bool, symbol: &Symbol) -> (r: String)
    ensures
        r@ == mangled_name(no_mangle_names, *symbol),
{
    if no_mangle_names || symbol.no_mangle || symbol.is_extern() || str_eq(symbol.name.as_str(), "main") {
        return symbol.name.clone();
    }
    let modpath = match &symbol.origin {
        SymbolOrigin::Module { modpath, .. } => modpath,
        SymbolOrigin::Library(modpath) => modpath,
        _ => {
            return symbol.name.clone();
        },
    };
    let mut s = String::from_str("_");
    let u = modpath.to_underscore();
    push_str(&mut s, u.as_str());
    push_str(&mut s, "_");
    push_str(&mut s, symbol.name.as_str());
    s
}

/// The machine operator of an arithmetic or comparison operator.
pub open spec fn spec_binary_op_to_ir(op: BinaryOp) -> IRBinaryOp {
    match op {
        BinaryOp::Plus => IRBinaryOp::Add,
        BinaryOp::Minus => IRBinaryOp::Sub,
        BinaryOp::Mult => IRBinaryOp::Mul,
        BinaryOp::Divide => IRBinaryOp::Div,
        BinaryOp::Modulo => IRBinaryOp::Mod,
        BinaryOp::Equal => IRBinaryOp::Eq,
        BinaryOp::NotEqual => IRBinaryOp::Ne,
        BinaryOp::Greater => IRBinaryOp::Gt,
        BinaryOp::GreaterEq => IRBinaryOp::Ge,
        BinaryOp::Less => IRBinaryOp::Lt,
        BinaryOp::LessEq => IRBinaryOp::Le,
        _ => IRBinaryOp::Add,
    }
}

/// The machine operator of an assignment operator.
pub open spec fn spec_assign_op_to_ir(op: AssignOp) -> IRBinaryOp {
    match op {
        AssignOp::Plus => IRBinaryOp::Add,
        AssignOp::Minus => IRBinaryOp::Sub,
        AssignOp::Mult => IRBinaryOp::Mul,
        AssignOp::Div => IRBinaryOp::Div,
    }
}

/// Lowering keeps what every operator it lowers means: on any integer
/// operands, the machine operator gives what the Koi operator gives, so each
/// comparison keeps its truth value and each arithmetic operator its result.
/// (`&&` and `||` are lowered to branches, not to one operator.)
pub proof fn law_lowering_keeps_operator_meaning(op: BinaryOp, a: int, b: int)
    requires
        op != BinaryOp::LogicAnd,
        op != BinaryOp::LogicOr,
    ensures
        crate::ir::nodes::ir_binary_value(spec_binary_op_to_ir(op), a, b) == typed::koi_binary_value(op, a, b),
        (op is Equal || op is NotEqual || op is Greater || op is GreaterEq || op is Less || op is LessEq)
            <==> crate::ir::nodes::is_comparison(spec_binary_op_to_ir(op)),
{
}

/// Compound assignment keeps what its operator means: `x op= y` computes
/// what `x op y` does.
pub proof fn law_assignment_keeps_operator_meaning(op: AssignOp, a: int, b: int)
    ensures
        crate::ir::nodes::ir_binary_value(spec_assign_op_to_ir(op), a, b) == typed::koi_binary_value(
            match op {
                AssignOp::Plus => BinaryOp::Plus,
                AssignOp::Minus => BinaryOp::Minus,
                AssignOp::Mult => BinaryOp::Mult,
                AssignOp::Div => BinaryOp::Divide,
            },
            a,
            b,
        ),
{
}

/// The body ends with a return.
pub open spec fn ends_with_return(b: Block) -> bool {
    b.ins@.len() > 0 && b.ins@.last() is Return
}

pub fn binary_op_to_ir(op: BinaryOp) -> (r: IRBinaryOp)
    requires
        op != BinaryOp::LogicAnd && op != BinaryOp::LogicOr,
    ensures
        r == spec_binary_op_to_ir(op),
{
    match op {
        BinaryOp::Plus => IRBinaryOp::Add,
        BinaryOp::Minus => IRBinaryOp::Sub,
        BinaryOp::Mult => IRBinaryOp::Mul,
        BinaryOp::Divide => IRBinaryOp::Div,
        BinaryOp::Modulo => IRBinaryOp::Mod,
        BinaryOp::Equal => IRBinaryOp::Eq,
        BinaryOp::NotEqual => IRBinaryOp::Ne,
        BinaryOp::Greater => IRBinaryOp::Gt,
        BinaryOp::GreaterEq => IRBinaryOp::Ge,
        BinaryOp::Less => IRBinaryOp::Lt,
        BinaryOp::LessEq => IRBinaryOp::Le,
        _ => IRBinaryOp::Add,
    }
}

pub fn assign_op_to_ir(op: AssignOp) -> (r: IRBinaryOp)
    ensures
        r == spec_assign_op_to_ir(op),
{
    match op {
        AssignOp::Plus => IRBinaryOp::Add,
        AssignOp::Minus => IRBinaryOp::Sub,
        AssignOp::Mult => IRBinaryOp::Mul,
        AssignOp::Div => IRBinaryOp::Div,
    }
}

/// The machine operator of a unary operator.
pub open spec fn spec_unary_op_to_ir(op: UnaryOp) -> IRUnaryOp {
    match op {
        UnaryOp::Minus => IRUnaryOp::Neg,
        UnaryOp::LogicNot => IRUnaryOp::Not,
    }
}

/// Lowering keeps what a unary operator means: on any integer operand, the
/// machine operator gives what the Koi operator gives.
pub proof fn law_lowering_keeps_unary_meaning(op: UnaryOp, a: int)
    ensures
        crate::ir::nodes::ir_unary_value(spec_unary_op_to_ir(op), a) == typed::koi_unary_value(op, a),
{
}

pub fn unary_op_to_ir(op: UnaryOp) -> (r: IRUnaryOp)
    ensures
        r == spec_unary_op_to_ir(op),
{
    match op {
        UnaryOp::Minus => IRUnaryOp::Neg,
        UnaryOp::LogicNot => IRUnaryOp::Not,
    }
}

/// The value a name stands for: the innermost variable of that name, else
/// the innermost parameter.
pub open spec fn name_value(
    vars: Seq<Map<Seq<char>, ConstId>>,
    params: Seq<Map<Seq<char>, ParamId>>,
    name: Seq<char>,
    v: RValue,
) -> bool {
    match scoped_lookup(vars, name) {
        Some(c) => v == RValue::Const(c),
        None => scoped_lookup(params, name) matches Some(p) && v == RValue::Param(p),
    }
}

/// Lowering the expression `e`, with the names bound as `vars` and
/// `params` say, appends to `before` the instructions that compute it,
/// giving `after`, and leaves its value in `v`. An operation comes last,
/// reads the values of its operands, computed before it in order, and
/// leaves its value in its result; a short-circuit operation holds the
/// instructions of each side; a cast to an equivalent type adds nothing.
pub open spec fn lowers_expr(
    vars: Seq<Map<Seq<char>, ConstId>>,
    params: Seq<Map<Seq<char>, ParamId>>,
    e: typed::Expr,
    before: Seq<Ins>,
    after: Seq<Ins>,
    v: RValue,
) -> bool
    decreases e,
{
    &&& before.is_prefix_of(after)
    &&& match e {
        typed::Expr::Binary(n) => if n.op == BinaryOp::LogicAnd || n.op == BinaryOp::LogicOr {
            &&& after.len() == before.len() + 1
            &&& after.last() matches Ins::Conditional(ci)
            &&& v == RValue::Const(ci.result)
            &&& ci.op == (if n.op == BinaryOp::LogicAnd { IRCondOp::And } else { IRCondOp::Or })
            &&& lowers_expr(vars, params, *n.lhs, Seq::empty(), ci.lhs_ins@, ci.lhs)
            &&& lowers_expr(vars, params, *n.rhs, Seq::empty(), ci.rhs_ins@, ci.rhs)
        } else {
            &&& after.len() > before.len()
            &&& after.last() matches Ins::Binary(bi)
            &&& v == RValue::Const(bi.result)
            &&& bi.op == spec_binary_op_to_ir(n.op)
            &&& exists|m: int|
                #![trigger after.take(m)]
                lowers_expr(vars, params, *n.lhs, before, after.take(m), bi.lhs) && lowers_expr(
                    vars,
                    params,
                    *n.rhs,
                    after.take(m),
                    after.drop_last(),
                    bi.rhs,
                )
        },
        typed::Expr::Unary(n) => {
            &&& after.len() > before.len()
            &&& after.last() matches Ins::Unary(ui)
            &&& v == RValue::Const(ui.result)
            &&& ui.op == spec_unary_op_to_ir(n.op)
            &&& lowers_expr(vars, params, *n.rhs, before, after.drop_last(), ui.rhs)
        },
        typed::Expr::Cast(n) => if n.cast_kind == CastKind::Identity {
            lowers_expr(vars, params, *n.expr, before, after, v)
        } else {
            &&& after.len() > before.len()
            &&& after.last() matches Ins::Cast(ci)
            &&& v == RValue::Const(ci.result)
            &&& lowers_expr(vars, params, *n.expr, before, after.drop_last(), ci.rval)
        },
        typed::Expr::Call(n) => {
            &&& after.len() > before.len()
            &&& after.last() matches Ins::Call(ci)
            &&& ci.result == LValue::Const(v->Const_0)
            &&& v is Const
            &&& ci.args@.len() == n.args@.len()
        },
        typed::Expr::Literal(l) => {
            &&& after == before
            &&& match l.kind {
                LiteralKind::Int(n) => v == RValue::Int(n),
                LiteralKind::Uint(n) => v == RValue::Uint(n),
                LiteralKind::Bool(b) => v == RValue::Uint(if b { 1 } else { 0 }),
                LiteralKind::Char(c) => v == RValue::Uint(c as u64),
                LiteralKind::Float(f) => v == RValue::Float(f),
                LiteralKind::String(_) => v is Data,
                LiteralKind::Ident(name) => name_value(vars, params, name@, v),
            }
        },
        typed::Expr::NamespaceMember(_) => after == before && v is Function,
    }
}

/// Lowering the statement `st`, with the names bound as `vars` and
/// `params` say, appends to `before` the instructions of `after`: the
/// instruction of the statement comes last, and reads the values of the
/// expressions it holds, computed before it.
pub open spec fn lowers_stmt(
    vars: Seq<Map<Seq<char>, ConstId>>,
    params: Seq<Map<Seq<char>, ParamId>>,
    st: typed::Stmt,
    before: Seq<Ins>,
    after: Seq<Ins>,
) -> bool
    decreases st,
{
    &&& before.is_prefix_of(after)
    &&& match st {
        typed::Stmt::Break(_) => after == before.push(Ins::Break),
        typed::Stmt::Continue(_) => after == before.push(Ins::Continue),
        typed::Stmt::Return(n) => {
            &&& after.len() > before.len()
            &&& after.last() matches Ins::Return(_, rv)
            &&& match n.expr {
                None => rv is Void && after.drop_last() == before,
                Some(e) => lowers_expr(vars, params, e, before, after.drop_last(), rv),
            }
        },
        typed::Stmt::VarDecl(n) => {
            &&& after.len() > before.len()
            &&& after.last() matches Ins::Store(si)
            &&& lowers_expr(vars, params, n.value, before, after.drop_last(), si.rval)
        },
        typed::Stmt::VarAssign(n) => {
            &&& after.len() > before.len()
            &&& after.last() matches Ins::Assign(ai)
            &&& lowers_expr(vars, params, n.rval, before, after.drop_last(), ai.rval)
            &&& typed::spec_try_identifier(n.lval) matches Some(name)
            &&& (scoped_lookup(vars, name@) matches Some(c) ==> ai.lval == LValue::Const(c))
        },
        typed::Stmt::OpAssign(n) => {
            &&& after.len() >= before.len() + 2
            &&& after[after.len() - 2] matches Ins::Binary(bi)
            &&& bi.op == spec_assign_op_to_ir(n.op)
            &&& after.last() matches Ins::Assign(ai)
            &&& ai.rval == RValue::Const(bi.result)
            &&& exists|m: int|
                #![trigger after.take(m)]
                lowers_expr(vars, params, *n.lval, before, after.take(m), bi.lhs) && lowers_expr(
                    vars,
                    params,
                    *n.rval,
                    after.take(m),
                    after.take(after.len() - 2),
                    bi.rhs,
                )
        },
        typed::Stmt::If(n) => {
            &&& after.len() > before.len()
            &&& after.last() matches Ins::If(ii)
            &&& lowers_expr(vars, params, n.expr, before, after.drop_last(), ii.cond)
        },
        typed::Stmt::While(n) => {
            &&& after.len() == before.len() + 1
            &&& after.last() matches Ins::While(w)
            &&& w.post is None
            &&& lowers_expr(vars, params, n.expr, Seq::empty(), w.cond_ins@, w.cond)
        },
        typed::Stmt::For(n) => {
            &&& after.len() > before.len()
            &&& after.last() matches Ins::While(w)
            &&& w.post is Some
            &&& lowers_stmt(vars, params, *n.initializer, before, after.drop_last())
        },
        typed::Stmt::ExprStmt(e) => exists|v: RValue| lowers_expr(vars, params, e, before, after, v),
    }
}

/// Lowering the statements `stmts` in turn, the first with the names bound
/// as `vars0` say, gives the instructions `ins`: each statement appends its
/// own, with the names bound as the statements before it left them.
pub open spec fn lowers_stmts(
    params: Seq<Map<Seq<char>, ParamId>>,
    stmts: Seq<typed::Stmt>,
    vars0: Seq<Map<Seq<char>, ConstId>>,
    ins: Seq<Ins>,
) -> bool {
    exists|ms: Seq<int>, vs: Seq<Seq<Map<Seq<char>, ConstId>>>|
        #![trigger ms.len(), vs.len()]
        {
            &&& ms.len() == stmts.len() + 1
            &&& vs.len() == stmts.len() + 1
            &&& ms[0] == 0
            &&& ms.last() == ins.len()
            &&& vs[0] == vars0
            &&& forall|k: int, l: int| 0 <= k <= l < ms.len() ==> #[trigger] ms[k] <= #[trigger] ms[l]
            &&& forall|k: int| 0 <= k < stmts.len() ==> lowers_stmt(
                vs[k],
                params,
                #[trigger] stmts[k],
                ins.take(ms[k]),
                ins.take(ms[k + 1]),
            )
        }
}

/// The else-if branches of an else block, in order.
pub open spec fn elseif_nodes(e: typed::ElseBlock) -> Seq<typed::IfNode>
    decreases e,
{
    match e {
        typed::ElseBlock::ElseIf(n) => seq![*n] + elseif_nodes(*n.elseif),
        _ => Seq::empty(),
    }
}

/// The final else block of an else block, if it has one.
pub open spec fn final_else(e: typed::ElseBlock) -> Option<typed::BlockNode>
    decreases e,
{
    match e {
        typed::ElseBlock::ElseIf(n) => final_else(*n.elseif),
        typed::ElseBlock::Else(b) => Some(*b),
        typed::ElseBlock::NoElse => None,
    }
}

/// `eb` is the lowering of the final else block of `e`, when it has one,
/// from some binding of the names.
pub open spec fn else_lowered(params: Seq<Map<Seq<char>, ParamId>>, e: typed::ElseBlock, eb: Option<Block>) -> bool {
    match (final_else(e), eb) {
        (Some(fb), Some(b)) => exists|vs: Seq<Map<Seq<char>, ConstId>>|
            #![trigger lowers_stmts(params, fb.stmts@, vs, b.ins@)]
            lowers_stmts(params, fb.stmts@, vs, b.ins@),
        (None, None) => true,
        _ => false,
    }
}

/// The number of function declarations.
pub open spec fn func_count(decls: Seq<typed::Decl>) -> nat
    decreases decls.len(),
{
    if decls.len() == 0 {
        0
    } else {
        func_count(decls.drop_last()) + if decls.last() is Func {
            1nat
        } else {
            0nat
        }
    }
}

/// The declarations are extern declarations followed by functions, each
/// of whose bodies ends with a return.
pub open spec fn extern_then_functions(decls: Seq<Decl>) -> bool {
    exists|k: int| #[trigger] splits_at(decls, k)
}

/// The first `k` declarations are extern declarations and the others are
/// functions whose bodies end with a return.
pub open spec fn splits_at(decls: Seq<Decl>, k: int) -> bool {
    &&& 0 <= k <= decls.len()
    &&& forall|j: int| 0 <= j < k ==> (#[trigger] decls[j]) is Extern
    &&& forall|j: int| k <= j < decls.len() ==> (#[trigger] decls[j] matches Decl::Func(f) && ends_with_return(f.body))
}

/// Is the segment the given string?
pub open spec fn is_string(d: Data, k: Seq<char>) -> bool {
    d matches Data::String(s) && s@ == k
}

/// The constant data of a module: each string stored once.
pub struct DataInterner {
    data: Vec<Data>,
    string_map: NameMap<DataIndex>,
}

impl DataInterner {
    pub closed spec fn view(&self) -> Seq<Data> {
        self.data@
    }

    pub closed spec fn wf(&self) -> bool {
        &&& self.string_map.wf()
        &&& forall|k: Seq<char>| #[trigger] self.string_map@.contains_key(k) ==> self.string_map@[k]
            < self.data@.len() && is_string(self.data@[self.string_map@[k] as int], k)
        &&& forall|i: int, k: Seq<char>|
            0 <= i < self.data@.len() && #[trigger] is_string(self.data@[i], k) ==> self.string_map@.contains_key(k)
                && self.string_map@[k] == i
    }

    /// Whether a segment holds the string `k`.
    pub open spec fn holds_string(&self, k: Seq<char>) -> bool {
        exists|i: int| 0 <= i < self@.len() && #[trigger] is_string(self@[i], k)
    }

    pub fn new() -> (r: Self)
        ensures
            r.wf(),
            r@.len() == 0,
    {
        DataInterner { data: Vec::new(), string_map: NameMap::new() }
    }

    pub fn into_data(self) -> (r: Vec<Data>)
        ensures
            r@ == self@,
    {
        self.data
    }

    /// Adds a data segment holding a string not stored yet, and returns its index.
    fn intern(&mut self, data: Data) -> (index: DataIndex)
        requires
            old(self).wf(),
            forall|k: Seq<char>| is_string(data, k) ==> !old(self).string_map@.contains_key(k),
        ensures
            index == old(self)@.len(),
            final(self)@ == old(self)@.push(data),
            final(self).string_map == old(self).string_map,
            final(self).string_map.wf(),
            forall|k: Seq<char>| #[trigger] final(self).string_map@.contains_key(k) ==> final(self).string_map@[k]
                < final(self).data@.len() && is_string(final(self).data@[final(self).string_map@[k] as int], k),
            forall|i: int, k: Seq<char>|
                0 <= i < old(self).data@.len() && #[trigger] is_string(final(self).data@[i], k) ==> final(self).string_map@.contains_key(k)
                    && final(self).string_map@[k] == i,
    {
        let index = self.data.len();
        self.data.push(data);
        assert forall|k: Seq<char>| #[trigger] self.string_map@.contains_key(k) implies self.string_map@[k]
            < self.data@.len() && is_string(self.data@[self.string_map@[k] as int], k) by {
            assert(self.data@[self.string_map@[k] as int] == old(self)@[self.string_map@[k] as int]);
        }
        assert forall|i: int, k: Seq<char>|
            0 <= i < old(self).data@.len() && #[trigger] is_string(self.data@[i], k) implies self.string_map@.contains_key(k)
                && self.string_map@[k] == i by {
            assert(self.data@[i] == old(self).data@[i]);
        }
        index
    }

    /// The index of the string's segment, adding it when it is new: a string
    /// already stored keeps its index and nothing changes.
    pub fn get_or_intern_string(&mut self, s: String) -> (index: DataIndex)
        requires
            old(self).wf(),
        ensures
            final(self).wf(),
            index < final(self)@.len(),
            is_string(final(self)@[index as int], s@),
            old(self).holds_string(s@) ==> final(self)@ == old(self)@ && index < old(self)@.len(),
            !old(self).holds_string(s@) ==> index == old(self)@.len() && final(self)@ == old(self)@.push(
                Data::String(s),
            ),
    {
        let ghost s0 = s;
        match self.string_map.get(s.as_str()) {
            Some(index) => {
                let i = *index;
                i
            },
            None => {
                assert(!old(self).holds_string(s@)) by {
                    if old(self).holds_string(s@) {
                        let i = choose|i: int| 0 <= i < old(self)@.len() && #[trigger] is_string(old(self)@[i], s@);
                        assert(is_string(old(self).data@[i], s@));
                    }
                }
                let key = s.clone();
                let id = self.intern(Data::String(s));
                let _ = self.string_map.insert(key, id);
                assert forall|i: int, k: Seq<char>|
                    0 <= i < self.data@.len() && #[trigger] is_string(self.data@[i], k) implies self.string_map@.contains_key(k)
                        && self.string_map@[k] == i by {
                    if i == id as int {
                        assert(self.data@[i] == Data::String(s0));
                    }
                }
                id
            },
        }
    }
}

fn no_pos() -> (p: Pos)
    ensures
        p == (Pos { row: 0, col: 0, offset: 0, line_begin: 0, source_id: 0 }),
{
    Pos { row: 0, col: 0, offset: 0, line_begin: 0, source_id: 0 }
}

fn internal_error(msg: &str) -> (r: Report)
    ensures
        r.message@ == msg@,
{
    let p = no_pos();
    Report::code_error(msg, &p, &p)
}

/// Lowers the functions of one source file, writing types and data to the
/// module's shared interners.
pub struct FileEmitter {
    types: IRTypeInterner,
    data: DataInterner,
    const_id: ConstId,
    vars: VarTable<ConstId>,
    params: VarTable<ParamId>,
    stacksize: usize,
    /// The extern symbols the file used, each once.
    externs: Vec<SymbolId>,
}

impl FileEmitter {
    pub closed spec fn wf(&self) -> bool {
        &&& self.types.wf()
        &&& self.data.wf()
        &&& self.vars.wf()
        &&& self.params.wf()
    }

    /// The number of constant ids given out in the current function.
    pub closed spec fn spec_const_id(&self) -> ConstId {
        self.const_id
    }

    /// The types it has interned.
    pub closed spec fn type_table(&self) -> Seq<IRType> {
        self.types@
    }

    /// The data it has interned.
    pub closed spec fn data_table(&self) -> Seq<Data> {
        self.data@
    }

    pub fn new(types: IRTypeInterner, data: DataInterner) -> (r: Self)
        requires
            types.wf(),
            data.wf(),
        ensures
            r.wf(),
            r.type_table() == types@,
            r.data_table() == data@,
            r.spec_const_id() == 0,
    {
        FileEmitter {
            types,
            data,
            const_id: 0,
            stacksize: 0,
            vars: VarTable::new(),
            params: VarTable::new(),
            externs: Vec::new(),
        }
    }

    /// Gives back the interners and the used extern symbols.
    pub fn finish(self) -> (r: (IRTypeInterner, DataInterner, Vec<SymbolId>))
        requires
            self.wf(),
        ensures
            r.0.wf(),
            r.1.wf(),
    {
        (self.types, self.data, self.externs)
    }

    /// Lowers every function of the file.
    pub fn emit(&mut self, ctx: &Context, syms: &SymbolList, nsl: &NamespaceList, ast: &typed::TypedAst) -> (r: Result<Vec<Decl>, Report>)
        requires
            old(self).wf(),
            ctx.wf(),
            syms.wf(),
            nsl.wf(),
        ensures
            final(self).wf(),
            r matches Ok(ds) ==> ds@.len() == func_count(ast.decls@),
            r matches Ok(ds) ==> forall|j: int| 0 <= j < ds@.len() ==> (#[trigger] ds@[j] matches Decl::Func(f)
                && ends_with_return(f.body)),
    {
        let mut decls: Vec<Decl> = Vec::new();
        let mut i: usize = 0;
        while i < ast.decls.len()
            invariant
                self.wf(),
                ctx.wf(),
                syms.wf(),
                nsl.wf(),
                i <= ast.decls@.len(),
                decls@.len() == func_count(ast.decls@.take(i as int)),
                forall|j: int| 0 <= j < decls@.len() ==> (#[trigger] decls@[j] matches Decl::Func(f) && ends_with_return(
                    f.body,
                )),
            decreases ast.decls@.len() - i,
        {
            proof {
                let t = ast.decls@.take(i + 1);
                assert(t.drop_last() =~= ast.decls@.take(i as int));
                assert(t.last() == ast.decls@[i as int]);
            }
            match &ast.decls[i] {
                typed::Decl::Func(node) => {
                    let d = self.emit_func(ctx, syms, nsl, node)?;
                    decls.push(d);
                },
                typed::Decl::Extern(_) => {},
            }
            i = i + 1;
        }
        assert(ast.decls@.take(ast.decls@.len() as int) =~= ast.decls@);
        Ok(decls)
    }

    /// The next constant id of the function.
    fn next_id(&mut self) -> (r: Result<ConstId, Report>)
        requires
            old(self).wf(),
        ensures
            final(self).wf(),
            final(self).vars == old(self).vars,
            final(self).params == old(self).params,
            r is Ok <==> old(self).spec_const_id() < usize::MAX,
            r matches Ok(id) ==> id == old(self).spec_const_id() && final(self).spec_const_id() == id + 1,
            r is Err ==> final(self).spec_const_id() == old(self).spec_const_id(),
            final(self).type_table() == old(self).type_table(),
            final(self).data_table() == old(self).data_table(),
    {
        if self.const_id == usize::MAX {
            return Err(internal_error("too many values in function"));
        }
        let id = self.const_id;
        self.const_id = self.const_id + 1;
        Ok(id)
    }

    /// The machine type of a Koi type.
    fn ir_type(&mut self, ctx: &Context, ty: TypeId) -> (r: Result<IRTypeId, Report>)
        requires
            old(self).wf(),
            ctx.wf(),
        ensures
            final(self).wf(),
            final(self).spec_const_id() == old(self).spec_const_id(),
            final(self).vars == old(self).vars,
            final(self).params == old(self).params,
            r is Ok <==> ty < ctx.types.kinds().len(),
            r matches Ok(t) ==> t < final(self).types@.len(),
            old(self).types@.is_prefix_of(final(self).types@),
    {
        if ty >= ctx.types.len() {
            return Err(internal_error("unknown type"));
        }
        Ok(to_ir(&ctx.types, ty, &mut self.types))
    }

    fn emit_func(&mut self, ctx: &Context, syms: &SymbolList, nsl: &NamespaceList, node: &typed::FuncNode) -> (r: Result<Decl, Report>)
        requires
            old(self).wf(),
            ctx.wf(),
            syms.wf(),
            nsl.wf(),
        ensures
            final(self).wf(),
            r matches Ok(d) ==> (d matches Decl::Func(f) && f.public == node.public && ends_with_return(f.body)),
    {
        proof {
            self.vars.lemma_depth();
            self.params.lemma_depth();
        }
        self.vars.push_scope();
        self.params.push_scope();
        self.const_id = 0;
        self.stacksize = 0;
        let mut i: usize = 0;
        while i < node.params.len()
            invariant
                self.wf(),
                self.vars@.len() > 1,
                self.params@.len() > 1,
            decreases node.params@.len() - i,
        {
            let _ = self.params.bind(node.params[i].clone(), i);
            i = i + 1;
        }
        let body = self.emit_func_block(ctx, syms, nsl, &node.body.stmts)?;
        self.vars.pop_scope();
        self.params.pop_scope();
        let f = match ctx.types.try_function(node.ty) {
            Some(f) => f,
            None => {
                return Err(internal_error("not a function"));
            },
        };
        proof {
            ctx.types.lemma_wf();
            assert(kind_refs_below(ctx.types.kinds()[node.ty as int], node.ty as int));
        }
        let params = to_ir_type_list(&ctx.types, &f.params, &mut self.types);
        let ret = to_ir(&ctx.types, f.ret, &mut self.types);
        let name = self.to_mangled_name(ctx, syms, node.name.as_str())?;
        Ok(Decl::Func(FuncDecl { public: node.public, name, stacksize: self.stacksize, body, params, ret }))
    }

    fn emit_func_block(&mut self, ctx: &Context, syms: &SymbolList, nsl: &NamespaceList, nodes: &Vec<typed::Stmt>) -> (r: Result<Block, Report>)
        requires
            old(self).wf(),
            ctx.wf(),
            syms.wf(),
            nsl.wf(),
            old(self).vars@.len() > 1,
            old(self).params@.len() > 1,
        ensures
            final(self).wf(),
            r is Ok ==> final(self).vars@.len() == old(self).vars@.len(),
            r is Ok ==> final(self).params@.len() == old(self).params@.len(),
            r matches Ok(b) ==> ends_with_return(b),
    {
        let mut ins: Vec<Ins> = Vec::new();
        let mut i: usize = 0;
        while i < nodes.len()
            invariant
                self.wf(),
                ctx.wf(),
                syms.wf(),
                nsl.wf(),
                self.vars@.len() == old(self).vars@.len(),
                self.params@.len() == old(self).params@.len(),
            decreases nodes@.len() - i,
        {
            self.emit_stmt(ctx, syms, nsl, &mut ins, &nodes[i])?;
            i = i + 1;
        }
        let ends_with_return = ins.len() > 0 && match &ins[ins.len() - 1] {
            Ins::Return(_, _) => true,
            _ => false,
        };
        if !ends_with_return {
            let void_t = self.types.get_or_intern(IRType::Primitive(Primitive::Void));
            ins.push(Ins::Return(void_t, RValue::Void));
        }
        Ok(Block { ins })
    }

    fn emit_stmt(&mut self, ctx: &Context, syms: &SymbolList, nsl: &NamespaceList, ins: &mut Vec<Ins>, node: &typed::Stmt) -> (r: Result<(), Report>)
        requires
            old(self).wf(),
            ctx.wf(),
            syms.wf(),
            nsl.wf(),
        ensures
            final(self).wf(),
            final(self).vars@.len() == old(self).vars@.len(),
            final(self).params == old(self).params,
            old(ins)@.is_prefix_of(final(ins)@),
            r is Ok ==> lowers_stmt(old(self).vars@, old(self).params@, *node, old(ins)@, final(ins)@),
        decreases node, 1nat,
    {
        let ghost start = ins@;
        let ghost vars0 = self.vars@;
        let ghost params0 = self.params@;
        assert(start.is_prefix_of(start)) by {
            assert(start =~= start.subrange(0, start.len() as int));
        }
        match node {
            typed::Stmt::Return(n) => {
                let ty = self.ir_type(ctx, n.ty)?;
                let rval = match &n.expr {
                    None => RValue::Void,
                    Some(e) => self.expr_to_rval(ctx, syms, nsl, ins, e)?,
                };
                let ghost mid = ins@;
                ins.push(Ins::Return(ty, rval));
                assert(ins@.drop_last() =~= mid);
            },
            typed::Stmt::ExprStmt(e) => {
                let v = self.expr_to_rval(ctx, syms, nsl, ins, e)?;
                assert(lowers_expr(vars0, params0, *e, start, ins@, v));
            },
            typed::Stmt::VarDecl(n) => {
                let ty = self.ir_type(ctx, n.ty)?;
                let size = self.types.sizeof(ty);
                let rval = self.expr_to_rval(ctx, syms, nsl, ins, &n.value)?;
                let ghost mid = ins@;
                let const_id = self.next_id()?;
                ins.push(Ins::Store(StoreIns { ty, const_id, rval }));
                assert(ins@.drop_last() =~= mid);
                if self.stacksize > usize::MAX - size {
                    return Err(internal_error("stack too large"));
                }
                self.stacksize = self.stacksize + size;
                proof {
                    self.vars.lemma_depth();
                }
                let _ = self.vars.bind(n.name.clone(), const_id);
            },
            typed::Stmt::VarAssign(n) => {
                let ty = self.ir_type(ctx, n.ty)?;
                let rval = self.expr_to_rval(ctx, syms, nsl, ins, &n.rval)?;
                let ghost mid = ins@;
                let lval = self.expr_to_lval(&n.lval)?;
                ins.push(Ins::Assign(AssignIns { ty, lval, rval }));
                assert(ins@.drop_last() =~= mid);
            },
            typed::Stmt::If(n) => self.emit_if(ctx, syms, nsl, ins, n)?,
            typed::Stmt::While(n) => {
                let mut cond_ins: Vec<Ins> = Vec::new();
                let cond = self.expr_to_rval(ctx, syms, nsl, &mut cond_ins, &n.expr)?;
                let block = self.emit_block(ctx, syms, nsl, &n.block)?;
                ins.push(Ins::While(WhileIns { cond_ins, cond, block, post: None }));
            },
            typed::Stmt::For(n) => {
                self.emit_stmt(ctx, syms, nsl, ins, &n.initializer)?;
                let ghost mid = ins@;
                let mut cond_ins: Vec<Ins> = Vec::new();
                let cond = self.expr_to_rval(ctx, syms, nsl, &mut cond_ins, &n.condition)?;
                let block = self.emit_block(ctx, syms, nsl, &n.block)?;
                let mut post: Vec<Ins> = Vec::new();
                self.emit_stmt(ctx, syms, nsl, &mut post, &n.increment)?;
                ins.push(Ins::While(WhileIns { cond_ins, cond, block, post: Some(post) }));
                assert(ins@.drop_last() =~= mid);
            },
            typed::Stmt::Break(_) => ins.push(Ins::Break),
            typed::Stmt::Continue(_) => ins.push(Ins::Continue),
            typed::Stmt::OpAssign(n) => {
                let ty = self.ir_type(ctx, n.ty)?;
                let lhs = self.expr_to_rval(ctx, syms, nsl, ins, &n.lval)?;
                let ghost mid1 = ins@;
                let rhs = self.expr_to_rval(ctx, syms, nsl, ins, &n.rval)?;
                let ghost mid2 = ins@;
                let result = self.next_id()?;
                ins.push(Ins::Binary(BinaryIns { ty, op: assign_op_to_ir(n.op), lhs, rhs, result }));
                let lval = self.expr_to_lval(&n.lval)?;
                ins.push(Ins::Assign(AssignIns { ty, lval, rval: RValue::Const(result) }));
                assert(ins@[ins@.len() - 2] matches Ins::Binary(bi) && bi.result == result);
                proof {
                    let m = mid1.len() as int;
                    assert(ins@.take(m) =~= mid1);
                    assert(ins@.take(ins@.len() - 2) =~= mid2);
                    assert(lowers_expr(vars0, params0, *n.lval, start, ins@.take(m), lhs));
                    assert(lowers_expr(vars0, params0, *n.rval, ins@.take(m), ins@.take(ins@.len() - 2), rhs));
                }
            },
        }
        Ok(())
    }

    fn emit_block(&mut self, ctx: &Context, syms: &SymbolList, nsl: &NamespaceList, node: &typed::BlockNode) -> (r: Result<Block, Report>)
        requires
            old(self).wf(),
            ctx.wf(),
            syms.wf(),
            nsl.wf(),
        ensures
            final(self).wf(),
            final(self).vars@.len() == old(self).vars@.len(),
            final(self).params == old(self).params,
            r matches Ok(b) ==> lowers_stmts(old(self).params@, node.stmts@, old(self).vars@, b.ins@),
        decreases node, 0nat,
    {
        let mut ins: Vec<Ins> = Vec::new();
        let mut i: usize = 0;
        let ghost mut ms: Seq<int> = seq![0int];
        let ghost mut vs: Seq<Seq<Map<Seq<char>, ConstId>>> = seq![self.vars@];
        while i < node.stmts.len()
            invariant
                self.wf(),
                ctx.wf(),
                syms.wf(),
                nsl.wf(),
                self.vars@.len() == old(self).vars@.len(),
                self.params == old(self).params,
                i <= node.stmts@.len(),
                ms.len() == i + 1,
                vs.len() == i + 1,
                ms[0] == 0,
                ms.last() == ins@.len(),
                forall|k: int| 0 <= k <= i ==> 0 <= #[trigger] ms[k] <= ins@.len(),
                vs[0] == old(self).vars@,
                vs.last() == self.vars@,
                forall|k: int, l: int| 0 <= k <= l <= i ==> #[trigger] ms[k] <= #[trigger] ms[l],
                forall|k: int| 0 <= k < i ==> lowers_stmt(
                    vs[k],
                    old(self).params@,
                    #[trigger] node.stmts@[k],
                    ins@.take(ms[k]),
                    ins@.take(ms[k + 1]),
                ),
            decreases node.stmts@.len() - i,
        {
            let ghost before = ins@;
            let ghost vars_before = self.vars@;
            proof {
                assert(decreases_to!(node => node.stmts@[i as int])) by {
                    assert(decreases_to!(node => node.stmts));
                    assert(decreases_to!(node.stmts => node.stmts@));
                    assert(decreases_to!(node.stmts@ => node.stmts@[i as int]));
                }
            }
            self.emit_stmt(ctx, syms, nsl, &mut ins, &node.stmts[i])?;
            proof {
                assert(before.is_prefix_of(ins@));
                assert(before =~= ins@.subrange(0, before.len() as int));
                assert forall|k: int| 0 <= k <= i implies #[trigger] ins@.take(ms[k]) == before.take(ms[k]) by {
                    assert(ms[k] <= ms[i as int]);
                    assert forall|j: int| 0 <= j < ms[k] implies ins@.take(ms[k])[j] == before.take(ms[k])[j] by {
                        assert(ins@.subrange(0, before.len() as int)[j] == ins@[j]);
                        assert(before[j] == ins@[j]);
                    }
                    assert(ins@.take(ms[k]) =~= before.take(ms[k]));
                }
                assert(lowers_stmt(vars_before, old(self).params@, node.stmts@[i as int], before, ins@));
                assert(vs[i as int] == vars_before);
                assert(ins@.take(ins@.len() as int) =~= ins@);
                assert(ins@.take(before.len() as int) =~= before);
                let ms0 = ms;
                let vs0 = vs;
                ms = ms.push(ins@.len() as int);
                vs = vs.push(self.vars@);
                assert forall|k: int, l: int| 0 <= k <= l <= i + 1 implies #[trigger] ms[k] <= #[trigger] ms[l] by {
                    if l <= i {
                        assert(ms[k] == ms0[k] && ms[l] == ms0[l]);
                    } else if k <= i {
                        assert(ms0[k] <= ms0[i as int]);
                        assert(ms[k] == ms0[k]);
                        assert(before.len() <= ins@.len());
                    }
                }
                assert forall|k: int| 0 <= k < i + 1 implies lowers_stmt(
                    vs[k],
                    old(self).params@,
                    #[trigger] node.stmts@[k],
                    ins@.take(ms[k]),
                    ins@.take(ms[k + 1]),
                ) by {
                    if k < i {
                        assert(ms[k] == ms0[k] && ms[k + 1] == ms0[k + 1] && vs[k] == vs0[k]);

                        assert(ins@.take(ms0[k]) == before.take(ms0[k]));
                        assert(ins@.take(ms0[k + 1]) == before.take(ms0[k + 1]));
                    } else {
                        assert(ms[k] == before.len() && ms[k + 1] == ins@.len());
                        assert(before.len() <= ins@.len());
                    }
                }
            }
            i = i + 1;
        }
        proof {
            assert(lowers_stmts(old(self).params@, node.stmts@, old(self).vars@, ins@));
        }
        Ok(Block { ins })
    }

    fn emit_if(&mut self, ctx: &Context, syms: &SymbolList, nsl: &NamespaceList, ins: &mut Vec<Ins>, node: &typed::IfNode) -> (r: Result<(), Report>)
        requires
            old(self).wf(),
            ctx.wf(),
            syms.wf(),
            nsl.wf(),
        ensures
            final(self).wf(),
            final(self).vars@.len() == old(self).vars@.len(),
            final(self).params == old(self).params,
            old(ins)@.is_prefix_of(final(ins)@),
            r is Ok ==> final(ins)@.len() > old(ins)@.len(),
            r is Ok ==> (final(ins)@.last() matches Ins::If(ii) && lowers_expr(
                old(self).vars@,
                old(self).params@,
                node.expr,
                old(ins)@,
                final(ins)@.drop_last(),
                ii.cond,
            )),
        decreases node, 1nat,
    {
        let ghost start = ins@;
        let cond = self.expr_to_rval(ctx, syms, nsl, ins, &node.expr)?;
        let ghost mid = ins@;
        let block = self.emit_block(ctx, syms, nsl, &node.block)?;
        let (elseif, elseblock) = self.emit_else(ctx, syms, nsl, &node.elseif)?;
        ins.push(Ins::If(IfIns { cond, block, elseif, elseblock }));
        assert(start.is_prefix_of(ins@));
        assert(ins@.drop_last() =~= mid);
        Ok(())
    }

    /// The else-if branches of an if statement, in order, and its final else
    /// block.
    fn emit_else(&mut self, ctx: &Context, syms: &SymbolList, nsl: &NamespaceList, node: &typed::ElseBlock) -> (r: Result<(Vec<ElseIf>, Option<Block>), Report>)
        requires
            old(self).wf(),
            ctx.wf(),
            syms.wf(),
            nsl.wf(),
        ensures
            final(self).wf(),
            final(self).vars@.len() == old(self).vars@.len(),
            final(self).params == old(self).params,
            r matches Ok((eis, eb)) ==> eis@.len() == elseif_nodes(*node).len() && (eb is Some <==> final_else(
                *node,
            ) is Some),
            r matches Ok((eis, eb)) ==> forall|k: int| 0 <= k < eis@.len() ==> exists|vs: Seq<Map<Seq<char>, ConstId>>|
                lowers_expr(
                    vs,
                    old(self).params@,
                    elseif_nodes(*node)[k].expr,
                    Seq::empty(),
                    (#[trigger] eis@[k]).cond_ins@,
                    eis@[k].cond,
                ) && lowers_stmts(old(self).params@, elseif_nodes(*node)[k].block.stmts@, vs, eis@[k].block.ins@),
            r matches Ok((eis, eb)) ==> else_lowered(old(self).params@, *node, eb),
        decreases node,
    {
        match node {
            typed::ElseBlock::ElseIf(n) => {
                let mut cond_ins: Vec<Ins> = Vec::new();
                let cond = self.expr_to_rval(ctx, syms, nsl, &mut cond_ins, &n.expr)?;
                let block = self.emit_block(ctx, syms, nsl, &n.block)?;
                let ghost vars_c = old(self).vars@;
                let (mut rest, elseblock) = self.emit_else(ctx, syms, nsl, &n.elseif)?;
                let ghost rest0 = rest@;
                rest.insert(0, ElseIf { cond_ins, cond, block });
                proof {
                    let nodes = elseif_nodes(*node);
                    assert(nodes =~= seq![**n] + elseif_nodes(*n.elseif));
                    assert(final_else(*node) == final_else(*n.elseif));
                    if elseblock is Some {
                        let b = elseblock->0;
                        let vs = choose|vs: Seq<Map<Seq<char>, ConstId>>|
                            lowers_stmts(old(self).params@, final_else(*n.elseif)->0.stmts@, vs, b.ins@);
                        assert(lowers_stmts(old(self).params@, final_else(*node)->0.stmts@, vs, b.ins@));
                    }
                    assert(else_lowered(old(self).params@, *node, elseblock));
                    assert forall|k: int| 0 <= k < rest@.len() implies exists|vs: Seq<Map<Seq<char>, ConstId>>|
                        lowers_expr(
                            vs,
                            old(self).params@,
                            nodes[k].expr,
                            Seq::empty(),
                            (#[trigger] rest@[k]).cond_ins@,
                            rest@[k].cond,
                        ) && lowers_stmts(old(self).params@, nodes[k].block.stmts@, vs, rest@[k].block.ins@) by {
                        if k == 0 {
                            assert(lowers_expr(
                                vars_c,
                                old(self).params@,
                                nodes[k].expr,
                                Seq::empty(),
                                rest@[k].cond_ins@,
                                rest@[k].cond,
                            ));
                            assert(lowers_stmts(old(self).params@, nodes[k].block.stmts@, vars_c, rest@[k].block.ins@));
                        } else {
                            assert(rest@[k] == rest0[k - 1]);
                            assert(nodes[k] == elseif_nodes(*n.elseif)[k - 1]);
                        }
                    }
                }
                Ok((rest, elseblock))
            },
            typed::ElseBlock::Else(b) => {
                let ghost vars_b = self.vars@;
                let block = self.emit_block(ctx, syms, nsl, b)?;
                proof {
                    assert(final_else(*node) == Some(**b));
                    assert(lowers_stmts(old(self).params@, b.stmts@, vars_b, block.ins@));
                    let ob: Option<Block> = Some(block);
                    assert(ob->0 == block);
                    assert(final_else(*node)->0 == **b);
                    assert(else_lowered(old(self).params@, *node, ob));
                }
                Ok((Vec::new(), Some(block)))
            },
            typed::ElseBlock::NoElse => Ok((Vec::new(), None)),
        }
    }

    /// Lowers an expression, appending the instructions that compute it, and
    /// returns the value that holds its result.
    fn expr_to_rval(&mut self, ctx: &Context, syms: &SymbolList, nsl: &NamespaceList, ins: &mut Vec<Ins>, expr: &typed::Expr) -> (r: Result<RValue, Report>)
        requires
            old(self).wf(),
            ctx.wf(),
            syms.wf(),
            nsl.wf(),
        ensures
            final(self).wf(),
            final(self).vars == old(self).vars,
            final(self).params == old(self).params,
            final(self).spec_const_id() >= old(self).spec_const_id(),
            old(ins)@.is_prefix_of(final(ins)@),
            r matches Ok(RValue::Const(c)) ==> c < final(self).spec_const_id() || old(ins)@ == final(ins)@,
            r is Ok ==> lowers_expr(old(self).vars@, old(self).params@, *expr, old(ins)@, final(ins)@, r->Ok_0),
        decreases expr,
    {
        let ghost start = ins@;
        assert(start.is_prefix_of(start)) by {
            assert(start =~= start.subrange(0, start.len() as int));
        }
        match expr {
            typed::Expr::Literal(n) => {
                let r = self.lit_to_rval(n);
                proof {
                    if r is Ok {
                        let v = r->Ok_0;
                        assert(lowers_expr(old(self).vars@, old(self).params@, typed::Expr::Literal(*n), Seq::empty(), Seq::empty(), v));
                        assert(lowers_expr(old(self).vars@, old(self).params@, *expr, start, start, v));
                    }
                }
                r
            },
            typed::Expr::Call(n) => {
                let r = self.call_to_rval(ctx, syms, nsl, ins, n);
                proof {
                    if r is Ok {
                        let v = r->Ok_0;
                        assert(lowers_expr(old(self).vars@, old(self).params@, *expr, start, ins@, v));
                    }
                }
                r
            },
            typed::Expr::NamespaceMember(n) => {
                let ns = match nsl.get(n.name.as_str()) {
                    Ok(ns) => ns,
                    Err(_) => {
                        return Err(internal_error("not a namespace"));
                    },
                };
                let id = match ns.get(n.field.as_str()) {
                    Some(id) => id,
                    None => {
                        return Err(internal_error("not a member"));
                    },
                };
                let symbol = match ctx.symbols.try_get(id) {
                    Some(s) => s,
                    None => {
                        return Err(internal_error("not a symbol"));
                    },
                };
                let name = mangle_symbol_name(ctx.config.no_mangle_names, symbol);
                let mut found = false;
                let mut k: usize = 0;
                while k < self.externs.len()
                    decreases self.externs@.len() - k,
                {
                    if self.externs[k] == id {
                        found = true;
                    }
                    k = k + 1;
                }
                if !found {
                    self.externs.push(id);
                }
                assert(lowers_expr(old(self).vars@, old(self).params@, *expr, start, ins@, RValue::Function(name)));
                Ok(RValue::Function(name))
            },
            typed::Expr::Binary(n) => {
                if n.op == BinaryOp::LogicAnd || n.op == BinaryOp::LogicOr {
                    let mut lhs_ins: Vec<Ins> = Vec::new();
                    let lhs = self.expr_to_rval(ctx, syms, nsl, &mut lhs_ins, &n.lhs)?;
                    let mut rhs_ins: Vec<Ins> = Vec::new();
                    let rhs = self.expr_to_rval(ctx, syms, nsl, &mut rhs_ins, &n.rhs)?;
                    let op = if n.op == BinaryOp::LogicAnd { IRCondOp::And } else { IRCondOp::Or };
                    let result = self.next_id()?;
                    ins.push(Ins::Conditional(CondIns { op, lhs_ins, lhs, rhs_ins, rhs, result }));
                    assert(start.is_prefix_of(ins@));
                    return Ok(RValue::Const(result));
                }
                let ty = self.ir_type(ctx, n.ty)?;
                let lhs = self.expr_to_rval(ctx, syms, nsl, ins, &n.lhs)?;
                let ghost mid = ins@;
                let rhs = self.expr_to_rval(ctx, syms, nsl, ins, &n.rhs)?;
                let ghost mid2 = ins@;
                let result = self.next_id()?;
                ins.push(Ins::Binary(BinaryIns { ty, op: binary_op_to_ir(n.op), lhs, rhs, result }));
                assert(start.is_prefix_of(ins@));
                proof {
                    let m = mid.len() as int;
                    assert(ins@.drop_last() =~= mid2);
                    assert(ins@.take(m) =~= mid);
                    assert(lowers_expr(old(self).vars@, old(self).params@, *n.lhs, start, ins@.take(m), lhs));
                    assert(lowers_expr(old(self).vars@, old(self).params@, *n.rhs, ins@.take(m), ins@.drop_last(), rhs));
                }
                Ok(RValue::Const(result))
            },
            typed::Expr::Unary(n) => {
                let ty = self.ir_type(ctx, n.ty)?;
                let rhs = self.expr_to_rval(ctx, syms, nsl, ins, &n.rhs)?;
                let ghost mid = ins@;
                let result = self.next_id()?;
                ins.push(Ins::Unary(UnaryIns { ty, op: unary_op_to_ir(n.op), rhs, result }));
                assert(start.is_prefix_of(ins@));
                assert(ins@.drop_last() =~= mid);
                Ok(RValue::Const(result))
            },
            typed::Expr::Cast(n) => {
                let rval = self.expr_to_rval(ctx, syms, nsl, ins, &n.expr)?;
                if n.cast_kind == CastKind::Identity {
                    return Ok(rval);
                }
                let from_ty = self.ir_type(ctx, n.expr.type_id())?;
                let to_ty = self.ir_type(ctx, n.ty)?;
                let ghost mid = ins@;
                let result = self.next_id()?;
                ins.push(Ins::Cast(CastIns { from_ty, to_ty, rval, result }));
                assert(start.is_prefix_of(ins@));
                assert(ins@.drop_last() =~= mid);
                Ok(RValue::Const(result))
            },
        }
    }

    fn call_to_rval(&mut self, ctx: &Context, syms: &SymbolList, nsl: &NamespaceList, ins: &mut Vec<Ins>, n: &typed::CallNode) -> (r: Result<RValue, Report>)
        requires
            old(self).wf(),
            ctx.wf(),
            syms.wf(),
            nsl.wf(),
        ensures
            final(self).wf(),
            final(self).vars == old(self).vars,
            final(self).params == old(self).params,
            final(self).spec_const_id() >= old(self).spec_const_id(),
            old(ins)@.is_prefix_of(final(ins)@),
            r matches Ok(RValue::Const(c)) ==> c < final(self).spec_const_id(),
            r is Ok ==> (r->Ok_0 matches RValue::Const(c) && final(ins)@.len() > old(ins)@.len() && (final(ins)@.last() matches Ins::Call(
                ci,
            ) && ci.result == LValue::Const(c) && ci.args@.len() == n.args@.len())),
        decreases n,
    {
        let ghost start = ins@;
                let mut args: Vec<(IRTypeId, RValue)> = Vec::new();
                let mut i: usize = 0;
                while i < n.args.len()
                    invariant
                        self.wf(),
                        ctx.wf(),
                        syms.wf(),
                        nsl.wf(),
                        self.vars == old(self).vars,
                        self.params == old(self).params,
                        self.spec_const_id() >= old(self).spec_const_id(),
                        start.is_prefix_of(ins@),
                        start == old(ins)@,
                        i <= n.args@.len(),
                        args@.len() == i,
                    decreases n.args@.len() - i,
                {
                    proof {
                        assert(decreases_to!(n => n.args@[i as int])) by {
                            assert(decreases_to!(n => n.args));
                            assert(decreases_to!(n.args => n.args@));
                            assert(decreases_to!(n.args@ => n.args@[i as int]));
                        }
                    }
                    let ty = self.ir_type(ctx, n.args[i].type_id())?;
                    let rval = self.expr_to_rval(ctx, syms, nsl, ins, &n.args[i])?;
                    args.push((ty, rval));
                    i = i + 1;
                }
                let callee = match n.callee.try_identifier() {
                    Some(func_name) => RValue::Function(self.to_mangled_name(ctx, syms, func_name.as_str())?),
                    None => self.expr_to_rval(ctx, syms, nsl, ins, &n.callee)?,
                };
                let ty = self.ir_type(ctx, n.ty)?;
                let result_id = self.next_id()?;
                ins.push(Ins::Call(CallIns { ty, result: LValue::Const(result_id), callee, args }));
                assert(start.is_prefix_of(ins@));
                Ok(RValue::Const(result_id))
            
    }

    fn lit_to_rval(&mut self, node: &typed::LiteralNode) -> (r: Result<RValue, Report>)
        requires
            old(self).wf(),
        ensures
            final(self).wf(),
            final(self).vars == old(self).vars,
            final(self).params == old(self).params,
            final(self).spec_const_id() == old(self).spec_const_id(),
            r is Ok ==> lowers_expr(old(self).vars@, old(self).params@, typed::Expr::Literal(*node), Seq::empty(), Seq::empty(), r->Ok_0),
            !(node.kind is Ident) ==> r is Ok,
    {
        match &node.kind {
            LiteralKind::Int(n) => Ok(RValue::Int(*n)),
            LiteralKind::String(s) => Ok(RValue::Data(self.data.get_or_intern_string(s.clone()))),
            LiteralKind::Ident(name) => self.get_variable_rval(name.as_str()),
            LiteralKind::Uint(n) => Ok(RValue::Uint(*n)),
            LiteralKind::Float(s) => Ok(RValue::Float(s.clone())),
            LiteralKind::Bool(b) => Ok(RValue::Uint(if *b { 1 } else { 0 })),
            LiteralKind::Char(c) => Ok(RValue::Uint(*c as u64)),
        }
    }

    fn expr_to_lval(&self, expr: &typed::Expr) -> (r: Result<LValue, Report>)
        requires
            self.wf(),
        ensures
            typed::spec_try_identifier(*expr) is None ==> r is Err,
            typed::spec_try_identifier(*expr) matches Some(name) ==> (scoped_lookup(self.vars@, name@) matches Some(c)
                ==> r == Ok::<LValue, Report>(LValue::Const(c))),
    {
        match expr.try_identifier() {
            Some(name) => self.get_variable_lval(name.as_str()),
            None => Err(internal_error("not an assignable value")),
        }
    }

    /// The value a variable or parameter name stands for.
    fn get_variable_rval(&self, name: &str) -> (r: Result<RValue, Report>)
        requires
            self.wf(),
        ensures
            r matches Ok(v) ==> (v is Const || v is Param),
            scoped_lookup(self.vars@, name@) matches Some(c) ==> r == Ok::<RValue, Report>(RValue::Const(c)),
            scoped_lookup(self.vars@, name@) is None ==> (scoped_lookup(self.params@, name@) matches Some(p) ==> r
                == Ok::<RValue, Report>(RValue::Param(p))),
            r is Err <==> (scoped_lookup(self.vars@, name@) is None && scoped_lookup(self.params@, name@) is None),
    {
        match self.vars.get(name) {
            Some(id) => Ok(RValue::Const(*id)),
            None => match self.params.get(name) {
                Some(id) => Ok(RValue::Param(*id)),
                None => Err(internal_error("not an assigned name")),
            },
        }
    }

    /// The place a variable or parameter name stands for.
    fn get_variable_lval(&self, name: &str) -> (r: Result<LValue, Report>)
        requires
            self.wf(),
        ensures
            scoped_lookup(self.vars@, name@) matches Some(c) ==> r == Ok::<LValue, Report>(LValue::Const(c)),
            scoped_lookup(self.vars@, name@) is None ==> (scoped_lookup(self.params@, name@) matches Some(p) ==> r
                == Ok::<LValue, Report>(LValue::Param(p))),
            r is Err <==> (scoped_lookup(self.vars@, name@) is None && scoped_lookup(self.params@, name@) is None),
    {
        match self.vars.get(name) {
            Some(id) => Ok(LValue::Const(*id)),
            None => match self.params.get(name) {
                Some(id) => Ok(LValue::Param(*id)),
                None => Err(internal_error("not an assigned name")),
            },
        }
    }

    /// The output name of a symbol of the module.
    fn to_mangled_name(&self, ctx: &Context, syms: &SymbolList, name: &str) -> (r: Result<String, Report>)
        requires
            syms.wf(),
        ensures
            r is Ok <==> (syms@.contains_key(name@) && syms@[name@].id < ctx.symbols@.len()),
            r matches Ok(n) ==> n@ == mangled_name(ctx.config.no_mangle_names, ctx.symbols@[syms@[name@].id as int]),
    {
        let ms = match syms.get(name) {
            Ok(ms) => ms,
            Err(_) => {
                return Err(internal_error("not declared"));
            },
        };
        match ctx.symbols.try_get(ms.id) {
            Some(sym) => Ok(mangle_symbol_name(ctx.config.no_mangle_names, sym)),
            None => Err(internal_error("not a symbol")),
        }
    }
}

/// Lowers a module compiled from source to its unit: the extern symbols it
/// uses or imports, then its functions.
pub fn emit_ir(ctx: &Context, id: ModuleId) -> (r: Res<Unit>)
    requires
        ctx.wf(),
        id < ctx.modules@.len(),
    ensures
        r matches Ok(u) ==> extern_then_functions(u.decls@),
        ctx.modules@[id as int].kind is External ==> r is Err,
{
    let module = ctx.modules.get(id);
    proof {
        assert(ctx.modules@[id as int].symbols.wf());
        assert(crate::sema::module::module_files_wf(ctx.modules@[id as int].kind));
    }
    let files = match &module.kind {
        ModuleKind::Source { files, .. } => files,
        ModuleKind::External => {
            return Err(Diagnostics::one(internal_error("module is not compiled from source")));
        },
    };
    let mut types = IRTypeInterner::new();
    let mut data = DataInterner::new();
    let mut externs: Vec<SymbolId> = Vec::new();
    let mut decls: Vec<Decl> = Vec::new();
    let mut i: usize = 0;
    while i < files.len()
        invariant
            ctx.wf(),
            module.symbols.wf(),
            types.wf(),
            data.wf(),
            forall|j: int| 0 <= j < files@.len() ==> (#[trigger] files@[j]).namespaces.wf(),
            forall|j: int| 0 <= j < decls@.len() ==> (#[trigger] decls@[j] matches Decl::Func(f) && ends_with_return(
                f.body,
            )),
        decreases files@.len() - i,
    {
        let file = &files[i];
        let mut emitter = FileEmitter::new(types, data);
        let res = emitter.emit(ctx, &module.symbols, &file.namespaces, &file.ast);
        let (t, d, ex) = emitter.finish();
        types = t;
        data = d;
        match res {
            Ok(ds) => {
                let mut k: usize = 0;
                while k < ds.len()
                    decreases ds@.len() - k,
                {
                    k = k + 1;
                }
                let mut ds = ds;
                let ghost before = decls@;
                let ghost added = ds@;
                decls.append(&mut ds);
                assert forall|j: int| 0 <= j < decls@.len() implies (#[trigger] decls@[j] matches Decl::Func(f)
                    && ends_with_return(f.body)) by {
                    if j < before.len() {
                        assert(decls@[j] == before[j]);
                    } else {
                        assert(decls@[j] == added[j - before.len()]);
                    }
                }
            },
            Err(e) => {
                return Err(Diagnostics::one(e));
            },
        }
        let mut k: usize = 0;
        while k < ex.len()
            decreases ex@.len() - k,
        {
            push_unique(&mut externs, ex[k]);
            k = k + 1;
        }
        i = i + 1;
    }
    let imports = module.imports();
    let mut k: usize = 0;
    while k < imports.len()
        decreases imports@.len() - k,
    {
        match ctx.symbols.try_get(imports[k]) {
            Some(sym) => {
                if sym.kind != SymbolKind::Type {
                    push_unique(&mut externs, imports[k]);
                }
            },
            None => {},
        }
        k = k + 1;
    }
    let mut extern_decls: Vec<Decl> = Vec::new();
    let mut k: usize = 0;
    while k < externs.len()
        invariant
            ctx.wf(),
            types.wf(),
            forall|j: int| 0 <= j < extern_decls@.len() ==> (#[trigger] extern_decls@[j]) is Extern,
            forall|j: int| 0 <= j < decls@.len() ==> (#[trigger] decls@[j] matches Decl::Func(f) && ends_with_return(
                f.body,
            )),
        decreases externs@.len() - k,
    {
        let symbol = match ctx.symbols.try_get(externs[k]) {
            Some(s) => s,
            None => {
                return Err(Diagnostics::one(internal_error("not a symbol")));
            },
        };
        let f = match ctx.types.try_function(symbol.ty) {
            Some(f) => f,
            None => {
                return Err(Diagnostics::one(internal_error("not a function")));
            },
        };
        proof {
            ctx.types.lemma_wf();
            assert(kind_refs_below(ctx.types.kinds()[symbol.ty as int], symbol.ty as int));
        }
        let params = to_ir_type_list(&ctx.types, &f.params, &mut types);
        let ret = to_ir(&ctx.types, f.ret, &mut types);
        extern_decls.push(Decl::Extern(ExternDecl { name: mangle_symbol_name(ctx.config.no_mangle_names, symbol), params, ret }));
        k = k + 1;
    }
    let ghost ne = extern_decls@.len();
    let ghost fs = decls@;
    extern_decls.append(&mut decls);
    assert(forall|j: int| 0 <= j < ne ==> (#[trigger] extern_decls@[j]) is Extern);
    assert(forall|j: int| ne <= j < extern_decls@.len() ==> #[trigger] extern_decls@[j] == fs[j - ne]);
    assert(forall|j: int| ne <= j < extern_decls@.len() ==> (#[trigger] extern_decls@[j] matches Decl::Func(f)
        && ends_with_return(f.body)));
    assert(splits_at(extern_decls@, ne as int));
    Ok(Unit { name: module.modpath.to_underscore(), data: data.into_data(), types, decls: extern_decls })
}

/// Appends `id` unless it is there already.
fn push_unique(v: &mut Vec<SymbolId>, id: SymbolId)
    ensures
        final(v)@.contains(id),
        forall|x: SymbolId| old(v)@.contains(x) ==> final(v)@.contains(x),
{
    let mut k: usize = 0;
    while k < v.len()
        invariant
            v@ == old(v)@,
            forall|j: int| 0 <= j < k ==> v@[j] != id,
        decreases v@.len() - k,
    {
        if v[k] == id {
            return;
        }
        k = k + 1;
    }
    v.push(id);
    assert(v@[v@.len() - 1] == id);
    assert forall|x: SymbolId| old(v)@.contains(x) implies v@.contains(x) by {
        let j = choose|j: int| 0 <= j < old(v)@.len() && old(v)@[j] == x;
        assert(v@[j] == x);
    }
}

} // verus!
