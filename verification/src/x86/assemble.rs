use vstd::prelude::*;

use crate::common::text::{push_str, push_u64, str_eq};
use crate::config::Config;
use crate::ir::nodes::{
    AssignIns, BinaryIns, Block, CallIns, CondIns, ConstId, Data, Decl, FuncDecl, IRBinaryOp,
    IRCondOp, IRUnaryOp, IfIns, Ins, LValue, RValue, StoreIns, UnaryIns, Unit, WhileIns,
};
use crate::ir::types::{ir_size, IRType, IRTypeId, Primitive};
use crate::x86::assembly::{run, src_value, step, unsigned_of, MachineState, sized_reg, 
    spec_reg_size, spec_to_src, Asm, Condition, DataDecl, Dest, File, Immediate, Label, Reg, Size, Src,
    StackOffset, TextDecl, UnsignedReg,
};

verus! {

/// The label of data segment `idx`: `D<idx>`.
pub fn to_data_label(idx: usize) -> (r: String)
    ensures
        r@ == "D"@ + crate::common::text::decimal(idx as nat),
{
    let mut s = String::from_str("D");
    push_u64(&mut s, idx as u64);
    s
}

/// `n` rounded up to a multiple of 16, or `None` when that does not fit.
pub fn round_to_16(n: usize) -> (r: Option<usize>)
    ensures
        r matches Some(m) ==> m % 16 == 0 && n <= m < n + 16,
        r is None ==> n > usize::MAX - 15,
{
    if n > usize::MAX - 15 {
        return None;
    }
    let m = n + 15;
    Some(m - m % 16)
}

/// Assembles a unit: each declaration in order, then a data segment for
/// each string. Fails, with the first error met, when a function needs more
/// argument registers than there are, reads a value that was never stored,
/// uses a type without a register size, a void or function parameter, an
/// intrinsic or a cast, breaks or continues outside a loop, or needs a
/// stack frame too large to address.
pub fn assemble(unit: &Unit, config: &Config) -> (r: Result<File, String>)
    ensures
        r matches Ok(f) ==> f.text_section@.len() == unit.decls@.len() && f.data_section@.len()
            == unit.data@.len() && f.rodata_section@.len() == 0,
        r matches Ok(f) ==> forall|i: int| 0 <= i < unit.decls@.len() ==> assembles_decl(
            #[trigger] unit.decls@[i],
            f.text_section@[i],
        ),
        r matches Ok(f) ==> forall|i: int| 0 <= i < unit.data@.len() ==> holds_data(
            #[trigger] f.data_section@[i],
            i as usize,
            unit.data@[i],
        ),
{
    let mut text: Vec<TextDecl> = Vec::new();
    let mut i: usize = 0;
    while i < unit.decls.len()
        invariant
            i <= unit.decls@.len(),
            text@.len() == i,
            forall|j: int| 0 <= j < i ==> assembles_decl(#[trigger] unit.decls@[j], text@[j]),
        decreases unit.decls@.len() - i,
    {
        let d = match &unit.decls[i] {
            Decl::Extern(e) => TextDecl::Extern(e.name.clone()),
            Decl::Func(f) => {
                let ins = FunctionAssembler::new(unit, f, config).assemble()?;
                let global = f.public || str_eq(f.name.as_str(), "main");
                TextDecl::Function { global, name: f.name.clone(), ins }
            },
        };
        text.push(d);
        i = i + 1;
    }
    let mut data: Vec<DataDecl> = Vec::new();
    let mut i: usize = 0;
    while i < unit.data.len()
        invariant
            i <= unit.data@.len(),
            data@.len() == i,
            forall|j: int| 0 <= j < i ==> holds_data(#[trigger] data@[j], j as usize, unit.data@[j]),
        decreases unit.data@.len() - i,
    {
        let d = match &unit.data[i] {
            Data::String(s) => DataDecl::String { label: to_data_label(i), content: s.clone() },
        };
        data.push(d);
        i = i + 1;
    }
    Ok(File { data_section: data, rodata_section: Vec::new(), text_section: text })
}

/// The text declaration `t` is that of the machine declaration `d`: an
/// extern by its name; a function by its name, global when it is public or
/// is `main`, with instructions that open with the frame setup.
pub open spec fn assembles_decl(d: Decl, t: TextDecl) -> bool {
    match d {
        Decl::Extern(e) => t == TextDecl::Extern(e.name),
        Decl::Func(f) => t matches TextDecl::Function { global, name, ins } && name == f.name && global == (f.public
            || f.name@ == "main"@) && ins@.len() >= 2 && ins@[0] == Asm::Push(Src::Reg(Reg::Rbp)) && ins@[1]
            == Asm::Mov(Dest::Reg(Reg::Rbp), Src::Reg(Reg::Rsp)),
    }
}

/// The data declaration of segment `idx` holds its string under the label
/// `D<idx>`.
pub open spec fn holds_data(d: DataDecl, idx: usize, data: Data) -> bool {
    match data {
        Data::String(s) => d matches DataDecl::String { label, content } && label@ == data_label(idx) && content == s,
    }
}

/// The size of a register that holds `bytes` bytes, if there is one.
pub open spec fn spec_size_of_bytes(bytes: usize) -> Option<Size> {
    if bytes == 1 {
        Some(Size::Byte)
    } else if bytes == 2 {
        Some(Size::Word)
    } else if bytes == 4 {
        Some(Size::Dword)
    } else if bytes == 8 {
        Some(Size::Qword)
    } else {
        None
    }
}

/// The register size of machine type `ty`, if it has one.
pub open spec fn spec_type_size(types: Seq<IRType>, ty: IRTypeId) -> Option<Size> {
    if ty < types.len() {
        spec_size_of_bytes(ir_size(types[ty as int]))
    } else {
        None
    }
}

/// The accumulator of the given size.
pub open spec fn rax_of(size: Size) -> Reg {
    match size {
        Size::Byte => Reg::Al,
        Size::Word => Reg::Ax,
        Size::Dword => Reg::Eax,
        Size::Qword => Reg::Rax,
    }
}

/// The scratch register `r10` of the given size.
pub open spec fn r10_of(size: Size) -> Reg {
    match size {
        Size::Byte => Reg::R10b,
        Size::Word => Reg::R10w,
        Size::Dword => Reg::R10d,
        Size::Qword => Reg::R10,
    }
}

/// The register size of a machine type, if it has one.
pub fn type_size(unit: &Unit, ty: IRTypeId) -> (r: Result<Size, String>)
    ensures
        r is Ok <==> spec_type_size(unit.types@, ty) is Some,
        r matches Ok(sz) ==> spec_type_size(unit.types@, ty) == Some(sz),
{
    if ty >= unit.types.len() {
        return Err(String::from_str("unknown type"));
    }
    match Size::of_bytes(unit.types.sizeof(ty)) {
        Some(s) => Ok(s),
        None => Err(String::from_str("no size")),
    }
}

/// The size of the value a source holds: that of its register or slot, and
/// 64 bits for an immediate or an address.
pub open spec fn spec_src_size(src: Src) -> Size {
    match src {
        Src::Reg(x) => spec_reg_size(x),
        Src::StackOffset(s) => s.size,
        _ => Size::Qword,
    }
}

pub fn src_size(src: &Src) -> (r: Size)
    ensures
        r == spec_src_size(*src),
{
    match src {
        Src::Reg(reg) => reg.size(),
        Src::StackOffset(off) => off.size,
        Src::Immediate(_) | Src::Label(_) => Size::Qword,
    }
}

/// The instruction that sign-extends the accumulator into `rdx` before a
/// division of the given size.
pub open spec fn spec_sign_extend(size: Size) -> Asm {
    if size == Size::Qword {
        Asm::Cqo
    } else {
        Asm::Cdq
    }
}

pub fn sign_extend_ax(size: Size) -> (r: Asm)
    ensures
        r == spec_sign_extend(size),
{
    match size {
        Size::Qword => Asm::Cqo,
        _ => Asm::Cdq,
    }
}

/// The place a constant is held in: that of its first binding.
pub open spec fn spec_var(vars: Seq<(ConstId, Dest)>, id: ConstId) -> Option<Dest>
    decreases vars.len(),
{
    if vars.len() == 0 {
        None
    } else if vars[0].0 == id {
        Some(vars[0].1)
    } else {
        spec_var(vars.drop_first(), id)
    }
}

/// The label of data segment `idx`.
pub open spec fn data_label(idx: usize) -> Seq<char> {
    "D"@ + crate::common::text::decimal(idx as nat)
}

/// Can the value be read, given the places of the constants and of the
/// parameters?
pub open spec fn has_src(vars: Seq<(ConstId, Dest)>, params: Seq<Dest>, rval: RValue) -> bool {
    match rval {
        RValue::Const(id) => spec_var(vars, id) is Some,
        RValue::Param(idx) => idx < params.len(),
        RValue::Void => false,
        RValue::Function(_) => false,
        _ => true,
    }
}

/// `src` is the source the value is read from: a number as an immediate,
/// a constant or a parameter from its place, a string by its label.
pub open spec fn src_of(vars: Seq<(ConstId, Dest)>, params: Seq<Dest>, rval: RValue, src: Src) -> bool {
    match rval {
        RValue::Int(n) => src == Src::Immediate(Immediate::Int(n)),
        RValue::Uint(n) => src == Src::Immediate(Immediate::Uint(n)),
        RValue::Float(f) => src == Src::Immediate(Immediate::Float(f)),
        RValue::Const(id) => spec_var(vars, id) matches Some(d) && src == spec_to_src(d),
        RValue::Param(idx) => idx < params.len() && src == spec_to_src(params[idx as int]),
        RValue::Data(idx) => src matches Src::Label(l) && l.name@ == data_label(idx),
        RValue::Void => false,
        RValue::Function(_) => false,
    }
}

/// The value is read from a register or is an immediate, so that it can be
/// moved straight into a place.
pub open spec fn movable_src(vars: Seq<(ConstId, Dest)>, params: Seq<Dest>, rval: RValue) -> bool {
    match rval {
        RValue::Int(_) | RValue::Uint(_) | RValue::Float(_) => true,
        RValue::Const(id) => spec_var(vars, id) matches Some(d) && (spec_to_src(d) is Reg || spec_to_src(d) is Immediate),
        RValue::Param(idx) => idx < params.len() && (spec_to_src(params[idx as int]) is Reg || spec_to_src(
            params[idx as int],
        ) is Immediate),
        _ => false,
    }
}

/// The place can be written at this point.
pub open spec fn has_dest(vars: Seq<(ConstId, Dest)>, params: Seq<Dest>, lval: LValue) -> bool {
    match lval {
        LValue::Const(id) => spec_var(vars, id) is Some,
        LValue::Param(idx) => idx < params.len(),
    }
}

/// A `mov`, or a `lea` when the source is an address.
pub open spec fn mov_or_lea_asm(dest: Dest, src: Src) -> Asm {
    if src is Label {
        Asm::Lea(dest, src)
    } else {
        Asm::Mov(dest, src)
    }
}

/// The condition a comparison sets its result by.
pub open spec fn condition_of(op: IRBinaryOp) -> Condition {
    match op {
        IRBinaryOp::Eq => Condition::E,
        IRBinaryOp::Ne => Condition::Ne,
        IRBinaryOp::Gt => Condition::G,
        IRBinaryOp::Ge => Condition::Ge,
        IRBinaryOp::Lt => Condition::L,
        _ => Condition::Le,
    }
}

/// The code of a binary operation computes what the operation means: run
/// on any values of its operands (held in memory or written as immediates),
/// it leaves in the operation's result register the value the machine
/// operation gives on them: the sum, difference, product, quotient or
/// remainder, or 1 or 0 by whether the comparison holds.
pub proof fn law_binary_code_computes(op: IRBinaryOp, sz: Size, l: Src, r: Src, st: MachineState)
    requires
        !(l is Reg),
        !(r is Reg),
        (op is Div || op is Mod) ==> src_value(st, r) != 0,
    ensures
        run(st, binary_code(op, sz, l, r)).0[unsigned_of(binary_result(op, sz)->Reg_0)] == crate::ir::nodes::ir_binary_value(
            op,
            src_value(st, l),
            src_value(st, r),
        ),
{
    reveal_with_fuel(run, 5);
    let code = binary_code(op, sz, l, r);
    let s1 = step(st, code[0]);
    let s2 = step(s1, code[1]);
    let s3 = step(s2, code[2]);
    assert(src_value(s1, r) == src_value(st, r));
    assert(code.drop_first()[0] == code[1]);
    assert(code.drop_first().drop_first()[0] == code[2]);
    if code.len() == 4 {
        assert(code.drop_first().drop_first().drop_first()[0] == code[3]);
        assert(code.drop_first().drop_first().drop_first().drop_first().len() == 0);
    } else {
        assert(code.drop_first().drop_first().drop_first().len() == 0);
    }
    match op {
        IRBinaryOp::Add | IRBinaryOp::Sub | IRBinaryOp::Mul | IRBinaryOp::Div | IRBinaryOp::Mod => {},
        _ => law_comparison_condition_keeps_meaning(op, src_value(st, l), src_value(st, r)),
    }
}

/// The instructions of a unary operation on `x` whose result has size
/// `sz`: `x` is moved into the accumulator, which is negated, or has its
/// low bit flipped for `Not`.
pub open spec fn unary_code(op: IRUnaryOp, sz: Size, x: Src) -> Seq<Asm> {
    seq![
        Asm::Mov(Dest::Reg(rax_of(sz)), x),
        if op == IRUnaryOp::Neg {
            Asm::Neg(Dest::Reg(rax_of(sz)))
        } else {
            Asm::Xor(Dest::Reg(rax_of(sz)), Src::Immediate(Immediate::Uint(1)))
        },
    ]
}

/// The code of a unary operation computes what the operation means: run on
/// any value of its operand, it leaves in the accumulator the negation, or
/// for `Not` on a boolean (0 or 1) its negation.
pub proof fn law_unary_code_computes(op: IRUnaryOp, sz: Size, x: Src, st: MachineState)
    requires
        !(x is Reg),
        op == IRUnaryOp::Not ==> (src_value(st, x) == 0 || src_value(st, x) == 1),
    ensures
        run(st, unary_code(op, sz, x)).0[UnsignedReg::Rax] == crate::ir::nodes::ir_unary_value(op, src_value(st, x)),
{
    reveal_with_fuel(run, 3);
    let code = unary_code(op, sz, x);
    assert(code.drop_first()[0] == code[1]);
    assert(code.drop_first().drop_first().len() == 0);
    assert(unsigned_of(rax_of(sz)) == UnsignedReg::Rax);
    assert((0u64 ^ 1u64) == 1u64) by (bit_vector);
    assert((1u64 ^ 1u64) == 0u64) by (bit_vector);
}

/// A Koi operation compiled to x86-64 computes what it means in Koi: the
/// code for the lowered operation, run on any values of its operands,
/// leaves in the result register the value of the Koi operator on them.
pub proof fn law_x86_code_computes_koi_operators(
    op: crate::sema::typed::BinaryOp,
    sz: Size,
    l: Src,
    r: Src,
    st: MachineState,
)
    requires
        op != crate::sema::typed::BinaryOp::LogicAnd,
        op != crate::sema::typed::BinaryOp::LogicOr,
        !(l is Reg),
        !(r is Reg),
        (op is Divide || op is Modulo) ==> src_value(st, r) != 0,
    ensures
        ({
            let irop = crate::lower::spec_binary_op_to_ir(op);
            run(st, binary_code(irop, sz, l, r)).0[unsigned_of(binary_result(irop, sz)->Reg_0)]
                == crate::sema::typed::koi_binary_value(op, src_value(st, l), src_value(st, r))
        }),
{
    crate::lower::law_lowering_keeps_operator_meaning(op, src_value(st, l), src_value(st, r));
    law_binary_code_computes(crate::lower::spec_binary_op_to_ir(op), sz, l, r, st);
}

/// A comparison is assembled to the condition that means the same: the
/// `set` instruction written after `cmp a, b` sets its byte exactly when
/// the machine comparison holds on `a` and `b`.
pub proof fn law_comparison_condition_keeps_meaning(op: IRBinaryOp, a: int, b: int)
    requires
        crate::ir::nodes::is_comparison(op),
    ensures
        crate::x86::assembly::setcc_holds(crate::x86::assembly::cond_name(condition_of(op)), a, b)
            <==> crate::ir::nodes::ir_binary_value(op, a, b) == 1,
{
    match op {
        IRBinaryOp::Eq => reveal_strlit("e"),
        IRBinaryOp::Ne => reveal_strlit("ne"),
        IRBinaryOp::Gt => reveal_strlit("g"),
        IRBinaryOp::Ge => reveal_strlit("ge"),
        IRBinaryOp::Lt => reveal_strlit("l"),
        _ => reveal_strlit("le"),
    }
}

/// A Koi comparison compiled to x86-64 keeps its meaning: lowering it and
/// assembling the machine comparison gives a `set` instruction that sets
/// its byte exactly when the Koi comparison holds.
pub proof fn law_x86_output_keeps_koi_comparisons(op: crate::sema::typed::BinaryOp, a: int, b: int)
    requires
        op is Equal || op is NotEqual || op is Greater || op is GreaterEq || op is Less || op is LessEq,
    ensures
        crate::x86::assembly::setcc_holds(
            crate::x86::assembly::cond_name(condition_of(crate::lower::spec_binary_op_to_ir(op))),
            a,
            b,
        ) <==> crate::sema::typed::koi_binary_value(op, a, b) == 1,
{
    crate::lower::law_lowering_keeps_operator_meaning(op, a, b);
    law_comparison_condition_keeps_meaning(crate::lower::spec_binary_op_to_ir(op), a, b);
}

/// The size a comparison is made at: that of the side that is not an
/// immediate, or 64 bits when both are.
pub open spec fn comparison_size(l: Src, r: Src) -> Size {
    if l is Immediate && r is Immediate {
        Size::Qword
    } else if l is Immediate {
        spec_src_size(r)
    } else {
        spec_src_size(l)
    }
}

/// The instructions of a binary operation on `l` and `r` whose result has
/// size `sz`.
pub open spec fn binary_code(op: IRBinaryOp, sz: Size, l: Src, r: Src) -> Seq<Asm> {
    match op {
        IRBinaryOp::Add => seq![
            Asm::Mov(Dest::Reg(rax_of(sz)), l),
            Asm::Mov(Dest::Reg(r10_of(sz)), r),
            Asm::Add(Dest::Reg(rax_of(sz)), Src::Reg(r10_of(sz))),
        ],
        IRBinaryOp::Sub => seq![
            Asm::Mov(Dest::Reg(rax_of(sz)), l),
            Asm::Mov(Dest::Reg(r10_of(sz)), r),
            Asm::Sub(Dest::Reg(rax_of(sz)), Src::Reg(r10_of(sz))),
        ],
        IRBinaryOp::Mul => seq![
            Asm::Mov(Dest::Reg(rax_of(sz)), l),
            Asm::Mov(Dest::Reg(r10_of(sz)), r),
            Asm::IMul(Dest::Reg(rax_of(sz)), Src::Reg(r10_of(sz))),
        ],
        IRBinaryOp::Div => seq![
            Asm::Mov(Dest::Reg(rax_of(sz)), l),
            Asm::Mov(Dest::Reg(r10_of(sz)), r),
            spec_sign_extend(sz),
            Asm::IDiv(Src::Reg(r10_of(sz))),
        ],
        IRBinaryOp::Mod => seq![
            Asm::Mov(Dest::Reg(rax_of(spec_src_size(l))), l),
            Asm::Mov(Dest::Reg(r10_of(spec_src_size(l))), r),
            spec_sign_extend(spec_src_size(l)),
            Asm::IDiv(Src::Reg(r10_of(spec_src_size(l)))),
        ],
        _ => seq![
            Asm::Mov(Dest::Reg(rax_of(comparison_size(l, r))), l),
            Asm::Mov(Dest::Reg(r10_of(comparison_size(l, r))), r),
            Asm::Cmp(Src::Reg(rax_of(comparison_size(l, r))), Src::Reg(r10_of(comparison_size(l, r)))),
            Asm::SetCc(condition_of(op), Dest::Reg(Reg::Al)),
        ],
    }
}

/// Where the result of a binary operation is left: the accumulator, `edx`
/// for a remainder, `al` for a comparison.
pub open spec fn binary_result(op: IRBinaryOp, sz: Size) -> Dest {
    match op {
        IRBinaryOp::Add | IRBinaryOp::Sub | IRBinaryOp::Mul | IRBinaryOp::Div => Dest::Reg(rax_of(sz)),
        IRBinaryOp::Mod => Dest::Reg(Reg::Edx),
        _ => Dest::Reg(Reg::Al),
    }
}

/// Hands out the argument registers of the calling convention in order:
/// six integer registers and eight XMM registers.
pub struct ArgRegs {
    num_int: usize,
    num_float: usize,
}

/// The `n`-th integer argument register.
pub open spec fn int_arg_reg(n: int) -> UnsignedReg {
    if n == 0 {
        UnsignedReg::Rdi
    } else if n == 1 {
        UnsignedReg::Rsi
    } else if n == 2 {
        UnsignedReg::Rdx
    } else if n == 3 {
        UnsignedReg::Rcx
    } else if n == 4 {
        UnsignedReg::R8
    } else {
        UnsignedReg::R9
    }
}

/// The `n`-th floating-point argument register.
pub open spec fn float_arg_reg(n: int) -> UnsignedReg {
    if n == 0 {
        UnsignedReg::Xmm0
    } else if n == 1 {
        UnsignedReg::Xmm1
    } else if n == 2 {
        UnsignedReg::Xmm2
    } else if n == 3 {
        UnsignedReg::Xmm3
    } else if n == 4 {
        UnsignedReg::Xmm4
    } else if n == 5 {
        UnsignedReg::Xmm5
    } else if n == 6 {
        UnsignedReg::Xmm6
    } else {
        UnsignedReg::Xmm7
    }
}

/// An argument of type `t` goes in a floating-point register.
pub open spec fn is_float_arg(t: IRType) -> bool {
    t == IRType::Primitive(Primitive::F32) || t == IRType::Primitive(Primitive::F64)
}

/// How many of the first `k` arguments go in integer registers.
pub open spec fn ints_before(types: Seq<IRType>, args: Seq<(IRTypeId, RValue)>, k: int) -> nat
    decreases k,
{
    if k <= 0 {
        0
    } else {
        ints_before(types, args, k - 1) + if is_float_arg(types[args[k - 1].0 as int]) {
            0nat
        } else {
            1nat
        }
    }
}

/// How many of the first `k` arguments go in floating-point registers.
pub open spec fn floats_before(types: Seq<IRType>, args: Seq<(IRTypeId, RValue)>, k: int) -> nat
    decreases k,
{
    if k <= 0 {
        0
    } else {
        floats_before(types, args, k - 1) + if is_float_arg(types[args[k - 1].0 as int]) {
            1nat
        } else {
            0nat
        }
    }
}

/// The register argument `k` of a call is passed in: the next register of
/// its class, sized to its type.
pub open spec fn arg_reg(types: Seq<IRType>, args: Seq<(IRTypeId, RValue)>, k: int) -> Reg {
    sized_reg(
        if is_float_arg(types[args[k].0 as int]) {
            float_arg_reg(floats_before(types, args, k) as int)
        } else {
            int_arg_reg(ints_before(types, args, k) as int)
        },
        spec_type_size(types, args[k].0)->0,
    )
}

impl ArgRegs {
    /// How many integer registers were handed out.
    pub closed spec fn ints(&self) -> nat {
        self.num_int as nat
    }

    /// How many floating-point registers were handed out.
    pub closed spec fn floats(&self) -> nat {
        self.num_float as nat
    }

    pub fn new() -> (r: Self)
        ensures
            r.ints() == 0,
            r.floats() == 0,
    {
        ArgRegs { num_int: 0, num_float: 0 }
    }

    /// The next register for an argument of the given type, sized to it.
    /// Fails on a type without a size, a `void` or function type, and
    /// when the registers of the argument's class are used up.
    pub fn next(&mut self, unit: &Unit, ty: IRTypeId) -> (r: Result<Reg, String>)
        ensures
            r is Ok <==> ({
                &&& spec_type_size(unit.types@, ty) is Some
                &&& unit.types@[ty as int] is Primitive
                &&& unit.types@[ty as int] != IRType::Primitive(Primitive::Void)
                &&& if is_float_arg(unit.types@[ty as int]) {
                    old(self).floats() < 8 && spec_type_size(unit.types@, ty) == Some(Size::Qword)
                } else {
                    old(self).ints() < 6
                }
            }),
            r matches Ok(reg) ==> reg == sized_reg(
                if is_float_arg(unit.types@[ty as int]) {
                    float_arg_reg(old(self).floats() as int)
                } else {
                    int_arg_reg(old(self).ints() as int)
                },
                spec_type_size(unit.types@, ty)->0,
            ),
            r is Ok && is_float_arg(unit.types@[ty as int]) ==> final(self).floats() == old(self).floats() + 1
                && final(self).ints() == old(self).ints(),
            r is Ok && !is_float_arg(unit.types@[ty as int]) ==> final(self).ints() == old(self).ints() + 1
                && final(self).floats() == old(self).floats(),
    {
        if ty >= unit.types.len() {
            return Err(String::from_str("unknown type"));
        }
        let size = type_size(unit, ty)?;
        let is_float = match unit.types.get(ty) {
            IRType::Primitive(Primitive::F32) | IRType::Primitive(Primitive::F64) => true,
            IRType::Primitive(Primitive::Void) => {
                return Err(String::from_str("void type not allowed"));
            },
            IRType::Function(..) => {
                return Err(String::from_str("function arguments are not supported"));
            },
            _ => false,
        };
        if is_float {
            if self.num_float >= 8 {
                return Err(String::from_str("exceeded maximum float registers"));
            }
            if size != Size::Qword {
                return Err(String::from_str("no XMM register of that size"));
            }
            let r = match self.num_float {
                0 => UnsignedReg::Xmm0,
                1 => UnsignedReg::Xmm1,
                2 => UnsignedReg::Xmm2,
                3 => UnsignedReg::Xmm3,
                4 => UnsignedReg::Xmm4,
                5 => UnsignedReg::Xmm5,
                6 => UnsignedReg::Xmm6,
                _ => UnsignedReg::Xmm7,
            };
            self.num_float = self.num_float + 1;
            Ok(r.to_sized(size))
        } else {
            if self.num_int >= 6 {
                return Err(String::from_str("exceeded maximum int registers"));
            }
            let r = match self.num_int {
                0 => UnsignedReg::Rdi,
                1 => UnsignedReg::Rsi,
                2 => UnsignedReg::Rdx,
                3 => UnsignedReg::Rcx,
                4 => UnsignedReg::R8,
                _ => UnsignedReg::R9,
            };
            self.num_int = self.num_int + 1;
            Ok(r.to_sized(size))
        }
    }
}

/// The instructions that move `x` into the place `dest`: directly when
/// it is a register or an immediate, else through the accumulator of size
/// `sz`.
pub open spec fn store_code(dest: Dest, x: Src, sz: Size) -> Seq<Asm> {
    if x is Reg || x is Immediate {
        seq![mov_or_lea_asm(dest, x)]
    } else {
        seq![mov_or_lea_asm(Dest::Reg(rax_of(sz)), x), Asm::Mov(dest, Src::Reg(rax_of(sz)))]
    }
}

/// `d` is the place the target of an assignment is.
pub open spec fn dest_of(vars: Seq<(ConstId, Dest)>, params: Seq<Dest>, lval: LValue, d: Dest) -> bool {
    match lval {
        LValue::Const(id) => spec_var(vars, id) == Some(d),
        LValue::Param(idx) => idx < params.len() && d == params[idx as int],
    }
}

/// The instructions that set the zero flag when the boolean `x` is false.
pub open spec fn test_code(x: Src) -> Seq<Asm> {
    if x is Immediate {
        seq![Asm::Xor(Dest::Reg(Reg::Al), Src::Reg(Reg::Al)), Asm::Cmp(Src::Reg(Reg::Al), x)]
    } else {
        seq![Asm::Cmp(x, Src::Immediate(Immediate::Uint(0)))]
    }
}

/// Which counter a counter number stands for: 0 to 2, and 3 for any
/// other.
pub open spec fn counter_kind(c: u8) -> u8 {
    if c < 3 {
        c
    } else {
        3
    }
}

/// The count after one more label, as far as a `u64` goes.
pub open spec fn next_count(n: u64) -> u64 {
    if n < u64::MAX {
        (n + 1) as u64
    } else {
        n
    }
}

/// The label `.L<function><kind><n>`.
pub open spec fn label_text(fname: Seq<char>, kind: Seq<char>, n: u64) -> Seq<char> {
    ".L"@ + fname + kind + crate::common::text::decimal(n as nat)
}

/// One line for the comment before each instruction, when there are
/// comments.
pub open spec fn comment_lines(config: Config) -> int {
    if config.comment_assembly {
        1
    } else {
        0
    }
}

/// The name of an instruction, for comments in the assembly.
pub open spec fn spec_ins_name(ins: Ins) -> Seq<char> {
    match ins {
        Ins::Store(_) => "store"@,
        Ins::Assign(_) => "assign"@,
        Ins::Call(_) => "call"@,
        Ins::Intrinsic(_) => "intrinsic"@,
        Ins::Return(_, _) => "return"@,
        Ins::Binary(_) => "binary"@,
        Ins::Unary(_) => "unary"@,
        Ins::Cast(_) => "cast"@,
        Ins::If(_) => "if"@,
        Ins::While(_) => "while"@,
        Ins::Conditional(_) => "conditional"@,
        Ins::Break => "break"@,
        Ins::Continue => "continue"@,
    }
}

/// Binding a constant that has no binding yet at the end gives it that
/// place and keeps every other binding.
proof fn lemma_var_push(vars: Seq<(ConstId, Dest)>, id: ConstId, d: Dest, k: ConstId)
    requires
        forall|j: int| 0 <= j < vars.len() ==> vars[j].0 != id,
    ensures
        spec_var(vars.push((id, d)), k) == if k == id { Some(d) } else { spec_var(vars, k) },
    decreases vars.len(),
{
    let p = vars.push((id, d));
    if vars.len() > 0 {
        assert(p[0] == vars[0]);
        assert(p.drop_first() =~= vars.drop_first().push((id, d)));
        assert(vars[0].0 != id);
        if vars[0].0 == k {
            assert(spec_var(p, k) == Some(vars[0].1));
            assert(spec_var(vars, k) == Some(vars[0].1));
        } else {
            lemma_var_push(vars.drop_first(), id, d, k);
            assert(spec_var(p, k) == spec_var(p.drop_first(), k));
            assert(spec_var(vars, k) == spec_var(vars.drop_first(), k));
        }
    } else {
        assert(p[0] == (id, d));
        assert(p.drop_first() =~= Seq::<(ConstId, Dest)>::empty());
    }
}

/// Rebinding a constant at its first binding gives it the new place and
/// keeps every other binding.
proof fn lemma_var_update(vars: Seq<(ConstId, Dest)>, i: int, id: ConstId, d: Dest, k: ConstId)
    requires
        0 <= i < vars.len(),
        vars[i].0 == id,
        forall|j: int| 0 <= j < i ==> vars[j].0 != id,
    ensures
        spec_var(vars.update(i, (id, d)), k) == if k == id { Some(d) } else { spec_var(vars, k) },
    decreases vars.len(),
{
    if i > 0 {
        assert(vars.update(i, (id, d)).drop_first() =~= vars.drop_first().update(i - 1, (id, d)));
        lemma_var_update(vars.drop_first(), i - 1, id, d, k);
    } else if k != id {
        assert(vars.update(i, (id, d)).drop_first() =~= vars.drop_first());
    }
}

/// Assembles one function. Variables live in stack slots below the frame
/// pointer, parameters first; a value computed by an instruction lives in a
/// register until it is stored.
pub struct FunctionAssembler<'a> {
    unit: &'a Unit,
    decl: &'a FuncDecl,
    config: &'a Config,
    code: Vec<Asm>,
    acc_offset: usize,
    params: Vec<Dest>,
    vars: Vec<(ConstId, Dest)>,
    /// The start and end labels of the loops around the current point.
    loop_labels: Vec<(String, String)>,
    cond_count: u64,
    cond_end_count: u64,
    loop_count: u64,
    loop_end_count: u64,
}

impl<'a> FunctionAssembler<'a> {
    /// Can the value be read at this point?
    spec fn src_ok(&self, rval: RValue) -> bool {
        has_src(self.vars@, self.params@, rval)
    }

    /// Is `src` where the value is read from at this point?
    spec fn is_src(&self, rval: RValue, src: Src) -> bool {
        src_of(self.vars@, self.params@, rval, src)
    }

    /// The register size of a type of the unit.
    spec fn size_of(&self, ty: IRTypeId) -> Option<Size> {
        spec_type_size(self.unit.types@, ty)
    }

    /// The function, unit and configuration are those of `other`.
    spec fn same_fn(&self, other: Self) -> bool {
        &&& self.unit == other.unit
        &&& self.decl == other.decl
        &&& self.config == other.config
    }

    /// The code of `other` has been extended, with the parameters and the
    /// loops around the current point as they were.
    spec fn grows(&self, other: Self) -> bool {
        &&& self.same_fn(other)
        &&& self.params == other.params
        &&& self.loop_labels@ == other.loop_labels@
        &&& self.code@.len() >= other.code@.len()
        &&& self.code@.take(other.code@.len() as int) == other.code@
    }

    /// How many labels of a kind have been handed out: loop starts, loop
    /// ends, condition ends, condition branches.
    spec fn counter_value(&self, counter: u8) -> u64 {
        if counter == 0 {
            self.loop_count
        } else if counter == 1 {
            self.loop_end_count
        } else if counter == 2 {
            self.cond_end_count
        } else {
            self.cond_count
        }
    }

    /// Everything but the code and the places of the constants is as in
    /// `other`.
    spec fn kept(&self, other: Self) -> bool {
        &&& self.unit == other.unit
        &&& self.decl == other.decl
        &&& self.config == other.config
        &&& self.params == other.params
        &&& self.acc_offset == other.acc_offset
        &&& self.loop_labels == other.loop_labels
        &&& self.cond_count == other.cond_count
        &&& self.cond_end_count == other.cond_end_count
        &&& self.loop_count == other.loop_count
        &&& self.loop_end_count == other.loop_end_count
    }

    /// No code has been written yet.
    /// The code of a store: the value is moved into a new stack slot of
    /// the store's size, which the constant then names.
    spec fn store_effect(a: Self, store: StoreIns, b: Self) -> bool {
        exists|x: Src|
            #![trigger src_of(b.vars@, a.params@, store.rval, x)]
            src_of(b.vars@, a.params@, store.rval, x) && (a.size_of(store.ty) matches Some(sz) && b.acc_offset
                == a.acc_offset + ir_size(a.unit.types@[store.ty as int]) && b.code@ == a.code@ + store_code(
                Dest::StackOffset(StackOffset { offset: b.acc_offset, size: sz }),
                x,
                sz,
            ) && forall|k: ConstId| #[trigger] spec_var(b.vars@, k) == if k == store.const_id {
                Some(Dest::StackOffset(StackOffset { offset: b.acc_offset, size: sz }))
            } else {
                spec_var(a.vars@, k)
            })
    }

    /// The code of an assignment: the value is moved into the place.
    spec fn assign_effect(a: Self, assign: AssignIns, b: Self) -> bool {
        &&& b.kept(a)
        &&& b.vars == a.vars
        &&& exists|x: Src, d: Dest|
            #![trigger a.is_src(assign.rval, x), dest_of(a.vars@, a.params@, assign.lval, d)]
            a.is_src(assign.rval, x) && dest_of(a.vars@, a.params@, assign.lval, d) && (x is Reg || x is Immediate
                || a.size_of(assign.ty) is Some) && b.code@ == a.code@ + store_code(d, x, a.size_of(assign.ty)->Some_0)
    }

    /// The code of a return: the value, if any, is moved into the
    /// accumulator of its size, then the frame is left.
    spec fn return_effect(a: Self, ty: IRTypeId, rval: RValue, b: Self) -> bool {
        &&& b.kept(a)
        &&& b.vars == a.vars
        &&& if rval is Void {
            b.code@ == a.code@ + seq![Asm::Leave, Asm::Ret]
        } else {
            exists|x: Src|
                #![trigger a.is_src(rval, x)]
                a.is_src(rval, x) && b.code@ == a.code@ + seq![
                    mov_or_lea_asm(Dest::Reg(rax_of(a.size_of(ty)->Some_0)), x),
                    Asm::Leave,
                    Asm::Ret,
                ]
        }
    }

    /// The code of a binary operation, whose result is then found where
    /// the operation leaves it.
    spec fn binary_effect(a: Self, ins: BinaryIns, b: Self) -> bool {
        &&& b.kept(a)
        &&& exists|l: Src, rr: Src|
            #![trigger a.is_src(ins.lhs, l), a.is_src(ins.rhs, rr)]
            a.is_src(ins.lhs, l) && a.is_src(ins.rhs, rr) && (a.size_of(ins.ty) matches Some(sz) && b.code@ == a.code@
                + binary_code(ins.op, sz, l, rr) && forall|k: ConstId| #[trigger] spec_var(b.vars@, k) == if k
                == ins.result {
                Some(binary_result(ins.op, sz))
            } else {
                spec_var(a.vars@, k)
            })
    }

    /// The code of a unary operation: the operand is moved into the
    /// accumulator, which is negated or has its low bit flipped, and holds
    /// the result.
    spec fn unary_effect(a: Self, ins: UnaryIns, b: Self) -> bool {
        &&& b.kept(a)
        &&& exists|x: Src|
            #![trigger a.is_src(ins.rhs, x)]
            a.is_src(ins.rhs, x) && (a.size_of(ins.ty) matches Some(sz) && b.code@ == a.code@ + unary_code(ins.op, sz, x) && forall|k: ConstId| #[trigger] spec_var(b.vars@, k) == if k == ins.result {
                Some(Dest::Reg(rax_of(sz)))
            } else {
                spec_var(a.vars@, k)
            })
    }

    /// Argument `k` of a call can be passed: its value can be read, and its
    /// type has a register, of which one of its class is left.
    spec fn arg_ok(a: Self, args: Seq<(IRTypeId, RValue)>, k: int) -> bool {
        let types = a.unit.types@;
        let ty = args[k].0;
        &&& a.src_ok(args[k].1)
        &&& spec_type_size(types, ty) is Some
        &&& types[ty as int] is Primitive
        &&& types[ty as int] != IRType::Primitive(Primitive::Void)
        &&& if is_float_arg(types[ty as int]) {
            floats_before(types, args, k) < 8 && spec_type_size(types, ty) == Some(Size::Qword)
        } else {
            ints_before(types, args, k) < 6
        }
    }

    /// `line` moves argument `k` of a call into its register.
    spec fn arg_moved(a: Self, args: Seq<(IRTypeId, RValue)>, k: int, line: Asm) -> bool {
        exists|x: Src|
            #![trigger a.is_src(args[k].1, x)]
            a.is_src(args[k].1, x) && line == mov_or_lea_asm(Dest::Reg(arg_reg(a.unit.types@, args, k)), x)
    }

    /// The code of a call: each argument moved into its register, then the
    /// call of the named function, whose result, when it has a size and goes
    /// to a constant, is then in the accumulator of that size.
    spec fn call_effect(a: Self, call: CallIns, b: Self) -> bool {
        &&& b.kept(a)
        &&& call.callee matches RValue::Function(name)
        &&& b.code@.len() == a.code@.len() + call.args@.len() + 1
        &&& b.code@.take(a.code@.len() as int) == a.code@
        &&& b.code@.last() == Asm::Call(name)
        &&& forall|k: int| 0 <= k < call.args@.len() ==> Self::arg_moved(
            a,
            call.args@,
            k,
            #[trigger] b.code@[a.code@.len() + k],
        )
        &&& forall|k: ConstId| #[trigger] spec_var(b.vars@, k) == if call.ty < a.unit.types@.len() && ir_size(
            a.unit.types@[call.ty as int],
        ) != 0 && call.result == LValue::Const(k) {
            Some(Dest::Reg(rax_of(a.size_of(call.ty)->Some_0)))
        } else {
            spec_var(a.vars@, k)
        }
    }

    /// The code of a loop opens with its start label and closes with a
    /// jump back to it and its end label.
    spec fn while_effect(a: Self, b: Self) -> bool {
        &&& b.code@.len() >= a.code@.len() + 4
        &&& b.code@[a.code@.len() as int] matches Asm::Label(l) && l@ == label_text(a.decl.name@, "_loop_"@, a.loop_count)
        &&& b.code@[b.code@.len() - 2] matches Asm::Jmp(l) && l@ == label_text(a.decl.name@, "_loop_"@, a.loop_count)
        &&& b.code@.last() matches Asm::Label(l) && l@ == label_text(a.decl.name@, "_loop_end_"@, a.loop_end_count)
    }

    /// The code of an `if` closes with its end label.
    spec fn if_effect(a: Self, b: Self) -> bool {
        &&& b.code@.len() > a.code@.len()
        &&& b.code@.last() matches Asm::Label(l) && l@ == label_text(a.decl.name@, "_cond_end_"@, a.cond_end_count)
    }

    /// The code of a short-circuit operation, whose result is then in `al`:
    /// with no instructions on either side, both sides are moved into
    /// bytes and combined; otherwise the code closes with an end label.
    spec fn cond_effect(a: Self, ins: CondIns, b: Self) -> bool {
        &&& spec_var(b.vars@, ins.result) == Some(Dest::Reg(Reg::Al))
        &&& if ins.lhs_ins@.len() == 0 && ins.rhs_ins@.len() == 0 {
            exists|l: Src, rr: Src|
                #![trigger a.is_src(ins.lhs, l), a.is_src(ins.rhs, rr)]
                a.is_src(ins.lhs, l) && a.is_src(ins.rhs, rr) && b.code@ == a.code@ + seq![
                    Asm::Mov(Dest::Reg(Reg::Al), l),
                    Asm::Mov(Dest::Reg(Reg::R10b), rr),
                    if ins.op == IRCondOp::And {
                        Asm::And(Dest::Reg(Reg::Al), Src::Reg(Reg::R10b))
                    } else {
                        Asm::Or(Dest::Reg(Reg::Al), Src::Reg(Reg::R10b))
                    },
                ]
        } else {
            b.code@.last() matches Asm::Label(l) && l@ == label_text(a.decl.name@, "_cond_end_"@, a.cond_end_count)
        }
    }

    /// What an instruction adds, from the state after its comment (`a`) to
    /// the state after it (`b`).
    spec fn ins_effect(a: Self, ins: Ins, b: Self) -> bool {
        &&& b.same_fn(a)
        &&& b.grows(a)
        &&& match ins {
            Ins::Store(st) => Self::store_effect(a, st, b),
            Ins::Assign(x) => Self::assign_effect(a, x, b),
            Ins::Call(c) => Self::call_effect(a, c, b),
            Ins::Return(ty, rv) => Self::return_effect(a, ty, rv, b),
            Ins::Binary(bi) => Self::binary_effect(a, bi, b),
            Ins::Unary(u) => Self::unary_effect(a, u, b),
            Ins::Intrinsic(_) => false,
            Ins::Cast(_) => false,
            Ins::Break => a.loop_labels@.len() > 0 && b.code@ == a.code@.push(Asm::Jmp(a.loop_labels@.last().1)),
            Ins::Continue => a.loop_labels@.len() > 0 && b.code@ == a.code@.push(Asm::Jmp(a.loop_labels@.last().0)),
            Ins::If(_) => Self::if_effect(a, b),
            Ins::While(_) => Self::while_effect(a, b),
            Ins::Conditional(c) => Self::cond_effect(a, c, b),
        }
    }

    /// The code of an instruction: its comment, when the configuration asks
    /// for comments, then what the instruction adds.
    pub closed spec fn asm_one(a: Self, ins: Ins, b: Self) -> bool {
        exists|m: Self|
            #![trigger Self::ins_effect(m, ins, b)]
            m.code@.len() == a.code@.len() + comment_lines(*a.config) && m.code@.take(a.code@.len() as int) == a.code@
                && (a.config.comment_assembly ==> (m.code@.last() matches Asm::Comment(c) && c@ == spec_ins_name(ins)))
                && m.kept(a) && m.vars == a.vars && Self::ins_effect(m, ins, b)
    }

    /// The states `trace` go through the instructions `ins` one by one: the
    /// code of each instruction leads from one state to the next.
    pub closed spec fn asm_trace(trace: Seq<Self>, ins: Seq<Ins>) -> bool {
        &&& trace.len() == ins.len() + 1
        &&& forall|k: int| 0 <= k < ins.len() ==> Self::asm_one(trace[k], #[trigger] ins[k], trace[k + 1])
    }

    /// The code of a list of instructions: that of each in turn, each from
    /// the state the previous one leaves.
    pub closed spec fn asm_seq(a: Self, ins: Seq<Ins>, b: Self) -> bool {
        exists|trace: Seq<Self>|
            #![trigger Self::asm_trace(trace, ins)]
            Self::asm_trace(trace, ins) && trace[0] == a && trace.last() == b
    }

    pub closed spec fn is_fresh(&self) -> bool {
        self.code@.len() == 0
    }

    pub fn new(unit: &'a Unit, decl: &'a FuncDecl, config: &'a Config) -> (r: Self)
        ensures
            r.is_fresh(),
    {
        FunctionAssembler {
            unit,
            decl,
            config,
            code: Vec::new(),
            vars: Vec::new(),
            acc_offset: 0,
            params: Vec::new(),
            cond_count: 0,
            cond_end_count: 0,
            loop_count: 0,
            loop_end_count: 0,
            loop_labels: Vec::new(),
        }
    }

    /// The function's instructions: the frame setup, the parameters stored
    /// to their slots, then the body.
    /// The instructions of the function's body.
    pub closed spec fn body_ins(&self) -> Seq<Ins> {
        self.decl.body.ins@
    }

    /// The code written so far.
    pub closed spec fn code_so_far(&self) -> Seq<Asm> {
        self.code@
    }

    /// The code of the function: the frame setup, which opens with `push
    /// rbp; mov rbp, rsp` and moves the parameters into stack slots, then
    /// the code of each instruction of the body in turn.
    pub fn assemble(self) -> (r: Result<Vec<Asm>, String>)
        requires
            self.is_fresh(),
        ensures
            r matches Ok(code) ==> code@.len() >= 2 && code@[0] == Asm::Push(Src::Reg(Reg::Rbp)) && code@[1]
                == Asm::Mov(Dest::Reg(Reg::Rbp), Src::Reg(Reg::Rsp)),
            r matches Ok(code) ==> exists|s1: Self, b: Self|
                #![trigger Self::asm_seq(s1, self.body_ins(), b)]
                Self::asm_seq(s1, self.body_ins(), b) && code@ == b.code_so_far() && s1.code_so_far().len() >= 2
                    && s1.code_so_far()[0] == Asm::Push(Src::Reg(Reg::Rbp)) && s1.code_so_far()[1] == Asm::Mov(
                    Dest::Reg(Reg::Rbp),
                    Src::Reg(Reg::Rsp),
                ),
    {
        let mut me = self;
        me.assemble_body()?;
        let ghost b = me;
        proof {
            let s1 = choose|s1: Self|
                #![trigger Self::asm_seq(s1, self.decl.body.ins@, b)]
                Self::asm_seq(s1, self.decl.body.ins@, b) && s1.code@.len() >= self.code@.len() + 2
                    && s1.code@[self.code@.len() as int] == Asm::Push(Src::Reg(Reg::Rbp)) && s1.code@[self.code@.len()
                    + 1int] == Asm::Mov(Dest::Reg(Reg::Rbp), Src::Reg(Reg::Rsp));
            assert(Self::asm_seq(s1, self.body_ins(), b));
        }
        let mut out: Vec<Asm> = Vec::new();
        std::mem::swap(&mut out, &mut me.code);
        Ok(out)
    }

    fn assemble_body(&mut self) -> (r: Result<(), String>)
        ensures
            r is Ok ==> exists|s1: Self|
                #![trigger Self::asm_seq(s1, old(self).decl.body.ins@, *final(self))]
                Self::asm_seq(s1, old(self).decl.body.ins@, *final(self)) && s1.code@.len() >= old(self).code@.len() + 2
                    && s1.code@[old(self).code@.len() as int] == Asm::Push(Src::Reg(Reg::Rbp)) && s1.code@[old(
                    self,
                ).code@.len() + 1int] == Asm::Mov(Dest::Reg(Reg::Rbp), Src::Reg(Reg::Rsp)),
            r is Ok ==> final(self).code@.len() >= old(self).code@.len() + 2 && final(self).code@[old(self).code@.len() as int]
                == Asm::Push(Src::Reg(Reg::Rbp)) && final(self).code@[old(self).code@.len() + 1int] == Asm::Mov(
                Dest::Reg(Reg::Rbp),
                Src::Reg(Reg::Rsp),
            ),
    {
        self.code.push(Asm::Push(Src::Reg(Reg::Rbp)));
        self.code.push(Asm::Mov(Dest::Reg(Reg::Rbp), Src::Reg(Reg::Rsp)));
        let ghost s0 = *self;
        let decl: &'a FuncDecl = self.decl;
        let unit: &'a Unit = self.unit;
        let mut regs = ArgRegs::new();
        let mut param_regs: Vec<Reg> = Vec::new();
        let mut param_stack_size: usize = 0;
        let mut i: usize = 0;
        while i < decl.params.len()
            invariant
                i <= decl.params@.len(),
                param_regs@.len() == i,
            decreases decl.params@.len() - i,
        {
            let r = regs.next(unit, decl.params[i])?;
            param_regs.push(r);
            let size = unit.types.sizeof(decl.params[i]);
            if param_stack_size > usize::MAX - size {
                return Err(String::from_str("stack too large"));
            }
            param_stack_size = param_stack_size + size;
            i = i + 1;
        }
        if decl.stacksize > usize::MAX - param_stack_size {
            return Err(String::from_str("stack too large"));
        }
        let stacksize = match round_to_16(decl.stacksize + param_stack_size) {
            Some(s) => s,
            None => {
                return Err(String::from_str("stack too large"));
            },
        };
        if stacksize != 0 {
            self.code.push(Asm::Sub(Dest::Reg(Reg::Rsp), Src::Immediate(Immediate::Uint(stacksize as u64))));
        }
        assert(self.code@.take(s0.code@.len() as int) =~= s0.code@);
        let mut i: usize = 0;
        while i < param_regs.len()
            invariant
                param_regs@.len() <= decl.params@.len(),
                self.same_fn(s0),
                self.code@.len() >= s0.code@.len(),
                self.code@.take(s0.code@.len() as int) == s0.code@,
            decreases param_regs@.len() - i,
        {
            let dest = self.new_stack_offset(decl.params[i])?;
            let ghost before = self.code@;
            self.mov_or_lea(dest, Src::Reg(param_regs[i]));
            assert(self.code@.take(s0.code@.len() as int) =~= before.take(s0.code@.len() as int));
            self.params.push(dest);
            i = i + 1;
        }
        let ghost s1 = *self;
        let r = self.emit_block(&decl.body);
        proof {
            if r is Ok {
                assert(self.code@[old(self).code@.len() as int] == self.code@.take(s1.code@.len() as int)[old(
                    self,
                ).code@.len() as int]);
                assert(self.code@[old(self).code@.len() + 1int] == self.code@.take(s1.code@.len() as int)[old(
                    self,
                ).code@.len() + 1int]);
                assert(s1.code@[old(self).code@.len() as int] == s1.code@.take(s0.code@.len() as int)[old(
                    self,
                ).code@.len() as int]);
                assert(s1.code@[old(self).code@.len() + 1int] == s1.code@.take(s0.code@.len() as int)[old(
                    self,
                ).code@.len() + 1int]);
            }
        }
        r
    }

    /// Growing is transitive.
    proof fn lemma_grows_trans(a: Self, b: Self, c: Self)
        requires
            b.grows(a),
            c.grows(b),
        ensures
            c.grows(a),
    {
        assert forall|i: int| 0 <= i < a.code@.len() implies c.code@.take(a.code@.len() as int)[i] == a.code@[i] by {
            assert(c.code@[i] == c.code@.take(b.code@.len() as int)[i]);
            assert(b.code@[i] == b.code@.take(a.code@.len() as int)[i]);
        }
        assert(c.code@.take(a.code@.len() as int) =~= a.code@);
    }

    /// Code that extends code that extends the original extends it.
    proof fn lemma_push_grows(a: Self, b: Self, x: Asm)
        requires
            b.grows(a),
        ensures
            b.code@.push(x).take(a.code@.len() as int) == a.code@,
    {
        assert forall|i: int| 0 <= i < a.code@.len() implies b.code@.push(x).take(a.code@.len() as int)[i] == a.code@[i] by {
            assert(b.code@[i] == b.code@.take(a.code@.len() as int)[i]);
        }
        assert(b.code@.push(x).take(a.code@.len() as int) =~= a.code@);
    }

    fn emit_block(&mut self, block: &Block) -> (r: Result<(), String>)
        ensures
            final(self).same_fn(*old(self)),
            r is Ok ==> final(self).grows(*old(self)),
            r is Ok ==> Self::asm_seq(*old(self), block.ins@, *final(self)),
        decreases block,
    {
        let mut i: usize = 0;
        assert(self.code@.take(self.code@.len() as int) =~= self.code@);
        let ghost mut trace: Seq<Self> = seq![*self];
        while i < block.ins.len()
            invariant
                self.grows(*old(self)),
                i <= block.ins@.len(),
                trace.len() == i + 1,
                trace[0] == *old(self),
                trace.last() == *self,
                forall|k: int| 0 <= k < i ==> Self::asm_one(trace[k], #[trigger] block.ins@[k], trace[k + 1]),
            decreases block.ins@.len() - i,
        {
            proof {
                assert(decreases_to!(block => block.ins@[i as int])) by {
                    assert(decreases_to!(block => block.ins));
                    assert(decreases_to!(block.ins => block.ins@));
                    assert(decreases_to!(block.ins@ => block.ins@[i as int]));
                }
            }
            let ghost before = *self;
            self.emit_ins(&block.ins[i])?;
            proof {
                Self::lemma_grows_trans(*old(self), before, *self);
                trace = trace.push(*self);
            }
            i = i + 1;
        }
        assert(Self::asm_trace(trace, block.ins@));
        Ok(())
    }

    fn emit_ins_list(&mut self, ins: &Vec<Ins>) -> (r: Result<(), String>)
        ensures
            final(self).same_fn(*old(self)),
            r is Ok ==> final(self).grows(*old(self)),
            r is Ok ==> Self::asm_seq(*old(self), ins@, *final(self)),
        decreases ins,
    {
        let mut i: usize = 0;
        assert(self.code@.take(self.code@.len() as int) =~= self.code@);
        let ghost mut trace: Seq<Self> = seq![*self];
        while i < ins.len()
            invariant
                self.grows(*old(self)),
                i <= ins@.len(),
                trace.len() == i + 1,
                trace[0] == *old(self),
                trace.last() == *self,
                forall|k: int| 0 <= k < i ==> Self::asm_one(trace[k], #[trigger] ins@[k], trace[k + 1]),
            decreases ins@.len() - i,
        {
            proof {
                assert(decreases_to!(ins => ins@[i as int])) by {
                    assert(decreases_to!(ins => ins@));
                    assert(decreases_to!(ins@ => ins@[i as int]));
                }
            }
            let ghost before = *self;
            self.emit_ins(&ins[i])?;
            proof {
                Self::lemma_grows_trans(*old(self), before, *self);
                trace = trace.push(*self);
            }
            i = i + 1;
        }
        assert(Self::asm_trace(trace, ins@));
        Ok(())
    }

    /// One instruction, after a comment with its name when the
    /// configuration asks for comments.
    fn emit_ins(&mut self, ins: &Ins) -> (r: Result<(), String>)
        ensures
            final(self).same_fn(*old(self)),
            r is Ok ==> final(self).grows(*old(self)),
            r is Ok && old(self).config.comment_assembly ==> final(self).code@.len() > old(self).code@.len() && (
            final(self).code@[old(self).code@.len() as int] matches Asm::Comment(c) && c@ == spec_ins_name(*ins)),
            (*ins is Break || *ins is Continue) ==> (r is Ok <==> old(self).loop_labels@.len() > 0),
            *ins is Break && r is Ok ==> final(self).code@.len() == old(self).code@.len() + comment_lines(
                *old(self).config,
            ) + 1 && final(self).code@.last() == Asm::Jmp(old(self).loop_labels@.last().1),
            *ins is Continue && r is Ok ==> final(self).code@.len() == old(self).code@.len() + comment_lines(
                *old(self).config,
            ) + 1 && final(self).code@.last() == Asm::Jmp(old(self).loop_labels@.last().0),
            (*ins is Intrinsic || *ins is Cast) ==> r is Err,
            r is Ok ==> Self::asm_one(*old(self), *ins, *final(self)),
            *ins matches Ins::Binary(b) ==> (r is Ok <==> (old(self).src_ok(b.lhs) && old(self).src_ok(b.rhs)
                && old(self).size_of(b.ty) is Some)),
            *ins matches Ins::Binary(b) ==> (r is Ok ==> exists|l: Src, rr: Src|
                #![trigger old(self).is_src(b.lhs, l), old(self).is_src(b.rhs, rr)]
                old(self).is_src(b.lhs, l) && old(self).is_src(b.rhs, rr) && final(self).code@.skip(
                    old(self).code@.len() + comment_lines(*old(self).config),
                ) == binary_code(b.op, old(self).size_of(b.ty)->Some_0, l, rr)),
        decreases ins,
    {
        let ghost start = *self;
        if self.config.comment_assembly {
            self.code.push(Asm::Comment(String::from_str(ins_name(ins))));
        }
        let ghost mid = *self;
        assert(mid.grows(start)) by {
            assert(mid.code@.take(start.code@.len() as int) =~= start.code@);
        }
        let r = match ins {
            Ins::Store(s) => self.emit_store(s),
            Ins::Assign(a) => self.emit_assign(a),
            Ins::Call(c) => self.emit_call(c),
            Ins::Return(ty, rvalue) => self.emit_return(*ty, rvalue),
            Ins::Intrinsic(_) => Err(String::from_str("intrinsics are not supported")),
            Ins::Binary(b) => self.emit_binary(b),
            Ins::Unary(u) => self.emit_unary(u),
            Ins::Cast(_) => Err(String::from_str("casts are not supported")),
            Ins::If(i) => self.emit_if(i),
            Ins::While(w) => self.emit_while(w),
            Ins::Conditional(c) => self.emit_conditional(c),
            Ins::Break => {
                let end = match self.loop_labels.last() {
                    Some(l) => l.1.clone(),
                    None => {
                        return Err(String::from_str("break outside a loop"));
                    },
                };
                self.code.push(Asm::Jmp(end));
                Ok(())
            },
            Ins::Continue => {
                let start = match self.loop_labels.last() {
                    Some(l) => l.0.clone(),
                    None => {
                        return Err(String::from_str("continue outside a loop"));
                    },
                };
                self.code.push(Asm::Jmp(start));
                Ok(())
            },
        };
        proof {
            if r is Ok {
                if *ins is Break || *ins is Continue {
                    assert(self.code@.take(mid.code@.len() as int) =~= mid.code@);
                }
                assert(self.grows(mid));
                Self::lemma_grows_trans(start, mid, *self);
                if start.config.comment_assembly {
                    assert(self.code@[start.code@.len() as int] == self.code@.take(mid.code@.len() as int)[start.code@.len() as int]);
                }
                assert(mid.code@.take(start.code@.len() as int) =~= start.code@);
                assert(Self::ins_effect(mid, *ins, *self));
                if let Ins::Binary(b) = ins {
                    assert(mid.vars == start.vars);
                    assert(self.code@.skip(mid.code@.len() as int) =~= self.code@.skip(
                        start.code@.len() + comment_lines(*start.config),
                    ));
                    let (l, rr) = choose|l: Src, rr: Src|
                        #![trigger mid.is_src(b.lhs, l), mid.is_src(b.rhs, rr)]
                        mid.is_src(b.lhs, l) && mid.is_src(b.rhs, rr) && (mid.size_of(b.ty) matches Some(sz)
                            && self.code@ == mid.code@ + binary_code(b.op, sz, l, rr) && true);
                    assert(self.code@.skip(mid.code@.len() as int) =~= binary_code(b.op, mid.size_of(b.ty)->Some_0, l, rr));
                    assert(start.is_src(b.lhs, l) && start.is_src(b.rhs, rr));
                }
            }
        }
        r
    }

    /// Compares a boolean with zero, setting the zero flag when it is false.
    fn test_bool(&mut self, cond: &RValue) -> (r: Result<(), String>)
        ensures
            final(self).kept(*old(self)),
            final(self).vars == old(self).vars,
            r is Ok <==> old(self).src_ok(*cond),
            r is Err ==> final(self).code == old(self).code,
            r is Ok ==> exists|x: Src|
                #![trigger old(self).is_src(*cond, x)]
                old(self).is_src(*cond, x) && final(self).code@ == old(self).code@ + test_code(x),
    {
        let bool_src = self.rval_to_src(cond)?;
        let ghost gx = bool_src;
        match bool_src {
            Src::Immediate(_) => {
                self.code.push(Asm::Xor(Dest::Reg(Reg::Al), Src::Reg(Reg::Al)));
                self.code.push(Asm::Cmp(Src::Reg(Reg::Al), bool_src));
            },
            _ => {
                self.code.push(Asm::Cmp(bool_src, Src::Immediate(Immediate::Uint(0))));
            },
        }
        assert(self.code@ =~= old(self).code@ + test_code(gx));
        assert(old(self).is_src(*cond, gx));
        Ok(())
    }

    /// A loop: its start label, the condition's instructions and test, a
    /// jump to the end label when it is false, the body and the post
    /// instructions, a jump back to the start, and the end label.
    fn emit_while(&mut self, ins: &WhileIns) -> (r: Result<(), String>)
        ensures
            final(self).same_fn(*old(self)),
            r is Ok ==> final(self).grows(*old(self)),
            r is Ok ==> final(self).code@.len() >= old(self).code@.len() + 4,
            r is Ok ==> (final(self).code@[old(self).code@.len() as int] matches Asm::Label(l) && l@ == label_text(
                old(self).decl.name@,
                "_loop_"@,
                old(self).loop_count,
            )),
            r is Ok ==> (final(self).code@[final(self).code@.len() - 2] matches Asm::Jmp(l) && l@ == label_text(
                old(self).decl.name@,
                "_loop_"@,
                old(self).loop_count,
            )),
            r is Ok ==> (final(self).code@.last() matches Asm::Label(l) && l@ == label_text(
                old(self).decl.name@,
                "_loop_end_"@,
                old(self).loop_end_count,
            )),
        decreases ins,
    {
        let label = self.next_label("_loop_", 0);
        let end = self.next_label("_loop_end_", 1);
        let ghost s0 = *self;
        self.code.push(Asm::Label(label.clone()));
        let ghost s1 = *self;
        assert(s1.grows(s0)) by {
            assert(s1.code@.take(s0.code@.len() as int) =~= s0.code@);
        }
        self.emit_ins_list(&ins.cond_ins)?;
        let ghost s2 = *self;
        self.test_bool(&ins.cond)?;
        self.code.push(Asm::Jz(end.clone()));
        let ghost s3 = *self;
        assert(s3.grows(s2)) by {
            assert(s3.code@.take(s2.code@.len() as int) =~= s2.code@);
        }
        self.loop_labels.push((label.clone(), end.clone()));
        let ghost s4 = *self;
        self.emit_block(&ins.block)?;
        let ghost sb = *self;
        match &ins.post {
            Some(post) => {
                self.emit_ins_list(post)?;
                proof {
                    Self::lemma_grows_trans(s4, sb, *self);
                }
            },
            None => {},
        }
        let ghost s5 = *self;
        self.code.push(Asm::Jmp(label));
        let _ = self.loop_labels.pop();
        self.code.push(Asm::Label(end));
        proof {
            Self::lemma_grows_trans(s0, s1, s2);
            Self::lemma_grows_trans(s0, s2, s3);
            Self::lemma_grows_trans(s1, s2, s3);
            assert(s5.code@.len() >= s4.code@.len());
            assert(s5.code@.take(s4.code@.len() as int) == s4.code@);
            assert(s4.code@ == s3.code@);
            assert(self.code@ =~= s5.code@.push(self.code@[self.code@.len() - 2]).push(self.code@.last()));
            assert forall|i: int| 0 <= i < s0.code@.len() implies self.code@.take(s0.code@.len() as int)[i] == s0.code@[i] by {
                assert(self.code@[i] == s5.code@[i]);
                assert(s5.code@[i] == s5.code@.take(s4.code@.len() as int)[i]);
                assert(s3.code@[i] == s3.code@.take(s0.code@.len() as int)[i]);
            }
            assert(self.code@.take(s0.code@.len() as int) =~= s0.code@);
            assert(self.code@[s0.code@.len() as int] == s5.code@[s0.code@.len() as int]);
            assert(s5.code@[s0.code@.len() as int] == s5.code@.take(s4.code@.len() as int)[s0.code@.len() as int]);
            assert(s3.code@[s0.code@.len() as int] == s3.code@.take(s1.code@.len() as int)[s0.code@.len() as int]);
            assert(self.loop_labels@ =~= old(self).loop_labels@);
        }
        Ok(())
    }

    /// An `if` chain: each condition is tested in turn, a false one jumps to
    /// the next branch, each branch jumps to the end label when it is done,
    /// and the end label comes last.
    fn emit_if(&mut self, ifins: &IfIns) -> (r: Result<(), String>)
        ensures
            final(self).same_fn(*old(self)),
            r is Ok ==> final(self).grows(*old(self)),
            r is Ok ==> final(self).code@.len() > old(self).code@.len(),
            r is Ok ==> (final(self).code@.last() matches Asm::Label(l) && l@ == label_text(
                old(self).decl.name@,
                "_cond_end_"@,
                old(self).cond_end_count,
            )),
        decreases ifins,
    {
        let end = self.next_label("_cond_end_", 2);
        let ghost end_text = end@;
        let has_branches = ifins.elseif.len() > 0 || ifins.elseblock.is_some();
        let mut next_label: Option<String> = if has_branches {
            Some(self.next_label("_cond_", 3))
        } else {
            None
        };
        let ghost s0 = *self;
        self.test_bool(&ifins.cond)?;
        let target = match &next_label {
            Some(l) => l.clone(),
            None => end.clone(),
        };
        self.code.push(Asm::Jz(target));
        let ghost s1 = *self;
        assert(s1.grows(s0)) by {
            assert(s1.code@.take(s0.code@.len() as int) =~= s0.code@);
        }
        self.emit_block(&ifins.block)?;
        let ghost s2 = *self;
        self.code.push(Asm::Jmp(end.clone()));
        proof {
            Self::lemma_grows_trans(s0, s1, s2);
            Self::lemma_push_grows(s0, s2, Asm::Jmp(end));
            assert(self.code@.take(s0.code@.len() as int) == s0.code@);
        }
        let mut idx: usize = 0;
        while idx < ifins.elseif.len()
            invariant
                self.grows(s0),
                s0.grows(*old(self)),
                end@ == end_text,
            decreases ifins.elseif@.len() - idx,
        {
            let elseif = &ifins.elseif[idx];
            proof {
                assert(decreases_to!(ifins => elseif)) by {
                    assert(decreases_to!(ifins => ifins.elseif));
                    assert(decreases_to!(ifins.elseif => ifins.elseif@));
                    assert(decreases_to!(ifins.elseif@ => ifins.elseif@[idx as int]));
                }
            }
            let ghost t0 = *self;
            match next_label {
                Some(l) => self.code.push(Asm::Label(l)),
                None => {},
            }
            let is_last = idx + 1 == ifins.elseif.len();
            next_label = if is_last && ifins.elseblock.is_none() {
                None
            } else {
                Some(self.next_label("_cond_", 3))
            };
            let ghost t1 = *self;
            assert(t1.grows(t0)) by {
                assert(t1.code@.take(t0.code@.len() as int) =~= t0.code@);
            }
            self.emit_ins_list(&elseif.cond_ins)?;
            let ghost t2 = *self;
            self.test_bool(&elseif.cond)?;
            let target = match &next_label {
                Some(l) => l.clone(),
                None => end.clone(),
            };
            self.code.push(Asm::Jz(target));
            let ghost t3 = *self;
            assert(t3.grows(t2)) by {
                assert(t3.code@.take(t2.code@.len() as int) =~= t2.code@);
            }
            self.emit_block(&elseif.block)?;
            let ghost t4 = *self;
            self.code.push(Asm::Jmp(end.clone()));
            proof {
                Self::lemma_grows_trans(t0, t1, t2);
                Self::lemma_grows_trans(t0, t2, t3);
                Self::lemma_grows_trans(t0, t3, t4);
                Self::lemma_grows_trans(s0, t0, t4);
                Self::lemma_push_grows(s0, t4, Asm::Jmp(end));
            }
            idx = idx + 1;
        }
        match &ifins.elseblock {
            Some(elseblock) => {
                let ghost t0 = *self;
                match next_label {
                    Some(l) => self.code.push(Asm::Label(l)),
                    None => {},
                }
                let ghost t1 = *self;
                assert(t1.grows(t0)) by {
                    assert(t1.code@.take(t0.code@.len() as int) =~= t0.code@);
                }
                self.emit_block(elseblock)?;
                proof {
                    Self::lemma_grows_trans(t0, t1, *self);
                    Self::lemma_grows_trans(s0, t0, *self);
                }
            },
            None => {},
        }
        let ghost s3 = *self;
        self.code.push(Asm::Label(end));
        proof {
            Self::lemma_grows_trans(*old(self), s0, s3);
            Self::lemma_push_grows(*old(self), s3, self.code@.last());
        }
        Ok(())
    }

    fn emit_store(&mut self, store: &StoreIns) -> (r: Result<(), String>)
        ensures
            r is Ok <==> (old(self).size_of(store.ty) is Some && old(self).acc_offset + ir_size(
                old(self).unit.types@[store.ty as int],
            ) <= usize::MAX && (store.rval == RValue::Const(store.const_id) || old(self).src_ok(store.rval))),
            final(self).same_fn(*old(self)),
            r is Ok ==> final(self).grows(*old(self)),
            final(self).unit == old(self).unit,
            final(self).decl == old(self).decl,
            final(self).config == old(self).config,
            final(self).params == old(self).params,
            final(self).loop_labels == old(self).loop_labels,
            r is Ok ==> exists|x: Src|
                #![trigger src_of(final(self).vars@, old(self).params@, store.rval, x)]
                src_of(final(self).vars@, old(self).params@, store.rval, x) && (old(self).size_of(store.ty) matches Some(
                    sz,
                ) && final(self).acc_offset == old(self).acc_offset + ir_size(old(self).unit.types@[store.ty as int])
                    && final(self).code@ == old(self).code@ + store_code(
                    Dest::StackOffset(StackOffset { offset: final(self).acc_offset, size: sz }),
                    x,
                    sz,
                ) && forall|k: ConstId| #[trigger] spec_var(final(self).vars@, k) == if k == store.const_id {
                    Some(Dest::StackOffset(StackOffset { offset: final(self).acc_offset, size: sz }))
                } else {
                    spec_var(old(self).vars@, k)
                }),
    {
        let dest = self.new_stack_offset(store.ty)?;
        self.set_var(store.const_id, dest);
        let src = self.rval_to_src(&store.rval)?;
        let ghost gx = src;
        let ghost before = self.code@;
        let src = self.src_to_movable(src, store.ty)?;
        self.mov_or_lea(dest, src);
        let ghost sz = old(self).size_of(store.ty)->Some_0;
        assert(self.code@ =~= before + store_code(dest, gx, sz));
        assert(self.code@.take(old(self).code@.len() as int) =~= old(self).code@);
        Ok(())
    }

    fn emit_assign(&mut self, assign: &AssignIns) -> (r: Result<(), String>)
        ensures
            r is Ok <==> (old(self).src_ok(assign.rval) && (movable_src(old(self).vars@, old(self).params@, assign.rval)
                || old(self).size_of(assign.ty) is Some) && has_dest(old(self).vars@, old(self).params@, assign.lval)),
            final(self).same_fn(*old(self)),
            r is Ok ==> final(self).grows(*old(self)),
            final(self).kept(*old(self)),
            final(self).vars == old(self).vars,
            r is Ok ==> exists|x: Src, d: Dest|
                #![trigger old(self).is_src(assign.rval, x), dest_of(old(self).vars@, old(self).params@, assign.lval, d)]
                old(self).is_src(assign.rval, x) && dest_of(old(self).vars@, old(self).params@, assign.lval, d) && (
                x is Reg || x is Immediate || old(self).size_of(assign.ty) is Some) && final(self).code@
                    == old(self).code@ + store_code(d, x, old(self).size_of(assign.ty)->Some_0),
    {
        let src = self.rval_to_src(&assign.rval)?;
        let ghost gx = src;
        let src = self.src_to_movable(src, assign.ty)?;
        let dest = self.lval_to_dest(&assign.lval)?;
        self.mov_or_lea(dest, src);
        assert(self.code@ =~= old(self).code@ + store_code(dest, gx, old(self).size_of(assign.ty)->Some_0));
        assert(old(self).is_src(assign.rval, gx) && dest_of(old(self).vars@, old(self).params@, assign.lval, dest));
        assert(self.code@.take(old(self).code@.len() as int) =~= old(self).code@);
        Ok(())
    }

    fn emit_call(&mut self, call: &CallIns) -> (r: Result<(), String>)
        ensures
            final(self).same_fn(*old(self)),
            r is Ok ==> final(self).grows(*old(self)),
            final(self).kept(*old(self)),
            r is Ok ==> Self::call_effect(*old(self), *call, *final(self)),
            r is Ok <==> ((forall|k: int| 0 <= k < call.args@.len() ==> #[trigger] Self::arg_ok(*old(self), call.args@, k))
                && call.callee is Function && (call.ty < old(self).unit.types@.len() && ir_size(
                old(self).unit.types@[call.ty as int],
            ) != 0 && call.result is Const ==> old(self).size_of(call.ty) is Some)),
    {
        let mut regs = ArgRegs::new();
        let mut i: usize = 0;
        let ghost n0 = self.code@.len() as int;
        let ghost types = self.unit.types@;
        while i < call.args.len()
            invariant
                self.kept(*old(self)),
                self.vars == old(self).vars,
                n0 == old(self).code@.len(),
                types == old(self).unit.types@,
                i <= call.args@.len(),
                self.code@.len() == old(self).code@.len() + i,
                self.code@.take(old(self).code@.len() as int) == old(self).code@,
                regs.ints() == ints_before(types, call.args@, i as int),
                regs.floats() == floats_before(types, call.args@, i as int),
                forall|k: int| 0 <= k < i ==> Self::arg_moved(*old(self), call.args@, k, #[trigger] self.code@[n0 + k]),
                forall|k: int| 0 <= k < i ==> #[trigger] Self::arg_ok(*old(self), call.args@, k),
            decreases call.args@.len() - i,
        {
            let src = match self.rval_to_src(&call.args[i].1) {
                Ok(x) => x,
                Err(e) => {
                    assert(!Self::arg_ok(*old(self), call.args@, i as int));
                    return Err(e);
                },
            };
            let reg = match regs.next(self.unit, call.args[i].0) {
                Ok(x) => x,
                Err(e) => {
                    assert(!Self::arg_ok(*old(self), call.args@, i as int));
                    return Err(e);
                },
            };
            assert(Self::arg_ok(*old(self), call.args@, i as int));
            let ghost before = self.code@;
            self.mov_or_lea(Dest::Reg(reg), src);
            proof {
                assert(self.code@.take(old(self).code@.len() as int) =~= before.take(old(self).code@.len() as int));
                assert(reg == arg_reg(types, call.args@, i as int));
                assert forall|k: int| 0 <= k < i + 1 implies Self::arg_moved(
                    *old(self),
                    call.args@,
                    k,
                    #[trigger] self.code@[n0 + k],
                ) by {
                    if k < i {
                        assert(self.code@[n0 + k] == before[n0 + k]);
                    } else {
                        assert(k == i);
                        assert(self.code@[n0 + k] == mov_or_lea_asm(Dest::Reg(reg), src));
                        assert(old(self).is_src(call.args@[k].1, src));
                    }
                }
            }
            i = i + 1;
        }
        let ghost before = self.code@;
        let ghost args_code = self.code@;
        match &call.callee {
            RValue::Function(name) => self.code.push(Asm::Call(name.clone())),
            _ => {
                return Err(String::from_str("bad function callee kind"));
            },
        }
        assert(self.code@.take(old(self).code@.len() as int) =~= before.take(old(self).code@.len() as int));
        let ghost mid_vars = self.vars;
        if call.ty < self.unit.types.len() && self.unit.types.sizeof(call.ty) != 0 {
            match &call.result {
                LValue::Const(id) => {
                    let rax = self.rax(call.ty)?;
                    self.set_var(*id, Dest::Reg(rax));
                },
                LValue::Param(_) => {},
            }
        }
        proof {
            assert forall|k: int| 0 <= k < call.args@.len() implies #[trigger] self.code@[n0 + k] == args_code[n0 + k] by {
            }
        }
        Ok(())
    }

    fn emit_return(&mut self, ty: IRTypeId, rval: &RValue) -> (r: Result<(), String>)
        ensures
            final(self).same_fn(*old(self)),
            r is Ok ==> final(self).grows(*old(self)),
            final(self).kept(*old(self)),
            final(self).vars == old(self).vars,
            rval is Void ==> r is Ok && final(self).code@ == old(self).code@ + seq![Asm::Leave, Asm::Ret],
            !(rval is Void) ==> (r is Ok <==> (old(self).size_of(ty) is Some && old(self).src_ok(*rval))),
            r is Err ==> final(self).code == old(self).code,
            !(rval is Void) && r is Ok ==> exists|x: Src|
                #![trigger old(self).is_src(*rval, x)]
                old(self).is_src(*rval, x) && final(self).code@ == old(self).code@ + seq![
                    mov_or_lea_asm(Dest::Reg(rax_of(old(self).size_of(ty)->Some_0)), x),
                    Asm::Leave,
                    Asm::Ret,
                ],
    {
        let ghost mut gx: Src = Src::Reg(Reg::Rax);
        match rval {
            RValue::Void => {},
            _ => {
                let rax = self.rax(ty)?;
                let src = self.rval_to_src(rval)?;
                proof {
                    gx = src;
                }
                self.mov_or_lea(Dest::Reg(rax), src);
            },
        }
        self.code.push(Asm::Leave);
        self.code.push(Asm::Ret);
        proof {
            if !(rval is Void) {
                assert(self.code@ =~= old(self).code@ + seq![
                    mov_or_lea_asm(Dest::Reg(rax_of(old(self).size_of(ty)->Some_0)), gx),
                    Asm::Leave,
                    Asm::Ret,
                ]);
                assert(old(self).is_src(*rval, gx));
            } else {
                assert(self.code@ =~= old(self).code@ + seq![Asm::Leave, Asm::Ret]);
            }
        }
        assert(self.code@.take(old(self).code@.len() as int) =~= old(self).code@);
        Ok(())
    }

    fn emit_binary(&mut self, ins: &BinaryIns) -> (r: Result<(), String>)
        ensures
            final(self).same_fn(*old(self)),
            r is Ok ==> final(self).grows(*old(self)),
            final(self).kept(*old(self)),
            r is Ok <==> (old(self).src_ok(ins.lhs) && old(self).src_ok(ins.rhs) && old(self).size_of(ins.ty) is Some),
            r is Err ==> final(self).code == old(self).code && final(self).vars == old(self).vars,
            r is Ok ==> exists|l: Src, rr: Src|
                #![trigger old(self).is_src(ins.lhs, l), old(self).is_src(ins.rhs, rr)]
                old(self).is_src(ins.lhs, l) && old(self).is_src(ins.rhs, rr) && (old(self).size_of(ins.ty) matches Some(
                    sz,
                ) && final(self).code@ == old(self).code@ + binary_code(ins.op, sz, l, rr) && forall|k: ConstId|
                    #[trigger] spec_var(final(self).vars@, k) == if k == ins.result {
                        Some(binary_result(ins.op, sz))
                    } else {
                        spec_var(old(self).vars@, k)
                    }),
    {
        let lhs = self.rval_to_src(&ins.lhs)?;
        let rhs = self.rval_to_src(&ins.rhs)?;
        let result_size = type_size(self.unit, ins.ty)?;
        let ghost gl = lhs;
        let ghost gr = rhs;
        let rax = UnsignedReg::Rax.to_sized(result_size);
        let r10 = UnsignedReg::R10.to_sized(result_size);
        match ins.op {
            IRBinaryOp::Add | IRBinaryOp::Sub | IRBinaryOp::Mul => {
                self.code.push(Asm::Mov(Dest::Reg(rax), lhs));
                self.code.push(Asm::Mov(Dest::Reg(r10), rhs));
                let op = match ins.op {
                    IRBinaryOp::Add => Asm::Add(Dest::Reg(rax), Src::Reg(r10)),
                    IRBinaryOp::Sub => Asm::Sub(Dest::Reg(rax), Src::Reg(r10)),
                    _ => Asm::IMul(Dest::Reg(rax), Src::Reg(r10)),
                };
                self.code.push(op);
                self.set_var(ins.result, Dest::Reg(rax));
            },
            IRBinaryOp::Div => {
                self.code.push(Asm::Mov(Dest::Reg(rax), lhs));
                self.code.push(Asm::Mov(Dest::Reg(r10), rhs));
                self.code.push(sign_extend_ax(result_size));
                self.code.push(Asm::IDiv(Src::Reg(r10)));
                self.set_var(ins.result, Dest::Reg(rax));
            },
            IRBinaryOp::Mod => {
                let op_size = src_size(&lhs);
                let rax_op = UnsignedReg::Rax.to_sized(op_size);
                let r10_op = UnsignedReg::R10.to_sized(op_size);
                self.code.push(Asm::Mov(Dest::Reg(rax_op), lhs));
                self.code.push(Asm::Mov(Dest::Reg(r10_op), rhs));
                self.code.push(sign_extend_ax(op_size));
                self.code.push(Asm::IDiv(Src::Reg(r10_op)));
                self.set_var(ins.result, Dest::Reg(Reg::Edx));
            },
            _ => {
                let op_size = match (&lhs, &rhs) {
                    (Src::Immediate(_), Src::Immediate(_)) => Size::Qword,
                    (Src::Immediate(_), _) => src_size(&rhs),
                    _ => src_size(&lhs),
                };
                assert(op_size == comparison_size(gl, gr));
                let rax_op = UnsignedReg::Rax.to_sized(op_size);
                let r10_op = UnsignedReg::R10.to_sized(op_size);
                self.code.push(Asm::Mov(Dest::Reg(rax_op), lhs));
                self.code.push(Asm::Mov(Dest::Reg(r10_op), rhs));
                self.code.push(Asm::Cmp(Src::Reg(rax_op), Src::Reg(r10_op)));
                let cond = match ins.op {
                    IRBinaryOp::Eq => Condition::E,
                    IRBinaryOp::Ne => Condition::Ne,
                    IRBinaryOp::Gt => Condition::G,
                    IRBinaryOp::Ge => Condition::Ge,
                    IRBinaryOp::Lt => Condition::L,
                    _ => Condition::Le,
                };
                self.code.push(Asm::SetCc(cond, Dest::Reg(Reg::Al)));
                self.set_var(ins.result, Dest::Reg(Reg::Al));
            },
        }
        assert(self.code@ =~= old(self).code@ + binary_code(ins.op, result_size, gl, gr));
        assert(old(self).is_src(ins.lhs, gl) && old(self).is_src(ins.rhs, gr));
        assert(self.code@.take(old(self).code@.len() as int) =~= old(self).code@);
        Ok(())
    }

    fn emit_unary(&mut self, ins: &UnaryIns) -> (r: Result<(), String>)
        ensures
            final(self).same_fn(*old(self)),
            r is Ok ==> final(self).grows(*old(self)),
            final(self).kept(*old(self)),
            r is Ok <==> (old(self).src_ok(ins.rhs) && old(self).size_of(ins.ty) is Some),
            r is Err ==> final(self).code == old(self).code && final(self).vars == old(self).vars,
            r is Ok ==> exists|x: Src|
                #![trigger old(self).is_src(ins.rhs, x)]
                old(self).is_src(ins.rhs, x) && (old(self).size_of(ins.ty) matches Some(sz) && final(self).code@
                    == old(self).code@ + seq![
                    Asm::Mov(Dest::Reg(rax_of(sz)), x),
                    if ins.op == IRUnaryOp::Neg {
                        Asm::Neg(Dest::Reg(rax_of(sz)))
                    } else {
                        Asm::Xor(Dest::Reg(rax_of(sz)), Src::Immediate(Immediate::Uint(1)))
                    },
                ] && forall|k: ConstId| #[trigger] spec_var(final(self).vars@, k) == if k == ins.result {
                    Some(Dest::Reg(rax_of(sz)))
                } else {
                    spec_var(old(self).vars@, k)
                }),
    {
        let rhs = self.rval_to_src(&ins.rhs)?;
        let rax = self.rax(ins.ty)?;
        let ghost gx = rhs;
        self.code.push(Asm::Mov(Dest::Reg(rax), rhs));
        match ins.op {
            IRUnaryOp::Neg => self.code.push(Asm::Neg(Dest::Reg(rax))),
            IRUnaryOp::Not => self.code.push(Asm::Xor(Dest::Reg(rax), Src::Immediate(Immediate::Uint(1)))),
        }
        self.set_var(ins.result, Dest::Reg(rax));
        let ghost sz = old(self).size_of(ins.ty)->Some_0;
        assert(self.code@ =~= old(self).code@ + unary_code(ins.op, sz, gx));
        assert(old(self).is_src(ins.rhs, gx));
        assert(self.code@.take(old(self).code@.len() as int) =~= old(self).code@);
        Ok(())
    }

    /// A short-circuit operation on booleans, with the result in `al`. When
    /// neither side needs instructions, both are read and combined bitwise;
    /// else the right side is computed only when the left side does not
    /// decide the result.
    fn emit_conditional(&mut self, ins: &CondIns) -> (r: Result<(), String>)
        ensures
            final(self).same_fn(*old(self)),
            r is Ok ==> final(self).grows(*old(self)),
            r is Ok ==> spec_var(final(self).vars@, ins.result) == Some(Dest::Reg(Reg::Al)),
            ins.lhs_ins@.len() == 0 && ins.rhs_ins@.len() == 0 ==> (r is Ok <==> (old(self).src_ok(ins.lhs)
                && old(self).src_ok(ins.rhs))),
            ins.lhs_ins@.len() == 0 && ins.rhs_ins@.len() == 0 && r is Ok ==> exists|l: Src, rr: Src|
                #![trigger old(self).is_src(ins.lhs, l), old(self).is_src(ins.rhs, rr)]
                old(self).is_src(ins.lhs, l) && old(self).is_src(ins.rhs, rr) && final(self).code@ == old(self).code@
                    + seq![
                    Asm::Mov(Dest::Reg(Reg::Al), l),
                    Asm::Mov(Dest::Reg(Reg::R10b), rr),
                    if ins.op == IRCondOp::And {
                        Asm::And(Dest::Reg(Reg::Al), Src::Reg(Reg::R10b))
                    } else {
                        Asm::Or(Dest::Reg(Reg::Al), Src::Reg(Reg::R10b))
                    },
                ],
            !(ins.lhs_ins@.len() == 0 && ins.rhs_ins@.len() == 0) && r is Ok ==> (final(self).code@.last() matches Asm::Label(
                l,
            ) && l@ == label_text(old(self).decl.name@, "_cond_end_"@, old(self).cond_end_count)),
        decreases ins,
    {
        if ins.lhs_ins.len() == 0 && ins.rhs_ins.len() == 0 {
            let lhs = self.rval_to_src(&ins.lhs)?;
            let rhs = self.rval_to_src(&ins.rhs)?;
            let ghost gl = lhs;
            let ghost gr = rhs;
            self.code.push(Asm::Mov(Dest::Reg(Reg::Al), lhs));
            self.code.push(Asm::Mov(Dest::Reg(Reg::R10b), rhs));
            let op = match ins.op {
                IRCondOp::And => Asm::And(Dest::Reg(Reg::Al), Src::Reg(Reg::R10b)),
                IRCondOp::Or => Asm::Or(Dest::Reg(Reg::Al), Src::Reg(Reg::R10b)),
            };
            self.code.push(op);
            assert(self.code@ =~= old(self).code@ + seq![
                Asm::Mov(Dest::Reg(Reg::Al), gl),
                Asm::Mov(Dest::Reg(Reg::R10b), gr),
                if ins.op == IRCondOp::And {
                    Asm::And(Dest::Reg(Reg::Al), Src::Reg(Reg::R10b))
                } else {
                    Asm::Or(Dest::Reg(Reg::Al), Src::Reg(Reg::R10b))
                },
            ]);
            assert(old(self).is_src(ins.lhs, gl) && old(self).is_src(ins.rhs, gr));
            assert(self.code@.take(old(self).code@.len() as int) =~= old(self).code@);
        } else {
            let end = self.next_label("_cond_end_", 2);
            let ghost s0 = *self;
            self.emit_ins_list(&ins.lhs_ins)?;
            let ghost s1 = *self;
            let lhs = self.rval_to_src(&ins.lhs)?;
            self.code.push(Asm::Mov(Dest::Reg(Reg::Al), lhs));
            self.code.push(Asm::Cmp(Src::Reg(Reg::Al), Src::Immediate(Immediate::Uint(0))));
            match ins.op {
                IRCondOp::And => self.code.push(Asm::Jz(end.clone())),
                IRCondOp::Or => self.code.push(Asm::Jnz(end.clone())),
            }
            let ghost s2 = *self;
            assert(s2.grows(s1)) by {
                assert(s2.code@.take(s1.code@.len() as int) =~= s1.code@);
            }
            self.emit_ins_list(&ins.rhs_ins)?;
            let ghost s3 = *self;
            let rhs = self.rval_to_src(&ins.rhs)?;
            self.code.push(Asm::Mov(Dest::Reg(Reg::Al), rhs));
            self.code.push(Asm::Label(end));
            let ghost s4 = *self;
            assert(s4.grows(s3)) by {
                assert(s4.code@.take(s3.code@.len() as int) =~= s3.code@);
            }
            proof {
                Self::lemma_grows_trans(s0, s1, s2);
                Self::lemma_grows_trans(s0, s2, s3);
                Self::lemma_grows_trans(s0, s3, s4);
                Self::lemma_grows_trans(*old(self), s0, s4);
            }
        }
        self.set_var(ins.result, Dest::Reg(Reg::Al));
        Ok(())
    }

    /// The next label of a kind: `.L<function><kind><n>`, where `n` counts
    /// the labels of that kind handed out so far.
    fn next_label(&mut self, kind: &str, counter: u8) -> (r: String)
        ensures
            r@ == label_text(old(self).decl.name@, kind@, old(self).counter_value(counter)),
            final(self).grows(*old(self)),
            final(self).code == old(self).code,
            final(self).vars == old(self).vars,
            final(self).acc_offset == old(self).acc_offset,
            final(self).loop_labels == old(self).loop_labels,
            forall|c: u8| #[trigger] final(self).counter_value(c) == if counter_kind(c) == counter_kind(counter) {
                next_count(old(self).counter_value(c))
            } else {
                old(self).counter_value(c)
            },
    {
        let n = if counter == 0 {
            self.loop_count
        } else if counter == 1 {
            self.loop_end_count
        } else if counter == 2 {
            self.cond_end_count
        } else {
            self.cond_count
        };
        let mut s = String::from_str(".L");
        push_str(&mut s, self.decl.name.as_str());
        push_str(&mut s, kind);
        push_u64(&mut s, n);
        proof {
            reveal_strlit(".L");
        }
        assert(s@ =~= label_text(old(self).decl.name@, kind@, old(self).counter_value(counter)));
        assert(self.code@.take(self.code@.len() as int) =~= self.code@);
        let next = if n < u64::MAX { n + 1 } else { n };
        if counter == 0 {
            self.loop_count = next;
        } else if counter == 1 {
            self.loop_end_count = next;
        } else if counter == 2 {
            self.cond_end_count = next;
        } else {
            self.cond_count = next;
        }
        s
    }

    /// A `mov`, or a `lea` when the source is an address.
    fn mov_or_lea(&mut self, dest: Dest, src: Src)
        ensures
            final(self).code@ == old(self).code@.push(mov_or_lea_asm(dest, src)),
            final(self).vars == old(self).vars,
            final(self).kept(*old(self)),
    {
        let is_label = match src {
            Src::Label(_) => true,
            _ => false,
        };
        if is_label {
            self.code.push(Asm::Lea(dest, src));
        } else {
            self.code.push(Asm::Mov(dest, src));
        }
    }

    /// Binds a constant to the place that holds it.
    fn set_var(&mut self, id: ConstId, dest: Dest)
        ensures
            forall|k: ConstId| #[trigger] spec_var(final(self).vars@, k) == if k == id {
                Some(dest)
            } else {
                spec_var(old(self).vars@, k)
            },
            final(self).code == old(self).code,
            final(self).kept(*old(self)),
    {
        let mut i: usize = 0;
        while i < self.vars.len()
            invariant
                i <= self.vars@.len(),
                self.vars == old(self).vars,
                self.code == old(self).code,
                self.kept(*old(self)),
                forall|j: int| 0 <= j < i ==> self.vars@[j].0 != id,
            decreases self.vars@.len() - i,
        {
            if self.vars[i].0 == id {
                let ghost before = self.vars@;
                self.vars.set(i, (id, dest));
                proof {
                    assert forall|k: ConstId| #[trigger] spec_var(self.vars@, k) == if k == id {
                        Some(dest)
                    } else {
                        spec_var(old(self).vars@, k)
                    } by {
                        lemma_var_update(before, i as int, id, dest, k);
                    }
                }
                return;
            }
            i = i + 1;
        }
        let ghost before = self.vars@;
        self.vars.push((id, dest));
        proof {
            assert forall|k: ConstId| #[trigger] spec_var(self.vars@, k) == if k == id {
                Some(dest)
            } else {
                spec_var(old(self).vars@, k)
            } by {
                lemma_var_push(before, id, dest, k);
            }
        }
    }

    /// The place that holds a constant.
    fn var(&self, id: ConstId) -> (r: Result<Dest, String>)
        ensures
            r is Ok <==> spec_var(self.vars@, id) is Some,
            r matches Ok(d) ==> spec_var(self.vars@, id) == Some(d),
    {
        let mut i: usize = 0;
        assert(self.vars@.skip(0) =~= self.vars@);
        while i < self.vars.len()
            invariant
                i <= self.vars@.len(),
                spec_var(self.vars@, id) == spec_var(self.vars@.skip(i as int), id),
            decreases self.vars@.len() - i,
        {
            let ghost rest = self.vars@.skip(i as int);
            assert(rest[0] == self.vars@[i as int]);
            if self.vars[i].0 == id {
                return Ok(self.vars[i].1);
            }
            assert(rest.drop_first() =~= self.vars@.skip(i + 1));
            i = i + 1;
        }
        assert(self.vars@.skip(i as int).len() == 0);
        Err(String::from_str("not stored"))
    }

    fn rval_to_src(&self, rval: &RValue) -> (r: Result<Src, String>)
        ensures
            r is Ok <==> self.src_ok(*rval),
            r matches Ok(src) ==> self.is_src(*rval, src),
    {
        match rval {
            RValue::Int(n) => Ok(Src::Immediate(Immediate::Int(*n))),
            RValue::Uint(n) => Ok(Src::Immediate(Immediate::Uint(*n))),
            RValue::Float(s) => Ok(Src::Immediate(Immediate::Float(s.clone()))),
            RValue::Const(id) => {
                let d = self.var(*id)?;
                Ok(d.to_src())
            },
            RValue::Param(idx) => {
                if *idx < self.params.len() {
                    Ok(self.params[*idx].to_src())
                } else {
                    Err(String::from_str("not a parameter"))
                }
            },
            RValue::Data(idx) => Ok(Src::Label(Label { name: to_data_label(*idx) })),
            RValue::Void => Err(String::from_str("void has no value")),
            RValue::Function(_) => Err(String::from_str("functions are not values")),
        }
    }

    fn lval_to_dest(&self, lval: &LValue) -> (r: Result<Dest, String>)
        ensures
            *lval matches LValue::Const(id) ==> (r is Ok <==> spec_var(self.vars@, id) is Some) && (r matches Ok(d)
                ==> spec_var(self.vars@, id) == Some(d)),
            *lval matches LValue::Param(idx) ==> (r is Ok <==> idx < self.params@.len()) && (r matches Ok(d) ==> d
                == self.params@[idx as int]),
    {
        match lval {
            LValue::Const(id) => self.var(*id),
            LValue::Param(idx) => {
                if *idx < self.params.len() {
                    Ok(self.params[*idx])
                } else {
                    Err(String::from_str("not a parameter"))
                }
            },
        }
    }

    /// A source that a `mov` to memory can take: an immediate or a register
    /// as it is, else loaded into the accumulator first.
    fn src_to_movable(&mut self, src: Src, ty: IRTypeId) -> (r: Result<Src, String>)
        ensures
            final(self).vars == old(self).vars,
            final(self).kept(*old(self)),
            (src is Reg || src is Immediate) ==> r == Ok::<Src, String>(src) && final(self).code == old(self).code,
            !(src is Reg || src is Immediate) ==> (r is Ok <==> old(self).size_of(ty) is Some),
            !(src is Reg || src is Immediate) ==> (r is Err ==> final(self).code == old(self).code),
            !(src is Reg || src is Immediate) ==> (r matches Ok(m) ==> old(self).size_of(ty) matches Some(sz) && m
                == Src::Reg(rax_of(sz)) && final(self).code@ == old(self).code@.push(mov_or_lea_asm(
                Dest::Reg(rax_of(sz)),
                src,
            ))),
    {
        match src {
            Src::Reg(_) | Src::Immediate(_) => Ok(src),
            _ => {
                let rax = self.rax(ty)?;
                self.mov_or_lea(Dest::Reg(rax), src);
                Ok(Src::Reg(rax))
            },
        }
    }

    /// A new stack slot for a value of the given type, below the others.
    fn new_stack_offset(&mut self, ty: IRTypeId) -> (r: Result<Dest, String>)
        ensures
            final(self).code == old(self).code,
            final(self).vars == old(self).vars,
            r is Ok <==> (old(self).size_of(ty) is Some && old(self).acc_offset + ir_size(old(self).unit.types@[ty as int])
                <= usize::MAX),
            r matches Ok(d) ==> old(self).size_of(ty) matches Some(sz) && final(self).acc_offset == old(self).acc_offset
                + ir_size(old(self).unit.types@[ty as int]) && d == Dest::StackOffset(
                StackOffset { offset: final(self).acc_offset, size: sz },
            ),
            final(self).unit == old(self).unit,
            final(self).decl == old(self).decl,
            final(self).config == old(self).config,
            final(self).params == old(self).params,
            final(self).loop_labels == old(self).loop_labels,
            final(self).cond_count == old(self).cond_count,
            final(self).cond_end_count == old(self).cond_end_count,
            final(self).loop_count == old(self).loop_count,
            final(self).loop_end_count == old(self).loop_end_count,
    {
        if ty >= self.unit.types.len() {
            return Err(String::from_str("unknown type"));
        }
        let size = self.unit.types.sizeof(ty);
        if self.acc_offset > usize::MAX - size {
            return Err(String::from_str("stack too large"));
        }
        let s = type_size(self.unit, ty)?;
        self.acc_offset = self.acc_offset + size;
        Ok(Dest::StackOffset(StackOffset { offset: self.acc_offset, size: s }))
    }

    /// The accumulator, sized to the type.
    fn rax(&self, ty: IRTypeId) -> (r: Result<Reg, String>)
        ensures
            r is Ok <==> self.size_of(ty) is Some,
            r matches Ok(x) ==> self.size_of(ty) matches Some(sz) && x == rax_of(sz),
    {
        let size = type_size(self.unit, ty)?;
        Ok(UnsignedReg::Rax.to_sized(size))
    }
}

/// The name of an instruction, for comments in the assembly.
pub fn ins_name(ins: &Ins) -> (r: &'static str)
    ensures
        r@ == spec_ins_name(*ins),
{
    match ins {
        Ins::Store(_) => "store",
        Ins::Assign(_) => "assign",
        Ins::Call(_) => "call",
        Ins::Intrinsic(_) => "intrinsic",
        Ins::Return(_, _) => "return",
        Ins::Binary(_) => "binary",
        Ins::Unary(_) => "unary",
        Ins::Cast(_) => "cast",
        Ins::If(_) => "if",
        Ins::While(_) => "while",
        Ins::Conditional(_) => "conditional",
        Ins::Break => "break",
        Ins::Continue => "continue",
    }
}

} // verus!
