use vstd::prelude::*;

use crate::cgen::nodes::{Ast, BinaryOp, Decl, Expr, Stmt, Type, UnaryOp};
use crate::config::{join_path, path_join, Config, PathManager};
use crate::ir::nodes as ir;
use crate::ir::nodes::{ConstId, ParamId};
use crate::ir::types::{IRType, IRTypeId, IRTypeInterner, Primitive};
use crate::cgen::translation::{
    lemma_emits_push, lemma_emits_seq_len,
    call_at, emits_chain, emits_one, emits_seq, expr_at, lval_at, out_len, out_len_seq, predecl_at, remap_elseifs,
    remap_stores, simple_at, st_chain, st_one, st_seq, unmap_elseifs, without_key, without_keys, EmitState, Frame,
};

verus! {

/// The C type of a machine primitive. Strings are `int8_t*`.
pub open spec fn spec_primitive_ctype(p: Primitive) -> Type {
    match p {
        Primitive::Void => Type::Void,
        Primitive::F32 => Type::Float,
        Primitive::F64 => Type::Float,
        Primitive::U8 => Type::Uint8,
        Primitive::U16 => Type::Uint16,
        Primitive::U32 => Type::Uint32,
        Primitive::U64 => Type::Uint64,
        Primitive::I8 => Type::Int8,
        Primitive::I16 => Type::Int16,
        Primitive::I32 => Type::Int32,
        Primitive::I64 => Type::Int64,
        Primitive::String => Type::Pointer(Box::new(Type::Int8)),
    }
}

pub fn primitive_ctype(p: Primitive) -> (r: Type)
    ensures
        r == spec_primitive_ctype(p),
{
    match p {
        Primitive::Void => Type::Void,
        Primitive::F32 => Type::Float,
        Primitive::F64 => Type::Float,
        Primitive::U8 => Type::Uint8,
        Primitive::U16 => Type::Uint16,
        Primitive::U32 => Type::Uint32,
        Primitive::U64 => Type::Uint64,
        Primitive::I8 => Type::Int8,
        Primitive::I16 => Type::Int16,
        Primitive::I32 => Type::Int32,
        Primitive::I64 => Type::Int64,
        Primitive::String => Type::Pointer(Box::new(Type::Int8)),
    }
}

/// The C type of a machine type: that of its primitive, and a pointer to
/// `void` for a function or an unknown id.
pub open spec fn spec_ctype(types: Seq<IRType>, typeid: IRTypeId) -> Type {
    if typeid < types.len() {
        match types[typeid as int] {
            IRType::Primitive(p) => spec_primitive_ctype(p),
            IRType::Function(_, _) => Type::Pointer(Box::new(Type::Void)),
        }
    } else {
        Type::Pointer(Box::new(Type::Void))
    }
}

pub fn ctype(types: &IRTypeInterner, typeid: IRTypeId) -> (r: Type)
    ensures
        r == spec_ctype(types@, typeid),
{
    if typeid >= types.len() {
        return Type::Pointer(Box::new(Type::Void));
    }
    match types.get(typeid) {
        IRType::Primitive(p) => primitive_ctype(*p),
        IRType::Function(_, _) => Type::Pointer(Box::new(Type::Void)),
    }
}

/// The C operator of a machine operator.
pub open spec fn spec_binary_op(op: ir::IRBinaryOp) -> BinaryOp {
    match op {
        ir::IRBinaryOp::Add => BinaryOp::Plus,
        ir::IRBinaryOp::Sub => BinaryOp::Minus,
        ir::IRBinaryOp::Mul => BinaryOp::Mult,
        ir::IRBinaryOp::Div => BinaryOp::Div,
        ir::IRBinaryOp::Eq => BinaryOp::Equal,
        ir::IRBinaryOp::Ne => BinaryOp::NotEqual,
        ir::IRBinaryOp::Gt => BinaryOp::Greater,
        ir::IRBinaryOp::Ge => BinaryOp::GreaterEqual,
        ir::IRBinaryOp::Lt => BinaryOp::Less,
        ir::IRBinaryOp::Le => BinaryOp::LessEqual,
        ir::IRBinaryOp::Mod => BinaryOp::Modulo,
    }
}

/// The C operator of a machine unary operator.
pub open spec fn spec_unary_op(op: ir::IRUnaryOp) -> UnaryOp {
    if op == ir::IRUnaryOp::Neg {
        UnaryOp::Minus
    } else {
        UnaryOp::Not
    }
}

/// The value of `key` in a list of pairs: that of its first pair.
pub open spec fn spec_lookup(pairs: Seq<(usize, usize)>, key: usize) -> Option<usize>
    decreases pairs.len(),
{
    if pairs.len() == 0 {
        None
    } else if pairs[0].0 == key {
        Some(pairs[0].1)
    } else {
        spec_lookup(pairs.drop_first(), key)
    }
}

/// The C variable number of constant `id` in a function with
/// `param_count` parameters: after the parameters, as far as a `usize` goes.
pub open spec fn spec_var_id(param_count: usize, id: ConstId) -> usize {
    if id + param_count <= usize::MAX {
        (id + param_count) as usize
    } else {
        usize::MAX
    }
}

/// The C operator written for a machine operator means the same: on any
/// integer operands, the operator as spelled in the C text gives what the
/// machine operator gives.
pub proof fn law_c_operator_keeps_meaning(op: ir::IRBinaryOp, a: int, b: int)
    ensures
        crate::cgen::nodes::c_operator_value(crate::cgen::nodes::binary_op_text(spec_binary_op(op)), a, b)
            == ir::ir_binary_value(op, a, b),
{
    match op {
        ir::IRBinaryOp::Add => reveal_strlit("+"),
        ir::IRBinaryOp::Sub => reveal_strlit("-"),
        ir::IRBinaryOp::Mul => reveal_strlit("*"),
        ir::IRBinaryOp::Div => reveal_strlit("/"),
        ir::IRBinaryOp::Mod => reveal_strlit("%"),
        ir::IRBinaryOp::Eq => reveal_strlit("=="),
        ir::IRBinaryOp::Ne => reveal_strlit("!="),
        ir::IRBinaryOp::Gt => reveal_strlit(">"),
        ir::IRBinaryOp::Ge => reveal_strlit(">="),
        ir::IRBinaryOp::Lt => reveal_strlit("<"),
        ir::IRBinaryOp::Le => reveal_strlit("<="),
    }
}

/// The C unary operator written for a machine unary operator means the
/// same on any integer operand.
pub proof fn law_c_unary_keeps_meaning(op: ir::IRUnaryOp, a: int)
    ensures
        crate::cgen::nodes::c_unary_value(crate::cgen::nodes::unary_op_text(spec_unary_op(op)), a)
            == ir::ir_unary_value(op, a),
{
    reveal_strlit("-");
    reveal_strlit("!");
}

/// A Koi program compiled to C keeps what its operators mean: lowering a
/// Koi operator and writing it out in C gives an operator that computes
/// the same value on any integer operands.
pub proof fn law_c_output_keeps_koi_operators(op: crate::sema::typed::BinaryOp, a: int, b: int)
    requires
        op != crate::sema::typed::BinaryOp::LogicAnd,
        op != crate::sema::typed::BinaryOp::LogicOr,
    ensures
        crate::cgen::nodes::c_operator_value(
            crate::cgen::nodes::binary_op_text(spec_binary_op(crate::lower::spec_binary_op_to_ir(op))),
            a,
            b,
        ) == crate::sema::typed::koi_binary_value(op, a, b),
{
    law_c_operator_keeps_meaning(crate::lower::spec_binary_op_to_ir(op), a, b);
    crate::lower::law_lowering_keeps_operator_meaning(op, a, b);
}

pub fn binary_op(op: ir::IRBinaryOp) -> (r: BinaryOp)
    ensures
        r == spec_binary_op(op),
{
    match op {
        ir::IRBinaryOp::Add => BinaryOp::Plus,
        ir::IRBinaryOp::Sub => BinaryOp::Minus,
        ir::IRBinaryOp::Mul => BinaryOp::Mult,
        ir::IRBinaryOp::Div => BinaryOp::Div,
        ir::IRBinaryOp::Eq => BinaryOp::Equal,
        ir::IRBinaryOp::Ne => BinaryOp::NotEqual,
        ir::IRBinaryOp::Gt => BinaryOp::Greater,
        ir::IRBinaryOp::Ge => BinaryOp::GreaterEqual,
        ir::IRBinaryOp::Lt => BinaryOp::Less,
        ir::IRBinaryOp::Le => BinaryOp::LessEqual,
        ir::IRBinaryOp::Mod => BinaryOp::Modulo,
    }
}

pub fn unary_op(op: ir::IRUnaryOp) -> (r: UnaryOp)
    ensures
        r == spec_unary_op(op),
{
    match op {
        ir::IRUnaryOp::Neg => UnaryOp::Minus,
        ir::IRUnaryOp::Not => UnaryOp::Not,
    }
}

/// Translates a unit to C: the runtime header's include, then each
/// declaration in order.
pub fn emit(unit: &ir::Unit, config: &Config, pm: &PathManager) -> (r: Ast)
    ensures
        r.decls@.len() == unit.decls@.len() + 1,
        forall|i: int| 0 <= i < unit.decls@.len() ==> translates_decl(unit.types@, unit.data@, #[trigger] unit.decls@[i], r.decls@[i + 1]),
        r.decls@[0] matches Decl::Include(path) && path@ == path_join(
            path_join(pm.spec_root(), "include"@),
            "koi.h"@,
        ),
{
    let mut decls: Vec<Decl> = Vec::new();
    let inc = pm.include_path();
    decls.push(Decl::Include(join_path(inc.as_str(), "koi.h")));
    let mut i: usize = 0;
    while i < unit.decls.len()
        invariant
            i <= unit.decls@.len(),
            decls@.len() == i + 1,
            forall|j: int| 0 <= j < i ==> translates_decl(unit.types@, unit.data@, #[trigger] unit.decls@[j], decls@[j + 1]),
            decls@[0] matches Decl::Include(path) && path@ == path_join(
                path_join(pm.spec_root(), "include"@),
                "koi.h"@,
            ),
        decreases unit.decls@.len() - i,
    {
        let d = match &unit.decls[i] {
            ir::Decl::Extern(ext) => {
                let mut params: Vec<Type> = Vec::new();
                let mut k: usize = 0;
                while k < ext.params.len()
                    invariant
                        k <= ext.params@.len(),
                        params@.len() == k,
                        forall|j: int| 0 <= j < k ==> (#[trigger] params@[j]) == spec_ctype(unit.types@, ext.params@[j]),
                    decreases ext.params@.len() - k,
                {
                    params.push(ctype(&unit.types, ext.params[k]));
                    k = k + 1;
                }
                Decl::ExternFunc { name: ext.name.clone(), params, ret: ctype(&unit.types, ext.ret) }
            },
            ir::Decl::Func(func) => FuncEmitter::new(func, &unit.types, &unit.data).emit(),
        };
        decls.push(d);
        i = i + 1;
    }
    Ast { decls }
}

/// The id a key is mapped to in a list of pairs, if any: that of its first
/// pair.
fn lookup(pairs: &Vec<(usize, usize)>, key: usize) -> (r: Option<usize>)
    ensures
        r == spec_lookup(pairs@, key),
{
    let mut i: usize = 0;
    assert(pairs@.skip(0) =~= pairs@);
    while i < pairs.len()
        invariant
            i <= pairs@.len(),
            spec_lookup(pairs@, key) == spec_lookup(pairs@.skip(i as int), key),
        decreases pairs@.len() - i,
    {
        let ghost rest = pairs@.skip(i as int);
        assert(rest[0] == pairs@[i as int]);
        if pairs[i].0 == key {
            return Some(pairs[i].1);
        }
        assert(rest.drop_first() =~= pairs@.skip(i + 1));
        i = i + 1;
    }
    assert(pairs@.skip(i as int).len() == 0);
    None
}

/// Removes every pair with the given key.
fn remove_key(pairs: &mut Vec<(usize, usize)>, key: usize)
    ensures
        final(pairs)@ == without_key(old(pairs)@, key),
{
    let mut out: Vec<(usize, usize)> = Vec::new();
    let mut i: usize = 0;
    while i < pairs.len()
        invariant
            i <= pairs@.len(),
            out@ == without_key(pairs@.take(i as int), key),
        decreases pairs@.len() - i,
    {
        proof {
            let t = pairs@.take(i + 1);
            assert(t.drop_last() =~= pairs@.take(i as int));
            assert(t.last() == pairs@[i as int]);
        }
        if pairs[i].0 != key {
            out.push(pairs[i]);
        }
        i = i + 1;
    }
    assert(pairs@.take(pairs@.len() as int) =~= pairs@);
    *pairs = out;
}

/// The constants that the top level of a list of instructions stores, with
/// their types, in order.
pub open spec fn spec_stores(ins: Seq<ir::Ins>) -> Seq<(ConstId, IRTypeId)>
    decreases ins.len(),
{
    if ins.len() == 0 {
        Seq::empty()
    } else {
        let rest = spec_stores(ins.drop_last());
        match ins.last() {
            ir::Ins::Store(s) => rest.push((s.const_id, s.ty)),
            _ => rest,
        }
    }
}

/// The variables that the top level of a block stores, with their types,
/// in order.
pub fn block_stores(block: &ir::Block) -> (r: Vec<(ConstId, IRTypeId)>)
    ensures
        r@ == spec_stores(block.ins@),
        r@.len() <= block.ins@.len(),
{
    let mut r: Vec<(ConstId, IRTypeId)> = Vec::new();
    let mut i: usize = 0;
    while i < block.ins.len()
        invariant
            i <= block.ins@.len(),
            r@ == spec_stores(block.ins@.take(i as int)),
            r@.len() <= i,
        decreases block.ins@.len() - i,
    {
        proof {
            let t = block.ins@.take(i + 1);
            assert(t.drop_last() =~= block.ins@.take(i as int));
            assert(t.last() == block.ins@[i as int]);
        }
        match &block.ins[i] {
            ir::Ins::Store(s) => r.push((s.const_id, s.ty)),
            _ => {},
        }
        i = i + 1;
    }
    assert(block.ins@.take(block.ins@.len() as int) =~= block.ins@);
    r
}

/// The C function `c` declares the machine function `f`: same name, each
/// parameter `t<i>` of the C type of the `i`th parameter, and the C type
/// of its return type.
pub open spec fn translates_function(types: Seq<IRType>, data: Seq<ir::Data>, f: ir::FuncDecl, c: Decl) -> bool {
    &&& c matches Decl::Function { name, params, ret, body }
    &&& name == f.name
    &&& ret == spec_ctype(types, f.ret)
    &&& params@.len() == f.params@.len()
    &&& forall|k: int| 0 <= k < params@.len() ==> (#[trigger] params@[k]) == (k as usize, spec_ctype(types, f.params@[k]))
    &&& emits_seq(
        (f.params@.len() as usize, types, data),
        (Seq::empty(), Seq::empty()),
        f.body.ins@,
        body@,
    )
}

/// The C declaration `c` declares the machine declaration `d`.
pub open spec fn translates_decl(types: Seq<IRType>, data: Seq<ir::Data>, d: ir::Decl, c: Decl) -> bool {
    match d {
        ir::Decl::Extern(e) => c matches Decl::ExternFunc { name, params, ret } && name == e.name && ret == spec_ctype(
            types,
            e.ret,
        ) && params@.len() == e.params@.len() && forall|k: int| 0 <= k < params@.len() ==> (#[trigger] params@[k])
            == spec_ctype(types, e.params@[k]),
        ir::Decl::Func(f) => translates_function(types, data, f, c),
    }
}

/// A list that keeps the prefix `p` of a list keeps it after growing.
proof fn lemma_prefix_kept(mid: Seq<Stmt>, after: Seq<Stmt>, p: Seq<Stmt>)
    requires
        mid.len() >= p.len(),
        mid.take(p.len() as int) == p,
        after.len() >= mid.len(),
        after.take(mid.len() as int) == mid,
    ensures
        after.len() >= p.len(),
        after.take(p.len() as int) == p,
{
    assert forall|i: int| 0 <= i < p.len() implies after.take(p.len() as int)[i] == p[i] by {
        assert(after[i] == after.take(mid.len() as int)[i]);
        assert(mid[i] == mid.take(p.len() as int)[i]);
    }
    assert(after.take(p.len() as int) =~= p);
}

/// Translates one function to C. Constant ids come after the parameters:
/// constant `c` is the variable `t<c + number of parameters>`.
pub struct FuncEmitter<'a> {
    decl: &'a ir::FuncDecl,
    types: &'a IRTypeInterner,
    data: &'a Vec<ir::Data>,
    param_count: usize,
    stmts: Vec<Stmt>,
    /// Maps a constant stored in a later branch of an `if` to the constant
    /// of the first branch that holds the same slot.
    var_remap: Vec<(ConstId, ConstId)>,
    /// Constants declared before the `if` that stores them; a store to one
    /// is an assignment.
    predeclared: Vec<(ConstId, IRTypeId)>,
}

impl<'a> FuncEmitter<'a> {
    /// The function's parameter count and the unit's types and data.
    pub closed spec fn frame(&self) -> Frame {
        (self.param_count, self.types@, self.data@)
    }

    /// The constants read through another's variable, and those declared
    /// ahead of an `if`.
    spec fn state(&self) -> EmitState {
        (self.var_remap@, self.predeclared@)
    }

    /// The C expression of a value.
    spec fn spec_expr(&self, rval: ir::RValue) -> Expr {
        expr_at(self.frame(), self.var_remap@, rval)
    }

    /// The C variable a place is.
    spec fn spec_lval(&self, lval: ir::LValue) -> usize {
        lval_at(self.frame(), lval)
    }

    /// The function being translated and the tables it reads are those of
    /// `other`.
    spec fn same_frame(&self, other: Self) -> bool {
        &&& self.decl == other.decl
        &&& self.types == other.types
        &&& self.data == other.data
        &&& self.param_count == other.param_count
    }

    /// The function being translated.
    pub closed spec fn function(&self) -> ir::FuncDecl {
        *self.decl
    }

    /// The types of the unit it belongs to.
    pub closed spec fn type_table(&self) -> Seq<IRType> {
        self.types@
    }

    /// Nothing is translated yet, and constants are numbered after the
    /// function's parameters.
    pub closed spec fn fresh(&self) -> bool {
        &&& self.stmts@.len() == 0
        &&& self.var_remap@.len() == 0
        &&& self.predeclared@.len() == 0
        &&& self.param_count == self.decl.params@.len()
    }

    /// The data of the unit it belongs to.
    pub closed spec fn data_table(&self) -> Seq<ir::Data> {
        self.data@
    }

    pub fn new(decl: &'a ir::FuncDecl, types: &'a IRTypeInterner, data: &'a Vec<ir::Data>) -> (r: Self)
        ensures
            r.function() == *decl,
            r.type_table() == types@,
            r.data_table() == data@,
            r.fresh(),
    {
        FuncEmitter {
            param_count: decl.params.len(),
            stmts: Vec::new(),
            decl,
            types,
            data,
            var_remap: Vec::new(),
            predeclared: Vec::new(),
        }
    }

    /// The C function: its name, return type and parameters are those of
    /// the function, and its body the statements of its instructions.
    pub fn emit(self) -> (r: Decl)
        requires
            self.fresh(),
        ensures
            translates_function(self.type_table(), self.data_table(), self.function(), r),
    {
        let mut me = self;
        me.emit_body()
    }

    fn emit_body(&mut self) -> (r: Decl)
        requires
            old(self).fresh(),
        ensures
            translates_function(old(self).types@, old(self).data@, *old(self).decl, r),
    {
        let decl: &'a ir::FuncDecl = self.decl;
        let ghost fr = self.frame();
        let ghost s0 = self.state();
        let mut i: usize = 0;
        proof {
            assert(decl.body.ins@.take(0) =~= Seq::<ir::Ins>::empty());
            assert(s0 == (Seq::<(usize, usize)>::empty(), Seq::<(usize, usize)>::empty()));
        }
        while i < decl.body.ins.len()
            invariant
                self.same_frame(*old(self)),
                decl == old(self).decl,
                fr == old(self).frame(),
                i <= decl.body.ins@.len(),
                emits_seq(fr, s0, decl.body.ins@.take(i as int), self.stmts@),
                self.state() == st_seq(s0, decl.body.ins@.take(i as int)),
            decreases decl.body.ins@.len() - i,
        {
            let ghost before = self.stmts@;
            self.emit_ins(&decl.body.ins[i]);
            proof {
                let t = decl.body.ins@.take(i as int);
                assert(self.stmts@.take(before.len() as int) == before);
                assert(self.stmts@ =~= before + self.stmts@.skip(before.len() as int));
                lemma_emits_push(fr, s0, t, decl.body.ins@[i as int], before, self.stmts@.skip(before.len() as int));
                assert(t.push(decl.body.ins@[i as int]) =~= decl.body.ins@.take(i + 1));
            }
            i = i + 1;
        }
        assert(decl.body.ins@.take(decl.body.ins@.len() as int) =~= decl.body.ins@);
        let mut params: Vec<(usize, Type)> = Vec::new();
        let mut k: usize = 0;
        while k < self.decl.params.len()
            invariant
                self.same_frame(*old(self)),
                k <= self.decl.params@.len(),
                params@.len() == k,
                forall|j: int| 0 <= j < k ==> (#[trigger] params@[j]) == (j as usize, spec_ctype(
                    old(self).types@,
                    old(self).decl.params@[j],
                )),
            decreases self.decl.params@.len() - k,
        {
            params.push((k, ctype(self.types, self.decl.params[k])));
            k = k + 1;
        }
        let ret = ctype(self.types, self.decl.ret);
        let mut body: Vec<Stmt> = Vec::new();
        std::mem::swap(&mut self.stmts, &mut body);
        Decl::Function { name: self.decl.name.clone(), body, params, ret }
    }

    fn emit_ins(&mut self, ins: &ir::Ins)
        ensures
            final(self).same_frame(*old(self)),
            final(self).stmts@.len() >= old(self).stmts@.len(),
            final(self).stmts@.take(old(self).stmts@.len() as int) == old(self).stmts@,
            emits_one(old(self).frame(), old(self).state(), *ins, final(self).stmts@.skip(old(self).stmts@.len() as int)),
            final(self).state() == st_one(old(self).state(), *ins),
        decreases ins,
    {
        match ins {
            ir::Ins::Return(_, rvalue) => {
                let e = match rvalue {
                    ir::RValue::Void => None,
                    _ => Some(self.rval_to_expr(rvalue)),
                };
                self.stmts.push(Stmt::Return(e));
            },
            ir::Ins::Store(s) => {
                let actual_id = match lookup(&self.var_remap, s.const_id) {
                    Some(id) => id,
                    None => s.const_id,
                };
                let value = Box::new(self.rval_to_expr(&s.rval));
                let st = match lookup(&self.predeclared, actual_id) {
                    Some(_) => Stmt::VarAssign { lhs: self.var_id(actual_id), rhs: value },
                    None => Stmt::VarDecl { ty: ctype(self.types, s.ty), id: self.var_id(actual_id), value },
                };
                self.stmts.push(st);
            },
            ir::Ins::Assign(a) => {
                let st = Stmt::VarAssign { lhs: self.lval_to_id(&a.lval), rhs: Box::new(self.rval_to_expr(&a.rval)) };
                self.stmts.push(st);
            },
            ir::Ins::Call(c) => self.emit_call(c),
            ir::Ins::Binary(b) => {
                let st = Stmt::Binary {
                    result: self.var_id(b.result),
                    ty: ctype(self.types, b.ty),
                    op: binary_op(b.op),
                    left: Box::new(self.rval_to_expr(&b.lhs)),
                    right: Box::new(self.rval_to_expr(&b.rhs)),
                };
                self.stmts.push(st);
            },
            ir::Ins::Unary(u) => {
                let st = Stmt::Unary {
                    ty: ctype(self.types, u.ty),
                    result: self.var_id(u.result),
                    op: unary_op(u.op),
                    expr: Box::new(self.rval_to_expr(&u.rhs)),
                };
                self.stmts.push(st);
            },
            ir::Ins::Cast(c) => {
                let rval = self.rval_to_expr(&c.rval);
                let st = Stmt::VarDecl {
                    ty: ctype(self.types, c.to_ty),
                    id: self.var_id(c.result),
                    value: Box::new(Expr::Cast(ctype(self.types, c.to_ty), Box::new(rval))),
                };
                self.stmts.push(st);
            },
            ir::Ins::Break => self.stmts.push(Stmt::Break),
            ir::Ins::Continue => self.stmts.push(Stmt::Continue),
            ir::Ins::If(i) => self.emit_if(i),
            ir::Ins::While(w) => self.emit_while(w),
            ir::Ins::Conditional(c) => self.emit_conditional(c),
            ir::Ins::Intrinsic(_) => {},
        }
        proof {
            let n = old(self).stmts@.len() as int;
            if self.stmts@.len() == n + 1 {
                assert(self.stmts@.skip(n) =~= seq![self.stmts@.last()]);
            }
            if self.stmts@.len() == n {
                assert(self.stmts@.skip(n) =~= Seq::<Stmt>::empty());
            }
        }
    }

    /// The C expressions of a call's arguments.
    fn call_args(&self, c: &ir::CallIns) -> (r: Vec<Expr>)
        ensures
            r@.len() == c.args@.len(),
            forall|k: int| 0 <= k < r@.len() ==> r@[k] == self.spec_expr(#[trigger] c.args@[k].1),
    {
        let mut args: Vec<Expr> = Vec::new();
        let mut k: usize = 0;
        while k < c.args.len()
            invariant
                k <= c.args@.len(),
                args@.len() == k,
                forall|j: int| 0 <= j < k ==> args@[j] == self.spec_expr(#[trigger] c.args@[j].1),
            decreases c.args@.len() - k,
        {
            args.push(self.rval_to_expr(&c.args[k].1));
            k = k + 1;
        }
        args
    }

    /// A call of a named function; a call of anything else is left out.
    fn emit_call(&mut self, c: &ir::CallIns)
        ensures
            final(self).same_frame(*old(self)),
            final(self).stmts@.len() >= old(self).stmts@.len(),
            final(self).stmts@.take(old(self).stmts@.len() as int) == old(self).stmts@,
            call_at(old(self).frame(), old(self).var_remap@, *c, final(self).stmts@.skip(old(self).stmts@.len() as int)),
            final(self).var_remap == old(self).var_remap,
            final(self).predeclared == old(self).predeclared,
    {
        match &c.callee {
            ir::RValue::Function(name) => {
                let args = self.call_args(c);
                let st = Stmt::Call {
                    ty: ctype(self.types, c.ty),
                    callee: name.clone(),
                    dest: self.lval_to_id(&c.result),
                    args,
                };
                self.stmts.push(st);
                assert(self.stmts@.take(old(self).stmts@.len() as int) =~= old(self).stmts@);
                assert(self.stmts@.skip(old(self).stmts@.len() as int) =~= seq![st]);
            },
            _ => {
                assert(self.stmts@.skip(old(self).stmts@.len() as int) =~= Seq::<Stmt>::empty());
            },
        }
    }

    /// Declares ahead, set to 0, the variables that the first branch of an
    /// `if` stores, and records them as declared.
    fn predeclare(&mut self, first_stores: &Vec<(ConstId, IRTypeId)>)
        ensures
            final(self).same_frame(*old(self)),
            final(self).stmts@.len() == old(self).stmts@.len() + first_stores@.len(),
            final(self).stmts@.take(old(self).stmts@.len() as int) == old(self).stmts@,
            forall|k: int| 0 <= k < first_stores@.len() ==> final(self).stmts@[old(self).stmts@.len() + k]
                == predecl_at(old(self).frame(), #[trigger] first_stores@[k]),
            final(self).var_remap == old(self).var_remap,
            final(self).predeclared@ == old(self).predeclared@ + first_stores@,
    {
        let ghost start = self.stmts@;
        let mut k: usize = 0;
        proof {
            assert(first_stores@.take(0) =~= Seq::<(usize, usize)>::empty());
            assert(self.stmts@.take(start.len() as int) =~= start);
            assert(old(self).predeclared@ + first_stores@.take(0) =~= old(self).predeclared@);
        }
        while k < first_stores.len()
            invariant
                self.same_frame(*old(self)),
                k <= first_stores@.len(),
                start == old(self).stmts@,
                self.stmts@.len() == start.len() + k,
                self.stmts@.take(start.len() as int) == start,
                forall|j: int| 0 <= j < k ==> self.stmts@[start.len() + j] == predecl_at(
                    old(self).frame(),
                    #[trigger] first_stores@[j],
                ),
                self.var_remap == old(self).var_remap,
                self.predeclared@ == old(self).predeclared@ + first_stores@.take(k as int),
            decreases first_stores@.len() - k,
        {
            let (cid, ty) = first_stores[k];
            let st = Stmt::VarDecl { ty: ctype(self.types, ty), id: self.var_id(cid), value: Box::new(Expr::IntLit(0)) };
            let ghost before = self.stmts@;
            self.stmts.push(st);
            self.predeclared.push((cid, ty));
            assert(self.stmts@.take(start.len() as int) =~= before.take(start.len() as int));
            assert(old(self).predeclared@ + first_stores@.take(k + 1) =~= (old(self).predeclared@
                + first_stores@.take(k as int)).push(first_stores@[k as int]));
            k = k + 1;
        }
        assert(first_stores@.take(first_stores@.len() as int) =~= first_stores@);
    }

    /// Maps the constants that the later branches of an `if` store to those
    /// of its first branch.
    fn remap_branches(&mut self, ins: &ir::IfIns, first_stores: &Vec<(ConstId, IRTypeId)>)
        ensures
            final(self).same_frame(*old(self)),
            final(self).stmts == old(self).stmts,
            final(self).predeclared == old(self).predeclared,
            final(self).var_remap@ == match ins.elseblock {
                Some(b) => remap_stores(
                    remap_elseifs(old(self).var_remap@, first_stores@, ins.elseif@),
                    first_stores@,
                    spec_stores(b.ins@),
                ),
                None => remap_elseifs(old(self).var_remap@, first_stores@, ins.elseif@),
            },
    {
        let mut e: usize = 0;
        proof {
            assert(ins.elseif@.take(0) =~= Seq::<ir::ElseIf>::empty());
        }
        while e < ins.elseif.len()
            invariant
                self.same_frame(*old(self)),
                self.stmts == old(self).stmts,
                self.predeclared == old(self).predeclared,
                e <= ins.elseif@.len(),
                self.var_remap@ == remap_elseifs(old(self).var_remap@, first_stores@, ins.elseif@.take(e as int)),
            decreases ins.elseif@.len() - e,
        {
            proof {
                let t = ins.elseif@.take(e + 1);
                assert(t.drop_last() =~= ins.elseif@.take(e as int));
                assert(t.last() == ins.elseif@[e as int]);
            }
            add_remap(&mut self.var_remap, first_stores, &ins.elseif[e].block);
            e = e + 1;
        }
        assert(ins.elseif@.take(ins.elseif@.len() as int) =~= ins.elseif@);
        match &ins.elseblock {
            Some(b) => add_remap(&mut self.var_remap, first_stores, b),
            None => {},
        }
    }

    /// Forgets the mappings of the later branches of an `if`, and that the
    /// variables of its first branch were declared ahead.
    fn unmap_branches(&mut self, ins: &ir::IfIns, first_stores: &Vec<(ConstId, IRTypeId)>)
        ensures
            final(self).same_frame(*old(self)),
            final(self).stmts == old(self).stmts,
            final(self).var_remap@ == match ins.elseblock {
                Some(b) => without_keys(unmap_elseifs(old(self).var_remap@, ins.elseif@), spec_stores(b.ins@)),
                None => unmap_elseifs(old(self).var_remap@, ins.elseif@),
            },
            final(self).predeclared@ == without_keys(old(self).predeclared@, first_stores@),
    {
        let mut e: usize = 0;
        proof {
            assert(ins.elseif@.take(0) =~= Seq::<ir::ElseIf>::empty());
        }
        while e < ins.elseif.len()
            invariant
                self.same_frame(*old(self)),
                self.stmts == old(self).stmts,
                self.predeclared == old(self).predeclared,
                e <= ins.elseif@.len(),
                self.var_remap@ == unmap_elseifs(old(self).var_remap@, ins.elseif@.take(e as int)),
            decreases ins.elseif@.len() - e,
        {
            proof {
                let t = ins.elseif@.take(e + 1);
                assert(t.drop_last() =~= ins.elseif@.take(e as int));
                assert(t.last() == ins.elseif@[e as int]);
            }
            let stores = block_stores(&ins.elseif[e].block);
            self.remove_all(&stores);
            e = e + 1;
        }
        assert(ins.elseif@.take(ins.elseif@.len() as int) =~= ins.elseif@);
        match &ins.elseblock {
            Some(b) => {
                let stores = block_stores(b);
                self.remove_all(&stores);
            },
            None => {},
        }
        let mut k: usize = 0;
        proof {
            assert(first_stores@.take(0) =~= Seq::<(usize, usize)>::empty());
        }
        while k < first_stores.len()
            invariant
                self.same_frame(*old(self)),
                self.stmts == old(self).stmts,
                k <= first_stores@.len(),
                self.var_remap@ == match ins.elseblock {
                    Some(b) => without_keys(unmap_elseifs(old(self).var_remap@, ins.elseif@), spec_stores(b.ins@)),
                    None => unmap_elseifs(old(self).var_remap@, ins.elseif@),
                },
                self.predeclared@ == without_keys(old(self).predeclared@, first_stores@.take(k as int)),
            decreases first_stores@.len() - k,
        {
            proof {
                let t = first_stores@.take(k + 1);
                assert(t.drop_last() =~= first_stores@.take(k as int));
                assert(t.last() == first_stores@[k as int]);
            }
            remove_key(&mut self.predeclared, first_stores[k].0);
            k = k + 1;
        }
        assert(first_stores@.take(first_stores@.len() as int) =~= first_stores@);
    }

    /// Removes the mappings of each constant of `stores`, in order.
    fn remove_all(&mut self, stores: &Vec<(ConstId, IRTypeId)>)
        ensures
            final(self).same_frame(*old(self)),
            final(self).stmts == old(self).stmts,
            final(self).predeclared == old(self).predeclared,
            final(self).var_remap@ == without_keys(old(self).var_remap@, stores@),
    {
        let mut k: usize = 0;
        proof {
            assert(stores@.take(0) =~= Seq::<(usize, usize)>::empty());
        }
        while k < stores.len()
            invariant
                self.same_frame(*old(self)),
                self.stmts == old(self).stmts,
                self.predeclared == old(self).predeclared,
                k <= stores@.len(),
                self.var_remap@ == without_keys(old(self).var_remap@, stores@.take(k as int)),
            decreases stores@.len() - k,
        {
            proof {
                let t = stores@.take(k + 1);
                assert(t.drop_last() =~= stores@.take(k as int));
                assert(t.last() == stores@[k as int]);
            }
            remove_key(&mut self.var_remap, stores[k].0);
            k = k + 1;
        }
        assert(stores@.take(stores@.len() as int) =~= stores@);
    }

    /// An `if`, with its else-if branches nested in else blocks. The
    /// variables the first branch stores are declared before the `if`, and
    /// the later branches store to the same variables, position by position.
    #[verifier::spinoff_prover]
    #[verifier::rlimit(50)]
    fn emit_if(&mut self, ins: &ir::IfIns)
        ensures
            final(self).same_frame(*old(self)),
            final(self).stmts@.len() >= old(self).stmts@.len(),
            final(self).stmts@.take(old(self).stmts@.len() as int) == old(self).stmts@,
            emits_one(old(self).frame(), old(self).state(), ir::Ins::If(*ins), final(self).stmts@.skip(old(self).stmts@.len() as int)),
            final(self).state() == st_one(old(self).state(), ir::Ins::If(*ins)),
        decreases ins,
    {
        let ghost fr = self.frame();
        let ghost s0 = self.state();
        let ghost n0 = self.stmts@.len() as int;
        let first_stores = block_stores(&ins.block);
        self.predeclare(&first_stores);
        let ghost decls = self.stmts@;
        self.remap_branches(ins, &first_stores);
        let ghost s1 = self.state();
        let cond = self.rval_to_expr(&ins.cond);
        let body = self.collect_block(&ins.block);
        let ghost s2 = self.state();
        let mut else_: Option<Vec<Stmt>> = match &ins.elseblock {
            Some(b) => Some(self.collect_block(b)),
            None => None,
        };
        let ghost s3 = self.state();
        let ghost n = ins.elseif@.len() as int;
        assert(emits_chain(fr, s2, s3, *ins, n, else_));
        let mut e = ins.elseif.len();
        while e > 0
            invariant
                e <= ins.elseif@.len(),
                n == ins.elseif@.len(),
                self.same_frame(*old(self)),
                fr == old(self).frame(),
                self.stmts@ == decls,
                emits_chain(fr, s2, s3, *ins, e as int, else_),
                self.state() == st_chain(s3, *ins, e as int, n),
            decreases e,
        {
            let elseif = &ins.elseif[e - 1];
            proof {
                assert(decreases_to!(ins => elseif)) by {
                    assert(decreases_to!(ins => ins.elseif));
                    assert(decreases_to!(ins.elseif => ins.elseif@));
                    assert(decreases_to!(ins.elseif@ => ins.elseif@[e - 1]));
                }
            }
            let ghost sb = self.state();
            let mut stmts = self.collect_ins_vec(&elseif.cond_ins);
            let ghost sc = self.state();
            let ghost cond_part = stmts@;
            let elif_cond = self.rval_to_expr(&elseif.cond);
            let elif_body = self.collect_block(&elseif.block);
            stmts.push(Stmt::If { cond: elif_cond, body: elif_body, else_ });
            proof {
                lemma_emits_seq_len(fr, sb, elseif.cond_ins@, cond_part);
                assert(stmts@.take(cond_part.len() as int) =~= cond_part);
            }
            else_ = Some(stmts);
            e = e - 1;
        }
        let ghost s4 = self.state();
        self.unmap_branches(ins, &first_stores);
        self.stmts.push(Stmt::If { cond, body, else_ });
        proof {
            assert(self.stmts@.take(n0) =~= old(self).stmts@);
            let out = self.stmts@.skip(n0);
            assert forall|k: int| 0 <= k < first_stores@.len() implies out[k] == predecl_at(fr, #[trigger] first_stores@[k]) by {
                assert(out[k] == decls[n0 + k]);
            }
        }
    }

    /// A loop written `while (1)`: the condition is computed and tested at
    /// the top of each iteration, and the post statements run at its end.
    fn emit_while(&mut self, ins: &ir::WhileIns)
        ensures
            final(self).same_frame(*old(self)),
            final(self).stmts@.len() == old(self).stmts@.len() + 1,
            final(self).stmts@.drop_last() == old(self).stmts@,
            emits_one(old(self).frame(), old(self).state(), ir::Ins::While(*ins), seq![final(self).stmts@.last()]),
            final(self).state() == st_one(old(self).state(), ir::Ins::While(*ins)),
        decreases ins,
    {
        let ghost fr = self.frame();
        let ghost s0 = self.state();
        let mut body = self.collect_ins_vec(&ins.cond_ins);
        let ghost s1 = self.state();
        let ghost cond_part = body@;
        let cond = self.rval_to_expr(&ins.cond);
        let k = body.len();
        let mut brk: Vec<Stmt> = Vec::new();
        brk.push(Stmt::Break);
        assert(brk@ =~= seq![Stmt::Break]);
        body.push(Stmt::If { cond: Expr::Not(Box::new(cond)), body: brk, else_: None });
        let ghost guard = body@[k as int];
        let mut b = self.collect_block(&ins.block);
        let ghost s2 = self.state();
        let ghost block_part = b@;
        body.append(&mut b);
        let ghost mid = body@;
        match &ins.post {
            Some(post) => {
                let mut p = self.collect_ins_vec(post);
                let ghost post_part = p@;
                body.append(&mut p);
                proof {
                    lemma_emits_seq_len(fr, s2, post@, post_part);
                    assert(body@.skip(mid.len() as int) =~= post_part);
                }
            },
            None => {},
        }
        proof {
            lemma_emits_seq_len(fr, s0, ins.cond_ins@, cond_part);
            lemma_emits_seq_len(fr, s1, ins.block.ins@, block_part);
            assert(body@.take(k as int) =~= cond_part);
            assert(body@[k as int] == guard);
            assert(body@.subrange(k + 1, k + 1 + block_part.len()) =~= block_part);
        }
        let ghost bv = body@;
        let w = Stmt::While { body };
        self.stmts.push(w);
        assert(self.stmts@.drop_last() =~= old(self).stmts@);
        assert(seq![self.stmts@.last()][0] == w);
    }

    /// A short-circuit operation: the result starts as the value that the
    /// left side decides (0 for `and`, 1 for `or`), and the right side is
    /// computed into it only when the left side does not decide.
    fn emit_conditional(&mut self, ins: &ir::CondIns)
        ensures
            final(self).same_frame(*old(self)),
            final(self).stmts@.len() >= old(self).stmts@.len(),
            final(self).stmts@.take(old(self).stmts@.len() as int) == old(self).stmts@,
            emits_one(
                old(self).frame(),
                old(self).state(),
                ir::Ins::Conditional(*ins),
                final(self).stmts@.skip(old(self).stmts@.len() as int),
            ),
            final(self).state() == st_one(old(self).state(), ir::Ins::Conditional(*ins)),
        decreases ins,
    {
        let ghost fr = self.frame();
        let ghost s0 = self.state();
        let ghost n0 = self.stmts@.len() as int;
        let mut i: usize = 0;
        proof {
            assert(ins.lhs_ins@.take(0) =~= Seq::<ir::Ins>::empty());
            assert(self.stmts@.skip(n0) =~= Seq::<Stmt>::empty());
            assert(self.stmts@.take(n0) =~= old(self).stmts@);
        }
        while i < ins.lhs_ins.len()
            invariant
                self.same_frame(*old(self)),
                fr == old(self).frame(),
                s0 == old(self).state(),
                n0 == old(self).stmts@.len(),
                i <= ins.lhs_ins@.len(),
                self.stmts@.len() >= n0,
                self.stmts@.take(n0) == old(self).stmts@,
                emits_seq(fr, s0, ins.lhs_ins@.take(i as int), self.stmts@.skip(n0)),
                self.state() == st_seq(s0, ins.lhs_ins@.take(i as int)),
            decreases ins.lhs_ins@.len() - i,
        {
            proof {
                assert(decreases_to!(ins => ins.lhs_ins@[i as int])) by {
                    assert(decreases_to!(ins => ins.lhs_ins));
                    assert(decreases_to!(ins.lhs_ins => ins.lhs_ins@));
                    assert(decreases_to!(ins.lhs_ins@ => ins.lhs_ins@[i as int]));
                }
            }
            let ghost before = self.stmts@;
            self.emit_ins(&ins.lhs_ins[i]);
            proof {
                lemma_prefix_kept(before, self.stmts@, old(self).stmts@);
                let t = ins.lhs_ins@.take(i as int);
                let a = before.skip(n0);
                let b = self.stmts@.skip(before.len() as int);
                lemma_emits_push(fr, s0, t, ins.lhs_ins@[i as int], a, b);
                assert(t.push(ins.lhs_ins@[i as int]) =~= ins.lhs_ins@.take(i + 1));
                assert(self.stmts@.skip(n0) =~= a + b);
            }
            i = i + 1;
        }
        proof {
            assert(ins.lhs_ins@.take(ins.lhs_ins@.len() as int) =~= ins.lhs_ins@);
            lemma_emits_seq_len(fr, s0, ins.lhs_ins@, self.stmts@.skip(n0));
        }
        let ghost s1 = self.state();
        let ghost lhs_part = self.stmts@.skip(n0);
        let lhs_expr = self.rval_to_expr(&ins.lhs);
        let result_id = self.var_id(ins.result);
        let (initial, if_cond) = match ins.op {
            ir::IRCondOp::And => (Expr::IntLit(0), lhs_expr),
            ir::IRCondOp::Or => (Expr::IntLit(1), Expr::Not(Box::new(lhs_expr))),
        };
        let ghost n = self.stmts@.len();
        self.stmts.push(Stmt::VarDecl { ty: Type::Int8, id: result_id, value: Box::new(initial) });
        let mut rhs_body = self.collect_ins_vec(&ins.rhs_ins);
        let ghost rhs_part = rhs_body@;
        let rhs_expr = self.rval_to_expr(&ins.rhs);
        rhs_body.push(Stmt::VarAssign { lhs: result_id, rhs: Box::new(rhs_expr) });
        proof {
            lemma_emits_seq_len(fr, s1, ins.rhs_ins@, rhs_part);
            assert(rhs_body@.drop_last() =~= rhs_part);
        }
        self.stmts.push(Stmt::If { cond: if_cond, body: rhs_body, else_: None });
        proof {
            assert(self.stmts@.take(n0) =~= old(self).stmts@);
            let out = self.stmts@.skip(n0);
            assert(out.take(lhs_part.len() as int) =~= lhs_part);
        }
    }

    /// The statements of the instructions, emitted apart from the current
    /// ones.
    fn collect_ins_vec(&mut self, ins: &Vec<ir::Ins>) -> (r: Vec<Stmt>)
        ensures
            final(self).same_frame(*old(self)),
            final(self).stmts == old(self).stmts,
            emits_seq(old(self).frame(), old(self).state(), ins@, r@),
            final(self).state() == st_seq(old(self).state(), ins@),
        decreases ins,
    {
        let mut saved: Vec<Stmt> = Vec::new();
        std::mem::swap(&mut self.stmts, &mut saved);
        let mut i: usize = 0;
        proof {
            assert(ins@.take(0) =~= Seq::<ir::Ins>::empty());
        }
        while i < ins.len()
            invariant
                self.same_frame(*old(self)),
                saved == old(self).stmts,
                i <= ins@.len(),
                emits_seq(old(self).frame(), old(self).state(), ins@.take(i as int), self.stmts@),
                self.state() == st_seq(old(self).state(), ins@.take(i as int)),
            decreases ins@.len() - i,
        {
            let ghost before = self.stmts@;
            proof {
                assert(decreases_to!(ins => ins@[i as int])) by {
                    assert(decreases_to!(ins => ins@));
                    assert(decreases_to!(ins@ => ins@[i as int]));
                }
            }
            self.emit_ins(&ins[i]);
            proof {
                let fr = old(self).frame();
                let s0 = old(self).state();
                let t = ins@.take(i as int);
                assert(self.stmts@ =~= before + self.stmts@.skip(before.len() as int));
                lemma_emits_push(fr, s0, t, ins@[i as int], before, self.stmts@.skip(before.len() as int));
                assert(t.push(ins@[i as int]) =~= ins@.take(i + 1));
            }
            i = i + 1;
        }
        assert(ins@.take(ins@.len() as int) =~= ins@);
        std::mem::swap(&mut self.stmts, &mut saved);
        saved
    }

    fn collect_block(&mut self, block: &ir::Block) -> (r: Vec<Stmt>)
        ensures
            final(self).same_frame(*old(self)),
            final(self).stmts == old(self).stmts,
            emits_seq(old(self).frame(), old(self).state(), block.ins@, r@),
            final(self).state() == st_seq(old(self).state(), block.ins@),
        decreases block,
    {
        self.collect_ins_vec(&block.ins)
    }

    /// The C expression of a value. A constant of a later branch of an `if`
    /// reads the variable of the first branch that holds its slot.
    fn rval_to_expr(&self, rval: &ir::RValue) -> (r: Expr)
        ensures
            r == self.spec_expr(*rval),
    {
        match rval {
            ir::RValue::Const(i) => {
                let actual = match lookup(&self.var_remap, *i) {
                    Some(a) => a,
                    None => *i,
                };
                Expr::VarLit(self.var_id(actual))
            },
            ir::RValue::Param(i) => Expr::VarLit(*i),
            ir::RValue::Int(n) => Expr::IntLit(*n),
            ir::RValue::Float(s) => Expr::FloatLit(s.clone()),
            ir::RValue::Uint(n) => Expr::UintLit(*n),
            ir::RValue::Data(idx) => {
                if *idx < self.data.len() {
                    match &self.data[*idx] {
                        ir::Data::String(s) => Expr::StrLit(s.clone()),
                    }
                } else {
                    Expr::IntLit(0)
                }
            },
            ir::RValue::Function(_) => Expr::IntLit(0),
            ir::RValue::Void => Expr::IntLit(0),
        }
    }

    fn lval_to_id(&self, lval: &ir::LValue) -> (r: usize)
        ensures
            r == self.spec_lval(*lval),
    {
        match lval {
            ir::LValue::Const(i) => self.var_id(*i),
            ir::LValue::Param(i) => *i,
        }
    }

    /// The C variable number of a constant: after the parameters. Saturates
    /// at the largest `usize`.
    fn var_id(&self, id: ConstId) -> (r: usize)
        ensures
            r == spec_var_id(self.param_count, id),
    {
        if id <= usize::MAX - self.param_count {
            id + self.param_count
        } else {
            usize::MAX
        }
    }
}

/// Maps each constant the block stores to the first branch's constant at
/// the same position.
fn add_remap(remap: &mut Vec<(ConstId, ConstId)>, first_stores: &Vec<(ConstId, IRTypeId)>, block: &ir::Block)
    ensures
        final(remap)@ == remap_stores(old(remap)@, first_stores@, spec_stores(block.ins@)),
{
    let stores = block_stores(block);
    let mut i: usize = 0;
    while i < stores.len()
        invariant
            i <= stores@.len(),
            stores@ == spec_stores(block.ins@),
            remap@ == remap_stores(old(remap)@, first_stores@, stores@.take(i as int)),
        decreases stores@.len() - i,
    {
        proof {
            let t = stores@.take(i + 1);
            assert(t.drop_last() =~= stores@.take(i as int));
            assert(t[i as int] == stores@[i as int]);
        }
        if i < first_stores.len() {
            remove_key(remap, stores[i].0);
            remap.push((stores[i].0, first_stores[i].0));
        }
        i = i + 1;
    }
    assert(stores@.take(stores@.len() as int) =~= stores@);
}

} // verus!
