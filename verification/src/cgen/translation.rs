use vstd::prelude::*;

use crate::cgen::emit::{spec_binary_op, spec_ctype, spec_lookup, spec_stores, spec_unary_op, spec_var_id};
use crate::cgen::nodes::{Expr, Stmt, Type};
use crate::ir::nodes as ir;
use crate::ir::types::IRType;

verus! {

/// What the translation of a function reads and does not change: its
/// number of parameters, the unit's types and the unit's data.
pub type Frame = (usize, Seq<IRType>, Seq<ir::Data>);

/// What the translation keeps while it goes: the constants that stand for
/// the variable of another constant (stores in later branches of an `if`),
/// and the constants declared ahead of the `if` that stores them, with
/// their types.
pub type EmitState = (Seq<(usize, usize)>, Seq<(usize, usize)>);

/// `pairs` without the pairs of `key`.
pub open spec fn without_key(pairs: Seq<(usize, usize)>, key: usize) -> Seq<(usize, usize)>
    decreases pairs.len(),
{
    if pairs.len() == 0 {
        pairs
    } else {
        let rest = without_key(pairs.drop_last(), key);
        if pairs.last().0 == key {
            rest
        } else {
            rest.push(pairs.last())
        }
    }
}

/// `pairs` without the pairs of each key of `keys`, taken in order.
pub open spec fn without_keys(pairs: Seq<(usize, usize)>, keys: Seq<(usize, usize)>) -> Seq<(usize, usize)>
    decreases keys.len(),
{
    if keys.len() == 0 {
        pairs
    } else {
        without_key(without_keys(pairs, keys.drop_last()), keys.last().0)
    }
}

/// `remap` after each constant of `stores` is mapped to the constant of
/// `first` at the same position, where there is one.
pub open spec fn remap_stores(
    remap: Seq<(usize, usize)>,
    first: Seq<(usize, usize)>,
    stores: Seq<(usize, usize)>,
) -> Seq<(usize, usize)>
    decreases stores.len(),
{
    if stores.len() == 0 {
        remap
    } else {
        let r = remap_stores(remap, first, stores.drop_last());
        let i = stores.len() - 1;
        if i < first.len() {
            without_key(r, stores[i].0).push((stores[i].0, first[i].0))
        } else {
            r
        }
    }
}

/// `remap` after the stores of each else-if branch, in order, are mapped
/// to those of the first branch.
pub open spec fn remap_elseifs(remap: Seq<(usize, usize)>, first: Seq<(usize, usize)>, eis: Seq<ir::ElseIf>) -> Seq<
    (usize, usize),
>
    decreases eis.len(),
{
    if eis.len() == 0 {
        remap
    } else {
        remap_stores(remap_elseifs(remap, first, eis.drop_last()), first, spec_stores(eis.last().block.ins@))
    }
}

/// `remap` without the stores of each else-if branch, in order.
pub open spec fn unmap_elseifs(remap: Seq<(usize, usize)>, eis: Seq<ir::ElseIf>) -> Seq<(usize, usize)>
    decreases eis.len(),
{
    if eis.len() == 0 {
        remap
    } else {
        without_keys(unmap_elseifs(remap, eis.drop_last()), spec_stores(eis.last().block.ins@))
    }
}

/// The constant whose variable a read or a store of `id` uses.
pub open spec fn remapped_in(remap: Seq<(usize, usize)>, id: usize) -> usize {
    match spec_lookup(remap, id) {
        Some(a) => a,
        None => id,
    }
}

/// The C expression of a value.
pub open spec fn expr_at(fr: Frame, remap: Seq<(usize, usize)>, rval: ir::RValue) -> Expr {
    match rval {
        ir::RValue::Const(i) => Expr::VarLit(spec_var_id(fr.0, remapped_in(remap, i))),
        ir::RValue::Param(i) => Expr::VarLit(i),
        ir::RValue::Int(n) => Expr::IntLit(n),
        ir::RValue::Float(f) => Expr::FloatLit(f),
        ir::RValue::Uint(n) => Expr::UintLit(n),
        ir::RValue::Data(idx) => if idx < fr.2.len() {
            match fr.2[idx as int] {
                ir::Data::String(t) => Expr::StrLit(t),
            }
        } else {
            Expr::IntLit(0)
        },
        ir::RValue::Function(_) => Expr::IntLit(0),
        ir::RValue::Void => Expr::IntLit(0),
    }
}

/// The C variable a place is.
pub open spec fn lval_at(fr: Frame, lval: ir::LValue) -> usize {
    match lval {
        ir::LValue::Const(i) => spec_var_id(fr.0, i),
        ir::LValue::Param(i) => i,
    }
}

/// The statement of an instruction that is one statement and holds no
/// other instruction. A store to a constant declared ahead is an
/// assignment.
pub open spec fn simple_at(fr: Frame, s: EmitState, ins: ir::Ins) -> Option<Stmt> {
    match ins {
        ir::Ins::Return(_, rv) => Some(Stmt::Return(if rv is Void { None } else { Some(expr_at(fr, s.0, rv)) })),
        ir::Ins::Store(st) => {
            let a = remapped_in(s.0, st.const_id);
            let value = Box::new(expr_at(fr, s.0, st.rval));
            if spec_lookup(s.1, a) is Some {
                Some(Stmt::VarAssign { lhs: spec_var_id(fr.0, a), rhs: value })
            } else {
                Some(Stmt::VarDecl { ty: spec_ctype(fr.1, st.ty), id: spec_var_id(fr.0, a), value })
            }
        },
        ir::Ins::Assign(a) => Some(Stmt::VarAssign { lhs: lval_at(fr, a.lval), rhs: Box::new(expr_at(fr, s.0, a.rval)) }),
        ir::Ins::Binary(b) => Some(Stmt::Binary {
            ty: spec_ctype(fr.1, b.ty),
            result: spec_var_id(fr.0, b.result),
            op: spec_binary_op(b.op),
            left: Box::new(expr_at(fr, s.0, b.lhs)),
            right: Box::new(expr_at(fr, s.0, b.rhs)),
        }),
        ir::Ins::Unary(u) => Some(Stmt::Unary {
            ty: spec_ctype(fr.1, u.ty),
            result: spec_var_id(fr.0, u.result),
            op: spec_unary_op(u.op),
            expr: Box::new(expr_at(fr, s.0, u.rhs)),
        }),
        ir::Ins::Cast(c) => Some(Stmt::VarDecl {
            ty: spec_ctype(fr.1, c.to_ty),
            id: spec_var_id(fr.0, c.result),
            value: Box::new(Expr::Cast(spec_ctype(fr.1, c.to_ty), Box::new(expr_at(fr, s.0, c.rval)))),
        }),
        ir::Ins::Break => Some(Stmt::Break),
        ir::Ins::Continue => Some(Stmt::Continue),
        _ => None,
    }
}

/// `out` is the translation of a call: the call statement when the
/// callee is a named function, nothing otherwise.
pub open spec fn call_at(fr: Frame, remap: Seq<(usize, usize)>, c: ir::CallIns, out: Seq<Stmt>) -> bool {
    match c.callee {
        ir::RValue::Function(name) => {
            &&& out.len() == 1
            &&& out[0] matches Stmt::Call { ty, dest, callee, args } && ty == spec_ctype(fr.1, c.ty) && dest == lval_at(
                fr,
                c.result,
            ) && callee == name && args@.len() == c.args@.len() && forall|k: int|
                0 <= k < args@.len() ==> args@[k] == expr_at(fr, remap, (#[trigger] c.args@[k]).1)
        },
        _ => out.len() == 0,
    }
}

/// The declaration, ahead of an `if`, of a variable its first branch
/// stores, set to 0.
pub open spec fn predecl_at(fr: Frame, store: (usize, usize)) -> Stmt {
    Stmt::VarDecl { ty: spec_ctype(fr.1, store.1), id: spec_var_id(fr.0, store.0), value: Box::new(Expr::IntLit(0)) }
}

/// The number of statements an instruction adds where it stands.
pub open spec fn out_len(ins: ir::Ins) -> nat
    decreases ins, 0int,
{
    match ins {
        ir::Ins::If(ii) => spec_stores(ii.block.ins@).len() + 1,
        ir::Ins::Conditional(c) => {
            proof {
                assert(decreases_to!(ins, 0int => c.lhs_ins@, 0int)) by {
                    assert(decreases_to!(ins => c));
                    assert(decreases_to!(c => c.lhs_ins));
                    assert(decreases_to!(c.lhs_ins => c.lhs_ins@));
                }
            }
            out_len_seq(c.lhs_ins@) + 2
        },
        ir::Ins::Call(c) => if c.callee is Function {
            1
        } else {
            0
        },
        ir::Ins::Intrinsic(_) => 0,
        _ => 1,
    }
}

/// The number of statements a list of instructions adds where it stands.
pub open spec fn out_len_seq(ins: Seq<ir::Ins>) -> nat
    decreases ins, 0int,
{
    if ins.len() == 0 {
        0
    } else {
        out_len_seq(ins.drop_last()) + out_len(ins.last())
    }
}

/// The state after the translation of a list of instructions.
pub open spec fn st_seq(s: EmitState, ins: Seq<ir::Ins>) -> EmitState
    decreases ins, 0int,
{
    if ins.len() == 0 {
        s
    } else {
        st_one(st_seq(s, ins.drop_last()), ins.last())
    }
}

/// The state after the translation of an instruction. An `if` leaves
/// the constants of its branches unmapped and those of its first branch
/// no longer declared ahead.
pub open spec fn st_one(s: EmitState, ins: ir::Ins) -> EmitState
    decreases ins, 0int,
{
    match ins {
        ir::Ins::If(ii) => {
            proof {
                assert(decreases_to!(ins, 0int => ii.block.ins@, 0int)) by {
                    assert(decreases_to!(ins => ii));
                    assert(decreases_to!(ii => ii.block));
                    assert(decreases_to!(ii.block => ii.block.ins));
                    assert(decreases_to!(ii.block.ins => ii.block.ins@));
                }
                assert(decreases_to!(ins, 0int => ii, ii.elseif@.len() as int)) by {
                    assert(decreases_to!(ins => ii));
                }
                if ii.elseblock is Some {
                    let b = ii.elseblock->0;
                    assert(decreases_to!(ins, 0int => b.ins@, 0int)) by {
                        assert(decreases_to!(ins => ii));
                        assert(decreases_to!(ii => ii.elseblock));
                        assert(decreases_to!(ii.elseblock => b));
                        assert(decreases_to!(b => b.ins));
                        assert(decreases_to!(b.ins => b.ins@));
                    }
                }
            }
            let first = spec_stores(ii.block.ins@);
            let r0 = remap_elseifs(s.0, first, ii.elseif@);
            let r1 = match ii.elseblock {
                Some(b) => remap_stores(r0, first, spec_stores(b.ins@)),
                None => r0,
            };
            let s2 = st_seq((r1, s.1 + first), ii.block.ins@);
            let s3 = match ii.elseblock {
                Some(b) => st_seq(s2, b.ins@),
                None => s2,
            };
            let s4 = st_chain(s3, ii, 0, ii.elseif@.len() as int);
            let r4 = unmap_elseifs(s4.0, ii.elseif@);
            let r5 = match ii.elseblock {
                Some(b) => without_keys(r4, spec_stores(b.ins@)),
                None => r4,
            };
            (r5, without_keys(s4.1, first))
        },
        ir::Ins::While(w) => {
            proof {
                assert(decreases_to!(ins, 0int => w.cond_ins@, 0int)) by {
                    assert(decreases_to!(ins => w));
                    assert(decreases_to!(w => w.cond_ins));
                    assert(decreases_to!(w.cond_ins => w.cond_ins@));
                }
                assert(decreases_to!(ins, 0int => w.block.ins@, 0int)) by {
                    assert(decreases_to!(ins => w));
                    assert(decreases_to!(w => w.block));
                    assert(decreases_to!(w.block => w.block.ins));
                    assert(decreases_to!(w.block.ins => w.block.ins@));
                }
                if w.post is Some {
                    let p = w.post->0;
                    assert(decreases_to!(ins, 0int => p@, 0int)) by {
                        assert(decreases_to!(ins => w));
                        assert(decreases_to!(w => w.post));
                        assert(decreases_to!(w.post => p));
                        assert(decreases_to!(p => p@));
                    }
                }
            }
            let s2 = st_seq(st_seq(s, w.cond_ins@), w.block.ins@);
            match w.post {
                Some(p) => st_seq(s2, p@),
                None => s2,
            }
        },
        ir::Ins::Conditional(c) => {
            proof {
                assert(decreases_to!(ins, 0int => c.lhs_ins@, 0int)) by {
                    assert(decreases_to!(ins => c));
                    assert(decreases_to!(c => c.lhs_ins));
                    assert(decreases_to!(c.lhs_ins => c.lhs_ins@));
                }
                assert(decreases_to!(ins, 0int => c.rhs_ins@, 0int)) by {
                    assert(decreases_to!(ins => c));
                    assert(decreases_to!(c => c.rhs_ins));
                    assert(decreases_to!(c.rhs_ins => c.rhs_ins@));
                }
            }
            st_seq(st_seq(s, c.lhs_ins@), c.rhs_ins@)
        },
        _ => s,
    }
}

/// The state after the else-if branches `lo..` of an `if` are translated,
/// the last one first.
pub open spec fn st_chain(s: EmitState, ii: ir::IfIns, lo: int, hi: int) -> EmitState
    decreases ii, hi - lo,
{
    if lo < 0 || hi > ii.elseif@.len() || hi <= lo {
        s
    } else {
        let before = st_chain(s, ii, lo + 1, hi);
        let ei = ii.elseif@[lo];
        proof {
            assert(decreases_to!(ii, hi - lo => ei.cond_ins@, 0int)) by {
                assert(decreases_to!(ii => ii.elseif));
                assert(decreases_to!(ii.elseif => ii.elseif@));
                assert(decreases_to!(ii.elseif@ => ei));
                assert(decreases_to!(ei => ei.cond_ins));
                assert(decreases_to!(ei.cond_ins => ei.cond_ins@));
            }
            assert(decreases_to!(ii, hi - lo => ei.block.ins@, 0int)) by {
                assert(decreases_to!(ii => ii.elseif));
                assert(decreases_to!(ii.elseif => ii.elseif@));
                assert(decreases_to!(ii.elseif@ => ei));
                assert(decreases_to!(ei => ei.block));
                assert(decreases_to!(ei.block => ei.block.ins));
                assert(decreases_to!(ei.block.ins => ei.block.ins@));
            }
        }
        st_seq(st_seq(before, ei.cond_ins@), ei.block.ins@)
    }
}

/// `out` is the translation of the instructions `ins` from state `s`.
pub open spec fn emits_seq(fr: Frame, s: EmitState, ins: Seq<ir::Ins>, out: Seq<Stmt>) -> bool
    decreases ins, 0int,
{
    if ins.len() == 0 {
        out.len() == 0
    } else {
        let k = out_len_seq(ins.drop_last());
        &&& out.len() == k + out_len(ins.last())
        &&& emits_seq(fr, s, ins.drop_last(), out.take(k as int))
        &&& emits_one(fr, st_seq(s, ins.drop_last()), ins.last(), out.skip(k as int))
    }
}

/// `out` is the translation of the instruction `ins` from state `s`: the
/// statements it adds where it stands. An `if` declares the variables its
/// first branch stores ahead of it, set to 0, and its later branches store
/// to those variables, position by position; its else-if branches nest in
/// else blocks. A loop is `while (1)` with a guard that breaks out. A
/// short-circuit operation sets its result to the value the left side
/// decides and computes the right side only when it does not decide.
pub open spec fn emits_one(fr: Frame, s: EmitState, ins: ir::Ins, out: Seq<Stmt>) -> bool
    decreases ins, 0int,
{
    match ins {
        ir::Ins::If(ii) => {
            proof {
                assert(decreases_to!(ins, 0int => ii.block.ins@, 0int)) by {
                    assert(decreases_to!(ins => ii));
                    assert(decreases_to!(ii => ii.block));
                    assert(decreases_to!(ii.block => ii.block.ins));
                    assert(decreases_to!(ii.block.ins => ii.block.ins@));
                }
                assert(decreases_to!(ins, 0int => ii, ii.elseif@.len() as int)) by {
                    assert(decreases_to!(ins => ii));
                }
            }
            let first = spec_stores(ii.block.ins@);
            let r0 = remap_elseifs(s.0, first, ii.elseif@);
            let r1 = match ii.elseblock {
                Some(b) => remap_stores(r0, first, spec_stores(b.ins@)),
                None => r0,
            };
            let s1 = (r1, s.1 + first);
            let s2 = st_seq(s1, ii.block.ins@);
            let s3 = match ii.elseblock {
                Some(b) => st_seq(s2, b.ins@),
                None => s2,
            };
            &&& out.len() == first.len() + 1
            &&& forall|k: int| 0 <= k < first.len() ==> out[k] == predecl_at(fr, #[trigger] first[k])
            &&& out.last() matches Stmt::If { cond, body, else_ } && cond == expr_at(fr, r1, ii.cond) && emits_seq(
                fr,
                s1,
                ii.block.ins@,
                body@,
            ) && emits_chain(fr, s2, s3, ii, 0, else_)
        },
        ir::Ins::While(w) => {
            proof {
                assert(decreases_to!(ins, 0int => w.cond_ins@, 0int)) by {
                    assert(decreases_to!(ins => w));
                    assert(decreases_to!(w => w.cond_ins));
                    assert(decreases_to!(w.cond_ins => w.cond_ins@));
                }
                assert(decreases_to!(ins, 0int => w.block.ins@, 0int)) by {
                    assert(decreases_to!(ins => w));
                    assert(decreases_to!(w => w.block));
                    assert(decreases_to!(w.block => w.block.ins));
                    assert(decreases_to!(w.block.ins => w.block.ins@));
                }
                if w.post is Some {
                    let p = w.post->0;
                    assert(decreases_to!(ins, 0int => p@, 0int)) by {
                        assert(decreases_to!(ins => w));
                        assert(decreases_to!(w => w.post));
                        assert(decreases_to!(w.post => p));
                        assert(decreases_to!(p => p@));
                    }
                }
            }
            let s1 = st_seq(s, w.cond_ins@);
            let s2 = st_seq(s1, w.block.ins@);
            let n1 = out_len_seq(w.cond_ins@) as int;
            let n2 = out_len_seq(w.block.ins@) as int;
            let n3 = match w.post {
                Some(p) => out_len_seq(p@) as int,
                None => 0int,
            };
            &&& out.len() == 1
            &&& out[0] matches Stmt::While { body } && {
                &&& body@.len() == n1 + 1 + n2 + n3
                &&& emits_seq(fr, s, w.cond_ins@, body@.take(n1 as int))
                &&& body@[n1 as int] matches Stmt::If { cond, body: brk, else_ } && cond == Expr::Not(
                    Box::new(expr_at(fr, s1.0, w.cond)),
                ) && brk@ == seq![Stmt::Break] && else_ is None
                &&& emits_seq(fr, s1, w.block.ins@, body@.subrange(n1 + 1, n1 + 1 + n2))
                &&& match w.post {
                    Some(p) => emits_seq(fr, s2, p@, body@.skip(n1 + 1 + n2)),
                    None => true,
                }
            }
        },
        ir::Ins::Conditional(c) => {
            proof {
                assert(decreases_to!(ins, 0int => c.lhs_ins@, 0int)) by {
                    assert(decreases_to!(ins => c));
                    assert(decreases_to!(c => c.lhs_ins));
                    assert(decreases_to!(c.lhs_ins => c.lhs_ins@));
                }
                assert(decreases_to!(ins, 0int => c.rhs_ins@, 0int)) by {
                    assert(decreases_to!(ins => c));
                    assert(decreases_to!(c => c.rhs_ins));
                    assert(decreases_to!(c.rhs_ins => c.rhs_ins@));
                }
            }
            let s1 = st_seq(s, c.lhs_ins@);
            let s2 = st_seq(s1, c.rhs_ins@);
            let k = out_len_seq(c.lhs_ins@);
            let id = spec_var_id(fr.0, c.result);
            let lhs = expr_at(fr, s1.0, c.lhs);
            &&& out.len() == k + 2
            &&& emits_seq(fr, s, c.lhs_ins@, out.take(k as int))
            &&& out[k as int] == (Stmt::VarDecl {
                ty: Type::Int8,
                id,
                value: Box::new(if c.op == ir::IRCondOp::And { Expr::IntLit(0) } else { Expr::IntLit(1) }),
            })
            &&& out[k as int + 1] matches Stmt::If { cond, body, else_ } && else_ is None && cond == (if c.op
                == ir::IRCondOp::And {
                lhs
            } else {
                Expr::Not(Box::new(lhs))
            }) && body@.len() == out_len_seq(c.rhs_ins@) + 1 && emits_seq(fr, s1, c.rhs_ins@, body@.drop_last())
                && body@.last() == (Stmt::VarAssign { lhs: id, rhs: Box::new(expr_at(fr, s2.0, c.rhs)) })
        },
        ir::Ins::Call(c) => call_at(fr, s.0, c, out),
        ir::Ins::Intrinsic(_) => out.len() == 0,
        _ => simple_at(fr, s, ins) matches Some(st) && out == seq![st],
    }
}

/// `x` is the else block that else-if branch `j` of `ii` stands in: the
/// statements of its condition, then an `if` on it whose else block is
/// that of branch `j + 1`; after the last branch, the `if`'s own else
/// block. The branches are emitted last one first, starting in the state
/// `s3` that the else block leaves; the else block starts in the state
/// `s2` that the first branch leaves.
pub open spec fn emits_chain(fr: Frame, s2: EmitState, s3: EmitState, ii: ir::IfIns, j: int, x: Option<Vec<Stmt>>) -> bool
    decreases ii, ii.elseif@.len() - j,
{
    if j < 0 || j >= ii.elseif@.len() {
        match ii.elseblock {
            Some(b) => {
                proof {
                    assert(decreases_to!(ii, ii.elseif@.len() - j => b.ins@, 0int)) by {
                        assert(decreases_to!(ii => ii.elseblock));
                        assert(decreases_to!(ii.elseblock => b));
                        assert(decreases_to!(b => b.ins));
                        assert(decreases_to!(b.ins => b.ins@));
                    }
                }
                x matches Some(v) && emits_seq(fr, s2, b.ins@, v@)
            },
            None => x is None,
        }
    } else {
        let ei = ii.elseif@[j];
        proof {
            assert(decreases_to!(ii, ii.elseif@.len() - j => ei.cond_ins@, 0int)) by {
                assert(decreases_to!(ii => ii.elseif));
                assert(decreases_to!(ii.elseif => ii.elseif@));
                assert(decreases_to!(ii.elseif@ => ei));
                assert(decreases_to!(ei => ei.cond_ins));
                assert(decreases_to!(ei.cond_ins => ei.cond_ins@));
            }
            assert(decreases_to!(ii, ii.elseif@.len() - j => ei.block.ins@, 0int)) by {
                assert(decreases_to!(ii => ii.elseif));
                assert(decreases_to!(ii.elseif => ii.elseif@));
                assert(decreases_to!(ii.elseif@ => ei));
                assert(decreases_to!(ei => ei.block));
                assert(decreases_to!(ei.block => ei.block.ins));
                assert(decreases_to!(ei.block.ins => ei.block.ins@));
            }
        }
        let s = st_chain(s3, ii, j + 1, ii.elseif@.len() as int);
        let sc = st_seq(s, ei.cond_ins@);
        let k = out_len_seq(ei.cond_ins@);
        &&& x matches Some(v)
        &&& v@.len() == k + 1
        &&& emits_seq(fr, s, ei.cond_ins@, v@.take(k as int))
        &&& v@[k as int] matches Stmt::If { cond, body, else_ }
        &&& cond == expr_at(fr, sc.0, ei.cond)
        &&& emits_seq(fr, sc, ei.block.ins@, body@)
        &&& emits_chain(fr, s2, s3, ii, j + 1, else_)
    }
}

/// A translation adds as many statements as `out_len` counts.
pub proof fn lemma_emits_one_len(fr: Frame, s: EmitState, x: ir::Ins, out: Seq<Stmt>)
    requires
        emits_one(fr, s, x, out),
    ensures
        out.len() == out_len(x),
{
}

/// The translation of a list of instructions, extended by that of one more.
pub proof fn lemma_emits_push(fr: Frame, s: EmitState, ins: Seq<ir::Ins>, x: ir::Ins, a: Seq<Stmt>, b: Seq<Stmt>)
    requires
        emits_seq(fr, s, ins, a),
        emits_one(fr, st_seq(s, ins), x, b),
    ensures
        emits_seq(fr, s, ins.push(x), a + b),
        st_seq(s, ins.push(x)) == st_one(st_seq(s, ins), x),
        a.len() == out_len_seq(ins),
{
    let t = ins.push(x);
    assert(t.drop_last() =~= ins);
    assert(t.last() == x);
    lemma_emits_one_len(fr, st_seq(s, ins), x, b);
    assert((a + b).take(a.len() as int) =~= a);
    assert((a + b).skip(a.len() as int) =~= b);
}

/// A translation of a list of instructions has `out_len_seq` statements.
pub proof fn lemma_emits_seq_len(fr: Frame, s: EmitState, ins: Seq<ir::Ins>, out: Seq<Stmt>)
    requires
        emits_seq(fr, s, ins, out),
    ensures
        out.len() == out_len_seq(ins),
{
}


} // verus!
