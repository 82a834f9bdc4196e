use vstd::prelude::*;

use crate::common::text::{decimal, int_text, push_i64, push_str, push_u64};
use crate::ir::types::{IRType, Primitive};

verus! {

/// A declaration of a small C file model.
pub enum Decl {
    Extern(ExternNode),
    Function(FunctionNode),
    Block(BlockNode),
}

pub enum Stmt {
    Return(Option<Expr>),
}

pub enum Expr {
    Void,
    Int(i64),
}

pub enum CType {
    Void,
    Pointer(Box<CType>),
    Named(String),
    U8,
    U16,
    U32,
    U64,
    I8,
    I16,
    I32,
    I64,
    F32,
    F64,
}

/// The qualifiers written before a type.
#[derive(Debug, Clone, Copy, PartialEq, Eq, Structural)]
pub struct TypeModifier {
    pub mstatic: bool,
    pub mconst: bool,
    pub unsigned: bool,
}

pub struct ExternNode {
    pub name: String,
    pub args: Vec<CType>,
    pub ret: CType,
}

pub struct FunctionNode {
    pub name: String,
    pub args: Vec<CType>,
    pub body: BlockNode,
    pub ret: CType,
}

pub struct BlockNode {
    pub stmts: Vec<Stmt>,
}

/// The C spelling of a type; both float types are `float`.
pub open spec fn ctype_text(t: CType) -> Seq<char>
    decreases t,
{
    match t {
        CType::Pointer(inner) => ctype_text(*inner) + "*"@,
        CType::Named(name) => name@,
        CType::Void => "void"@,
        CType::U8 => "uint8_t"@,
        CType::U16 => "uint16_t"@,
        CType::U32 => "uint32_t"@,
        CType::U64 => "uint64_t"@,
        CType::I8 => "int8_t"@,
        CType::I16 => "int16_t"@,
        CType::I32 => "int32_t"@,
        CType::I64 => "int64_t"@,
        CType::F32 => "float"@,
        CType::F64 => "float"@,
    }
}

/// The qualifiers, each followed by a space.
pub open spec fn modifier_text(m: TypeModifier) -> Seq<char> {
    (if m.mstatic { "static "@ } else { Seq::empty() }) + (if m.mconst { "const "@ } else { Seq::empty() }) + (
    if m.unsigned {
        "unsigned "@
    } else {
        Seq::empty()
    })
}

/// The C type of a machine primitive; a string is a pointer to `uint8_t`.
pub open spec fn spec_from_primitive(p: Primitive) -> CType {
    match p {
        Primitive::Void => CType::Void,
        Primitive::F32 => CType::F32,
        Primitive::F64 => CType::F64,
        Primitive::U8 => CType::U8,
        Primitive::U16 => CType::U16,
        Primitive::U32 => CType::U32,
        Primitive::U64 => CType::U64,
        Primitive::I8 => CType::I8,
        Primitive::I16 => CType::I16,
        Primitive::I32 => CType::I32,
        Primitive::I64 => CType::I64,
        Primitive::String => CType::Pointer(Box::new(CType::U8)),
    }
}

impl CType {
    pub fn to_text(&self) -> (r: String)
        ensures
            r@ == ctype_text(*self),
        decreases self,
    {
        match self {
            CType::Pointer(inner) => {
                let mut s = inner.to_text();
                push_str(&mut s, "*");
                s
            },
            CType::Named(name) => name.clone(),
            CType::Void => String::from_str("void"),
            CType::U8 => String::from_str("uint8_t"),
            CType::U16 => String::from_str("uint16_t"),
            CType::U32 => String::from_str("uint32_t"),
            CType::U64 => String::from_str("uint64_t"),
            CType::I8 => String::from_str("int8_t"),
            CType::I16 => String::from_str("int16_t"),
            CType::I32 => String::from_str("int32_t"),
            CType::I64 => String::from_str("int64_t"),
            CType::F32 => String::from_str("float"),
            CType::F64 => String::from_str("float"),
        }
    }

    /// The C type of a machine primitive; a string is a pointer to `uint8_t`.
    pub fn from_primitive(p: Primitive) -> (r: CType)
        ensures
            r == spec_from_primitive(p),
    {
        match p {
            Primitive::Void => CType::Void,
            Primitive::F32 => CType::F32,
            Primitive::F64 => CType::F64,
            Primitive::U8 => CType::U8,
            Primitive::U16 => CType::U16,
            Primitive::U32 => CType::U32,
            Primitive::U64 => CType::U64,
            Primitive::I8 => CType::I8,
            Primitive::I16 => CType::I16,
            Primitive::I32 => CType::I32,
            Primitive::I64 => CType::I64,
            Primitive::String => CType::Pointer(Box::new(CType::U8)),
        }
    }

    /// The C type of a machine type, if it is a primitive.
    pub fn from_ir(t: &IRType) -> (r: Option<CType>)
        ensures
            *t matches IRType::Primitive(p) ==> r == Some(spec_from_primitive(p)),
            t is Function ==> r is None,
    {
        match t {
            IRType::Primitive(p) => Some(CType::from_primitive(*p)),
            IRType::Function(_, _) => None,
        }
    }
}

impl TypeModifier {
    pub fn to_text(&self) -> (r: String)
        ensures
            r@ == modifier_text(*self),
    {
        let mut s = String::new();
        if self.mstatic {
            push_str(&mut s, "static ");
        }
        if self.mconst {
            push_str(&mut s, "const ");
        }
        if self.unsigned {
            push_str(&mut s, "unsigned ");
        }
        assert(s@ =~= modifier_text(*self));
        s
    }
}

impl Expr {
    pub fn to_text(&self) -> (r: String)
        ensures
            r@ == c_expr_text(*self),
    {
        match self {
            Expr::Void => String::from_str("void"),
            Expr::Int(n) => {
                let mut s = String::new();
                push_i64(&mut s, *n);
                assert(s@ =~= int_text(*n as int));
                s
            },
        }
    }
}

/// The text of an expression.
pub open spec fn c_expr_text(e: Expr) -> Seq<char> {
    match e {
        Expr::Void => "void"@,
        Expr::Int(n) => int_text(n as int),
    }
}

/// The text of a statement.
pub open spec fn c_stmt_text(st: Stmt) -> Seq<char> {
    match st {
        Stmt::Return(e) => "return "@ + match e {
            Some(x) => c_expr_text(x),
            None => Seq::empty(),
        } + ";"@,
    }
}

/// The arguments, each as its type and `a<position>`, joined by commas.
pub open spec fn c_args_text(args: Seq<CType>) -> Seq<char>
    decreases args.len(),
{
    if args.len() == 0 {
        Seq::empty()
    } else if args.len() == 1 {
        ctype_text(args[0]) + " a"@ + decimal(0)
    } else {
        c_args_text(args.drop_last()) + ", "@ + ctype_text(args.last()) + " a"@ + decimal((args.len() - 1) as nat)
    }
}

/// The statements, one a line.
pub open spec fn c_stmts_text(stmts: Seq<Stmt>) -> Seq<char>
    decreases stmts.len(),
{
    if stmts.len() == 0 {
        Seq::empty()
    } else if stmts.len() == 1 {
        c_stmt_text(stmts[0])
    } else {
        c_stmts_text(stmts.drop_last()) + "\n"@ + c_stmt_text(stmts.last())
    }
}

/// The statements of a block in braces.
pub open spec fn c_block_text(b: BlockNode) -> Seq<char> {
    "{\n"@ + c_stmts_text(b.stmts@) + "\n}"@
}

/// The text of a declaration.
pub open spec fn c_decl_text(d: Decl) -> Seq<char> {
    match d {
        Decl::Extern(n) => "extern "@ + ctype_text(n.ret) + " "@ + n.name@ + "("@ + c_args_text(n.args@) + ");\n"@,
        Decl::Function(n) => ctype_text(n.ret) + " "@ + n.name@ + "("@ + c_args_text(n.args@) + ")\n"@ + c_block_text(
            n.body,
        ) + "\n"@,
        Decl::Block(n) => c_block_text(n),
    }
}

impl Stmt {
    pub fn to_text(&self) -> (r: String)
        ensures
            r@ == c_stmt_text(*self),
    {
        match self {
            Stmt::Return(e) => {
                let mut s = String::from_str("return ");
                match e {
                    Some(e) => {
                        let t = e.to_text();
                        push_str(&mut s, t.as_str());
                    },
                    None => {},
                }
                push_str(&mut s, ";");
                proof {
                    reveal_strlit("return ");
                }
                assert(s@ =~= c_stmt_text(*self));
                s
            },
        }
    }
}

/// The arguments, each as its type and `a<position>`, joined by commas.
fn args_to_string(args: &Vec<CType>) -> (r: String)
    ensures
        r@ == c_args_text(args@),
{
    let mut s = String::new();
    let mut i: usize = 0;
    while i < args.len()
        invariant
            i <= args@.len(),
            s@ == c_args_text(args@.take(i as int)),
        decreases args@.len() - i,
    {
        if i > 0 {
            push_str(&mut s, ", ");
        }
        let t = args[i].to_text();
        push_str(&mut s, t.as_str());
        push_str(&mut s, " a");
        push_u64(&mut s, i as u64);
        proof {
            let tk = args@.take(i + 1);
            assert(tk.drop_last() =~= args@.take(i as int));
            assert(tk.last() == args@[i as int]);
            assert(s@ =~= c_args_text(tk));
        }
        i = i + 1;
    }
    assert(args@.take(args@.len() as int) =~= args@);
    s
}

/// The statements in braces, one a line.
fn block_to_string(block: &BlockNode) -> (r: String)
    ensures
        r@ == c_block_text(*block),
{
    let mut s = String::new();
    let mut i: usize = 0;
    while i < block.stmts.len()
        invariant
            i <= block.stmts@.len(),
            s@ == c_stmts_text(block.stmts@.take(i as int)),
        decreases block.stmts@.len() - i,
    {
        if i > 0 {
            push_str(&mut s, "\n");
        }
        let t = block.stmts[i].to_text();
        push_str(&mut s, t.as_str());
        proof {
            let tk = block.stmts@.take(i + 1);
            assert(tk.drop_last() =~= block.stmts@.take(i as int));
            assert(tk.last() == block.stmts@[i as int]);
            assert(s@ =~= c_stmts_text(tk));
        }
        i = i + 1;
    }
    assert(block.stmts@.take(block.stmts@.len() as int) =~= block.stmts@);
    let mut r = String::from_str("{\n");
    push_str(&mut r, s.as_str());
    push_str(&mut r, "\n}");
    proof {
        reveal_strlit("{\n");
    }
    assert(r@ =~= c_block_text(*block));
    r
}

impl Decl {
    pub fn to_text(&self) -> (r: String)
        ensures
            r@ == c_decl_text(*self),
    {
        match self {
            Decl::Extern(node) => {
                let mut s = String::from_str("extern ");
                let r = node.ret.to_text();
                push_str(&mut s, r.as_str());
                push_str(&mut s, " ");
                push_str(&mut s, node.name.as_str());
                push_str(&mut s, "(");
                let a = args_to_string(&node.args);
                push_str(&mut s, a.as_str());
                push_str(&mut s, ");\n");
                proof {
                    reveal_strlit("extern ");
                }
                assert(s@ =~= c_decl_text(*self));
                s
            },
            Decl::Function(node) => {
                let r = node.ret.to_text();
                let mut s = r;
                push_str(&mut s, " ");
                push_str(&mut s, node.name.as_str());
                push_str(&mut s, "(");
                let a = args_to_string(&node.args);
                push_str(&mut s, a.as_str());
                push_str(&mut s, ")\n");
                let b = block_to_string(&node.body);
                push_str(&mut s, b.as_str());
                push_str(&mut s, "\n");
                assert(s@ =~= c_decl_text(*self));
                s
            },
            Decl::Block(node) => block_to_string(node),
        }
    }
}

} // verus!
