use vstd::prelude::*;

use crate::ast::nodes::{
    Ast, BlockNode, CallExpr, Decl, ElseBlock, Expr, Field, FuncDeclNode, FuncNode, IfNode, ImportNode,
    Stmt, TypeNode,
};
use crate::ast::token::{kind_text, kind_to_string, Token};
use crate::common::text::push_str;

verus! {

/// The text of a token.
pub open spec fn tok_text(t: Token) -> Seq<char> {
    kind_text(t.kind)
}

/// `level` levels of indentation, four spaces each.
pub open spec fn src_indent(level: nat) -> Seq<char>
    decreases level,
{
    if level == 0 {
        Seq::empty()
    } else {
        src_indent((level - 1) as nat) + "    "@
    }
}

/// The written form of a type.
pub open spec fn type_node_text(t: TypeNode) -> Seq<char> {
    match t {
        TypeNode::Ident(tok) => tok_text(tok),
        TypeNode::Imported { namespace, ty } => tok_text(namespace) + "."@ + tok_text(ty),
    }
}

/// The parameters, `<name> <type>` each, separated by commas.
pub open spec fn params_text(ps: Seq<Field>) -> Seq<char>
    decreases ps.len(),
{
    if ps.len() == 0 {
        Seq::empty()
    } else if ps.len() == 1 {
        tok_text(ps[0].name) + " "@ + type_node_text(ps[0].typ)
    } else {
        params_text(ps.drop_last()) + ", "@ + tok_text(ps.last().name) + " "@ + type_node_text(ps.last().typ)
    }
}

/// The written form of an expression.
pub open spec fn src_expr_text(e: Expr) -> Seq<char>
    decreases e, 1nat,
{
    match e {
        Expr::Literal(tok) => tok_text(tok),
        Expr::Group(g) => "("@ + src_expr_text(*g.inner) + ")"@,
        Expr::Call(c) => src_expr_text(*c.callee) + "("@ + src_args_text(c.args@) + ")"@,
        Expr::Member(m) => src_expr_text(*m.expr) + "."@ + tok_text(m.field),
        Expr::Binary(b) => src_expr_text(*b.lhs) + " "@ + tok_text(b.op) + " "@ + src_expr_text(*b.rhs),
        Expr::Unary(u) => tok_text(u.op) + src_expr_text(*u.rhs),
        Expr::Cast(c) => src_expr_text(*c.expr) + " as "@ + type_node_text(c.ty),
    }
}

/// The arguments of a call, separated by commas.
pub open spec fn src_args_text(args: Seq<Expr>) -> Seq<char>
    decreases args, 0nat,
{
    if args.len() == 0 {
        Seq::empty()
    } else if args.len() == 1 {
        src_expr_text(args[0])
    } else {
        src_args_text(args.drop_last()) + ", "@ + src_expr_text(args.last())
    }
}

/// The written form of a statement whose block contents are at level
/// `level + 1`.
pub open spec fn src_stmt_text(st: Stmt, level: usize) -> Seq<char>
    decreases st, 2nat,
{
    match st {
        Stmt::ExprStmt(e) => src_expr_text(e),
        Stmt::Return(n) => "return"@ + match n.expr {
            Some(e) => " "@ + src_expr_text(e),
            None => Seq::empty(),
        },
        Stmt::Block(b) => src_block_text(b, level),
        Stmt::VarDecl(n) => tok_text(n.name) + " "@ + tok_text(n.symbol) + " "@ + src_expr_text(n.expr),
        Stmt::VarAssign(n) => src_expr_text(n.lval) + " = "@ + src_expr_text(n.expr),
        Stmt::OpAssign(n) => src_expr_text(n.lval) + " "@ + tok_text(n.op) + " "@ + src_expr_text(n.rval),
        Stmt::While(n) => "while "@ + src_expr_text(n.expr) + " "@ + src_block_text(n.block, level),
        Stmt::For(n) => "for "@ + src_stmt_text(*n.initializer, level) + "; "@ + src_expr_text(*n.condition) + "; "@
            + src_stmt_text(*n.increment, level) + " "@ + src_block_text(n.block, level),
        Stmt::If(n) => src_if_text(n, level),
        Stmt::Break(_) => "break"@,
        Stmt::Continue(_) => "continue"@,
    }
}

/// An `if` with its `else` branches.
pub open spec fn src_if_text(n: IfNode, level: usize) -> Seq<char>
    decreases n, 1nat,
{
    "if "@ + src_expr_text(n.expr) + " "@ + src_block_text(n.block, level) + match *n.elseif {
        ElseBlock::ElseIf(m) => " else "@ + src_if_text(*m, level),
        ElseBlock::Else(b) => " else "@ + src_block_text(*b, level),
        ElseBlock::NoElse => Seq::empty(),
    }
}

/// A block opened at level `level`: each statement on a line of its own
/// one level deeper, and the closing brace at `level`.
pub open spec fn src_block_text(b: BlockNode, level: usize) -> Seq<char>
    decreases b, 0nat,
{
    "{\n"@ + src_lines_text(b.stmts@, deeper(level)) + src_indent(level as nat) + "}"@
}

/// One level deeper, as far as a `usize` goes.
pub open spec fn deeper(level: usize) -> usize {
    if level < usize::MAX {
        (level + 1) as usize
    } else {
        level
    }
}

/// Statements, each indented to `level` and followed by a line break.
pub open spec fn src_lines_text(stmts: Seq<Stmt>, level: usize) -> Seq<char>
    decreases stmts, 3nat,
{
    if stmts.len() == 0 {
        Seq::empty()
    } else {
        src_lines_text(stmts.drop_last(), level) + src_indent(level as nat) + src_stmt_text(stmts.last(), level)
            + "\n"@
    }
}

/// The return type and a space, when there is one.
pub open spec fn ret_text(t: Option<TypeNode>) -> Seq<char> {
    match t {
        Some(x) => type_node_text(x) + " "@,
        None => Seq::empty(),
    }
}

pub open spec fn func_text(n: FuncNode) -> Seq<char> {
    "func "@ + tok_text(n.name) + "("@ + params_text(n.params@) + ") "@ + ret_text(n.ret_type) + src_block_text(n.body, 0)
        + "\n\n"@
}

pub open spec fn extern_text(n: FuncDeclNode) -> Seq<char> {
    "extern func "@ + tok_text(n.name) + "("@ + params_text(n.params@) + ") "@ + ret_text(n.ret_type) + "\n\n"@
}

/// Tokens separated by `sep`.
pub open spec fn joined_tokens(ts: Seq<Token>, sep: Seq<char>) -> Seq<char>
    decreases ts.len(),
{
    if ts.len() == 0 {
        Seq::empty()
    } else if ts.len() == 1 {
        tok_text(ts[0])
    } else {
        joined_tokens(ts.drop_last(), sep) + sep + tok_text(ts.last())
    }
}

pub open spec fn import_text(n: ImportNode) -> Seq<char> {
    "import "@ + joined_tokens(n.names@, "."@) + " "@ + match n.alias {
        Some(a) => "as "@ + tok_text(a),
        None => if n.imports@.len() > 0 {
            "{\n    "@ + joined_tokens(n.imports@, ",\n    "@) + "\n}"@
        } else {
            Seq::empty()
        },
    } + "\n\n"@
}

pub open spec fn decl_src_text(d: Decl) -> Seq<char> {
    match d {
        Decl::Func(n) => func_text(*n),
        Decl::Extern(n) => extern_text(*n),
    }
}

pub open spec fn imports_text(is: Seq<ImportNode>) -> Seq<char>
    decreases is.len(),
{
    if is.len() == 0 {
        Seq::empty()
    } else {
        imports_text(is.drop_last()) + import_text(is.last())
    }
}

pub open spec fn decls_src_text(ds: Seq<Decl>) -> Seq<char>
    decreases ds.len(),
{
    if ds.len() == 0 {
        Seq::empty()
    } else {
        decls_src_text(ds.drop_last()) + decl_src_text(ds.last())
    }
}

/// The source text of a syntax tree: its imports, then its declarations.
pub open spec fn ast_text(ast: Ast) -> Seq<char> {
    imports_text(ast.imports@) + decls_src_text(ast.decls@)
}

/// Writes a syntax tree back as source text.
pub struct Printer {
    s: String,
}

impl Printer {
    /// The source text of a syntax tree: its imports, then its declarations.
    pub fn to_string(ast: &Ast) -> (r: String)
        ensures
            r@ == ast_text(*ast),
    {
        let mut p = Printer { s: String::new() };
        p.imports(&ast.imports);
        p.decls(&ast.decls);
        let mut out = String::new();
        std::mem::swap(&mut out, &mut p.s);
        out
    }

    fn imports(&mut self, is: &Vec<ImportNode>)
        ensures
            final(self).s@ == old(self).s@ + imports_text(is@),
    {
        let mut i: usize = 0;
        while i < is.len()
            invariant
                i <= is@.len(),
                self.s@ == old(self).s@ + imports_text(is@.take(i as int)),
            decreases is@.len() - i,
        {
            self.import(&is[i]);
            proof {
                let t = is@.take(i + 1);
                assert(t.drop_last() =~= is@.take(i as int));
                assert(t.last() == is@[i as int]);
                assert(self.s@ =~= old(self).s@ + imports_text(t));
            }
            i = i + 1;
        }
        assert(is@.take(is@.len() as int) =~= is@);
    }

    fn decls(&mut self, ds: &Vec<Decl>)
        ensures
            final(self).s@ == old(self).s@ + decls_src_text(ds@),
    {
        let mut i: usize = 0;
        while i < ds.len()
            invariant
                i <= ds@.len(),
                self.s@ == old(self).s@ + decls_src_text(ds@.take(i as int)),
            decreases ds@.len() - i,
        {
            self.decl(&ds[i]);
            proof {
                let t = ds@.take(i + 1);
                assert(t.drop_last() =~= ds@.take(i as int));
                assert(t.last() == ds@[i as int]);
                assert(self.s@ =~= old(self).s@ + decls_src_text(t));
            }
            i = i + 1;
        }
        assert(ds@.take(ds@.len() as int) =~= ds@);
    }

    fn decl(&mut self, d: &Decl)
        ensures
            final(self).s@ == old(self).s@ + decl_src_text(*d),
    {
        match d {
            Decl::Func(node) => self.func(node),
            Decl::Extern(node) => self.extern_decl(node),
        }
    }

    fn token(&mut self, tok: &Token)
        ensures
            final(self).s@ == old(self).s@ + tok_text(*tok),
    {
        let t = kind_to_string(&tok.kind);
        push_str(&mut self.s, t.as_str());
    }

    fn push_indent(&mut self, level: usize)
        ensures
            final(self).s@ == old(self).s@ + src_indent(level as nat),
    {
        let mut i: usize = 0;
        while i < level
            invariant
                i <= level,
                self.s@ == old(self).s@ + src_indent(i as nat),
            decreases level - i,
        {
            push_str(&mut self.s, "    ");
            assert(self.s@ =~= old(self).s@ + src_indent((i + 1) as nat));
            i = i + 1;
        }
    }

    fn typ(&mut self, node: &TypeNode)
        ensures
            final(self).s@ == old(self).s@ + type_node_text(*node),
    {
        match node {
            TypeNode::Ident(tok) => self.token(tok),
            TypeNode::Imported { namespace, ty } => {
                self.token(namespace);
                push_str(&mut self.s, ".");
                self.token(ty);
                assert(self.s@ =~= old(self).s@ + type_node_text(*node));
            },
        }
    }

    fn params(&mut self, params: &Vec<Field>)
        ensures
            final(self).s@ == old(self).s@ + params_text(params@),
    {
        let mut i: usize = 0;
        while i < params.len()
            invariant
                i <= params@.len(),
                self.s@ == old(self).s@ + params_text(params@.take(i as int)),
            decreases params@.len() - i,
        {
            if i > 0 {
                push_str(&mut self.s, ", ");
            }
            self.token(&params[i].name);
            push_str(&mut self.s, " ");
            self.typ(&params[i].typ);
            proof {
                let t = params@.take(i + 1);
                assert(t.drop_last() =~= params@.take(i as int));
                assert(t.last() == params@[i as int]);
                assert(self.s@ =~= old(self).s@ + params_text(t));
            }
            i = i + 1;
        }
        assert(params@.take(params@.len() as int) =~= params@);
    }

    fn ret(&mut self, t: &Option<TypeNode>)
        ensures
            final(self).s@ == old(self).s@ + ret_text(*t),
    {
        match t {
            Some(t) => {
                self.typ(t);
                push_str(&mut self.s, " ");
            },
            None => {},
        }
        assert(self.s@ =~= old(self).s@ + ret_text(*t));
    }

    fn func(&mut self, node: &FuncNode)
        ensures
            final(self).s@ == old(self).s@ + func_text(*node),
    {
        push_str(&mut self.s, "func ");
        self.token(&node.name);
        push_str(&mut self.s, "(");
        self.params(&node.params);
        push_str(&mut self.s, ") ");
        self.ret(&node.ret_type);
        self.block(&node.body, 0);
        push_str(&mut self.s, "\n\n");
        assert(self.s@ =~= old(self).s@ + func_text(*node));
    }

    fn extern_decl(&mut self, node: &FuncDeclNode)
        ensures
            final(self).s@ == old(self).s@ + extern_text(*node),
    {
        push_str(&mut self.s, "extern func ");
        self.token(&node.name);
        push_str(&mut self.s, "(");
        self.params(&node.params);
        push_str(&mut self.s, ") ");
        self.ret(&node.ret_type);
        push_str(&mut self.s, "\n\n");
        assert(self.s@ =~= old(self).s@ + extern_text(*node));
    }

    /// The tokens, separated by `sep`.
    fn tokens(&mut self, ts: &Vec<Token>, sep: &str)
        ensures
            final(self).s@ == old(self).s@ + joined_tokens(ts@, sep@),
    {
        let mut i: usize = 0;
        while i < ts.len()
            invariant
                i <= ts@.len(),
                self.s@ == old(self).s@ + joined_tokens(ts@.take(i as int), sep@),
            decreases ts@.len() - i,
        {
            if i > 0 {
                push_str(&mut self.s, sep);
            }
            self.token(&ts[i]);
            proof {
                let t = ts@.take(i + 1);
                assert(t.drop_last() =~= ts@.take(i as int));
                assert(t.last() == ts@[i as int]);
                assert(self.s@ =~= old(self).s@ + joined_tokens(t, sep@));
            }
            i = i + 1;
        }
        assert(ts@.take(ts@.len() as int) =~= ts@);
    }

    fn import(&mut self, node: &ImportNode)
        ensures
            final(self).s@ == old(self).s@ + import_text(*node),
    {
        push_str(&mut self.s, "import ");
        self.tokens(&node.names, ".");
        push_str(&mut self.s, " ");
        let ghost mid = self.s@;
        match &node.alias {
            Some(alias) => {
                push_str(&mut self.s, "as ");
                self.token(alias);
            },
            None => {
                if node.imports.len() > 0 {
                    push_str(&mut self.s, "{\n    ");
                    self.tokens(&node.imports, ",\n    ");
                    push_str(&mut self.s, "\n}");
                }
            },
        }
        push_str(&mut self.s, "\n\n");
        assert(self.s@ =~= old(self).s@ + import_text(*node));
    }

    /// A block opened at level `level`.
    fn block(&mut self, node: &BlockNode, level: usize)
        ensures
            final(self).s@ == old(self).s@ + src_block_text(*node, level),
        decreases node, 0nat,
    {
        push_str(&mut self.s, "{\n");
        let ghost head = self.s@;
        let inner = if level < usize::MAX { level + 1 } else { level };
        let mut i: usize = 0;
        while i < node.stmts.len()
            invariant
                i <= node.stmts@.len(),
                inner == deeper(level),
                self.s@ == head + src_lines_text(node.stmts@.take(i as int), inner),
            decreases node.stmts@.len() - i,
        {
            proof {
                assert(decreases_to!(node => node.stmts@[i as int])) by {
                    assert(decreases_to!(node => node.stmts));
                    assert(decreases_to!(node.stmts => node.stmts@));
                    assert(decreases_to!(node.stmts@ => node.stmts@[i as int]));
                }
            }
            self.push_indent(inner);
            self.stmt(&node.stmts[i], inner);
            push_str(&mut self.s, "\n");
            proof {
                let t = node.stmts@.take(i + 1);
                assert(t.drop_last() =~= node.stmts@.take(i as int));
                assert(t.last() == node.stmts@[i as int]);
                assert(self.s@ =~= head + src_lines_text(t, inner));
            }
            i = i + 1;
        }
        assert(node.stmts@.take(node.stmts@.len() as int) =~= node.stmts@);
        self.push_indent(level);
        push_str(&mut self.s, "}");
        assert(self.s@ =~= old(self).s@ + src_block_text(*node, level));
    }

    /// A statement in a block at level `level`.
    #[verifier::rlimit(40)]
    fn stmt(&mut self, stmt: &Stmt, level: usize)
        ensures
            final(self).s@ == old(self).s@ + src_stmt_text(*stmt, level),
        decreases stmt, 1nat,
    {
        let ghost start = self.s@;
        match stmt {
            Stmt::ExprStmt(e) => self.expr(e),
            Stmt::Return(node) => {
                push_str(&mut self.s, "return");
                match &node.expr {
                    Some(e) => {
                        push_str(&mut self.s, " ");
                        self.expr(e);
                    },
                    None => {},
                }
                assert(self.s@ =~= start + src_stmt_text(*stmt, level));
            },
            Stmt::Block(b) => self.block(b, level),
            Stmt::VarDecl(node) => {
                self.token(&node.name);
                push_str(&mut self.s, " ");
                self.token(&node.symbol);
                push_str(&mut self.s, " ");
                self.expr(&node.expr);
                assert(self.s@ =~= start + src_stmt_text(*stmt, level));
            },
            Stmt::VarAssign(node) => {
                self.expr(&node.lval);
                push_str(&mut self.s, " = ");
                self.expr(&node.expr);
                assert(self.s@ =~= start + src_stmt_text(*stmt, level));
            },
            Stmt::OpAssign(node) => {
                self.expr(&node.lval);
                push_str(&mut self.s, " ");
                self.token(&node.op);
                push_str(&mut self.s, " ");
                self.expr(&node.rval);
                assert(self.s@ =~= start + src_stmt_text(*stmt, level));
            },
            Stmt::While(node) => {
                push_str(&mut self.s, "while ");
                self.expr(&node.expr);
                push_str(&mut self.s, " ");
                self.block(&node.block, level);
                assert(self.s@ =~= start + src_stmt_text(*stmt, level));
            },
            Stmt::For(node) => {
                push_str(&mut self.s, "for ");
                self.stmt(&node.initializer, level);
                push_str(&mut self.s, "; ");
                self.expr(&node.condition);
                push_str(&mut self.s, "; ");
                self.stmt(&node.increment, level);
                push_str(&mut self.s, " ");
                self.block(&node.block, level);
                assert(self.s@ =~= start + src_stmt_text(*stmt, level));
            },
            Stmt::If(node) => self.if_stmt(node, level),
            Stmt::Break(_) => push_str(&mut self.s, "break"),
            Stmt::Continue(_) => push_str(&mut self.s, "continue"),
        }
    }

    fn if_stmt(&mut self, node: &IfNode, level: usize)
        ensures
            final(self).s@ == old(self).s@ + src_if_text(*node, level),
        decreases node, 1nat,
    {
        let ghost start = self.s@;
        push_str(&mut self.s, "if ");
        self.expr(&node.expr);
        push_str(&mut self.s, " ");
        self.block(&node.block, level);
        let ghost mid = self.s@;
        match &*node.elseif {
            ElseBlock::ElseIf(n) => {
                push_str(&mut self.s, " else ");
                self.if_stmt(n, level);
            },
            ElseBlock::Else(b) => {
                push_str(&mut self.s, " else ");
                self.block(b, level);
            },
            ElseBlock::NoElse => {},
        }
        assert(self.s@ =~= start + src_if_text(*node, level));
    }

    fn call(&mut self, node: &CallExpr)
        ensures
            final(self).s@ == old(self).s@ + src_expr_text(*node.callee) + "("@ + src_args_text(node.args@) + ")"@,
        decreases node,
    {
        self.expr(&node.callee);
        push_str(&mut self.s, "(");
        let ghost head = self.s@;
        let mut i: usize = 0;
        while i < node.args.len()
            invariant
                i <= node.args@.len(),
                self.s@ == head + src_args_text(node.args@.take(i as int)) + if 0 < i < node.args@.len() {
                    ", "@
                } else {
                    Seq::empty()
                },
            decreases node.args@.len() - i,
        {
            proof {
                assert(decreases_to!(node => node.args@[i as int])) by {
                    assert(decreases_to!(node => node.args));
                    assert(decreases_to!(node.args => node.args@));
                    assert(decreases_to!(node.args@ => node.args@[i as int]));
                }
            }
            self.expr(&node.args[i]);
            proof {
                let t = node.args@.take(i + 1);
                assert(t.drop_last() =~= node.args@.take(i as int));
                assert(t.last() == node.args@[i as int]);
                assert(self.s@ =~= head + src_args_text(t));
            }
            if i + 1 != node.args.len() {
                push_str(&mut self.s, ", ");
            }
            i = i + 1;
        }
        assert(node.args@.take(node.args@.len() as int) =~= node.args@);
        push_str(&mut self.s, ")");
    }

    fn expr(&mut self, e: &Expr)
        ensures
            final(self).s@ == old(self).s@ + src_expr_text(*e),
        decreases e,
    {
        let ghost start = self.s@;
        match e {
            Expr::Literal(tok) => self.token(tok),
            Expr::Group(g) => {
                push_str(&mut self.s, "(");
                self.expr(&g.inner);
                push_str(&mut self.s, ")");
            },
            Expr::Call(c) => self.call(c),
            Expr::Member(m) => {
                self.expr(&m.expr);
                push_str(&mut self.s, ".");
                self.token(&m.field);
            },
            Expr::Binary(b) => {
                self.expr(&b.lhs);
                push_str(&mut self.s, " ");
                self.token(&b.op);
                push_str(&mut self.s, " ");
                self.expr(&b.rhs);
            },
            Expr::Unary(u) => {
                self.token(&u.op);
                self.expr(&u.rhs);
            },
            Expr::Cast(c) => {
                self.expr(&c.expr);
                push_str(&mut self.s, " as ");
                self.typ(&c.ty);
            },
        }
        assert(self.s@ =~= start + src_expr_text(*e));
    }
}

} // verus!
