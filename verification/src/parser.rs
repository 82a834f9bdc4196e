#![verifier::loop_isolation(false)]

use vstd::prelude::*;

use crate::ast::nodes::{
    Ast, BinaryExpr, BlockNode, CallExpr, CastExpr, Decl, ElseBlock, Expr, Field, ForNode,
    FuncDeclNode, FuncNode, GroupExpr, IfNode, ImportNode, MemberNode, OpAssignNode, ReturnNode,
    Stmt, TypeNode, UnaryExpr, VarAssignNode, VarDeclNode, WhileNode,
};
use crate::ast::token::{Token, TokenKind};
use crate::common::error::{Diagnostics, Report, Res};
use crate::common::source::Pos;

verus! {

/// Parses the tokens of one source file into its syntax tree. Parsing stops
/// at the first error, which is the one reported.
pub fn parse(toks: &Vec<Token>) -> (r: Res<Ast>)
    requires
        tokens_fit(toks@),
    ensures
        r matches Err(d) ==> d@.len() == 1,
        toks@.len() == 0 ==> (r matches Ok(ast) && ast.decls@.len() == 0 && ast.imports@.len() == 0),
        r is Ok <==> file_ok(toks@),
{
    let p = Parser { toks };
    match p.parse_file() {
        Ok(ast) => Ok(ast),
        Err(e) => Err(Diagnostics::one(e)),
    }
}

/// The binding strength of a binary operator: higher binds tighter.
pub open spec fn spec_binary_level(k: TokenKind) -> Option<u8> {
    match k {
        TokenKind::Or => Some(0u8),
        TokenKind::And => Some(1u8),
        TokenKind::EqEq | TokenKind::NotEq => Some(2u8),
        TokenKind::Less | TokenKind::LessEq | TokenKind::Greater | TokenKind::GreaterEq => Some(3u8),
        TokenKind::Plus | TokenKind::Minus => Some(4u8),
        TokenKind::Star | TokenKind::Slash | TokenKind::Percent => Some(5u8),
        _ => None,
    }
}

pub fn binary_level(k: &TokenKind) -> (r: Option<u8>)
    ensures
        r == spec_binary_level(*k),
{
    match k {
        TokenKind::Or => Some(0),
        TokenKind::And => Some(1),
        TokenKind::EqEq | TokenKind::NotEq => Some(2),
        TokenKind::Less | TokenKind::LessEq | TokenKind::Greater | TokenKind::GreaterEq => Some(3),
        TokenKind::Plus | TokenKind::Minus => Some(4),
        TokenKind::Star | TokenKind::Slash | TokenKind::Percent => Some(5),
        _ => None,
    }
}

const MAX_LEVEL: u8 = 6;

struct Parser<'a> {
    toks: &'a Vec<Token>,
}

/// Token lists short enough that positions a few tokens past the end fit in
/// a `usize`.
pub open spec fn tokens_fit(toks: Seq<Token>) -> bool {
    toks.len() + 4 <= usize::MAX
}

/// Where the run of newlines from `p` on ends.
pub open spec fn nl_end(toks: Seq<Token>, p: int) -> int
    decreases toks.len() - p,
{
    if 0 <= p < toks.len() && toks[p].kind is Newline {
        nl_end(toks, p + 1)
    } else {
        p
    }
}

pub proof fn lemma_nl_end(toks: Seq<Token>, p: int)
    ensures
        nl_end(toks, p) >= p,
        p <= toks.len() ==> nl_end(toks, p) <= toks.len(),
    decreases toks.len() - p,
{
    if 0 <= p < toks.len() && toks[p].kind is Newline {
        lemma_nl_end(toks, p + 1);
    }
}

/// Where the `.name` parts of a module path from `p` on end; `None` when a
/// period is not followed by a name.
pub open spec fn dotted_end(toks: Seq<Token>, p: int) -> Option<int>
    decreases toks.len() - p,
{
    if 0 <= p < toks.len() && toks[p].kind is Dot {
        if p + 1 < toks.len() && toks[p + 1].kind is IdentLit {
            dotted_end(toks, p + 2)
        } else {
            None
        }
    } else {
        Some(p)
    }
}

/// Where a list of imported names from `p` on ends, before its `}`: names
/// separated by commas, with newlines around them; `None` when a name is
/// missing.
pub open spec fn items_end(toks: Seq<Token>, p: int) -> Option<int>
    decreases toks.len() - p,
{
    if 0 <= p < toks.len() && toks[p].kind is IdentLit {
        let q = nl_end(toks, p + 1);
        if 0 <= q < toks.len() && toks[q].kind is Comma {
            proof {
                lemma_nl_end(toks, q + 1);
                lemma_nl_end(toks, p + 1);
            }
            items_end(toks, nl_end(toks, q + 1))
        } else {
            Some(q)
        }
    } else {
        None
    }
}

/// Where the written type at `p` ends: a name, or a namespace, a period and
/// a name.
pub open spec fn type_end(toks: Seq<Token>, p: int) -> Option<int> {
    if 0 <= p < toks.len() && toks[p].kind is IdentLit {
        if p + 1 < toks.len() && toks[p + 1].kind is Dot {
            if p + 2 < toks.len() && toks[p + 2].kind is IdentLit {
                Some(p + 3)
            } else {
                None
            }
        } else {
            Some(p + 1)
        }
    } else {
        None
    }
}

/// Where a list of parameters from `p` on ends, before its `)`: a name and
/// a type each, separated by commas.
pub open spec fn params_end(toks: Seq<Token>, p: int) -> Option<int>
    decreases toks.len() - p,
{
    if 0 <= p < toks.len() && toks[p].kind is IdentLit {
        match type_end(toks, p + 1) {
            Some(q) => if q < toks.len() && toks[q].kind is Comma {
                params_end(toks, q + 1)
            } else {
                Some(q)
            },
            None => None,
        }
    } else {
        None
    }
}

/// Where the signature at `pos` ends: a name, the parameters in
/// parentheses, and a return type when a name follows them.
pub open spec fn signature_end(toks: Seq<Token>, pos: int) -> Option<int> {
    if !(0 <= pos && pos + 1 < toks.len() && toks[pos].kind is IdentLit && toks[pos + 1].kind is LParen) {
        None
    } else {
        let pe = if pos + 2 < toks.len() && toks[pos + 2].kind is RParen {
            Some(pos + 2)
        } else {
            params_end(toks, pos + 2)
        };
        match pe {
            Some(c) => if c < toks.len() && toks[c].kind is RParen {
                if c + 1 < toks.len() && toks[c + 1].kind is IdentLit {
                    type_end(toks, c + 1)
                } else {
                    Some(c + 1)
                }
            } else {
                None
            },
            None => None,
        }
    }
}

/// Where the import statement at `pos` ends: `import`, a module path, and
/// either `as` and a name, or a list of names in braces, or nothing more;
/// `None` when it is not well formed.
pub open spec fn import_end(toks: Seq<Token>, pos: int) -> Option<int> {
    if !(pos + 1 < toks.len() && toks[pos + 1].kind is IdentLit) {
        None
    } else {
        match dotted_end(toks, pos + 2) {
            None => None,
            Some(p) => if p < toks.len() && toks[p].kind is As {
                if p + 1 < toks.len() && toks[p + 1].kind is IdentLit {
                    Some(p + 2)
                } else {
                    None
                }
            } else if p < toks.len() && toks[p].kind is LBrace {
                match items_end(toks, nl_end(toks, p + 1)) {
                    Some(q) => if q < toks.len() && toks[q].kind is RBrace {
                        Some(q + 1)
                    } else {
                        None
                    },
                    None => None,
                }
            } else {
                Some(p)
            },
        }
    }
}

/// The token at `p` has the variant of `k`.
pub open spec fn at(toks: Seq<Token>, p: int, k: TokenKind) -> bool {
    0 <= p < toks.len() && spec_same_variant(toks[p].kind, k)
}

/// Where the expression at `p` ends; `None` when none is written there.
pub open spec fn expr_end(toks: Seq<Token>, p: int) -> Option<int>
    decreases toks.len() - p, 12int,
{
    if p < 0 || p >= toks.len() {
        None
    } else {
        binary_end(toks, p, 0)
    }
}

/// Where the operation at `p` of operators binding at least as tightly as
/// `level` ends: operands of the next level joined by operators of this one.
pub open spec fn binary_end(toks: Seq<Token>, p: int, level: int) -> Option<int>
    decreases toks.len() - p, 10 - level,
{
    if level < 0 || level > 6 || p < 0 || p >= toks.len() {
        None
    } else if level == 6 {
        unary_end(toks, p)
    } else {
        match binary_end(toks, p, level + 1) {
            Some(q) => if p < q <= toks.len() {
                binary_tail(toks, q, level)
            } else {
                None
            },
            None => None,
        }
    }
}

/// Where the operators of `level` and their operands from `p` on end.
pub open spec fn binary_tail(toks: Seq<Token>, p: int, level: int) -> Option<int>
    decreases toks.len() - p, 0int,
{
    if 0 <= level < 6 && 0 <= p < toks.len() && spec_binary_level(toks[p].kind) == Some(level as u8) {
        if p + 1 >= toks.len() {
            None
        } else {
            match binary_end(toks, p + 1, level + 1) {
                Some(q) => if p + 1 < q <= toks.len() {
                    binary_tail(toks, q, level)
                } else {
                    None
                },
                None => None,
            }
        }
    } else {
        Some(p)
    }
}

/// Where the operand at `p`, with its leading `-` and `!`, ends.
pub open spec fn unary_end(toks: Seq<Token>, p: int) -> Option<int>
    decreases toks.len() - p, 3int,
{
    if p < 0 || p >= toks.len() {
        None
    } else if at(toks, p, TokenKind::Minus) || at(toks, p, TokenKind::Not) {
        if p + 1 >= toks.len() {
            None
        } else {
            unary_end(toks, p + 1)
        }
    } else {
        postfix_end(toks, p)
    }
}

/// Where the primary expression at `p`, with its calls, members and casts,
/// ends.
pub open spec fn postfix_end(toks: Seq<Token>, p: int) -> Option<int>
    decreases toks.len() - p, 2int,
{
    if p < 0 || p >= toks.len() {
        None
    } else {
        match primary_end(toks, p) {
            Some(q) => if p < q <= toks.len() {
                postfix_tail(toks, q)
            } else {
                None
            },
            None => None,
        }
    }
}

/// Where the calls, members and casts from `p` on end.
pub open spec fn postfix_tail(toks: Seq<Token>, p: int) -> Option<int>
    decreases toks.len() - p, 0int,
{
    if p < 0 || p > toks.len() {
        None
    } else if at(toks, p, TokenKind::LParen) {
        let args = if at(toks, p + 1, TokenKind::RParen) {
            Some(p + 1)
        } else {
            args_end(toks, p + 1)
        };
        match args {
            Some(r) => if p < r < toks.len() && at(toks, r, TokenKind::RParen) {
                postfix_tail(toks, r + 1)
            } else {
                None
            },
            None => None,
        }
    } else if at(toks, p, TokenKind::Dot) {
        if p + 1 < toks.len() && toks[p + 1].kind is IdentLit {
            postfix_tail(toks, p + 2)
        } else {
            None
        }
    } else if at(toks, p, TokenKind::As) {
        match type_end(toks, p + 1) {
            Some(q) => if p < q <= toks.len() {
                postfix_tail(toks, q)
            } else {
                None
            },
            None => None,
        }
    } else {
        Some(p)
    }
}

/// Where the arguments from `p` on end, before their `)`: expressions
/// separated by commas.
pub open spec fn args_end(toks: Seq<Token>, p: int) -> Option<int>
    decreases toks.len() - p, 13int,
{
    if p < 0 || p > toks.len() {
        None
    } else {
        match expr_end(toks, p) {
            Some(q) => if p < q <= toks.len() {
                if at(toks, q, TokenKind::Comma) {
                    args_end(toks, q + 1)
                } else {
                    Some(q)
                }
            } else {
                None
            },
            None => None,
        }
    }
}

/// Where the literal, name or parenthesized expression at `p` ends.
pub open spec fn primary_end(toks: Seq<Token>, p: int) -> Option<int>
    decreases toks.len() - p, 1int,
{
    if p < 0 || p >= toks.len() {
        None
    } else {
        match toks[p].kind {
            TokenKind::IntLit(_) | TokenKind::FloatLit(_) | TokenKind::StringLit(_) | TokenKind::True
            | TokenKind::False | TokenKind::IdentLit(_) => Some(p + 1),
            TokenKind::LParen => match expr_end(toks, p + 1) {
                Some(q) => if p < q < toks.len() && at(toks, q, TokenKind::RParen) {
                    Some(q + 1)
                } else {
                    None
                },
                None => None,
            },
            _ => None,
        }
    }
}

/// Where the declaration, assignment or expression statement at `p` ends.
pub open spec fn simple_end(toks: Seq<Token>, p: int) -> Option<int>
    decreases toks.len() - p, 13int,
{
    if p < 0 || p >= toks.len() {
        None
    } else if toks[p].kind is IdentLit && at(toks, p + 1, TokenKind::ColonEq) {
        expr_end(toks, p + 2)
    } else {
        match expr_end(toks, p) {
            Some(q) => if p < q <= toks.len() {
                if at(toks, q, TokenKind::Eq) || at(toks, q, TokenKind::PlusEq) || at(toks, q, TokenKind::MinusEq)
                    || at(toks, q, TokenKind::StarEq) || at(toks, q, TokenKind::SlashEq) {
                    expr_end(toks, q + 1)
                } else {
                    Some(q)
                }
            } else {
                None
            },
            None => None,
        }
    }
}

/// Where the statement at `p` ends.
pub open spec fn stmt_end(toks: Seq<Token>, p: int) -> Option<int>
    decreases toks.len() - p, 14int,
{
    if p < 0 || p >= toks.len() {
        None
    } else {
        match toks[p].kind {
            TokenKind::Return => if p + 1 >= toks.len() || toks[p + 1].kind is Newline || at(
                toks,
                p + 1,
                TokenKind::RBrace,
            ) {
                Some(p + 1)
            } else {
                expr_end(toks, p + 1)
            },
            TokenKind::If => if_end(toks, p),
            TokenKind::While => match expr_end(toks, p + 1) {
                Some(q) => if p < q <= toks.len() {
                    block_end(toks, q)
                } else {
                    None
                },
                None => None,
            },
            TokenKind::For => if p + 1 >= toks.len() {
                None
            } else {
                match simple_end(toks, p + 1) {
                    Some(q) => if p < q <= toks.len() && at(toks, q, TokenKind::Semicolon) {
                        match expr_end(toks, q + 1) {
                            Some(q2) => if q < q2 <= toks.len() && at(toks, q2, TokenKind::Semicolon) {
                                if q2 + 1 >= toks.len() {
                                    None
                                } else {
                                    match simple_end(toks, q2 + 1) {
                                        Some(q3) => if q2 < q3 <= toks.len() {
                                            block_end(toks, q3)
                                        } else {
                                            None
                                        },
                                        None => None,
                                    }
                                }
                            } else {
                                None
                            },
                            None => None,
                        }
                    } else {
                        None
                    },
                    None => None,
                }
            },
            TokenKind::Break | TokenKind::Continue => Some(p + 1),
            TokenKind::LBrace => block_end(toks, p),
            _ => simple_end(toks, p),
        }
    }
}

/// Where the `if` statement at `p`, with its `else` branches, ends.
pub open spec fn if_end(toks: Seq<Token>, p: int) -> Option<int>
    decreases toks.len() - p, 1int,
{
    if p < 0 || p >= toks.len() {
        None
    } else {
        match expr_end(toks, p + 1) {
            Some(q) => if p < q <= toks.len() {
                match block_end(toks, q) {
                    Some(q2) => if q < q2 <= toks.len() {
                        if at(toks, q2, TokenKind::Else) {
                            if at(toks, q2 + 1, TokenKind::If) {
                                if_end(toks, q2 + 1)
                            } else {
                                block_end(toks, q2 + 1)
                            }
                        } else {
                            Some(q2)
                        }
                    } else {
                        None
                    },
                    None => None,
                }
            } else {
                None
            },
            None => None,
        }
    }
}

/// Where the block at `p` ends: `{`, statements each ended by a newline or
/// the `}`, and `}`.
pub open spec fn block_end(toks: Seq<Token>, p: int) -> Option<int>
    decreases toks.len() - p, 1int,
{
    if at(toks, p, TokenKind::LBrace) {
        let q = nl_end(toks, p + 1);
        if p < q <= toks.len() {
            block_stmts(toks, q)
        } else {
            None
        }
    } else {
        None
    }
}

/// Where the statements of a block from `p` on and its `}` end.
pub open spec fn block_stmts(toks: Seq<Token>, p: int) -> Option<int>
    decreases toks.len() - p, 15int,
{
    if p < 0 || p > toks.len() {
        None
    } else if p < toks.len() && !at(toks, p, TokenKind::RBrace) {
        match stmt_end(toks, p) {
            Some(q) => if p < q <= toks.len() {
                if q < toks.len() && !(toks[q].kind is Newline) && !at(toks, q, TokenKind::RBrace) {
                    None
                } else {
                    let r = nl_end(toks, q);
                    if p < r <= toks.len() {
                        block_stmts(toks, r)
                    } else {
                        None
                    }
                }
            } else {
                None
            },
            None => None,
        }
    } else if at(toks, p, TokenKind::RBrace) {
        Some(p + 1)
    } else {
        None
    }
}

/// Where the declaration at `p` ends: an extern signature, or a function
/// with its body, either of them public.
pub open spec fn decl_end(toks: Seq<Token>, p: int) -> Option<int> {
    let p1 = if at(toks, p, TokenKind::Pub) {
        p + 1
    } else {
        p
    };
    if at(toks, p1, TokenKind::Extern) {
        if at(toks, p1 + 1, TokenKind::Func) {
            signature_end(toks, p1 + 2)
        } else {
            None
        }
    } else if at(toks, p1, TokenKind::Func) {
        match signature_end(toks, p1 + 1) {
            Some(q) => block_end(toks, q),
            None => None,
        }
    } else {
        None
    }
}

/// The imports and declarations from `p` on, each followed by newlines,
/// are well formed.
pub open spec fn file_from(toks: Seq<Token>, p: int) -> bool
    decreases toks.len() - p,
{
    if p < 0 {
        false
    } else if p >= toks.len() {
        true
    } else {
        let e = if at(toks, p, TokenKind::Import) {
            import_end(toks, p)
        } else {
            decl_end(toks, p)
        };
        match e {
            Some(q) => {
                let r = nl_end(toks, q);
                p < r <= toks.len() && file_from(toks, r)
            },
            None => false,
        }
    }
}

/// The tokens make a well-formed file: after leading newlines, imports and
/// declarations.
pub closed spec fn file_ok(toks: Seq<Token>) -> bool {
    file_from(toks, nl_end(toks, 0))
}

impl<'a> Parser<'a> {
    spec fn n(&self) -> int {
        self.toks@.len() as int
    }

    fn len(&self) -> (n: usize)
        requires
            tokens_fit(self.toks@),
        ensures
            n == self.toks@.len(),
    {
        self.toks.len()
    }

    /// Is the token at `pos` of kind `k` (compared by variant)?
    fn is(&self, pos: usize, k: TokenKind) -> (r: bool)
        requires
            tokens_fit(self.toks@),
        ensures
            r == (pos < self.toks@.len() && spec_same_variant(self.toks@[pos as int].kind, k)),
    {
        if pos >= self.toks.len() {
            return false;
        }
        same_variant(&self.toks[pos].kind, &k)
    }

    fn is_newline(&self, pos: usize) -> (r: bool)
        requires
            tokens_fit(self.toks@),
        ensures
            r == (pos < self.toks@.len() && self.toks@[pos as int].kind is Newline),
    {
        pos < self.toks.len() && matches!(self.toks[pos].kind, TokenKind::Newline)
    }

    fn skip_newlines(&self, pos: usize) -> (r: usize)
        requires
            tokens_fit(self.toks@),
            pos <= self.toks@.len(),
        ensures
            pos <= r <= self.toks@.len(),
            forall|i: int| pos <= i < r ==> (#[trigger] self.toks@[i]).kind is Newline,
            r < self.toks@.len() ==> !(self.toks@[r as int].kind is Newline),
            r == nl_end(self.toks@, pos as int),
    {
        let mut p = pos;
        while self.is_newline(p)
            invariant
                pos <= p <= self.toks@.len(),
                nl_end(self.toks@, p as int) == nl_end(self.toks@, pos as int),
                forall|i: int| pos <= i < p ==> (#[trigger] self.toks@[i]).kind is Newline,
            decreases self.toks@.len() - p,
        {
            p = p + 1;
        }
        p
    }

    /// Where to point an error about the token at `pos`.
    fn pos_at(&self, pos: usize) -> (r: Pos)
        ensures
            pos < self.toks@.len() ==> r == self.toks@[pos as int].pos,
            pos >= self.toks@.len() && self.toks@.len() > 0 ==> r == self.toks@.last().end_pos,
    {
        if pos < self.toks.len() {
            self.toks[pos].pos
        } else if self.toks.len() > 0 {
            self.toks[self.toks.len() - 1].end_pos
        } else {
            Pos { row: 0, col: 0, offset: 0, line_begin: 0, source_id: 0 }
        }
    }

    fn error(&self, msg: &str, pos: usize) -> (r: Report)
        ensures
            r.message@ == msg@,
            pos < self.toks@.len() ==> r.pos == self.toks@[pos as int].pos,
    {
        let p = self.pos_at(pos);
        Report::code_error_len(msg, &p, 1)
    }

    /// The token at `pos`, which must be of kind `k`.
    fn expect(&self, pos: usize, k: TokenKind, msg: &str) -> (r: Result<Token, Report>)
        requires
            tokens_fit(self.toks@),
        ensures
            r is Ok <==> (pos < self.toks@.len() && spec_same_variant(self.toks@[pos as int].kind, k)),
            r matches Err(e) ==> e.message@ == msg@,
    {
        if self.is(pos, k) {
            Ok(self.toks[pos].clone())
        } else {
            Err(self.error(msg, pos))
        }
    }

    fn expect_ident(&self, pos: usize, msg: &str) -> (r: Result<Token, Report>)
        requires
            tokens_fit(self.toks@),
        ensures
            r is Ok <==> (pos < self.toks@.len() && self.toks@[pos as int].kind is IdentLit),
            r matches Ok(t) ==> t == self.toks@[pos as int],
            r matches Err(e) ==> e.message@ == msg@,
    {
        if pos < self.toks.len() {
            if let TokenKind::IdentLit(name) = &self.toks[pos].kind {
                let t = Token {
                    kind: TokenKind::IdentLit(name.clone()),
                    length: self.toks[pos].length,
                    pos: self.toks[pos].pos,
                    end_pos: self.toks[pos].end_pos,
                    id: self.toks[pos].id,
                };
                return Ok(t);
            }
        }
        Err(self.error(msg, pos))
    }

    fn parse_file(&self) -> (r: Result<Ast, Report>)
        requires
            tokens_fit(self.toks@),
        ensures
            self.toks@.len() == 0 ==> (r matches Ok(ast) && ast.decls@.len() == 0 && ast.imports@.len() == 0),
            r is Ok <==> file_ok(self.toks@),
    {
        let mut imports: Vec<ImportNode> = Vec::new();
        let mut decls: Vec<Decl> = Vec::new();
        let mut p = self.skip_newlines(0);
        while p < self.len()
            invariant
                p <= self.toks@.len(),
                self.toks@.len() == 0 ==> decls@.len() == 0 && imports@.len() == 0,
                file_ok(self.toks@) == file_from(self.toks@, p as int),
            decreases self.toks@.len() - p,
        {
            if self.is(p, TokenKind::Import) {
                let (node, q) = self.parse_import(p)?;
                imports.push(node);
                p = q;
            } else {
                let (decl, q) = self.parse_decl(p)?;
                decls.push(decl);
                p = q;
            }
            p = self.skip_newlines(p);
        }
        Ok(Ast { imports, decls })
    }

    fn parse_import(&self, pos: usize) -> (r: Result<(ImportNode, usize), Report>)
        requires
            tokens_fit(self.toks@),
            pos < self.toks@.len(),
        ensures
            r matches Ok((_, q)) ==> import_end(self.toks@, pos as int) == Some(q as int),
            r matches Ok((_, q)) ==> pos < q <= self.toks@.len(),
            r is Ok <==> import_end(self.toks@, pos as int) is Some,
            r matches Ok((_, q)) ==> q == import_end(self.toks@, pos as int)->0,
    {
        let kw = self.toks[pos].clone();
        let mut names: Vec<Token> = Vec::new();
        let first = self.expect_ident(pos + 1, "expected module name")?;
        names.push(first);
        let mut p = pos + 2;
        while self.is(p, TokenKind::Dot)
            invariant
                pos < p <= self.toks@.len(),
                dotted_end(self.toks@, p as int) == dotted_end(self.toks@, pos + 2),
            decreases self.toks@.len() - p,
        {
            let name = self.expect_ident(p + 1, "expected module name")?;
            names.push(name);
            p = p + 2;
        }
        let mut imports: Vec<Token> = Vec::new();
        let mut alias: Option<Token> = None;
        let mut end_tok = self.toks[p - 1].clone();
        if self.is(p, TokenKind::As) {
            let a = self.expect_ident(p + 1, "expected alias name")?;
            end_tok = a.clone();
            alias = Some(a);
            p = p + 2;
        } else if self.is(p, TokenKind::LBrace) {
            let ghost lb = p;
            p = self.skip_newlines(p + 1);
            loop
                invariant
                    pos < p <= self.toks@.len(),
                    lb < p,
                    dotted_end(self.toks@, pos + 2) == Some(lb as int),
                    self.toks@[lb as int].kind is LBrace,
                    items_end(self.toks@, p as int) == items_end(self.toks@, nl_end(self.toks@, lb + 1)),
                decreases self.toks@.len() - p,
            {
                let item = self.expect_ident(p, "expected imported name")?;
                imports.push(item);
                p = self.skip_newlines(p + 1);
                if self.is(p, TokenKind::Comma) {
                    p = self.skip_newlines(p + 1);
                } else {
                    break;
                }
            }
            end_tok = self.expect(p, TokenKind::RBrace, "expected '}'")?;
            p = p + 1;
        }
        Ok((ImportNode { kw, names, imports, alias, end_tok }, p))
    }

    fn parse_decl(&self, pos: usize) -> (r: Result<(Decl, usize), Report>)
        requires
            tokens_fit(self.toks@),
            pos < self.toks@.len(),
        ensures
            r is Ok <==> decl_end(self.toks@, pos as int) is Some,
            r matches Ok((_, q)) ==> decl_end(self.toks@, pos as int) == Some(q as int),
            r matches Ok((_, q)) ==> pos < q <= self.toks@.len(),
    {
        let mut p = pos;
        let mut public = false;
        if self.is(p, TokenKind::Pub) {
            public = true;
            p = p + 1;
        }
        if self.is(p, TokenKind::Extern) {
            let _ = self.expect(p + 1, TokenKind::Func, "expected 'func'")?;
            let (name, lparen, params, rparen, ret_type, q) = self.parse_signature(p + 2)?;
            let node = FuncDeclNode { public, name, lparen, params, rparen, ret_type };
            return Ok((Decl::Extern(Box::new(node)), q));
        }
        let _ = self.expect(p, TokenKind::Func, "expected declaration")?;
        let (name, lparen, params, rparen, ret_type, q) = self.parse_signature(p + 1)?;
        let (body, q2) = self.parse_block(q)?;
        let node = FuncNode { public, name, lparen, params, rparen, ret_type, body };
        Ok((Decl::Func(Box::new(node)), q2))
    }

    /// A function's name, parameters and return type.
    fn parse_signature(&self, pos: usize) -> (r: Result<(Token, Token, Vec<Field>, Token, Option<TypeNode>, usize), Report>)
        requires
            tokens_fit(self.toks@),
        ensures
            r matches Ok((_, _, _, _, _, q)) ==> pos < q <= self.toks@.len(),
            r is Ok <==> signature_end(self.toks@, pos as int) is Some,
            r matches Ok((_, _, _, _, _, q)) ==> q == signature_end(self.toks@, pos as int)->0,
    {
        let name = self.expect_ident(pos, "expected function name")?;
        let lparen = self.expect(pos + 1, TokenKind::LParen, "expected '('")?;
        let mut params: Vec<Field> = Vec::new();
        let mut p = pos + 2;
        if !self.is(p, TokenKind::RParen) {
            loop
                invariant
                    pos + 2 <= p <= self.toks@.len(),
                    !(pos + 2 < self.toks@.len() && self.toks@[pos + 2].kind is RParen),
                    pos + 1 < self.toks@.len() && self.toks@[pos as int].kind is IdentLit && self.toks@[pos + 1].kind is LParen,
                    params_end(self.toks@, p as int) == params_end(self.toks@, pos + 2),
                decreases self.toks@.len() - p,
            {
                let pname = self.expect_ident(p, "expected parameter name")?;
                let (typ, q) = self.parse_type(p + 1)?;
                params.push(Field { name: pname, typ });
                p = q;
                if self.is(p, TokenKind::Comma) {
                    p = p + 1;
                } else {
                    break;
                }
            }
        }
        let rparen = self.expect(p, TokenKind::RParen, "expected ')'")?;
        p = p + 1;
        let mut ret_type: Option<TypeNode> = None;
        if p < self.len() && matches!(self.toks[p].kind, TokenKind::IdentLit(_)) {
            let (t, q) = self.parse_type(p)?;
            ret_type = Some(t);
            p = q;
        }
        Ok((name, lparen, params, rparen, ret_type, p))
    }

    fn parse_type(&self, pos: usize) -> (r: Result<(TypeNode, usize), Report>)
        requires
            tokens_fit(self.toks@),
        ensures
            r matches Ok((_, q)) ==> pos < q <= self.toks@.len(),
            r is Ok <==> (pos < self.toks@.len() && self.toks@[pos as int].kind is IdentLit && (pos + 1 < self.toks@.len()
                && self.toks@[pos + 1].kind is Dot ==> pos + 2 < self.toks@.len() && self.toks@[pos + 2].kind is IdentLit)),
            r matches Ok((t, q)) ==> if pos + 1 < self.toks@.len() && self.toks@[pos + 1].kind is Dot {
                q == pos + 3 && t == (TypeNode::Imported {
                    namespace: self.toks@[pos as int],
                    ty: self.toks@[pos + 2],
                })
            } else {
                q == pos + 1 && t == TypeNode::Ident(self.toks@[pos as int])
            },
    {
        let first = self.expect_ident(pos, "expected type")?;
        if self.is(pos + 1, TokenKind::Dot) {
            let ty = self.expect_ident(pos + 2, "expected type name")?;
            return Ok((TypeNode::Imported { namespace: first, ty }, pos + 3));
        }
        Ok((TypeNode::Ident(first), pos + 1))
    }

    #[verifier::rlimit(40)]
    fn parse_block(&self, pos: usize) -> (r: Result<(BlockNode, usize), Report>)
        requires
            tokens_fit(self.toks@),
        ensures
            r is Ok <==> block_end(self.toks@, pos as int) is Some,
            r matches Ok((_, q)) ==> block_end(self.toks@, pos as int) == Some(q as int),
            r matches Ok((_, q)) ==> pos < q <= self.toks@.len(),
        decreases self.toks@.len() - pos, 1nat,
    {
        let lbrace = self.expect(pos, TokenKind::LBrace, "expected '{'")?;
        let mut stmts: Vec<Stmt> = Vec::new();
        let mut p = self.skip_newlines(pos + 1);
        while p < self.len() && !self.is(p, TokenKind::RBrace)
            invariant
                pos < p <= self.toks@.len(),
                block_end(self.toks@, pos as int) == block_stmts(self.toks@, p as int),
            decreases self.toks@.len() - p,
        {
            let (stmt, q) = self.parse_stmt(p)?;
            stmts.push(stmt);
            if q < self.len() && !self.is_newline(q) && !self.is(q, TokenKind::RBrace) {
                return Err(self.error("expected newline after statement", q));
            }
            p = self.skip_newlines(q);
        }
        let rbrace = self.expect(p, TokenKind::RBrace, "expected '}'")?;
        Ok((BlockNode { lbrace, stmts, rbrace }, p + 1))
    }

    fn parse_stmt(&self, pos: usize) -> (r: Result<(Stmt, usize), Report>)
        requires
            tokens_fit(self.toks@),
            pos < self.toks@.len(),
        ensures
            r is Ok <==> stmt_end(self.toks@, pos as int) is Some,
            r matches Ok((_, q)) ==> stmt_end(self.toks@, pos as int) == Some(q as int),
            r matches Ok((_, q)) ==> pos < q <= self.toks@.len(),
        decreases self.toks@.len() - pos, 2nat,
    {
        let kw = self.toks[pos].clone();
        match &self.toks[pos].kind {
            TokenKind::Return => {
                let p = pos + 1;
                if p >= self.len() || self.is_newline(p) || self.is(p, TokenKind::RBrace) {
                    return Ok((Stmt::Return(ReturnNode { kw, expr: None }), p));
                }
                let (e, q) = self.parse_expr(p)?;
                Ok((Stmt::Return(ReturnNode { kw, expr: Some(e) }), q))
            },
            TokenKind::If => {
                let (node, q) = self.parse_if(pos)?;
                Ok((Stmt::If(node), q))
            },
            TokenKind::While => {
                let (e, q) = self.parse_expr(pos + 1)?;
                let (block, q2) = self.parse_block(q)?;
                Ok((Stmt::While(WhileNode { kw, expr: e, block }), q2))
            },
            TokenKind::For => {
                if pos + 1 >= self.len() {
                    return Err(self.error("expected statement", pos + 1));
                }
                let (init, q) = self.parse_simple(pos + 1)?;
                let _ = self.expect(q, TokenKind::Semicolon, "expected ';'")?;
                let (cond, q2) = self.parse_expr(q + 1)?;
                let _ = self.expect(q2, TokenKind::Semicolon, "expected ';'")?;
                if q2 + 1 >= self.len() {
                    return Err(self.error("expected statement", q2 + 1));
                }
                let (inc, q3) = self.parse_simple(q2 + 1)?;
                let (block, q4) = self.parse_block(q3)?;
                let node = ForNode {
                    kw,
                    initializer: Box::new(init),
                    condition: Box::new(cond),
                    increment: Box::new(inc),
                    block,
                };
                Ok((Stmt::For(node), q4))
            },
            TokenKind::Break => Ok((Stmt::Break(kw), pos + 1)),
            TokenKind::Continue => Ok((Stmt::Continue(kw), pos + 1)),
            TokenKind::LBrace => {
                let (block, q) = self.parse_block(pos)?;
                Ok((Stmt::Block(block), q))
            },
            _ => self.parse_simple(pos),
        }
    }

    fn parse_if(&self, pos: usize) -> (r: Result<(IfNode, usize), Report>)
        requires
            tokens_fit(self.toks@),
            pos < self.toks@.len(),
        ensures
            r is Ok <==> if_end(self.toks@, pos as int) is Some,
            r matches Ok((_, q)) ==> if_end(self.toks@, pos as int) == Some(q as int),
            r matches Ok((_, q)) ==> pos < q <= self.toks@.len(),
        decreases self.toks@.len() - pos, 1nat,
    {
        let kw = self.toks[pos].clone();
        let (e, q) = self.parse_expr(pos + 1)?;
        let (block, q2) = self.parse_block(q)?;
        if self.is(q2, TokenKind::Else) {
            if self.is(q2 + 1, TokenKind::If) {
                let (inner, q3) = self.parse_if(q2 + 1)?;
                let node = IfNode { kw, expr: e, block, elseif: Box::new(ElseBlock::ElseIf(Box::new(inner))) };
                return Ok((node, q3));
            }
            let (eblock, q3) = self.parse_block(q2 + 1)?;
            let node = IfNode { kw, expr: e, block, elseif: Box::new(ElseBlock::Else(Box::new(eblock))) };
            return Ok((node, q3));
        }
        Ok((IfNode { kw, expr: e, block, elseif: Box::new(ElseBlock::NoElse) }, q2))
    }

    /// A declaration, an assignment, or an expression statement.
    fn parse_simple(&self, pos: usize) -> (r: Result<(Stmt, usize), Report>)
        requires
            tokens_fit(self.toks@),
            pos < self.toks@.len(),
        ensures
            r is Ok <==> simple_end(self.toks@, pos as int) is Some,
            r matches Ok((_, q)) ==> simple_end(self.toks@, pos as int) == Some(q as int),
            r matches Ok((_, q)) ==> pos < q <= self.toks@.len(),
    {
        if matches!(self.toks[pos].kind, TokenKind::IdentLit(_)) && self.is(pos + 1, TokenKind::ColonEq) {
            let name = self.toks[pos].clone();
            let symbol = self.toks[pos + 1].clone();
            let (e, q) = self.parse_expr(pos + 2)?;
            return Ok((Stmt::VarDecl(VarDeclNode { constant: false, name, symbol, expr: e }), q));
        }
        let (lhs, q) = self.parse_expr(pos)?;
        if self.is(q, TokenKind::Eq) {
            let equal = self.toks[q].clone();
            let (rhs, q2) = self.parse_expr(q + 1)?;
            return Ok((Stmt::VarAssign(VarAssignNode { lval: lhs, equal, expr: rhs }), q2));
        }
        if self.is(q, TokenKind::PlusEq) || self.is(q, TokenKind::MinusEq) || self.is(q, TokenKind::StarEq)
            || self.is(q, TokenKind::SlashEq) {
            let op = self.toks[q].clone();
            let (rhs, q2) = self.parse_expr(q + 1)?;
            return Ok((Stmt::OpAssign(OpAssignNode { lval: lhs, op, rval: rhs }), q2));
        }
        Ok((Stmt::ExprStmt(lhs), q))
    }

    fn parse_expr(&self, pos: usize) -> (r: Result<(Expr, usize), Report>)
        requires
            tokens_fit(self.toks@),
        ensures
            r is Ok <==> expr_end(self.toks@, pos as int) is Some,
            r matches Ok((_, q)) ==> expr_end(self.toks@, pos as int) == Some(q as int),
            r matches Ok((_, q)) ==> pos < q <= self.toks@.len(),
        decreases self.toks@.len() - pos, 12nat,
    {
        if pos >= self.len() {
            return Err(self.error("expected expression", pos));
        }
        self.parse_binary(pos, 0)
    }

    fn parse_binary(&self, pos: usize, level: u8) -> (r: Result<(Expr, usize), Report>)
        requires
            tokens_fit(self.toks@),
            pos < self.toks@.len(),
            level <= MAX_LEVEL,
        ensures
            r is Ok <==> binary_end(self.toks@, pos as int, level as int) is Some,
            r matches Ok((_, q)) ==> binary_end(self.toks@, pos as int, level as int) == Some(q as int),
            r matches Ok((_, q)) ==> pos < q <= self.toks@.len(),
        decreases self.toks@.len() - pos, 10 - level,
    {
        if level == MAX_LEVEL {
            return self.parse_unary(pos);
        }
        let (mut lhs, mut p) = self.parse_binary(pos, level + 1)?;
        while p < self.len() && binary_level(&self.toks[p].kind) == Some(level)
            invariant
                pos < p <= self.toks@.len(),
                level < MAX_LEVEL,
                binary_end(self.toks@, pos as int, level as int) == binary_tail(self.toks@, p as int, level as int),
            decreases self.toks@.len() - p,
        {
            let op = self.toks[p].clone();
            if p + 1 >= self.len() {
                return Err(self.error("expected expression", p + 1));
            }
            let (rhs, q) = self.parse_binary(p + 1, level + 1)?;
            lhs = Expr::Binary(BinaryExpr { lhs: Box::new(lhs), op, rhs: Box::new(rhs) });
            p = q;
        }
        Ok((lhs, p))
    }

    fn parse_unary(&self, pos: usize) -> (r: Result<(Expr, usize), Report>)
        requires
            tokens_fit(self.toks@),
            pos < self.toks@.len(),
        ensures
            r is Ok <==> unary_end(self.toks@, pos as int) is Some,
            r matches Ok((_, q)) ==> unary_end(self.toks@, pos as int) == Some(q as int),
            r matches Ok((_, q)) ==> pos < q <= self.toks@.len(),
        decreases self.toks@.len() - pos, 3nat,
    {
        if self.is(pos, TokenKind::Minus) || self.is(pos, TokenKind::Not) {
            let op = self.toks[pos].clone();
            if pos + 1 >= self.len() {
                return Err(self.error("expected expression", pos + 1));
            }
            let (rhs, q) = self.parse_unary(pos + 1)?;
            return Ok((Expr::Unary(UnaryExpr { op, rhs: Box::new(rhs) }), q));
        }
        self.parse_postfix(pos)
    }

    fn parse_postfix(&self, pos: usize) -> (r: Result<(Expr, usize), Report>)
        requires
            tokens_fit(self.toks@),
            pos < self.toks@.len(),
        ensures
            r is Ok <==> postfix_end(self.toks@, pos as int) is Some,
            r matches Ok((_, q)) ==> postfix_end(self.toks@, pos as int) == Some(q as int),
            r matches Ok((_, q)) ==> pos < q <= self.toks@.len(),
        decreases self.toks@.len() - pos, 2nat,
    {
        let (mut e, mut p) = self.parse_primary(pos)?;
        loop
            invariant
                pos < p <= self.toks@.len(),
                postfix_end(self.toks@, pos as int) == postfix_tail(self.toks@, p as int),
            decreases self.toks@.len() - p,
        {
            if self.is(p, TokenKind::LParen) {
                let lparen = self.toks[p].clone();
                let mut args: Vec<Expr> = Vec::new();
                let mut q = p + 1;
                if !self.is(q, TokenKind::RParen) {
                    loop
                        invariant
                            p < q <= self.toks@.len(),
                            args_end(self.toks@, p + 1) == args_end(self.toks@, q as int),
                        decreases self.toks@.len() - q,
                    {
                        let (arg, q2) = self.parse_expr(q)?;
                        args.push(arg);
                        q = q2;
                        if self.is(q, TokenKind::Comma) {
                            q = q + 1;
                        } else {
                            break;
                        }
                    }
                }
                let rparen = self.expect(q, TokenKind::RParen, "expected ')'")?;
                e = Expr::Call(CallExpr { callee: Box::new(e), lparen, args, rparen });
                p = q + 1;
            } else if self.is(p, TokenKind::Dot) {
                let dot = self.toks[p].clone();
                let field = self.expect_ident(p + 1, "expected field name")?;
                e = Expr::Member(MemberNode { expr: Box::new(e), dot, field });
                p = p + 2;
            } else if self.is(p, TokenKind::As) {
                let kw = self.toks[p].clone();
                let (ty, q) = self.parse_type(p + 1)?;
                e = Expr::Cast(CastExpr { expr: Box::new(e), kw, ty });
                p = q;
            } else {
                break;
            }
        }
        Ok((e, p))
    }

    fn parse_primary(&self, pos: usize) -> (r: Result<(Expr, usize), Report>)
        requires
            tokens_fit(self.toks@),
            pos < self.toks@.len(),
        ensures
            r is Ok <==> primary_end(self.toks@, pos as int) is Some,
            r matches Ok((_, q)) ==> primary_end(self.toks@, pos as int) == Some(q as int),
            r matches Ok((_, q)) ==> pos < q <= self.toks@.len(),
        decreases self.toks@.len() - pos, 1nat,
    {
        let t = self.toks[pos].clone();
        match &self.toks[pos].kind {
            TokenKind::IntLit(_) | TokenKind::FloatLit(_) | TokenKind::StringLit(_) | TokenKind::True
            | TokenKind::False | TokenKind::IdentLit(_) => Ok((Expr::Literal(t), pos + 1)),
            TokenKind::LParen => {
                let (inner, q) = self.parse_expr(pos + 1)?;
                let rparen = self.expect(q, TokenKind::RParen, "expected ')'")?;
                Ok((Expr::Group(GroupExpr { lparen: t, inner: Box::new(inner), rparen }), q + 1))
            },
            _ => Err(self.error("expected expression", pos)),
        }
    }
}

/// Do two token kinds have the same variant (payloads ignored)?
pub open spec fn spec_same_variant(a: TokenKind, b: TokenKind) -> bool {
    match (a, b) {
        (TokenKind::IdentLit(_), TokenKind::IdentLit(_)) => true,
        (TokenKind::IntLit(_), TokenKind::IntLit(_)) => true,
        (TokenKind::FloatLit(_), TokenKind::FloatLit(_)) => true,
        (TokenKind::StringLit(_), TokenKind::StringLit(_)) => true,
        (TokenKind::IdentLit(_), _) | (TokenKind::IntLit(_), _) | (TokenKind::FloatLit(_), _)
        | (TokenKind::StringLit(_), _) => false,
        (_, TokenKind::IdentLit(_)) | (_, TokenKind::IntLit(_)) | (_, TokenKind::FloatLit(_))
        | (_, TokenKind::StringLit(_)) => false,
        _ => a == b,
    }
}

pub fn same_variant(a: &TokenKind, b: &TokenKind) -> (r: bool)
    ensures
        r == spec_same_variant(*a, *b),
{
    let pa = matches!(a, TokenKind::IdentLit(_)) || matches!(a, TokenKind::IntLit(_))
        || matches!(a, TokenKind::FloatLit(_)) || matches!(a, TokenKind::StringLit(_));
    let pb = matches!(b, TokenKind::IdentLit(_)) || matches!(b, TokenKind::IntLit(_))
        || matches!(b, TokenKind::FloatLit(_)) || matches!(b, TokenKind::StringLit(_));
    if pa || pb {
        (matches!(a, TokenKind::IdentLit(_)) && matches!(b, TokenKind::IdentLit(_)))
            || (matches!(a, TokenKind::IntLit(_)) && matches!(b, TokenKind::IntLit(_)))
            || (matches!(a, TokenKind::FloatLit(_)) && matches!(b, TokenKind::FloatLit(_)))
            || (matches!(a, TokenKind::StringLit(_)) && matches!(b, TokenKind::StringLit(_)))
    } else {
        fixed_kind_eq(a, b)
    }
}

/// Equality of two kinds that carry no payload.
fn fixed_kind_eq(a: &TokenKind, b: &TokenKind) -> (r: bool)
    requires
        !(a is IdentLit || a is IntLit || a is FloatLit || a is StringLit),
        !(b is IdentLit || b is IntLit || b is FloatLit || b is StringLit),
    ensures
        r == (*a == *b),
{
    kind_index(a) == kind_index(b)
}

/// A number for each payload-free kind, different for different kinds.
fn kind_index(k: &TokenKind) -> (r: u8)
    requires
        !(k is IdentLit || k is IntLit || k is FloatLit || k is StringLit),
    ensures
        forall|j: TokenKind| !(j is IdentLit || j is IntLit || j is FloatLit || j is StringLit)
            && spec_kind_index(j) == r ==> j == *k,
        r == spec_kind_index(*k),
{
    match k {
        TokenKind::Whitespace => 0, TokenKind::LineComment => 1, TokenKind::BlockComment => 2,
        TokenKind::Newline => 3, TokenKind::Func => 4, TokenKind::Return => 5, TokenKind::If => 6,
        TokenKind::Else => 7, TokenKind::While => 8, TokenKind::For => 9, TokenKind::Break => 10,
        TokenKind::Continue => 11, TokenKind::Pub => 12, TokenKind::Extern => 13,
        TokenKind::Import => 14, TokenKind::As => 15, TokenKind::True => 16, TokenKind::False => 17,
        TokenKind::EqEq => 18, TokenKind::NotEq => 19, TokenKind::GreaterEq => 20,
        TokenKind::LessEq => 21, TokenKind::And => 22, TokenKind::Or => 23,
        TokenKind::ColonEq => 24, TokenKind::PlusEq => 25, TokenKind::MinusEq => 26,
        TokenKind::StarEq => 27, TokenKind::SlashEq => 28, TokenKind::Plus => 29,
        TokenKind::Minus => 30, TokenKind::Star => 31, TokenKind::Slash => 32,
        TokenKind::Percent => 33, TokenKind::Eq => 34, TokenKind::Not => 35,
        TokenKind::Greater => 36, TokenKind::Less => 37, TokenKind::LParen => 38,
        TokenKind::RParen => 39, TokenKind::LBrace => 40, TokenKind::RBrace => 41,
        TokenKind::LBrack => 42, TokenKind::RBrack => 43, TokenKind::Comma => 44,
        TokenKind::Dot => 45, TokenKind::Colon => 46, TokenKind::Semicolon => 47,
        TokenKind::At => 48, _ => 49,
    }
}

pub open spec fn spec_kind_index(k: TokenKind) -> u8 {
    match k {
        TokenKind::Whitespace => 0, TokenKind::LineComment => 1, TokenKind::BlockComment => 2,
        TokenKind::Newline => 3, TokenKind::Func => 4, TokenKind::Return => 5, TokenKind::If => 6,
        TokenKind::Else => 7, TokenKind::While => 8, TokenKind::For => 9, TokenKind::Break => 10,
        TokenKind::Continue => 11, TokenKind::Pub => 12, TokenKind::Extern => 13,
        TokenKind::Import => 14, TokenKind::As => 15, TokenKind::True => 16, TokenKind::False => 17,
        TokenKind::EqEq => 18, TokenKind::NotEq => 19, TokenKind::GreaterEq => 20,
        TokenKind::LessEq => 21, TokenKind::And => 22, TokenKind::Or => 23,
        TokenKind::ColonEq => 24, TokenKind::PlusEq => 25, TokenKind::MinusEq => 26,
        TokenKind::StarEq => 27, TokenKind::SlashEq => 28, TokenKind::Plus => 29,
        TokenKind::Minus => 30, TokenKind::Star => 31, TokenKind::Slash => 32,
        TokenKind::Percent => 33, TokenKind::Eq => 34, TokenKind::Not => 35,
        TokenKind::Greater => 36, TokenKind::Less => 37, TokenKind::LParen => 38,
        TokenKind::RParen => 39, TokenKind::LBrace => 40, TokenKind::RBrace => 41,
        TokenKind::LBrack => 42, TokenKind::RBrack => 43, TokenKind::Comma => 44,
        TokenKind::Dot => 45, TokenKind::Colon => 46, TokenKind::Semicolon => 47,
        TokenKind::At => 48, _ => 49,
    }
}

} // verus!
