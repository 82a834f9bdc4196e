use vstd::prelude::*;

use crate::common::text::{decimal, int_text, push_char, push_i64, push_str, push_u64};

verus! {

/// A C source file.
pub struct Ast {
    pub decls: Vec<Decl>,
}

pub enum Decl {
    Include(String),
    ExternFunc { name: String, params: Vec<Type>, ret: Type },
    Function { name: String, params: Vec<(usize, Type)>, ret: Type, body: Vec<Stmt> },
}

pub enum Type {
    Void,
    Int8,
    Int16,
    Int32,
    Int64,
    Uint8,
    Uint16,
    Uint32,
    Uint64,
    Float,
    Pointer(Box<Type>),
}

#[derive(Debug, Clone, Copy, PartialEq, Eq, Structural)]
pub enum BinaryOp {
    Plus,
    Minus,
    Div,
    Mult,
    Equal,
    NotEqual,
    Greater,
    Less,
    GreaterEqual,
    LessEqual,
    Modulo,
}

#[derive(Debug, Clone, Copy, PartialEq, Eq, Structural)]
pub enum UnaryOp {
    Minus,
    Not,
}

pub enum Expr {
    IntLit(i64),
    /// A float literal, as written.
    FloatLit(String),
    UintLit(u64),
    VarLit(usize),
    StrLit(String),
    Not(Box<Expr>),
    Cast(Type, Box<Expr>),
}

pub enum Stmt {
    Return(Option<Expr>),
    Binary { ty: Type, result: usize, op: BinaryOp, left: Box<Expr>, right: Box<Expr> },
    Unary { ty: Type, result: usize, op: UnaryOp, expr: Box<Expr> },
    VarDecl { ty: Type, id: usize, value: Box<Expr> },
    VarAssign { lhs: usize, rhs: Box<Expr> },
    Call { ty: Type, dest: usize, callee: String, args: Vec<Expr> },
    If { cond: Expr, body: Vec<Stmt>, else_: Option<Vec<Stmt>> },
    While { body: Vec<Stmt> },
    Break,
    Continue,
    Goto(String),
    Label(String),
}

/// The C spelling of a type.
pub open spec fn type_text(t: Type) -> Seq<char>
    decreases t,
{
    match t {
        Type::Void => "void"@,
        Type::Int8 => "int8_t"@,
        Type::Int16 => "int16_t"@,
        Type::Int32 => "int32_t"@,
        Type::Int64 => "int64_t"@,
        Type::Uint8 => "uint8_t"@,
        Type::Uint16 => "uint16_t"@,
        Type::Uint32 => "uint32_t"@,
        Type::Uint64 => "uint64_t"@,
        Type::Float => "float"@,
        Type::Pointer(inner) => type_text(*inner) + "*"@,
    }
}

/// What the C binary operator spelled `text` gives on integer operands:
/// `+ - * / %` their arithmetic (division rounding toward zero, as C
/// does), and the comparisons 1 when they hold and 0 when they do not.
/// Any other spelling gives 0.
pub open spec fn c_operator_value(text: Seq<char>, a: int, b: int) -> int {
    if text.len() == 1 {
        if text[0] == '+' {
            a + b
        } else if text[0] == '-' {
            a - b
        } else if text[0] == '*' {
            a * b
        } else if text[0] == '/' {
            crate::common::arith::trunc_div(a, b)
        } else if text[0] == '%' {
            crate::common::arith::trunc_rem(a, b)
        } else if text[0] == '>' {
            crate::common::arith::truth(a > b)
        } else if text[0] == '<' {
            crate::common::arith::truth(a < b)
        } else {
            0
        }
    } else if text.len() == 2 && text[1] == '=' {
        if text[0] == '=' {
            crate::common::arith::truth(a == b)
        } else if text[0] == '!' {
            crate::common::arith::truth(a != b)
        } else if text[0] == '>' {
            crate::common::arith::truth(a >= b)
        } else if text[0] == '<' {
            crate::common::arith::truth(a <= b)
        } else {
            0
        }
    } else {
        0
    }
}

pub open spec fn binary_op_text(op: BinaryOp) -> Seq<char> {
    match op {
        BinaryOp::Plus => "+"@,
        BinaryOp::Minus => "-"@,
        BinaryOp::Div => "/"@,
        BinaryOp::Mult => "*"@,
        BinaryOp::Equal => "=="@,
        BinaryOp::NotEqual => "!="@,
        BinaryOp::Greater => ">"@,
        BinaryOp::Less => "<"@,
        BinaryOp::GreaterEqual => ">="@,
        BinaryOp::LessEqual => "<="@,
        BinaryOp::Modulo => "%"@,
    }
}

/// What the C unary operator spelled `text` gives on an integer operand:
/// `-` its negation, `!` 1 when it is 0 and 0 otherwise. Any other spelling
/// gives 0.
pub open spec fn c_unary_value(text: Seq<char>, a: int) -> int {
    if text.len() == 1 && text[0] == '-' {
        -a
    } else if text.len() == 1 && text[0] == '!' {
        crate::common::arith::truth(a == 0)
    } else {
        0
    }
}

pub open spec fn unary_op_text(op: UnaryOp) -> Seq<char> {
    match op {
        UnaryOp::Minus => "-"@,
        UnaryOp::Not => "!"@,
    }
}

/// A character as it is written inside a C string literal.
pub open spec fn escaped(c: char) -> Seq<char> {
    if c == '\\' {
        seq!['\\', '\\']
    } else if c == '"' {
        seq!['\\', '"']
    } else if c == '\n' {
        seq!['\\', 'n']
    } else if c == '\r' {
        seq!['\\', 'r']
    } else if c == '\t' {
        seq!['\\', 't']
    } else {
        seq![c]
    }
}

/// The characters of `s`, each escaped.
pub open spec fn escaped_str(s: Seq<char>) -> Seq<char>
    decreases s.len(),
{
    if s.len() == 0 {
        Seq::empty()
    } else {
        escaped_str(s.drop_last()) + escaped(s.last())
    }
}

/// A string without backslashes, quotes, newlines, carriage returns or tabs
/// is written in a literal as it is.
pub proof fn law_plain_strings_unescaped(s: Seq<char>)
    requires
        forall|i: int| 0 <= i < s.len() ==> s[i] != '\\' && s[i] != '"' && s[i] != '\n' && s[i] != '\r'
            && s[i] != '\t',
    ensures
        escaped_str(s) == s,
    decreases s.len(),
{
    if s.len() > 0 {
        law_plain_strings_unescaped(s.drop_last());
        assert(s =~= s.drop_last().push(s.last()));
        assert(escaped(s.last()) == seq![s.last()]);
        assert(escaped_str(s) =~= s);
    }
}

/// The C spelling of an expression.
pub open spec fn expr_text(e: Expr) -> Seq<char>
    decreases e,
{
    match e {
        Expr::IntLit(n) => int_text(n as int),
        Expr::FloatLit(s) => s@,
        Expr::UintLit(n) => decimal(n as nat),
        Expr::VarLit(id) => "t"@ + decimal(id as nat),
        Expr::StrLit(s) => "\""@ + escaped_str(s@) + "\""@,
        Expr::Not(inner) => "!"@ + expr_text(*inner),
        Expr::Cast(t, inner) => "("@ + type_text(t) + ")("@ + expr_text(*inner) + ")"@,
    }
}

/// `level` levels of indentation, four spaces each.
pub open spec fn indent(level: nat) -> Seq<char>
    decreases level,
{
    if level == 0 {
        Seq::empty()
    } else {
        indent((level - 1) as nat) + "    "@
    }
}

impl Type {
    pub fn to_text(&self) -> (r: String)
        ensures
            r@ == type_text(*self),
        decreases self,
    {
        match self {
            Type::Void => String::from_str("void"),
            Type::Int8 => String::from_str("int8_t"),
            Type::Int16 => String::from_str("int16_t"),
            Type::Int32 => String::from_str("int32_t"),
            Type::Int64 => String::from_str("int64_t"),
            Type::Uint8 => String::from_str("uint8_t"),
            Type::Uint16 => String::from_str("uint16_t"),
            Type::Uint32 => String::from_str("uint32_t"),
            Type::Uint64 => String::from_str("uint64_t"),
            Type::Float => String::from_str("float"),
            Type::Pointer(inner) => {
                let mut s = inner.to_text();
                push_str(&mut s, "*");
                s
            },
        }
    }

    /// Is this `void`?
    pub fn is_void(&self) -> (r: bool)
        ensures
            r == (*self is Void),
    {
        match self {
            Type::Void => true,
            _ => false,
        }
    }
}

impl BinaryOp {
    pub fn text(&self) -> (r: &'static str)
        ensures
            r@ == binary_op_text(*self),
    {
        match self {
            BinaryOp::Plus => "+",
            BinaryOp::Minus => "-",
            BinaryOp::Div => "/",
            BinaryOp::Mult => "*",
            BinaryOp::Equal => "==",
            BinaryOp::NotEqual => "!=",
            BinaryOp::Greater => ">",
            BinaryOp::Less => "<",
            BinaryOp::GreaterEqual => ">=",
            BinaryOp::LessEqual => "<=",
            BinaryOp::Modulo => "%",
        }
    }
}

impl UnaryOp {
    pub fn text(&self) -> (r: &'static str)
        ensures
            r@ == unary_op_text(*self),
    {
        match self {
            UnaryOp::Minus => "-",
            UnaryOp::Not => "!",
        }
    }
}

/// Appends `s` written as the inside of a C string literal.
fn push_escaped(out: &mut String, s: &str)
    ensures
        final(out)@ == old(out)@ + escaped_str(s@),
{
    let n = s.unicode_len();
    let mut i: usize = 0;
    while i < n
        invariant
            n == s@.len(),
            i <= n,
            out@ == old(out)@ + escaped_str(s@.take(i as int)),
        decreases n - i,
    {
        let c = s.get_char(i);
        if c == '\\' {
            push_str(out, "\\\\");
        } else if c == '"' {
            push_str(out, "\\\"");
        } else if c == '\n' {
            push_str(out, "\\n");
        } else if c == '\r' {
            push_str(out, "\\r");
        } else if c == '\t' {
            push_str(out, "\\t");
        } else {
            push_char(out, c);
        }
        proof {
            reveal_strlit("\\\\");
            reveal_strlit("\\\"");
            reveal_strlit("\\n");
            reveal_strlit("\\r");
            reveal_strlit("\\t");
            assert(s@.take(i + 1).drop_last() =~= s@.take(i as int));
        }
        assert(out@ =~= old(out)@ + escaped_str(s@.take(i + 1)));
        i = i + 1;
    }
    assert(s@.take(n as int) =~= s@);
}

impl Expr {
    pub fn push_text(&self, out: &mut String)
        ensures
            final(out)@ == old(out)@ + expr_text(*self),
        decreases self,
    {
        match self {
            Expr::IntLit(n) => push_i64(out, *n),
            Expr::FloatLit(s) => push_str(out, s.as_str()),
            Expr::UintLit(n) => push_u64(out, *n),
            Expr::VarLit(id) => {
                push_str(out, "t");
                push_u64(out, *id as u64);
                assert(out@ =~= old(out)@ + expr_text(*self));
            },
            Expr::StrLit(s) => {
                push_str(out, "\"");
                push_escaped(out, s.as_str());
                push_str(out, "\"");
                assert(out@ =~= old(out)@ + expr_text(*self));
            },
            Expr::Not(inner) => {
                push_str(out, "!");
                inner.push_text(out);
                assert(out@ =~= old(out)@ + expr_text(*self));
            },
            Expr::Cast(t, inner) => {
                push_str(out, "(");
                let ts = t.to_text();
                push_str(out, ts.as_str());
                push_str(out, ")(");
                inner.push_text(out);
                push_str(out, ")");
                assert(out@ =~= old(out)@ + expr_text(*self));
            },
        }
    }

    pub fn to_text(&self) -> (r: String)
        ensures
            r@ == expr_text(*self),
    {
        let mut s = String::new();
        self.push_text(&mut s);
        assert(s@ =~= expr_text(*self));
        s
    }
}

fn push_indent(out: &mut String, level: usize)
    ensures
        final(out)@ == old(out)@ + indent(level as nat),
{
    let mut i: usize = 0;
    while i < level
        invariant
            i <= level,
            out@ == old(out)@ + indent(i as nat),
        decreases level - i,
    {
        push_str(out, "    ");
        assert(out@ =~= old(out)@ + indent((i + 1) as nat));
        i = i + 1;
    }
}

/// The level of a block's statements: one deeper, as far as a `usize` goes.
pub open spec fn inner_level(level: usize) -> usize {
    if level < usize::MAX {
        (level + 1) as usize
    } else {
        level
    }
}

/// What follows a statement that is not the last of its block: a line
/// break, and an empty line after an `if` or a `while`.
pub open spec fn separator(s: Stmt) -> Seq<char> {
    if s is If || s is While {
        "\n\n"@
    } else {
        "\n"@
    }
}

/// The C name of variable `id`.
pub open spec fn var_text(id: usize) -> Seq<char> {
    "t"@ + decimal(id as nat)
}

/// The arguments of a call, separated by commas.
pub open spec fn args_text(args: Seq<Expr>) -> Seq<char>
    decreases args.len(),
{
    if args.len() == 0 {
        Seq::empty()
    } else if args.len() == 1 {
        expr_text(args[0])
    } else {
        args_text(args.drop_last()) + ", "@ + expr_text(args.last())
    }
}

/// The C text of a statement at the given level of indentation. A label
/// is not indented.
pub open spec fn stmt_text(s: Stmt, level: usize) -> Seq<char>
    decreases s, 1nat,
{
    if s is Label {
        stmt_body_text(s, level)
    } else {
        indent(level as nat) + stmt_body_text(s, level)
    }
}

/// The text of a statement after its indentation.
pub open spec fn stmt_body_text(s: Stmt, level: usize) -> Seq<char>
    decreases s, 0nat,
{
    let ind = indent(level as nat);
    match s {
        Stmt::Return(e) => "return "@ + match e {
            Some(x) => expr_text(x),
            None => Seq::empty(),
        } + ";"@,
        Stmt::Binary { ty, result, op, left, right } => type_text(ty) + " "@ + var_text(result) + " = "@
            + expr_text(*left) + " "@ + binary_op_text(op) + " "@ + expr_text(*right) + ";"@,
        Stmt::Unary { ty, result, op, expr } => type_text(ty) + " "@ + var_text(result) + " = "@
            + unary_op_text(op) + expr_text(*expr) + ";"@,
        Stmt::VarDecl { ty, id, value } => type_text(ty) + " "@ + var_text(id) + " = "@ + expr_text(*value)
            + ";"@,
        Stmt::VarAssign { lhs, rhs } => var_text(lhs) + " = "@ + expr_text(*rhs) + ";"@,
        Stmt::Call { ty, dest, callee, args } => (if ty is Void {
            Seq::empty()
        } else {
            type_text(ty) + " "@ + var_text(dest) + " = "@
        }) + callee@ + "("@ + args_text(args@) + ");"@,
        Stmt::If { cond, body, else_ } => "if ("@ + expr_text(cond) + ") {\n"@ + stmts_text(
            body@,
            inner_level(level),
        ) + "\n"@ + ind + "}"@ + match else_ {
            Some(b) => " else {\n"@ + stmts_text(b@, inner_level(level)) + "\n"@ + ind + "}"@,
            None => Seq::empty(),
        },
        Stmt::While { body } => "while (1) {\n"@ + stmts_text(body@, inner_level(level)) + "\n"@ + ind + "}"@,
        Stmt::Break => "break;"@,
        Stmt::Continue => "continue;"@,
        Stmt::Goto(l) => "goto "@ + l@ + ";"@,
        Stmt::Label(l) => l@ + ":"@,
    }
}

/// The statements of a block, one a line, each but the last followed by
/// its separator.
pub open spec fn stmts_text(stmts: Seq<Stmt>, level: usize) -> Seq<char>
    decreases stmts, 3nat,
{
    if stmts.len() == 0 {
        Seq::empty()
    } else if stmts.len() == 1 {
        stmt_text(stmts[0], level)
    } else {
        stmts_text(stmts.drop_last(), level) + separator(stmts[stmts.len() - 2]) + stmt_text(stmts.last(), level)
    }
}

/// Appends `t<id>`.
fn push_var(out: &mut String, id: usize)
    ensures
        final(out)@ == old(out)@ + var_text(id),
{
    push_str(out, "t");
    push_u64(out, id as u64);
    assert(out@ =~= old(out)@ + var_text(id));
}

/// Appends the arguments of a call, separated by commas.
fn push_args(out: &mut String, args: &Vec<Expr>)
    ensures
        final(out)@ == old(out)@ + args_text(args@),
{
    let mut i: usize = 0;
    while i < args.len()
        invariant
            i <= args@.len(),
            out@ == old(out)@ + args_text(args@.take(i as int)),
        decreases args@.len() - i,
    {
        let ghost before = out@;
        if i > 0 {
            push_str(out, ", ");
        }
        args[i].push_text(out);
        proof {
            let t = args@.take(i + 1);
            assert(t.drop_last() =~= args@.take(i as int));
            assert(t.last() == args@[i as int]);
            if i == 0 {
                assert(args_text(t) == expr_text(t[0]));
                assert(out@ =~= old(out)@ + args_text(t));
            } else {
                assert(out@ =~= old(out)@ + args_text(t));
            }
        }
        i = i + 1;
    }
    assert(args@.take(args@.len() as int) =~= args@);
}

impl Stmt {
    /// Is this an `if` or a `while`? Such a statement is followed by an
    /// empty line when it is not the last of its block.
    pub fn is_block(&self) -> (r: bool)
        ensures
            r == (*self is If || *self is While),
    {
        match self {
            Stmt::If { .. } | Stmt::While { .. } => true,
            _ => false,
        }
    }

    /// Appends the statement, indented by `level` levels.
    pub fn push_indented(&self, out: &mut String, level: usize)
        ensures
            final(out)@ == old(out)@ + stmt_text(*self, level),
        decreases self, 2nat,
    {
        let is_label = match self {
            Stmt::Label(_) => true,
            _ => false,
        };
        if !is_label {
            push_indent(out, level);
        }
        self.push_body(out, level);
    }

    /// Appends the statement without its indentation.
    #[verifier::rlimit(40)]
    fn push_body(&self, out: &mut String, level: usize)
        ensures
            final(out)@ == old(out)@ + stmt_body_text(*self, level),
        decreases self, 1nat,
    {
        let ghost start = out@;
        match self {
            Stmt::Return(e) => {
                push_str(out, "return ");
                match e {
                    Some(e) => e.push_text(out),
                    None => {},
                }
                push_str(out, ";");
                assert(out@ =~= start + stmt_body_text(*self, level));
            },
            Stmt::Binary { ty, result, op, left, right } => {
                let ts = ty.to_text();
                push_str(out, ts.as_str());
                push_str(out, " ");
                push_var(out, *result);
                push_str(out, " = ");
                left.push_text(out);
                push_str(out, " ");
                push_str(out, op.text());
                push_str(out, " ");
                right.push_text(out);
                push_str(out, ";");
                assert(out@ =~= start + stmt_body_text(*self, level));
            },
            Stmt::Unary { ty, result, op, expr } => {
                let ts = ty.to_text();
                push_str(out, ts.as_str());
                push_str(out, " ");
                push_var(out, *result);
                push_str(out, " = ");
                push_str(out, op.text());
                expr.push_text(out);
                push_str(out, ";");
                assert(out@ =~= start + stmt_body_text(*self, level));
            },
            Stmt::VarDecl { ty, id, value } => {
                let ts = ty.to_text();
                push_str(out, ts.as_str());
                push_str(out, " ");
                push_var(out, *id);
                push_str(out, " = ");
                value.push_text(out);
                push_str(out, ";");
                assert(out@ =~= start + stmt_body_text(*self, level));
            },
            Stmt::VarAssign { lhs, rhs } => {
                push_var(out, *lhs);
                push_str(out, " = ");
                rhs.push_text(out);
                push_str(out, ";");
                assert(out@ =~= start + stmt_body_text(*self, level));
            },
            Stmt::Call { .. } => self.push_call(out),
            Stmt::If { .. } => self.push_if(out, level),
            Stmt::While { body } => {
                let inner = if level < usize::MAX { level + 1 } else { level };
                push_str(out, "while (1) {\n");
                push_stmts(body, out, inner);
                push_str(out, "\n");
                push_indent(out, level);
                push_str(out, "}");
                assert(out@ =~= start + stmt_body_text(*self, level));
            },
            Stmt::Break => {
                push_str(out, "break;");
                assert(out@ =~= start + stmt_body_text(*self, level));
            },
            Stmt::Continue => {
                push_str(out, "continue;");
                assert(out@ =~= start + stmt_body_text(*self, level));
            },
            Stmt::Goto(label) => {
                push_str(out, "goto ");
                push_str(out, label.as_str());
                push_str(out, ";");
                assert(out@ =~= start + stmt_body_text(*self, level));
            },
            Stmt::Label(label) => {
                push_str(out, label.as_str());
                push_str(out, ":");
                assert(out@ =~= start + stmt_body_text(*self, level));
            },
        }
    }

    fn push_call(&self, out: &mut String)
        requires
            *self is Call,
        ensures
            final(out)@ == old(out)@ + stmt_body_text(*self, 0),
    {
        let ghost start = out@;
        match self {
            Stmt::Call { ty, dest, callee, args } => {
                if !ty.is_void() {
                    let ts = ty.to_text();
                    push_str(out, ts.as_str());
                    push_str(out, " ");
                    push_var(out, *dest);
                    push_str(out, " = ");
                }
                let ghost lhs_text = if *ty is Void {
                    Seq::<char>::empty()
                } else {
                    type_text(*ty) + " "@ + var_text(*dest) + " = "@
                };
                assert(out@ =~= start + lhs_text);
                push_str(out, callee.as_str());
                push_str(out, "(");
                push_args(out, args);
                push_str(out, ");");
                assert(out@ =~= start + stmt_body_text(*self, 0));
            },
            _ => {},
        }
    }

    #[verifier::rlimit(40)]
    fn push_if(&self, out: &mut String, level: usize)
        requires
            *self is If,
        ensures
            final(out)@ == old(out)@ + stmt_body_text(*self, level),
        decreases self, 0nat,
    {
        let ghost start = out@;
        let inner = if level < usize::MAX { level + 1 } else { level };
        match self {
            Stmt::If { cond, body, else_ } => {
                let ghost ind = indent(level as nat);
                push_str(out, "if (");
                cond.push_text(out);
                push_str(out, ") {\n");
                push_stmts(body, out, inner);
                push_str(out, "\n");
                push_indent(out, level);
                push_str(out, "}");
                let ghost head = "if ("@ + expr_text(*cond) + ") {\n"@ + stmts_text(body@, inner_level(level)) + "\n"@
                    + ind + "}"@;
                assert(out@ =~= start + head);
                let ghost mid = out@;
                match else_ {
                    Some(stmts) => {
                        push_str(out, " else {\n");
                        push_stmts(stmts, out, inner);
                        push_str(out, "\n");
                        push_indent(out, level);
                        push_str(out, "}");
                        let ghost tail = " else {\n"@ + stmts_text(stmts@, inner_level(level)) + "\n"@ + ind + "}"@;
                        assert(out@ =~= mid + tail);
                        assert(stmt_body_text(*self, level) == head + tail);
                        assert(out@ =~= start + stmt_body_text(*self, level));
                    },
                    None => {
                        assert(stmt_body_text(*self, level) =~= head);
                    },
                }
            },
            _ => {},
        }
    }
}

/// Appends the statements, one a line at the given level; an `if` or a
/// `while` that is not the last is followed by an empty line.
pub fn push_stmts(stmts: &Vec<Stmt>, out: &mut String, level: usize)
    ensures
        final(out)@ == old(out)@ + stmts_text(stmts@, level),
    decreases stmts, 3nat,
{
    let mut i: usize = 0;
    while i < stmts.len()
        invariant
            i <= stmts@.len(),
            out@ == old(out)@ + stmts_text(stmts@.take(i as int), level) + (if 0 < i < stmts@.len() {
                separator(stmts@[i - 1])
            } else {
                Seq::empty()
            }),
        decreases stmts@.len() - i,
    {
        proof {
            assert(decreases_to!(stmts => stmts@[i as int])) by {
                assert(decreases_to!(stmts => stmts@));
                assert(decreases_to!(stmts@ => stmts@[i as int]));
            }
        }
        let ghost before = out@;
        stmts[i].push_indented(out, level);
        proof {
            let t = stmts@.take(i + 1);
            assert(t.drop_last() =~= stmts@.take(i as int));
            assert(t.last() == stmts@[i as int]);
            if i > 0 {
                assert(t[t.len() - 2] == stmts@[i - 1]);
            }
            assert(out@ =~= old(out)@ + stmts_text(t, level));
        }
        if i + 1 != stmts.len() {
            let ghost mid = out@;
            push_str(out, "\n");
            if stmts[i].is_block() {
                push_str(out, "\n");
            }
            proof {
                reveal_strlit("\n");
                reveal_strlit("\n\n");
            }
            assert(out@ =~= mid + separator(stmts@[i as int]));
        }
        i = i + 1;
    }
    assert(stmts@.take(stmts@.len() as int) =~= stmts@);
}

/// The parameters of a function, `<type> t<i>` each, separated by commas.
pub open spec fn params_text(params: Seq<(usize, Type)>) -> Seq<char>
    decreases params.len(),
{
    if params.len() == 0 {
        Seq::empty()
    } else if params.len() == 1 {
        type_text(params[0].1) + " "@ + var_text(params[0].0)
    } else {
        params_text(params.drop_last()) + ", "@ + type_text(params.last().1) + " "@ + var_text(params.last().0)
    }
}

/// The parameters of an extern declaration: the `i`th is `<type> t<i>`.
pub open spec fn extern_params_text(params: Seq<Type>) -> Seq<char>
    decreases params.len(),
{
    if params.len() == 0 {
        Seq::empty()
    } else if params.len() == 1 {
        type_text(params[0]) + " "@ + var_text(0)
    } else {
        extern_params_text(params.drop_last()) + ", "@ + type_text(params.last()) + " "@ + var_text(
            (params.len() - 1) as usize,
        )
    }
}

/// The C text of a declaration.
pub open spec fn decl_text(d: Decl) -> Seq<char> {
    match d {
        Decl::Function { name, params, ret, body } => type_text(ret) + " "@ + name@ + "("@ + params_text(params@)
            + ") {\n"@ + stmts_text(body@, 1) + "\n}"@,
        Decl::ExternFunc { name, params, ret } => "extern "@ + type_text(ret) + " "@ + name@ + "("@
            + extern_params_text(params@) + ");"@,
        Decl::Include(path) => "#include \""@ + path@ + "\""@,
    }
}

/// The declarations of a C file, separated by empty lines.
pub open spec fn decls_text(decls: Seq<Decl>) -> Seq<char>
    decreases decls.len(),
{
    if decls.len() == 0 {
        Seq::empty()
    } else if decls.len() == 1 {
        decl_text(decls[0])
    } else {
        decls_text(decls.drop_last()) + "\n\n"@ + decl_text(decls.last())
    }
}

/// Appends `<type> t<i>` for each parameter, separated by commas.
fn push_params(out: &mut String, params: &Vec<(usize, Type)>)
    ensures
        final(out)@ == old(out)@ + params_text(params@),
{
    let mut i: usize = 0;
    while i < params.len()
        invariant
            i <= params@.len(),
            out@ == old(out)@ + params_text(params@.take(i as int)),
        decreases params@.len() - i,
    {
        if i > 0 {
            push_str(out, ", ");
        }
        let ts = params[i].1.to_text();
        push_str(out, ts.as_str());
        push_str(out, " ");
        push_var(out, params[i].0);
        proof {
            let t = params@.take(i + 1);
            assert(t.drop_last() =~= params@.take(i as int));
            assert(t.last() == params@[i as int]);
            assert(out@ =~= old(out)@ + params_text(t));
        }
        i = i + 1;
    }
    assert(params@.take(params@.len() as int) =~= params@);
}

/// Appends `<type> t<i>` for the `i`th parameter, separated by commas.
fn push_extern_params(out: &mut String, params: &Vec<Type>)
    ensures
        final(out)@ == old(out)@ + extern_params_text(params@),
{
    let mut i: usize = 0;
    while i < params.len()
        invariant
            i <= params@.len(),
            out@ == old(out)@ + extern_params_text(params@.take(i as int)),
        decreases params@.len() - i,
    {
        if i > 0 {
            push_str(out, ", ");
        }
        let ts = params[i].to_text();
        push_str(out, ts.as_str());
        push_str(out, " ");
        push_var(out, i);
        proof {
            let t = params@.take(i + 1);
            assert(t.drop_last() =~= params@.take(i as int));
            assert(t.last() == params@[i as int]);
            assert(out@ =~= old(out)@ + extern_params_text(t));
        }
        i = i + 1;
    }
    assert(params@.take(params@.len() as int) =~= params@);
}

impl Decl {
    pub fn push_text(&self, out: &mut String)
        ensures
            final(out)@ == old(out)@ + decl_text(*self),
    {
        let ghost start = out@;
        match self {
            Decl::Function { name, params, ret, body } => {
                let rs = ret.to_text();
                push_str(out, rs.as_str());
                push_str(out, " ");
                push_str(out, name.as_str());
                push_str(out, "(");
                push_params(out, params);
                push_str(out, ") {\n");
                push_stmts(body, out, 1);
                push_str(out, "\n}");
                assert(out@ =~= start + decl_text(*self));
            },
            Decl::ExternFunc { name, params, ret } => {
                push_str(out, "extern ");
                let rs = ret.to_text();
                push_str(out, rs.as_str());
                push_str(out, " ");
                push_str(out, name.as_str());
                push_str(out, "(");
                push_extern_params(out, params);
                push_str(out, ");");
                assert(out@ =~= start + decl_text(*self));
            },
            Decl::Include(path) => {
                push_str(out, "#include \"");
                push_str(out, path.as_str());
                push_str(out, "\"");
                assert(out@ =~= start + decl_text(*self));
            },
        }
    }
}

impl Ast {
    /// The C source: the declarations separated by empty lines.
    pub fn to_text(&self) -> (r: String)
        ensures
            r@ == decls_text(self.decls@),
    {
        let mut s = String::new();
        let mut i: usize = 0;
        while i < self.decls.len()
            invariant
                i <= self.decls@.len(),
                s@ == decls_text(self.decls@.take(i as int)),
            decreases self.decls@.len() - i,
        {
            if i > 0 {
                push_str(&mut s, "\n\n");
            }
            self.decls[i].push_text(&mut s);
            proof {
                let t = self.decls@.take(i + 1);
                assert(t.drop_last() =~= self.decls@.take(i as int));
                assert(t.last() == self.decls@[i as int]);
                assert(s@ =~= decls_text(t));
            }
            i = i + 1;
        }
        assert(self.decls@.take(self.decls@.len() as int) =~= self.decls@);
        s
    }
}

} // verus!
