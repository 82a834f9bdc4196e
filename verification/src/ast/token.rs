use vstd::prelude::*;

use crate::common::source::Pos;
use crate::common::text::{push_str, i64_to_string, str_eq};

verus! {

/// The kinds of tokens of the Koi language.
#[derive(Debug, Clone, PartialEq, Eq)]
pub enum TokenKind {
    Whitespace,
    LineComment,
    BlockComment,
    Newline,

    IdentLit(String),
    IntLit(i64),
    /// A number with a decimal point, kept as the text it was written with.
    FloatLit(String),
    StringLit(String),

    // Keywords
    Func,
    Return,
    If,
    Else,
    While,
    For,
    Break,
    Continue,
    Pub,
    Extern,
    Import,
    As,
    True,
    False,

    // Two-character symbols
    EqEq,
    NotEq,
    GreaterEq,
    LessEq,
    And,
    Or,
    ColonEq,
    PlusEq,
    MinusEq,
    StarEq,
    SlashEq,

    // One-character symbols
    Plus,
    Minus,
    Star,
    Slash,
    Percent,
    Eq,
    Not,
    Greater,
    Less,
    LParen,
    RParen,
    LBrace,
    RBrace,
    LBrack,
    RBrack,
    Comma,
    Dot,
    Colon,
    Semicolon,
    At,
}

/// The fixed text of a keyword or symbol kind.
pub open spec fn fixed_text(k: TokenKind) -> Option<Seq<char>> {
    match k {
        TokenKind::Func => Some("func"@),
        TokenKind::Return => Some("return"@),
        TokenKind::If => Some("if"@),
        TokenKind::Else => Some("else"@),
        TokenKind::While => Some("while"@),
        TokenKind::For => Some("for"@),
        TokenKind::Break => Some("break"@),
        TokenKind::Continue => Some("continue"@),
        TokenKind::Pub => Some("pub"@),
        TokenKind::Extern => Some("extern"@),
        TokenKind::Import => Some("import"@),
        TokenKind::As => Some("as"@),
        TokenKind::True => Some("true"@),
        TokenKind::False => Some("false"@),
        TokenKind::EqEq => Some("=="@),
        TokenKind::NotEq => Some("!="@),
        TokenKind::GreaterEq => Some(">="@),
        TokenKind::LessEq => Some("<="@),
        TokenKind::And => Some("&&"@),
        TokenKind::Or => Some("||"@),
        TokenKind::ColonEq => Some(":="@),
        TokenKind::PlusEq => Some("+="@),
        TokenKind::MinusEq => Some("-="@),
        TokenKind::StarEq => Some("*="@),
        TokenKind::SlashEq => Some("/="@),
        TokenKind::Plus => Some("+"@),
        TokenKind::Minus => Some("-"@),
        TokenKind::Star => Some("*"@),
        TokenKind::Slash => Some("/"@),
        TokenKind::Percent => Some("%"@),
        TokenKind::Eq => Some("="@),
        TokenKind::Not => Some("!"@),
        TokenKind::Greater => Some(">"@),
        TokenKind::Less => Some("<"@),
        TokenKind::LParen => Some("("@),
        TokenKind::RParen => Some(")"@),
        TokenKind::LBrace => Some("{"@),
        TokenKind::RBrace => Some("}"@),
        TokenKind::LBrack => Some("["@),
        TokenKind::RBrack => Some("]"@),
        TokenKind::Comma => Some(","@),
        TokenKind::Dot => Some("."@),
        TokenKind::Colon => Some(":"@),
        TokenKind::Semicolon => Some(";"@),
        TokenKind::At => Some("@"@),
        _ => None,
    }
}

/// No keyword or symbol holds a line break.
pub proof fn lemma_fixed_text_no_newline(k: TokenKind)
    ensures
        fixed_text(k) matches Some(t) ==> forall|i: int| 0 <= i < t.len() ==> t[i] as u32 != 10u32,
{
    match k {
        TokenKind::Func => {
            reveal_strlit("func");
        },
        TokenKind::Return => {
            reveal_strlit("return");
        },
        TokenKind::If => {
            reveal_strlit("if");
        },
        TokenKind::Else => {
            reveal_strlit("else");
        },
        TokenKind::While => {
            reveal_strlit("while");
        },
        TokenKind::For => {
            reveal_strlit("for");
        },
        TokenKind::Break => {
            reveal_strlit("break");
        },
        TokenKind::Continue => {
            reveal_strlit("continue");
        },
        TokenKind::Pub => {
            reveal_strlit("pub");
        },
        TokenKind::Extern => {
            reveal_strlit("extern");
        },
        TokenKind::Import => {
            reveal_strlit("import");
        },
        TokenKind::As => {
            reveal_strlit("as");
        },
        TokenKind::True => {
            reveal_strlit("true");
        },
        TokenKind::False => {
            reveal_strlit("false");
        },
        TokenKind::EqEq => {
            reveal_strlit("==");
        },
        TokenKind::NotEq => {
            reveal_strlit("!=");
        },
        TokenKind::GreaterEq => {
            reveal_strlit(">=");
        },
        TokenKind::LessEq => {
            reveal_strlit("<=");
        },
        TokenKind::And => {
            reveal_strlit("&&");
        },
        TokenKind::Or => {
            reveal_strlit("||");
        },
        TokenKind::ColonEq => {
            reveal_strlit(":=");
        },
        TokenKind::PlusEq => {
            reveal_strlit("+=");
        },
        TokenKind::MinusEq => {
            reveal_strlit("-=");
        },
        TokenKind::StarEq => {
            reveal_strlit("*=");
        },
        TokenKind::SlashEq => {
            reveal_strlit("/=");
        },
        TokenKind::Plus => {
            reveal_strlit("+");
        },
        TokenKind::Minus => {
            reveal_strlit("-");
        },
        TokenKind::Star => {
            reveal_strlit("*");
        },
        TokenKind::Slash => {
            reveal_strlit("/");
        },
        TokenKind::Percent => {
            reveal_strlit("%");
        },
        TokenKind::Eq => {
            reveal_strlit("=");
        },
        TokenKind::Not => {
            reveal_strlit("!");
        },
        TokenKind::Greater => {
            reveal_strlit(">");
        },
        TokenKind::Less => {
            reveal_strlit("<");
        },
        TokenKind::LParen => {
            reveal_strlit("(");
        },
        TokenKind::RParen => {
            reveal_strlit(")");
        },
        TokenKind::LBrace => {
            reveal_strlit("{");
        },
        TokenKind::RBrace => {
            reveal_strlit("}");
        },
        TokenKind::LBrack => {
            reveal_strlit("[");
        },
        TokenKind::RBrack => {
            reveal_strlit("]");
        },
        TokenKind::Comma => {
            reveal_strlit(",");
        },
        TokenKind::Dot => {
            reveal_strlit(".");
        },
        TokenKind::Colon => {
            reveal_strlit(":");
        },
        TokenKind::Semicolon => {
            reveal_strlit(";");
        },
        TokenKind::At => {
            reveal_strlit("@");
        },
        _ => {},
    }
}

/// The keyword or symbol kinds, in the order in which a lexeme is tried
/// against them.
pub open spec fn fixed_kinds() -> Seq<TokenKind> {
    seq![
        TokenKind::Func, TokenKind::Return, TokenKind::If, TokenKind::Else, TokenKind::While,
        TokenKind::For, TokenKind::Break, TokenKind::Continue, TokenKind::Pub, TokenKind::Extern,
        TokenKind::Import, TokenKind::As, TokenKind::True, TokenKind::False, TokenKind::EqEq,
        TokenKind::NotEq, TokenKind::GreaterEq, TokenKind::LessEq, TokenKind::And, TokenKind::Or,
        TokenKind::ColonEq, TokenKind::PlusEq, TokenKind::MinusEq, TokenKind::StarEq,
        TokenKind::SlashEq, TokenKind::Plus, TokenKind::Minus, TokenKind::Star, TokenKind::Slash,
        TokenKind::Percent, TokenKind::Eq, TokenKind::Not, TokenKind::Greater, TokenKind::Less,
        TokenKind::LParen, TokenKind::RParen, TokenKind::LBrace, TokenKind::RBrace,
        TokenKind::LBrack, TokenKind::RBrack, TokenKind::Comma, TokenKind::Dot,
        TokenKind::Colon, TokenKind::Semicolon, TokenKind::At,
    ]
}

/// The first keyword or symbol kind, from position `i` of `fixed_kinds()`
/// on, that `s` spells.
pub open spec fn lookup_fixed(s: Seq<char>, i: int) -> Option<TokenKind>
    decreases fixed_kinds().len() - i,
{
    if i < 0 || i >= fixed_kinds().len() {
        None
    } else if fixed_text(fixed_kinds()[i]) == Some(s) {
        Some(fixed_kinds()[i])
    } else {
        lookup_fixed(s, i + 1)
    }
}

pub proof fn lemma_lookup_fixed(s: Seq<char>, i: int)
    ensures
        lookup_fixed(s, i) matches Some(k) ==> fixed_text(k) == Some(s),
    decreases fixed_kinds().len() - i,
{
    if 0 <= i < fixed_kinds().len() && fixed_text(fixed_kinds()[i]) != Some(s) {
        lemma_lookup_fixed(s, i + 1);
    }
}

/// The keyword or symbol that `s` spells, if any.
pub open spec fn spec_str_to_token(s: Seq<char>) -> Option<TokenKind> {
    lookup_fixed(s, 0)
}

/// The fixed text of a keyword or symbol kind.
pub fn fixed_str(k: &TokenKind) -> (r: Option<&'static str>)
    ensures
        r matches Some(s) ==> fixed_text(*k) == Some(s@),
        r is None ==> fixed_text(*k) is None,
{
    match k {
        TokenKind::Func => Some("func"),
        TokenKind::Return => Some("return"),
        TokenKind::If => Some("if"),
        TokenKind::Else => Some("else"),
        TokenKind::While => Some("while"),
        TokenKind::For => Some("for"),
        TokenKind::Break => Some("break"),
        TokenKind::Continue => Some("continue"),
        TokenKind::Pub => Some("pub"),
        TokenKind::Extern => Some("extern"),
        TokenKind::Import => Some("import"),
        TokenKind::As => Some("as"),
        TokenKind::True => Some("true"),
        TokenKind::False => Some("false"),
        TokenKind::EqEq => Some("=="),
        TokenKind::NotEq => Some("!="),
        TokenKind::GreaterEq => Some(">="),
        TokenKind::LessEq => Some("<="),
        TokenKind::And => Some("&&"),
        TokenKind::Or => Some("||"),
        TokenKind::ColonEq => Some(":="),
        TokenKind::PlusEq => Some("+="),
        TokenKind::MinusEq => Some("-="),
        TokenKind::StarEq => Some("*="),
        TokenKind::SlashEq => Some("/="),
        TokenKind::Plus => Some("+"),
        TokenKind::Minus => Some("-"),
        TokenKind::Star => Some("*"),
        TokenKind::Slash => Some("/"),
        TokenKind::Percent => Some("%"),
        TokenKind::Eq => Some("="),
        TokenKind::Not => Some("!"),
        TokenKind::Greater => Some(">"),
        TokenKind::Less => Some("<"),
        TokenKind::LParen => Some("("),
        TokenKind::RParen => Some(")"),
        TokenKind::LBrace => Some("{"),
        TokenKind::RBrace => Some("}"),
        TokenKind::LBrack => Some("["),
        TokenKind::RBrack => Some("]"),
        TokenKind::Comma => Some(","),
        TokenKind::Dot => Some("."),
        TokenKind::Colon => Some(":"),
        TokenKind::Semicolon => Some(";"),
        TokenKind::At => Some("@"),
        _ => None,
    }
}

fn fixed_kind_at(i: usize) -> (k: TokenKind)
    requires
        i < fixed_kinds().len(),
    ensures
        k == fixed_kinds()[i as int],
{
    match i {
        0 => TokenKind::Func, 1 => TokenKind::Return, 2 => TokenKind::If, 3 => TokenKind::Else,
        4 => TokenKind::While, 5 => TokenKind::For, 6 => TokenKind::Break, 7 => TokenKind::Continue,
        8 => TokenKind::Pub, 9 => TokenKind::Extern, 10 => TokenKind::Import, 11 => TokenKind::As,
        12 => TokenKind::True, 13 => TokenKind::False, 14 => TokenKind::EqEq, 15 => TokenKind::NotEq,
        16 => TokenKind::GreaterEq, 17 => TokenKind::LessEq, 18 => TokenKind::And, 19 => TokenKind::Or,
        20 => TokenKind::ColonEq, 21 => TokenKind::PlusEq, 22 => TokenKind::MinusEq,
        23 => TokenKind::StarEq, 24 => TokenKind::SlashEq, 25 => TokenKind::Plus,
        26 => TokenKind::Minus, 27 => TokenKind::Star, 28 => TokenKind::Slash,
        29 => TokenKind::Percent, 30 => TokenKind::Eq, 31 => TokenKind::Not,
        32 => TokenKind::Greater, 33 => TokenKind::Less, 34 => TokenKind::LParen,
        35 => TokenKind::RParen, 36 => TokenKind::LBrace, 37 => TokenKind::RBrace,
        38 => TokenKind::LBrack, 39 => TokenKind::RBrack, 40 => TokenKind::Comma,
        41 => TokenKind::Dot, 42 => TokenKind::Colon, 43 => TokenKind::Semicolon,
        _ => TokenKind::At,
    }
}

/// The keyword or symbol that `lexeme` spells, if any.
pub fn str_to_token(lexeme: &str) -> (r: Option<TokenKind>)
    ensures
        r == spec_str_to_token(lexeme@),
{
    let mut i: usize = 0;
    while i < 45
        invariant
            i <= 45,
            fixed_kinds().len() == 45,
            lookup_fixed(lexeme@, 0) == lookup_fixed(lexeme@, i as int),
        decreases 45 - i,
    {
        let k = fixed_kind_at(i);
        let text = fixed_str(&k).unwrap();
        if str_eq(text, lexeme) {
            return Some(k);
        }
        i = i + 1;
    }
    None
}

/// A token: its kind, its length in bytes, where it starts and ends.
#[derive(Debug, Clone)]
pub struct Token {
    pub kind: TokenKind,
    pub length: usize,
    pub pos: Pos,
    pub end_pos: Pos,
    /// Unique within a file: the offset at which the token starts.
    pub id: usize,
}

impl Token {
    /// A token of `length` bytes at `pos`; its end is `length` bytes further
    /// on the same line (saturating at the largest `usize`).
    pub fn new(kind: TokenKind, length: usize, pos: Pos) -> (t: Token)
        ensures
            t.kind == kind,
            t.length == length,
            t.pos == pos,
            t.id == pos.offset,
            t.end_pos.row == pos.row,
            t.end_pos.source_id == pos.source_id,
    {
        let end_pos = Pos {
            row: pos.row,
            col: pos.col.saturating_add(length),
            offset: pos.offset.saturating_add(length),
            line_begin: pos.line_begin,
            source_id: pos.source_id,
        };
        Token { kind, length, pos, end_pos, id: pos.offset }
    }
}

/// How a token kind is written back as text: identifiers by name, literals
/// by value, keywords and symbols by their text.
pub open spec fn kind_text(k: TokenKind) -> Seq<char> {
    match k {
        TokenKind::IdentLit(s) => s@,
        TokenKind::FloatLit(s) => s@,
        TokenKind::StringLit(s) => seq!['"'] + s@ + seq!['"'],
        TokenKind::IntLit(n) => crate::common::text::int_text(n as int),
        TokenKind::Whitespace => " "@,
        TokenKind::Newline => "\n"@,
        TokenKind::LineComment => "//"@,
        TokenKind::BlockComment => "/**/"@,
        _ => fixed_text(k).unwrap(),
    }
}

pub fn kind_to_string(k: &TokenKind) -> (r: String)
    ensures
        r@ == kind_text(*k),
{
    match k {
        TokenKind::IdentLit(s) => s.clone(),
        TokenKind::FloatLit(s) => s.clone(),
        TokenKind::StringLit(s) => {
            let mut r = String::from_str("\"");
            push_str(&mut r, s.as_str());
            push_str(&mut r, "\"");
            proof {
                reveal_strlit("\"");
            }
            assert(r@ =~= kind_text(*k));
            r
        },
        TokenKind::IntLit(n) => i64_to_string(*n),
        TokenKind::Whitespace => String::from_str(" "),
        TokenKind::Newline => String::from_str("\n"),
        TokenKind::LineComment => String::from_str("//"),
        TokenKind::BlockComment => String::from_str("/**/"),
        _ => String::from_str(fixed_str(k).unwrap()),
    }
}

impl Token {
    /// The token written back as text.
    pub fn to_string(&self) -> (r: String)
        ensures
            r@ == kind_text(self.kind),
    {
        kind_to_string(&self.kind)
    }
}

} // verus!
