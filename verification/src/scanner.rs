use vstd::prelude::*;

use crate::ast::token::{spec_str_to_token, str_to_token, Token, TokenKind};
use crate::common::error::{Diagnostics, Report, Res};
use crate::common::source::{Pos, Source};
use crate::config::Config;

verus! {

/// Classes of bytes that the scanner reads runs of.
#[derive(Clone, Copy, PartialEq, Eq, Structural)]
pub enum ByteClass {
    Whitespace,
    NotWhitespace,
    NotNewline,
    Alphanumeric,
    Numeric,
    HexDigit,
    /// Anything but the given quote or a newline.
    StringBody(u8),
}

pub open spec fn spec_is_whitespace(b: u8) -> bool {
    b == 32u8 || b == 9u8 || b == 13u8
}

pub open spec fn spec_is_number(b: u8) -> bool {
    48u8 <= b <= 57u8
}

pub open spec fn spec_is_alpha(b: u8) -> bool {
    (97u8 <= b <= 122u8) || (65u8 <= b <= 90u8) || b == 95u8
}

pub open spec fn spec_is_alphanum(b: u8) -> bool {
    spec_is_alpha(b) || spec_is_number(b)
}

pub open spec fn spec_is_numeric(b: u8) -> bool {
    spec_is_number(b) || b == 46u8
}

pub open spec fn spec_is_hex_digit(b: u8) -> bool {
    spec_is_number(b) || (97u8 <= b <= 102u8) || (65u8 <= b <= 70u8)
}

pub open spec fn in_class(c: ByteClass, b: u8) -> bool {
    match c {
        ByteClass::Whitespace => spec_is_whitespace(b),
        ByteClass::NotWhitespace => !spec_is_whitespace(b),
        ByteClass::NotNewline => b != 10u8,
        ByteClass::Alphanumeric => spec_is_alphanum(b),
        ByteClass::Numeric => spec_is_numeric(b),
        ByteClass::HexDigit => spec_is_hex_digit(b),
        ByteClass::StringBody(q) => b != q && b != 10u8,
    }
}

pub fn is_whitespace(b: u8) -> (r: bool)
    ensures
        r == spec_is_whitespace(b),
{
    b == 32u8 || b == 9u8 || b == 13u8
}

pub fn is_number(b: u8) -> (r: bool)
    ensures
        r == spec_is_number(b),
{
    b >= 48u8 && b <= 57u8
}

pub fn is_alpha(b: u8) -> (r: bool)
    ensures
        r == spec_is_alpha(b),
{
    (b >= 97u8 && b <= 122u8) || (b >= 65u8 && b <= 90u8) || b == 95u8
}

pub fn is_alphanum(b: u8) -> (r: bool)
    ensures
        r == spec_is_alphanum(b),
{
    is_alpha(b) || is_number(b)
}

pub fn is_numeric(b: u8) -> (r: bool)
    ensures
        r == spec_is_numeric(b),
{
    is_number(b) || b == 46u8
}

pub fn is_hex_digit(b: u8) -> (r: bool)
    ensures
        r == spec_is_hex_digit(b),
{
    is_number(b) || (b >= 97u8 && b <= 102u8) || (b >= 65u8 && b <= 70u8)
}

fn in_byte_class(c: ByteClass, b: u8) -> (r: bool)
    ensures
        r == in_class(c, b),
{
    match c {
        ByteClass::Whitespace => is_whitespace(b),
        ByteClass::NotWhitespace => !is_whitespace(b),
        ByteClass::NotNewline => b != 10u8,
        ByteClass::Alphanumeric => is_alphanum(b),
        ByteClass::Numeric => is_numeric(b),
        ByteClass::HexDigit => is_hex_digit(b),
        ByteClass::StringBody(q) => b != q && b != 10u8,
    }
}

/// The number of bytes from `from` on that all lie in class `c`.
pub open spec fn run_length(src: Seq<u8>, from: int, c: ByteClass) -> int
    decreases src.len() - from,
{
    if from < 0 || from >= src.len() || !in_class(c, src[from]) {
        0
    } else {
        1 + run_length(src, from + 1, c)
    }
}

pub proof fn lemma_run_length(src: Seq<u8>, from: int, c: ByteClass)
    requires
        0 <= from <= src.len(),
    ensures
        0 <= run_length(src, from, c) <= src.len() - from,
        forall|k: int| from <= k < from + run_length(src, from, c) ==> in_class(c, #[trigger] src[k]),
        from + run_length(src, from, c) < src.len() ==> !in_class(c, src[from + run_length(src, from, c)]),
    decreases src.len() - from,
{
    if from < src.len() && in_class(c, src[from]) {
        lemma_run_length(src, from + 1, c);
    }
}

/// The value of hexadecimal digit `b`.
pub open spec fn hex_value(b: u8) -> int {
    if spec_is_number(b) {
        (b - 48u8) as int
    } else if 97u8 <= b <= 102u8 {
        (b - 87u8) as int
    } else {
        (b - 55u8) as int
    }
}

/// The value of the digits `s` in base `radix`.
pub open spec fn digits_value(s: Seq<u8>, radix: int) -> int
    decreases s.len(),
{
    if s.len() == 0 {
        0
    } else {
        digits_value(s.drop_last(), radix) * radix + hex_value(s.last())
    }
}

proof fn lemma_digits_value_nonneg(s: Seq<u8>, radix: int)
    requires
        radix >= 2,
        forall|k: int| 0 <= k < s.len() ==> spec_is_hex_digit(#[trigger] s[k]),
    ensures
        digits_value(s, radix) >= 0,
    decreases s.len(),
{
    if s.len() > 0 {
        lemma_digits_value_nonneg(s.drop_last(), radix);
        assert(spec_is_hex_digit(s[s.len() - 1]));
    }
}

proof fn lemma_digits_value_grows(s: Seq<u8>, radix: int)
    requires
        2 <= radix <= 16,
        s.len() > 0,
        forall|k: int| 0 <= k < s.len() ==> spec_is_hex_digit(#[trigger] s[k]),
    ensures
        digits_value(s, radix) >= digits_value(s.drop_last(), radix),
{
    lemma_digits_value_nonneg(s.drop_last(), radix);
    assert(spec_is_hex_digit(s[s.len() - 1]));
    let p = digits_value(s.drop_last(), radix);
    assert(p * radix >= p) by (nonlinear_arith)
        requires
            p >= 0,
            radix >= 2,
    ;
}

/// Parses `src[from..to]` as digits in base `radix`; `None` when the value
/// does not fit in an `i64`.
fn parse_digits(src: &Vec<u8>, from: usize, to: usize, radix: u8) -> (r: Option<i64>)
    requires
        from <= to <= src@.len(),
        radix == 10 || radix == 16,
        forall|k: int| from <= k < to ==> spec_is_hex_digit(#[trigger] src@[k]),
        radix == 10 ==> forall|k: int| from <= k < to ==> spec_is_number(#[trigger] src@[k]),
    ensures
        r matches Some(v) ==> v == digits_value(src@.subrange(from as int, to as int), radix as int),
        r is None <==> digits_value(src@.subrange(from as int, to as int), radix as int) > i64::MAX,
{
    let mut acc: i64 = 0;
    let mut i = from;
    while i < to
        invariant
            from <= i <= to <= src@.len(),
            radix == 10 || radix == 16,
            forall|k: int| from <= k < to ==> spec_is_hex_digit(#[trigger] src@[k]),
            acc == digits_value(src@.subrange(from as int, i as int), radix as int),
            acc >= 0,
        decreases to - i,
    {
        let b = src[i];
        assert(spec_is_hex_digit(src@[i as int]));
        let d: i64 = if b >= 48u8 && b <= 57u8 {
            (b - 48u8) as i64
        } else if b >= 97u8 && b <= 102u8 {
            (b - 87u8) as i64
        } else {
            (b - 55u8) as i64
        };
        let ghost prefix = src@.subrange(from as int, i + 1);
        assert(prefix.drop_last() =~= src@.subrange(from as int, i as int));
        assert(prefix.last() == b);
        let m = acc.checked_mul(radix as i64);
        match m {
            None => {
                proof {
                    lemma_overflow_persists(src@, from as int, i as int + 1, to as int, radix as int);
                }
                return None;
            },
            Some(m) => {
                match m.checked_add(d) {
                    None => {
                        proof {
                            lemma_overflow_persists(src@, from as int, i as int + 1, to as int, radix as int);
                        }
                        return None;
                    },
                    Some(n) => {
                        acc = n;
                    },
                }
            },
        }
        i = i + 1;
    }
    Some(acc)
}

proof fn lemma_overflow_persists(src: Seq<u8>, from: int, i: int, to: int, radix: int)
    requires
        0 <= from < i <= to <= src.len(),
        2 <= radix <= 16,
        forall|k: int| from <= k < to ==> spec_is_hex_digit(#[trigger] src[k]),
        digits_value(src.subrange(from, i), radix) > i64::MAX,
    ensures
        digits_value(src.subrange(from, to), radix) > i64::MAX,
    decreases to - i,
{
    if i < to {
        let s = src.subrange(from, i + 1);
        assert(s.drop_last() =~= src.subrange(from, i));
        assert forall|k: int| 0 <= k < s.len() implies spec_is_hex_digit(#[trigger] s[k]) by {
            assert(s[k] == src[from + k]);
        }
        lemma_digits_value_grows(s, radix);
        lemma_overflow_persists(src, from, i + 1, to, radix);
    }
}

/// Scans a source file into its tokens, leaving out whitespace and comments.
/// It succeeds exactly when every lexeme is well formed. On errors, every
/// error found is reported, the first one for the first bad lexeme; the
/// scanner resumes after the run of non-whitespace bytes at which an error
/// was found.
pub fn scan(src: &Source, config: &Config) -> (r: Res<Vec<Token>>)
    requires
        src.wf(),
    ensures
        r matches Ok(toks) ==> forall|i: int| 0 <= i < toks@.len() ==> token_in_source(src.src@, #[trigger] toks@[i]),
        r matches Ok(toks) ==> tokens_ordered(toks@),
        r matches Ok(toks) ==> tokens_cover(src.src@, 0, toks@),
        src.src@.len() == 0 ==> (r matches Ok(toks) && toks@.len() == 0),
        r is Ok <==> scans_from(src.src@, 0),
        r matches Err(d) ==> d@.len() >= 1,
        r matches Err(d) ==> d@.len() == error_count(src.src@, 0) && d@[0].message@ == lex_message(
            src.src@,
            first_bad(src.src@, 0)->0,
        ),
        r matches Ok(toks) ==> forall|i: int| 0 <= i < toks@.len() ==> (#[trigger] toks@[i]).pos.source_id == src.id
            && pos_at(src.src@, toks@[i].pos),
        r matches Ok(toks) ==> scanned(*src, toks@),
{
    let mut scanner = Scanner::new(src, config);
    scanner.scan()
}

/// A token that lies within the source and is neither whitespace nor a comment.
pub open spec fn token_in_source(src: Seq<u8>, t: Token) -> bool {
    &&& t.pos.offset + t.length <= src.len()
    &&& t.length > 0
    &&& !(t.kind is Whitespace)
    &&& !(t.kind is LineComment)
    &&& !(t.kind is BlockComment)
    &&& t.id == t.pos.offset
    &&& token_lexeme_ok(src, t)
    &&& token_maximal(src, t)
    &&& !starts_comment(src, t.pos.offset as int)
}

/// The keyword or symbol that the `len` bytes at `from` spell, if they are
/// UTF-8 and spell one.
pub open spec fn fixed_at(src: Seq<u8>, from: int, len: int) -> Option<TokenKind> {
    let bytes = src.subrange(from, from + len);
    if vstd::utf8::valid_utf8(bytes) {
        spec_str_to_token(vstd::utf8::decode_utf8(bytes))
    } else {
        None
    }
}

/// The text of the `len` bytes at `from`, when they are UTF-8.
pub open spec fn text_at(src: Seq<u8>, from: int, len: int) -> Option<Seq<char>> {
    let bytes = src.subrange(from, from + len);
    if vstd::utf8::valid_utf8(bytes) {
        Some(vstd::utf8::decode_utf8(bytes))
    } else {
        None
    }
}

/// What the bytes of a token say about its kind.
pub open spec fn token_lexeme_ok(src: Seq<u8>, t: Token) -> bool {
    let off = t.pos.offset as int;
    let lexeme = src.subrange(off, off + t.length);
    match t.kind {
        TokenKind::Newline => t.length == 1 && lexeme[0] == 10u8,
        TokenKind::IdentLit(name) => {
            &&& spec_is_alpha(lexeme[0])
            &&& forall|k: int| 0 <= k < lexeme.len() ==> spec_is_alphanum(#[trigger] lexeme[k])
            &&& name@.len() == lexeme.len()
            &&& forall|k: int| 0 <= k < lexeme.len() ==> (#[trigger] name@[k]) as u32 == lexeme[k] as u32
            &&& spec_str_to_token(name@) is None
        },
        TokenKind::IntLit(v) => {
            ||| (t.length >= 3 && lexeme[0] == 48u8 && (lexeme[1] == 120u8 || lexeme[1] == 88u8)
                && v == digits_value(lexeme.subrange(2, lexeme.len() as int), 16))
            ||| exists|e: int| 1 <= e <= lexeme.len()
                && (forall|k: int| 0 <= k < e ==> spec_is_number(#[trigger] lexeme[k]))
                && (forall|k: int| e <= k < lexeme.len() ==> #[trigger] lexeme[k] == 46u8)
                && v == digits_value(lexeme.subrange(0, e), 10)
        },
        TokenKind::StringLit(text) => {
            &&& t.length >= 2
            &&& (lexeme[0] == 34u8 || lexeme[0] == 39u8)
            &&& lexeme.last() == lexeme[0]
            &&& forall|k: int| 1 <= k < lexeme.len() - 1 ==> #[trigger] lexeme[k] != lexeme[0] && lexeme[k] != 10u8
            &&& text_at(src, off + 1, t.length - 2) == Some(text@)
            &&& lexeme[0] == 39u8 ==> t.length == 3
        },
        TokenKind::FloatLit(text) => {
            &&& spec_is_number(lexeme[0])
            &&& exists|e: int| 1 <= e <= lexeme.len()
                && (forall|k: int| 0 <= k < e ==> spec_is_numeric(#[trigger] lexeme[k]))
                && (exists|d: int| 0 <= d < e && #[trigger] lexeme[d] == 46u8)
                && lexeme[e - 1] != 46u8
                && (forall|k: int| e <= k < lexeme.len() ==> #[trigger] lexeme[k] == 46u8)
                && text_at(src, off, e) == Some(text@)
        },
        _ => crate::ast::token::fixed_text(t.kind) is Some && fixed_at(src, off, t.length as int) == Some(t.kind),
    }
}

/// The token is the longest one the scanner can read where it starts: a
/// name runs to the last letter or digit, a number to the end of its
/// digits (less one trailing period), and a one-byte symbol is taken only
/// where no two-byte symbol fits.
pub open spec fn token_maximal(src: Seq<u8>, t: Token) -> bool {
    let off = t.pos.offset as int;
    let end = off + t.length;
    if spec_is_alpha(src[off]) {
        end == src.len() || !spec_is_alphanum(src[end])
    } else if t.kind is IntLit && t.length >= 3 && src[off] == 48u8 && (src[off + 1] == 120u8 || src[off + 1] == 88u8) {
        t.length == 2 + run_length(src, off + 2, ByteClass::HexDigit)
    } else if t.kind is IntLit || t.kind is FloatLit {
        ||| run_length(src, off, ByteClass::Numeric) == t.length
        ||| run_length(src, off, ByteClass::Numeric) == t.length + 1 && src[end] == 46u8
    } else if crate::ast::token::fixed_text(t.kind) is Some {
        &&& t.length == 2 ==> !spec_is_alphanum(src[off + 1])
        &&& t.length == 1 ==> !(off + 1 < src.len() && !spec_is_alphanum(src[off + 1]) && fixed_at(src, off, 2) is Some)
    } else {
        true
    }
}

/// Bytes `p` and `p + 1` open a comment.
pub open spec fn starts_comment(src: Seq<u8>, p: int) -> bool {
    0 <= p && p + 1 < src.len() && src[p] == 47u8 && (src[p + 1] == 47u8 || src[p + 1] == 42u8)
}

/// Where a block comment whose body is scanned from `i` on, `depth`
/// comments deep, ends; `None` when it is not closed.
pub open spec fn block_end(src: Seq<u8>, i: int, depth: nat) -> Option<int>
    decreases src.len() - i,
{
    if depth == 0 {
        Some(i)
    } else if i < 0 || i + 1 >= src.len() {
        None
    } else if src[i] == 47u8 && src[i + 1] == 42u8 {
        block_end(src, i + 2, depth + 1)
    } else if src[i] == 42u8 && src[i + 1] == 47u8 {
        block_end(src, i + 2, (depth - 1) as nat)
    } else {
        block_end(src, i + 1, depth)
    }
}

/// Where the run of whitespace or the comment at `p` ends; `p` itself when
/// none starts there.
pub open spec fn skip_end(src: Seq<u8>, p: int) -> int {
    if 0 <= p < src.len() && spec_is_whitespace(src[p]) {
        p + run_length(src, p, ByteClass::Whitespace)
    } else if starts_comment(src, p) && src[p + 1] == 47u8 {
        p + run_length(src, p, ByteClass::NotNewline)
    } else if starts_comment(src, p) && block_end(src, p + 2, 1) is Some {
        block_end(src, p + 2, 1)->0
    } else {
        p
    }
}

/// `src[a..b]` is a sequence of whitespace runs and comments.
pub open spec fn skippable(src: Seq<u8>, a: int, b: int) -> bool
    decreases b - a,
{
    if a >= b {
        a == b
    } else {
        a < skip_end(src, a) <= b && skippable(src, skip_end(src, a), b)
    }
}

/// The tokens, with what lies between them, make up `src[from..to]`:
/// before the first token, between two tokens and after the last one
/// there is only whitespace and comments.
pub open spec fn covered_until(src: Seq<u8>, from: int, toks: Seq<Token>, to: int) -> bool {
    &&& toks.len() == 0 ==> skippable(src, from, to)
    &&& toks.len() > 0 ==> {
        &&& skippable(src, from, toks[0].pos.offset as int)
        &&& forall|i: int| 0 < i < toks.len() ==> skippable(src, toks[i - 1].pos.offset + toks[i - 1].length,
            #[trigger] toks[i].pos.offset as int)
        &&& skippable(src, toks.last().pos.offset + toks.last().length, to)
    }
}

/// The tokens, with whitespace and comments between them, make up
/// `src[from..]`.
pub open spec fn tokens_cover(src: Seq<u8>, from: int, toks: Seq<Token>) -> bool {
    covered_until(src, from, toks, src.len() as int)
}

/// A whitespace run or comment from `b` to `c` extends a skippable stretch
/// that ends at `b`.
proof fn lemma_skippable_extend(src: Seq<u8>, a: int, b: int, c: int)
    requires
        skippable(src, a, b),
        b < c,
        skip_end(src, b) == c,
    ensures
        skippable(src, a, c),
    decreases b - a,
{
    assert(skippable(src, c, c));
    if a < b {
        lemma_skippable_extend(src, skip_end(src, a), b, c);
    }
}

/// The end of `src[p..q]` with its trailing periods dropped.
pub open spec fn strip_dots(src: Seq<u8>, p: int, q: int) -> int
    decreases q - p,
{
    if q > p && src[q - 1] == 46u8 {
        strip_dots(src, p, q - 1)
    } else {
        q
    }
}

/// The number of periods in `src[p..q]`.
pub open spec fn count_dots(src: Seq<u8>, p: int, q: int) -> nat
    decreases q - p,
{
    if q <= p {
        0
    } else {
        count_dots(src, p, q - 1) + if src[q - 1] == 46u8 {
            1nat
        } else {
            0nat
        }
    }
}

/// The number at `p` can be read: a hexadecimal one has digits and fits in
/// an `i64`; a decimal one, without its trailing periods, has at most one
/// period, and fits in an `i64` when it has none.
pub open spec fn number_ok(src: Seq<u8>, p: int) -> bool {
    if src[p] == 48u8 && p + 1 < src.len() && (src[p + 1] == 120u8 || src[p + 1] == 88u8) {
        let d = run_length(src, p + 2, ByteClass::HexDigit);
        d > 0 && digits_value(src.subrange(p + 2, p + 2 + d), 16) <= i64::MAX
    } else {
        let end = strip_dots(src, p, p + run_length(src, p, ByteClass::Numeric));
        let c = count_dots(src, p, end);
        c == 1 || (c == 0 && digits_value(src.subrange(p, end), 10) <= i64::MAX)
    }
}

/// How many bytes the number at `p` takes: a hexadecimal one its prefix and
/// digits, a decimal one its run of digits and periods less one trailing
/// period.
pub open spec fn number_len(src: Seq<u8>, p: int) -> int {
    if src[p] == 48u8 && p + 1 < src.len() && (src[p + 1] == 120u8 || src[p + 1] == 88u8) {
        2 + run_length(src, p + 2, ByteClass::HexDigit)
    } else {
        let run = run_length(src, p, ByteClass::Numeric);
        if src[p + run - 1] == 46u8 {
            run - 1
        } else {
            run
        }
    }
}

/// The string literal opened by `quote` at `p` is closed on its line, holds
/// UTF-8, and holds one character when it is a byte string.
pub open spec fn string_ok(src: Seq<u8>, p: int, quote: u8) -> bool {
    let run = run_length(src, p + 1, ByteClass::StringBody(quote));
    &&& p + run + 1 < src.len()
    &&& src[p + run + 1] == quote
    &&& vstd::utf8::valid_utf8(src.subrange(p + 1, p + run + 1))
    &&& (quote == 39u8 ==> run == 1)
}

/// A two-byte symbol starts at `p`: one is spelled there and the byte after
/// the first is no letter or digit.
pub open spec fn two_byte_symbol_at(src: Seq<u8>, p: int) -> bool {
    p + 1 < src.len() && !spec_is_alphanum(src[p + 1]) && fixed_at(src, p, 2) is Some
}

/// Where what starts at `p` ends: a whitespace run, a comment, or a token;
/// `None` when the scanner reports an error at `p`.
pub open spec fn lex_end(src: Seq<u8>, p: int) -> Option<int> {
    let b = src[p];
    if spec_is_whitespace(b) {
        Some(p + run_length(src, p, ByteClass::Whitespace))
    } else if b == 47u8 && p + 1 < src.len() && src[p + 1] == 47u8 {
        Some(p + run_length(src, p, ByteClass::NotNewline))
    } else if b == 47u8 && p + 1 < src.len() && src[p + 1] == 42u8 {
        block_end(src, p + 2, 1)
    } else if b == 10u8 {
        Some(p + 1)
    } else if spec_is_alpha(b) {
        Some(p + run_length(src, p, ByteClass::Alphanumeric))
    } else if spec_is_number(b) {
        if number_ok(src, p) {
            Some(p + number_len(src, p))
        } else {
            None
        }
    } else if b == 34u8 || b == 39u8 {
        if string_ok(src, p, b) {
            Some(p + run_length(src, p + 1, ByteClass::StringBody(b)) + 2)
        } else {
            None
        }
    } else if two_byte_symbol_at(src, p) {
        Some(p + 2)
    } else if fixed_at(src, p, 1) is Some {
        Some(p + 1)
    } else {
        None
    }
}

/// Every lexeme from `p` to the end of the source is well formed: the
/// scanner reads through to the end without an error.
pub open spec fn scans_from(src: Seq<u8>, p: int) -> bool
    decreases src.len() - p,
{
    if p < 0 {
        false
    } else if p >= src.len() {
        true
    } else {
        match lex_end(src, p) {
            Some(e) => p < e <= src.len() && scans_from(src, e),
            None => false,
        }
    }
}

/// The number of line breaks among the first `n` bytes.
pub open spec fn newlines_before(src: Seq<u8>, n: int) -> nat
    decreases n,
{
    if n <= 0 {
        0
    } else {
        newlines_before(src, n - 1) + if src[n - 1] == 10u8 {
            1nat
        } else {
            0nat
        }
    }
}

/// The offset at which the line holding offset `n` starts: just after the
/// last line break before `n`, or 0.
pub open spec fn line_start(src: Seq<u8>, n: int) -> int
    decreases n,
{
    if n <= 0 {
        0
    } else if src[n - 1] == 10u8 {
        n
    } else {
        line_start(src, n - 1)
    }
}

/// The row, line start and column of a position are those of its offset:
/// rows and columns count from 0.
pub open spec fn pos_at(src: Seq<u8>, p: Pos) -> bool {
    &&& p.row == newlines_before(src, p.offset as int)
    &&& p.line_begin == line_start(src, p.offset as int)
    &&& p.col == p.offset - p.line_begin
}

/// No line break lies in `src[a..b]`.
pub open spec fn no_newline(src: Seq<u8>, a: int, b: int) -> bool {
    forall|i: int| a <= i < b ==> #[trigger] src[i] != 10u8
}

/// Bytes without a line break change neither the row nor the line start.
pub proof fn lemma_no_newline_keeps_lines(src: Seq<u8>, a: int, b: int)
    requires
        0 <= a <= b <= src.len(),
        no_newline(src, a, b),
    ensures
        newlines_before(src, b) == newlines_before(src, a),
        line_start(src, b) == line_start(src, a),
    decreases b - a,
{
    if a < b {
        lemma_no_newline_keeps_lines(src, a, b - 1);
        assert(src[b - 1] != 10u8);
    }
}

/// A two-byte symbol holds no line break.
proof fn lemma_two_byte_symbol_no_newline(src: Seq<u8>, p: int)
    requires
        0 <= p,
        two_byte_symbol_at(src, p),
    ensures
        src[p + 1] != 10u8,
        src[p] != 10u8,
{
    let bytes = src.subrange(p, p + 2);
    assert(bytes[0] == src[p] && bytes[1] == src[p + 1]);
    if src[p + 1] == 10u8 || src[p] == 10u8 {
        assert(vstd::utf8::valid_utf8(bytes));
        assert(vstd::utf8::valid_first_scalar(bytes));
        assert(bytes[0] < 128u8) by {
            if src[p + 1] == 10u8 {
                assert(!vstd::utf8::is_continuation_byte(bytes[1]));
            }
        }
        assert(bytes[1] < 128u8) by {
            let rest = vstd::utf8::pop_first_scalar(bytes);
            assert(rest =~= bytes.subrange(1, 2));
            assert(vstd::utf8::valid_utf8(rest));
            assert(vstd::utf8::valid_first_scalar(rest));
            assert(rest[0] == bytes[1]);
        }
        assert forall|k: int| 0 <= k < bytes.len() implies #[trigger] bytes[k] < 128u8 by {}
        lemma_ascii_decode(bytes);
        let text = vstd::utf8::decode_utf8(bytes);
        let k = spec_str_to_token(text)->0;
        crate::ast::token::lemma_lookup_fixed(text, 0);
        crate::ast::token::lemma_fixed_text_no_newline(k);
        assert(fixed_at(src, p, 2) == spec_str_to_token(text));
        assert(spec_str_to_token(text) == Some(k));
        assert(crate::ast::token::fixed_text(k) == Some(text));
        let t = crate::ast::token::fixed_text(k)->0;
        assert(t == text);
        assert(t.len() == 2);
        assert(t[0] as u32 != 10u32 && t[1] as u32 != 10u32);
        if src[p + 1] == 10u8 {
            assert(text[1] as u32 == 10u32);

        } else {
            assert(text[0] as u32 == 10u32);

        }
    }
}

/// `toks` are tokens that scanning `src` can give: each lies in the source
/// at its own position, they come in order, and with the whitespace and
/// comments between them they make up the whole source.
pub closed spec fn scanned(src: Source, toks: Seq<Token>) -> bool {
    &&& forall|i: int| 0 <= i < toks.len() ==> token_in_source(src.src@, #[trigger] toks[i])
    &&& forall|i: int| 0 <= i < toks.len() ==> (#[trigger] toks[i]).pos.source_id == src.id && pos_at(
        src.src@,
        toks[i].pos,
    )
    &&& tokens_ordered(toks)
    &&& tokens_cover(src.src@, 0, toks)
}

/// Where scanning from `p` first meets a lexeme it cannot read; `None`
/// when it reads through to the end.
pub open spec fn first_bad(src: Seq<u8>, p: int) -> Option<int>
    decreases src.len() - p,
{
    if p < 0 || p >= src.len() {
        None
    } else {
        match lex_end(src, p) {
            Some(e) => if p < e <= src.len() {
                first_bad(src, e)
            } else {
                Some(p)
            },
            None => Some(p),
        }
    }
}

/// The message of the error reported for the lexeme at `p` that cannot be
/// read.
pub open spec fn lex_message(src: Seq<u8>, p: int) -> Seq<char> {
    let b = src[p];
    if b == 47u8 && p + 1 < src.len() && src[p + 1] == 42u8 {
        "block comment was not terminated"@
    } else if spec_is_number(b) {
        if b == 48u8 && p + 1 < src.len() && (src[p + 1] == 120u8 || src[p + 1] == 88u8) {
            if run_length(src, p + 2, ByteClass::HexDigit) == 0 {
                "hex literal has no digits"@
            } else {
                "invalid hex literal"@
            }
        } else {
            "invalid number literal"@
        }
    } else if b == 34u8 || b == 39u8 {
        let run = run_length(src, p + 1, ByteClass::StringBody(b));
        if !(p + run + 1 < src.len() && src[p + run + 1] == b) {
            "expected end quote"@
        } else if !vstd::utf8::valid_utf8(src.subrange(p + 1, p + run + 1)) {
            "invalid utf-8"@
        } else {
            "byte string must be exactly one character"@
        }
    } else {
        "illegal token"@
    }
}

/// The number of errors scanning from `p` reports: after each, it goes on
/// after the run of non-whitespace bytes the error was met in.
pub open spec fn error_count(src: Seq<u8>, p: int) -> nat
    decreases src.len() - p,
{
    match first_bad(src, p) {
        None => 0,
        Some(b) => {
            let r = run_length(src, b, ByteClass::NotWhitespace);
            if p <= b && 0 < r && b + r <= src.len() {
                1 + error_count(src, b + r)
            } else {
                1
            }
        },
    }
}

/// Scanning reads through exactly when it meets no bad lexeme, and a bad
/// lexeme it meets lies ahead and cannot be read past.
pub proof fn lemma_first_bad(src: Seq<u8>, p: int)
    requires
        0 <= p,
    ensures
        scans_from(src, p) <==> first_bad(src, p) is None,
        first_bad(src, p) matches Some(b) ==> p <= b < src.len() && !(lex_end(src, b) matches Some(e) && b < e
            <= src.len()),
    decreases src.len() - p,
{
    if p < src.len() {
        match lex_end(src, p) {
            Some(e) => if p < e <= src.len() {
                lemma_first_bad(src, e);
            },
            None => {},
        }
    }
}

/// Tokens come in the order of the source, without overlapping.
pub open spec fn tokens_ordered(toks: Seq<Token>) -> bool {
    forall|i: int, j: int| 0 <= i < j < toks.len() ==>
        toks[i].pos.offset + toks[i].length <= toks[j].pos.offset
}

struct Scanner<'a> {
    source: &'a Source,
    pos: usize,
    row: usize,
    col: usize,
    line_begin: usize,
    _config: &'a Config,
    diag: Diagnostics,
}

impl<'a> Scanner<'a> {
    spec fn wf(&self) -> bool {
        &&& self.source.wf()
        &&& self.pos <= self.source.src@.len()
        &&& self.row <= self.pos
        &&& self.col <= self.pos
        &&& self.line_begin <= self.pos
    }

    /// The position the scanner is at, with its line bookkeeping.
    spec fn cur_pos(&self) -> Pos {
        Pos {
            source_id: self.source.id,
            row: self.row,
            col: self.col,
            offset: self.pos,
            line_begin: self.line_begin,
        }
    }

    /// The row, line start and column kept are those of the position.
    spec fn lines_ok(&self) -> bool {
        pos_at(self.source.src@, self.cur_pos())
    }

    fn new(source: &'a Source, config: &'a Config) -> (s: Self)
        requires
            source.wf(),
        ensures
            s.wf(),
            s.pos == 0,
            s.source == source,
            s.diag@.len() == 0,
            s.lines_ok(),
    {
        Scanner {
            _config: config,
            source,
            pos: 0,
            col: 0,
            row: 0,
            line_begin: 0,
            diag: Diagnostics::new(),
        }
    }

    fn scan(&mut self) -> (r: Res<Vec<Token>>)
        requires
            old(self).wf(),
            old(self).pos == 0,
            old(self).diag@.len() == 0,
            old(self).lines_ok(),
        ensures
            r matches Ok(toks) ==> forall|i: int| 0 <= i < toks@.len() ==> (#[trigger] toks@[i]).pos.source_id
                == old(self).source.id && pos_at(old(self).source.src@, toks@[i].pos),
            r matches Ok(toks) ==> forall|i: int| 0 <= i < toks@.len() ==> token_in_source(old(self).source.src@, #[trigger] toks@[i]),
            r matches Ok(toks) ==> tokens_ordered(toks@),
            r matches Ok(toks) ==> tokens_cover(old(self).source.src@, 0, toks@),
            old(self).source.src@.len() == 0 ==> (r matches Ok(toks) && toks@.len() == 0),
            r is Ok <==> scans_from(old(self).source.src@, 0),
            r matches Err(d) ==> d@.len() >= 1,
            r matches Err(d) ==> d@.len() == error_count(old(self).source.src@, 0) && d@[0].message@ == lex_message(
                old(self).source.src@,
                first_bad(old(self).source.src@, 0)->0,
            ),
    {
        if self.eof() {
            return Ok(Vec::new());
        }
        while !self.eof()
            invariant
                self.wf(),
                self.source == old(self).source,
                self.diag@.len() == 0 ==> self.pos == 0,
                self.diag@.len() > 0 ==> !scans_from(self.source.src@, 0),
                self.diag@.len() == 0 ==> self.lines_ok(),
                self.diag@.len() + error_count(self.source.src@, self.pos as int) == error_count(self.source.src@, 0),
                self.diag@.len() > 0 ==> first_bad(self.source.src@, 0) is Some && self.diag@[0].message@
                    == lex_message(self.source.src@, first_bad(self.source.src@, 0)->0),
            decreases self.source.src@.len() - self.pos,
        {
            let ghost p0 = self.pos;
            proof {
                lemma_first_bad(self.source.src@, p0 as int);
            }
            match self.scan_all() {
                Ok(toks) => {
                    if self.diag.is_empty() {
                        return Ok(toks);
                    }
                },
                Err(err) => {
                    self.diag.add(err);
                    let n = self.peek_while(ByteClass::NotWhitespace);
                    proof {
                        lemma_run_length(self.source.src@, self.pos as int, ByteClass::NotWhitespace);
                        assert(in_class(ByteClass::NotWhitespace, self.source.src@[self.pos as int]));
                    }
                    self.pos = self.pos + n;
                },

            }
        }
        let mut diag = Diagnostics::new();
        std::mem::swap(&mut diag, &mut self.diag);
        Err(diag)
    }

    fn scan_all(&mut self) -> (r: Result<Vec<Token>, Report>)
        requires
            old(self).wf(),
        ensures
            r matches Err(e) ==> first_bad(old(self).source.src@, old(self).pos as int) == Some(final(self).pos as int)
                && e.message@ == lex_message(old(self).source.src@, final(self).pos as int),
            final(self).wf(),
            final(self).source == old(self).source,
            final(self).diag == old(self).diag,
            final(self).pos >= old(self).pos,
            r is Ok ==> final(self).pos == final(self).source.src@.len(),
            r is Err ==> final(self).pos < final(self).source.src@.len()
                && !spec_is_whitespace(final(self).source.src@[final(self).pos as int]),
            r is Ok <==> scans_from(old(self).source.src@, old(self).pos as int),
            r matches Ok(toks) ==> forall|i: int| 0 <= i < toks@.len() ==> (#[trigger] toks@[i]).pos.source_id
                == old(self).source.id,
            old(self).lines_ok() ==> (r matches Ok(toks) ==> forall|i: int| 0 <= i < toks@.len() ==> pos_at(
                old(self).source.src@,
                (#[trigger] toks@[i]).pos,
            )),
            r matches Ok(toks) ==> forall|i: int| 0 <= i < toks@.len() ==> token_in_source(final(self).source.src@, #[trigger] toks@[i]),
            r matches Ok(toks) ==> forall|i: int| 0 <= i < toks@.len() ==> old(self).pos <= (#[trigger] toks@[i]).pos.offset,
            r matches Ok(toks) ==> tokens_ordered(toks@),
            r matches Ok(toks) ==> tokens_cover(final(self).source.src@, old(self).pos as int, toks@),
    {
        let mut tokens: Vec<Token> = Vec::new();
        let ghost start = self.pos;
        proof {
            assert(skippable(self.source.src@, start as int, start as int));
        }

        while !self.eof()
            invariant
                self.wf(),
                self.source == old(self).source,
                self.diag == old(self).diag,
                self.pos >= start,
                start == old(self).pos,
                forall|i: int| 0 <= i < tokens@.len() ==> token_in_source(self.source.src@, #[trigger] tokens@[i]),
                forall|i: int| 0 <= i < tokens@.len() ==> start <= (#[trigger] tokens@[i]).pos.offset
                    && tokens@[i].pos.offset + tokens@[i].length <= self.pos,
                tokens_ordered(tokens@),
                covered_until(self.source.src@, start as int, tokens@, self.pos as int),
                scans_from(self.source.src@, start as int) == scans_from(self.source.src@, self.pos as int),
                first_bad(self.source.src@, start as int) == first_bad(self.source.src@, self.pos as int),
                forall|i: int| 0 <= i < tokens@.len() ==> (#[trigger] tokens@[i]).pos.source_id == self.source.id,
                old(self).lines_ok() ==> self.lines_ok(),
                old(self).lines_ok() ==> forall|i: int| 0 <= i < tokens@.len() ==> pos_at(
                    self.source.src@,
                    (#[trigger] tokens@[i]).pos,
                ),
            decreases self.source.src@.len() - self.pos,
        {
            let ghost toks0 = tokens@;
            let (token, consumed) = match self.next_token() {
                Ok(tc) => tc,
                Err(e) => {
                    return Err(e);
                },
            };
            let ghost before = self.pos;
            self.pos = self.pos + consumed;

            if !(matches!(token.kind, TokenKind::Newline) || matches!(token.kind, TokenKind::BlockComment)) {
                self.col = self.col + consumed;
            }
            proof {
                if old(self).lines_ok() {
                    let src = self.source.src@;
                    if !(token.kind is Newline) && !(token.kind is BlockComment) {
                        lemma_no_newline_keeps_lines(src, before as int, self.pos as int);
                    }
                    assert(self.lines_ok());
                }
            }

            if !(matches!(token.kind, TokenKind::Whitespace) || matches!(token.kind, TokenKind::BlockComment)
                || matches!(token.kind, TokenKind::LineComment)) {
                tokens.push(token);
                proof {
                    let src = self.source.src@;
                    assert(skippable(src, self.pos as int, self.pos as int));
                    assert(tokens@.last() == token);
                    assert forall|i: int| 0 < i < tokens@.len() implies skippable(src, tokens@[i - 1].pos.offset
                        + tokens@[i - 1].length, #[trigger] tokens@[i].pos.offset as int) by {
                        if i < tokens@.len() - 1 {
                            assert(tokens@[i] == toks0[i]);
                            assert(tokens@[i - 1] == toks0[i - 1]);
                        }
                    }
                }
            } else {
                proof {
                    let src = self.source.src@;
                    if toks0.len() == 0 {
                        lemma_skippable_extend(src, start as int, before as int, self.pos as int);
                    } else {
                        lemma_skippable_extend(src, toks0.last().pos.offset + toks0.last().length, before as int,
                            self.pos as int);
                    }
                }
            }
        }

        Ok(tokens)
    }

    /// The token at the current position and the number of bytes it takes.
    /// Updates the line bookkeeping for newlines and block comments.
    fn next_token(&mut self) -> (r: Result<(Token, usize), Report>)
        requires
            old(self).wf(),
            old(self).pos < old(self).source.src@.len(),
        ensures
            r matches Err(e) ==> e.message@ == lex_message(old(self).source.src@, old(self).pos as int),
            final(self).source == old(self).source,
            final(self).diag == old(self).diag,
            final(self).pos == old(self).pos,
            r is Err ==> !spec_is_whitespace(old(self).source.src@[old(self).pos as int]),
            r is Ok <==> lex_end(old(self).source.src@, old(self).pos as int) is Some,
            r matches Ok((t, n)) ==> t.pos == old(self).cur_pos(),
            r matches Ok((t, n)) ==> (!(t.kind is Newline) && !(t.kind is BlockComment)) ==> no_newline(
                old(self).source.src@,
                old(self).pos as int,
                old(self).pos + n,
            ) && final(self).row == old(self).row && final(self).line_begin == old(self).line_begin
                && final(self).col == old(self).col,
            r matches Ok((t, n)) ==> t.kind is Newline ==> n == 1 && old(self).source.src@[old(self).pos as int]
                == 10u8 && final(self).row == old(self).row + 1 && final(self).line_begin == old(self).pos + 1
                && final(self).col == 0,
            r matches Ok((t, n)) ==> t.kind is BlockComment ==> final(self).col == old(self).pos + n
                - final(self).line_begin && ((old(self).row == newlines_before(old(self).source.src@, old(self).pos as int)
                && old(self).line_begin == line_start(old(self).source.src@, old(self).pos as int)) ==> (
            final(self).row == newlines_before(old(self).source.src@, old(self).pos + n) && final(self).line_begin
                == line_start(old(self).source.src@, old(self).pos + n))),
            r matches Ok((t, n)) ==> lex_end(old(self).source.src@, old(self).pos as int) == Some(old(self).pos + n),
            r matches Ok((t, n)) ==> {
                &&& n > 0
                &&& old(self).pos + n <= old(self).source.src@.len()
                &&& t.pos.offset == old(self).pos
                &&& t.id == old(self).pos
                &&& (!(t.kind is Whitespace) && !(t.kind is LineComment) && !(t.kind is BlockComment))
                    ==> t.length == n && token_lexeme_ok(old(self).source.src@, t)
                        && token_maximal(old(self).source.src@, t)
                        && !starts_comment(old(self).source.src@, old(self).pos as int)
                &&& (t.kind is Whitespace || t.kind is LineComment || t.kind is BlockComment)
                    ==> old(self).pos + n == skip_end(old(self).source.src@, old(self).pos as int)
                &&& final(self).row <= old(self).pos + n
                &&& final(self).line_begin <= old(self).pos + n
                &&& ((t.kind is Newline || t.kind is BlockComment) ==> final(self).col <= old(self).pos + n)
                &&& (!(t.kind is Newline || t.kind is BlockComment) ==> final(self).col == old(self).col)
            },
            r is Err ==> final(self).row == old(self).row && final(self).col == old(self).col
                && final(self).line_begin == old(self).line_begin,
    {
        let src = &self.source.src;
        let v = self.cur();
        proof {
            lemma_run_length(src@, self.pos as int, ByteClass::Whitespace);
        }
        if is_whitespace(v) {
            let n = self.peek_while(ByteClass::Whitespace);
            return Ok((Token::new(TokenKind::Whitespace, 0, self.pos()), n));
        }
        if v == 47u8 && self.peek() == Some(47u8) {
            let n = self.peek_while(ByteClass::NotNewline);
            proof {
                lemma_run_length(src@, self.pos as int, ByteClass::NotNewline);
                assert(in_class(ByteClass::NotNewline, src@[self.pos as int]));
            }
            return Ok((Token::new(TokenKind::LineComment, 0, self.pos()), n));
        }
        if v == 47u8 && self.peek() == Some(42u8) {
            return self.block_comment();
        }
        if v == 10u8 {
            let pos = self.pos();
            self.row = self.row + 1;
            self.col = 0;
            self.line_begin = self.pos + 1;
            return Ok((Token::new(TokenKind::Newline, 1, pos), 1));
        }
        if is_alpha(v) {
            return self.identifier();
        }
        if is_number(v) {
            return self.number();
        }
        if v == 34u8 {
            return self.scan_string(34u8);
        }
        if v == 39u8 {
            return self.scan_string(39u8);
        }
        self.symbol()
    }

    fn block_comment(&mut self) -> (r: Result<(Token, usize), Report>)
        requires
            old(self).wf(),
            old(self).pos + 1 < old(self).source.src@.len(),
            old(self).source.src@[old(self).pos as int] == 47u8,
            old(self).source.src@[old(self).pos + 1] == 42u8,
        ensures
            r matches Err(e) ==> e.message@ == lex_message(old(self).source.src@, old(self).pos as int),
            final(self).source == old(self).source,
            final(self).diag == old(self).diag,
            final(self).pos == old(self).pos,
            r is Ok <==> block_end(old(self).source.src@, old(self).pos + 2, 1) is Some,
            r matches Ok((t, n)) ==> old(self).pos + n == block_end(old(self).source.src@, old(self).pos + 2, 1)->0,
            r matches Ok((t, n)) ==> n > 0 && old(self).pos + n <= old(self).source.src@.len()
                && t.kind is BlockComment && t.pos.offset == old(self).pos && t.id == old(self).pos
                && final(self).row <= old(self).pos + n && final(self).line_begin <= old(self).pos + n
                && final(self).col <= old(self).pos + n,
            r is Err ==> final(self).row == old(self).row && final(self).col == old(self).col
                && final(self).line_begin == old(self).line_begin,
            r matches Ok((t, n)) ==> t.pos == old(self).cur_pos() && final(self).col == old(self).pos + n
                - final(self).line_begin,
            r matches Ok((t, n)) ==> (old(self).row == newlines_before(old(self).source.src@, old(self).pos as int)
                && old(self).line_begin == line_start(old(self).source.src@, old(self).pos as int)) ==> (
            final(self).row == newlines_before(old(self).source.src@, old(self).pos + n) && final(self).line_begin
                == line_start(old(self).source.src@, old(self).pos + n)),
    {
        let len = self.len();
        let mut depth: usize = 1;
        let mut i = self.pos + 2;

        while i < len - 1 && depth > 0
            invariant
                self.pos + 2 <= i <= len,
                len == self.source.src@.len(),
                depth <= i,
                block_end(self.source.src@, i as int, depth as nat) == block_end(self.source.src@, self.pos + 2, 1),
            decreases len - i,
        {
            let a = self.at(i);
            let b = self.at(i + 1);
            if a == 47u8 && b == 42u8 {
                depth = depth + 1;
                i = i + 2;
            } else if a == 42u8 && b == 47u8 {
                depth = depth - 1;
                i = i + 2;
            } else {
                i = i + 1;
            }
        }

        if depth != 0 {
            return Err(Report::code_error_len("block comment was not terminated", &self.pos(), 2));
        }

        let token = Token::new(TokenKind::BlockComment, 0, self.pos());
        let ghost lines = self.row == newlines_before(self.source.src@, self.pos as int) && self.line_begin
            == line_start(self.source.src@, self.pos as int);
        let mut j = self.pos;
        while j < i
            invariant
                self.pos <= j <= i <= self.source.src@.len(),
                self.row <= j,
                self.line_begin <= j,
                self.source == old(self).source,
                self.diag == old(self).diag,
                self.pos == old(self).pos,
                lines ==> self.row == newlines_before(self.source.src@, j as int) && self.line_begin == line_start(
                    self.source.src@,
                    j as int,
                ),
            decreases i - j,
        {
            if self.source.src[j] == 10u8 {
                self.row = self.row + 1;
                self.line_begin = j + 1;
                self.col = 0;
            }
            j = j + 1;
        }
        self.col = i - self.line_begin;
        Ok((token, i - self.pos))
    }

    fn identifier(&mut self) -> (r: Result<(Token, usize), Report>)
        requires
            old(self).wf(),
            old(self).pos < old(self).source.src@.len(),
            spec_is_alpha(old(self).source.src@[old(self).pos as int]),
        ensures
            *final(self) == *old(self),
            r is Ok,
            r matches Ok((t, n)) ==> n == run_length(old(self).source.src@, old(self).pos as int, ByteClass::Alphanumeric),
            r matches Ok((t, n)) ==> t.pos == old(self).cur_pos() && no_newline(
                old(self).source.src@,
                old(self).pos as int,
                old(self).pos + n,
            ),
            r matches Ok((t, n)) ==> n > 0 && old(self).pos + n <= old(self).source.src@.len()
                && t.pos.offset == old(self).pos && t.id == old(self).pos && t.length == n
                && !(t.kind is Whitespace) && !(t.kind is LineComment) && !(t.kind is BlockComment)
                && !(t.kind is Newline)
                && token_lexeme_ok(old(self).source.src@, t)
                && token_maximal(old(self).source.src@, t),
    {
        let length = self.peek_while(ByteClass::Alphanumeric);
        proof {
            lemma_run_length(self.source.src@, self.pos as int, ByteClass::Alphanumeric);
            assert(in_class(ByteClass::Alphanumeric, self.source.src@[self.pos as int]));
        }
        proof {
            let lx = self.source.src@.subrange(self.pos as int, self.pos + length);
            assert forall|k: int| 0 <= k < lx.len() implies #[trigger] lx[k] < 128u8 by {
                assert(lx[k] == self.source.src@[self.pos + k]);
                assert(spec_is_alphanum(lx[k]));
            }
            lemma_ascii_decode(lx);
        }
        let lexeme = match self.source.str_range(self.pos, self.pos + length) {
            Some(s) => s,
            None => {
                return Err(self.error("invalid utf-8", length));
            },
        };
        match str_to_token(lexeme.as_str()) {
            Some(k) => {
                proof {
                    crate::ast::token::lemma_lookup_fixed(lexeme@, 0);
                }
                Ok((Token::new(k, length, self.pos()), length))
            },
            None => {
                let t = Token::new(TokenKind::IdentLit(lexeme), length, self.pos());
                proof {
                    let lx = self.source.src@.subrange(self.pos as int, self.pos + length);
                    assert forall|k: int| 0 <= k < lx.len() implies spec_is_alphanum(#[trigger] lx[k]) && lx[k] < 128u8 by {
                        assert(lx[k] == self.source.src@[self.pos + k]);
                    }
                    lemma_ascii_decode(lx);
                    assert(lx[0] == self.source.src@[self.pos as int]);
                    assert(spec_is_alpha(lx[0]));
                    assert(t.pos.offset == self.pos);
                    assert(t.length == length);
                    assert(token_lexeme_ok(self.source.src@, t));
                }
                Ok((t, length))
            },
        }
    }

    fn number(&mut self) -> (r: Result<(Token, usize), Report>)
        requires
            old(self).wf(),
            old(self).pos < old(self).source.src@.len(),
            spec_is_number(old(self).source.src@[old(self).pos as int]),
        ensures
            r matches Err(e) ==> e.message@ == lex_message(old(self).source.src@, old(self).pos as int),
            *final(self) == *old(self),
            r is Ok <==> number_ok(old(self).source.src@, old(self).pos as int),
            r matches Ok((t, n)) ==> n == number_len(old(self).source.src@, old(self).pos as int),
            r matches Ok((t, n)) ==> t.pos == old(self).cur_pos() && no_newline(
                old(self).source.src@,
                old(self).pos as int,
                old(self).pos + n,
            ),
            r matches Ok((t, n)) ==> n > 0 && old(self).pos + n <= old(self).source.src@.len()
                && t.pos.offset == old(self).pos && t.id == old(self).pos && t.length == n
                && !(t.kind is Whitespace) && !(t.kind is LineComment) && !(t.kind is BlockComment)
                && !(t.kind is Newline)
                && token_lexeme_ok(old(self).source.src@, t)
                && token_maximal(old(self).source.src@, t),
    {
        let src = &self.source.src;
        let v = self.cur();
        let p = self.peek();
        if v == 48u8 && (p == Some(120u8) || p == Some(88u8)) {
            let prefix_len: usize = 2;
            let digits_start = self.pos + prefix_len;
            let digits_len = self.run_from(digits_start, ByteClass::HexDigit);
            proof {
                lemma_run_length(src@, digits_start as int, ByteClass::HexDigit);
            }
            if digits_len == 0 {
                return Err(self.error("hex literal has no digits", prefix_len));
            }
            let length = prefix_len + digits_len;
            let value = match parse_digits(src, digits_start, digits_start + digits_len, 16) {
                Some(n) => n,
                None => {
                    return Err(self.error("invalid hex literal", length));
                },
            };
            let t = Token::new(TokenKind::IntLit(value), length, self.pos());
            proof {
                let lexeme = src@.subrange(self.pos as int, self.pos + length);
                assert(lexeme.subrange(2, lexeme.len() as int) =~= src@.subrange(digits_start as int, digits_start + digits_len));
            }
            return Ok((t, length));
        }

        let mut length = self.peek_while(ByteClass::Numeric);
        proof {
            lemma_run_length(src@, self.pos as int, ByteClass::Numeric);
        }
        // A trailing period is not part of the number; the text of the
        // number drops every trailing period.
        let mut end = self.pos + length;
        let ghost full = length;
        if src[end - 1] == 46u8 {
            length = length - 1;
            while end > self.pos && src[end - 1] == 46u8
                invariant
                    self.pos <= end <= self.pos + full,
                    self.pos + full <= src@.len(),
                    length + 1 == full,
                    spec_is_number(src@[self.pos as int]),
                    forall|k: int| end <= k < self.pos + full ==> #[trigger] src@[k] == 46u8,
                    strip_dots(src@, self.pos as int, end as int) == strip_dots(src@, self.pos as int, self.pos + full),
                decreases end,
            {
                end = end - 1;
            }
        }
        proof {
            assert(self.pos < end);
            assert(src@[end - 1] != 46u8);
        }
        let mut dots: usize = 0;
        let mut k = self.pos;
        while k < end
            invariant
                self.pos <= k <= end,
                end <= src@.len(),
                dots <= k - self.pos,
                dots == 0 ==> forall|j: int| self.pos <= j < k ==> src@[j] != 46u8,
                dots > 0 ==> exists|j: int| self.pos <= j < k && src@[j] == 46u8,
                dots == count_dots(src@, self.pos as int, k as int),
            decreases end - k,
        {
            if src[k] == 46u8 {
                dots = dots + 1;
            }
            k = k + 1;
        }
        if dots > 0 {
            if dots != 1 {
                return Err(self.error("invalid number literal", length));
            }
            proof {
                let lx = src@.subrange(self.pos as int, end as int);
                assert forall|j: int| 0 <= j < lx.len() implies #[trigger] lx[j] < 128u8 by {
                    assert(lx[j] == src@[self.pos + j]);
                    assert(spec_is_numeric(src@[self.pos + j]));
                }
                lemma_ascii_decode(lx);
            }
            let text = match self.source.str_range(self.pos, end) {
                Some(s) => s,
                None => {
                    return Err(self.error("invalid number literal", length));
                },
            };
            let t = Token::new(TokenKind::FloatLit(text), length, self.pos());
            proof {
                let lexeme = src@.subrange(self.pos as int, self.pos + length);
                let e = end - self.pos;
                let d = choose|j: int| self.pos <= j < end && src@[j] == 46u8;
                assert(lexeme[d - self.pos] == 46u8);
                assert(lexeme[e - 1] == src@[end - 1]);
                assert forall|k: int| 0 <= k < e implies spec_is_numeric(#[trigger] lexeme[k]) by {
                    assert(lexeme[k] == src@[self.pos + k]);
                }
                assert forall|k: int| e <= k < lexeme.len() implies #[trigger] lexeme[k] == 46u8 by {
                    assert(lexeme[k] == src@[self.pos + k]);
                }
                assert(lexeme[0] == src@[self.pos as int]);
                assert(exists|d: int| 0 <= d < e && #[trigger] lexeme[d] == 46u8);
                assert(text_at(src@, self.pos as int, e as int) == Some(text@));
                assert(token_lexeme_ok(src@, t));
                assert(token_maximal(src@, t));
            }
            return Ok((t, length));
        }
        proof {
            assert forall|j: int| self.pos <= j < end implies spec_is_number(src@[j]) && spec_is_hex_digit(src@[j]) by {
                assert(spec_is_numeric(src@[j]));
            }
        }
        let value = match parse_digits(src, self.pos, end, 10) {
            Some(n) => n,
            None => {
                return Err(self.error("invalid number literal", length));
            },
        };
        let t = Token::new(TokenKind::IntLit(value), length, self.pos());
        proof {
            let lexeme = src@.subrange(self.pos as int, self.pos + length);
            let e = end - self.pos;
            assert(lexeme.subrange(0, e) =~= src@.subrange(self.pos as int, end as int));
            assert forall|k: int| 0 <= k < e implies spec_is_number(#[trigger] lexeme[k]) by {
                assert(lexeme[k] == src@[self.pos + k]);
            }
            assert forall|k: int| e <= k < lexeme.len() implies #[trigger] lexeme[k] == 46u8 by {
                assert(lexeme[k] == src@[self.pos + k]);
            }
        }
        Ok((t, length))
    }

    fn symbol(&mut self) -> (r: Result<(Token, usize), Report>)
        requires
            old(self).wf(),
            old(self).pos < old(self).source.src@.len(),
            !spec_is_alpha(old(self).source.src@[old(self).pos as int]),
            old(self).source.src@[old(self).pos as int] != 10u8,
            !spec_is_number(old(self).source.src@[old(self).pos as int]),
            old(self).source.src@[old(self).pos as int] != 34u8,
            old(self).source.src@[old(self).pos as int] != 39u8,
            !(old(self).source.src@[old(self).pos as int] == 47u8 && old(self).pos + 1 < old(self).source.src@.len()
                && old(self).source.src@[old(self).pos + 1] == 42u8),
        ensures
            r matches Err(e) ==> e.message@ == lex_message(old(self).source.src@, old(self).pos as int),
            *final(self) == *old(self),
            r matches Ok((t, n)) ==> n > 0 && old(self).pos + n <= old(self).source.src@.len()
                && t.pos.offset == old(self).pos && t.id == old(self).pos && t.length == n
                && !(t.kind is Whitespace) && !(t.kind is LineComment) && !(t.kind is BlockComment)
                && !(t.kind is Newline) && !(t.kind is IdentLit) && !(t.kind is IntLit)
                && !(t.kind is StringLit) && !(t.kind is FloatLit)
                && token_lexeme_ok(old(self).source.src@, t)
                && token_maximal(old(self).source.src@, t),
            r is Ok <==> two_byte_symbol_at(old(self).source.src@, old(self).pos as int)
                || fixed_at(old(self).source.src@, old(self).pos as int, 1) is Some,
            r matches Ok((t, n)) ==> n == if two_byte_symbol_at(old(self).source.src@, old(self).pos as int) {
                2usize
            } else {
                1usize
            },
            r matches Ok((t, n)) ==> t.pos == old(self).cur_pos() && no_newline(
                old(self).source.src@,
                old(self).pos as int,
                old(self).pos + n,
            ),
    {
        if let Some(c) = self.peek() {
            if !is_alphanum(c) {
                if let Some(k) = self.try_match(2) {
                    let t = Token::new(k, 2, self.pos());
                    proof {
                        lemma_two_byte_symbol_no_newline(self.source.src@, self.pos as int);
                        assert(t.pos.offset == self.pos);
                        assert(token_lexeme_ok(self.source.src@, t));
                    }
                    return Ok((t, 2));
                }
            }
        }
        if let Some(k) = self.try_match(1) {
            let t = Token::new(k, 1, self.pos());
            proof {
                assert(t.pos.offset == self.pos);
                assert(token_lexeme_ok(self.source.src@, t));
            }
            return Ok((t, 1));
        }
        Err(self.error("illegal token", 1))
    }

    /// The keyword or symbol spelled by the `len` bytes at the current position.
    fn try_match(&self, len: usize) -> (r: Option<TokenKind>)
        requires
            self.pos + len <= self.source.src@.len(),
        ensures
            r == fixed_at(self.source.src@, self.pos as int, len as int),
            r matches Some(k) ==> crate::ast::token::fixed_text(k) is Some,
    {
        let _n = self.len();
        match self.source.str_range(self.pos, self.pos + len) {
            Some(lexeme) => {
                let k = str_to_token(lexeme.as_str());
                proof {
                    if k is Some {
                        crate::ast::token::lemma_lookup_fixed(lexeme@, 0);
                    }
                }
                k
            },
            None => None,
        }
    }

    fn pos(&self) -> (p: Pos)
        ensures
            p.offset == self.pos,
            p.row == self.row,
            p.col == self.col,
            p.line_begin == self.line_begin,
            p.source_id == self.source.id,
    {
        Pos {
            source_id: self.source.id,
            row: self.row,
            col: self.col,
            offset: self.pos,
            line_begin: self.line_begin,
        }
    }

    fn at(&self, pos: usize) -> (b: u8)
        requires
            pos < self.source.src@.len(),
        ensures
            b == self.source.src@[pos as int],
    {
        self.source.src[pos]
    }

    fn peek(&self) -> (r: Option<u8>)
        requires
            self.pos < self.source.src@.len(),
        ensures
            self.pos + 1 >= self.source.src@.len() ==> r is None,
            self.pos + 1 < self.source.src@.len() ==> r == Some(self.source.src@[self.pos + 1]),
    {
        if self.pos >= self.len() - 1 {
            None
        } else {
            Some(self.at(self.pos + 1))
        }
    }

    fn cur(&self) -> (b: u8)
        requires
            self.pos < self.source.src@.len(),
        ensures
            b == self.source.src@[self.pos as int],
    {
        self.source.src[self.pos]
    }

    fn eof(&self) -> (b: bool)
        ensures
            b == (self.pos >= self.source.src@.len()),
    {
        self.pos >= self.len()
    }

    fn len(&self) -> (n: usize)
        ensures
            n == self.source.src@.len(),
    {
        self.source.src.len()
    }

    fn error(&self, msg: &str, length: usize) -> (r: Report)
        ensures
            r.message@ == msg@,
            r.pos.offset == self.pos,
    {
        Report::code_error_len(msg, &self.pos(), length)
    }

    /// The number of bytes from the current position on that lie in class `c`.
    fn peek_while(&self, c: ByteClass) -> (n: usize)
        requires
            self.pos <= self.source.src@.len(),
        ensures
            n == run_length(self.source.src@, self.pos as int, c),
            self.pos + n <= self.source.src@.len(),
    {
        self.run_from(self.pos, c)
    }

    fn run_from(&self, from: usize, c: ByteClass) -> (n: usize)
        requires
            from <= self.source.src@.len(),
        ensures
            n == run_length(self.source.src@, from as int, c),
            from + n <= self.source.src@.len(),
    {
        let src = &self.source.src;
        let mut consumed: usize = 0;
        proof {
            lemma_run_length(src@, from as int, c);
        }
        while consumed < src.len() - from && in_byte_class(c, src[from + consumed])
            invariant
                from + consumed <= src@.len(),
                run_length(src@, from as int, c) == consumed + run_length(src@, from + consumed, c),
            decreases src@.len() - from - consumed,
        {
            consumed = consumed + 1;
        }
        consumed
    }

    /// A string literal between `quote`s on one line.
    fn scan_string(&mut self, quote: u8) -> (r: Result<(Token, usize), Report>)
        requires
            old(self).wf(),
            old(self).pos < old(self).source.src@.len(),
            old(self).source.src@[old(self).pos as int] == quote,
            quote == 34u8 || quote == 39u8,
        ensures
            r matches Err(e) ==> e.message@ == lex_message(old(self).source.src@, old(self).pos as int),
            *final(self) == *old(self),
            r is Ok <==> string_ok(old(self).source.src@, old(self).pos as int, quote),
            r matches Ok((t, n)) ==> n == run_length(old(self).source.src@, old(self).pos + 1, ByteClass::StringBody(quote)) + 2,
            r matches Ok((t, n)) ==> t.pos == old(self).cur_pos() && no_newline(
                old(self).source.src@,
                old(self).pos as int,
                old(self).pos + n,
            ),
            r matches Ok((t, n)) ==> n >= 2 && old(self).pos + n <= old(self).source.src@.len()
                && t.pos.offset == old(self).pos && t.id == old(self).pos && t.length == n
                && t.kind is StringLit
                && token_lexeme_ok(old(self).source.src@, t)
                && token_maximal(old(self).source.src@, t),
    {
        let length = self.run_from(self.pos + 1, ByteClass::StringBody(quote));
        let check_pos = self.pos + length + 1;
        if check_pos >= self.len() || self.at(check_pos) != quote {
            let mut pos = self.pos();
            pos.col = pos.col.saturating_add(check_pos);
            pos.offset = pos.offset.saturating_add(check_pos);
            return Err(Report::code_error_len("expected end quote", &pos, 1));
        }

        let length = length + 2;
        let lexeme = match self.source.str_range(self.pos + 1, self.pos + length - 1) {
            Some(s) => s,
            None => {
                return Err(self.error("invalid utf-8", length));
            },
        };
        if quote == 39u8 && length != 3 {
            return Err(self.error("byte string must be exactly one character", length));
        }
        let t = Token::new(TokenKind::StringLit(lexeme), length, self.pos());
        proof {
            let src = self.source.src@;
            lemma_run_length(src, self.pos + 1, ByteClass::StringBody(quote));
            let lx = src.subrange(self.pos as int, self.pos + length);
            assert(lx[0] == quote);
            assert(lx.last() == src[check_pos as int]);
            assert forall|k: int| 1 <= k < lx.len() - 1 implies #[trigger] lx[k] != lx[0] && lx[k] != 10u8 by {
                assert(lx[k] == src[self.pos + k]);
                assert(in_class(ByteClass::StringBody(quote), src[self.pos + 1 + (k - 1)]));
            }
        }
        Ok((t, length))
    }
}

/// Decoding ASCII bytes gives the characters with the same codes.
proof fn lemma_ascii_decode(bytes: Seq<u8>)
    requires
        forall|k: int| 0 <= k < bytes.len() ==> #[trigger] bytes[k] < 128u8,
    ensures
        vstd::utf8::valid_utf8(bytes),
        vstd::utf8::decode_utf8(bytes).len() == bytes.len(),
        forall|k: int| 0 <= k < bytes.len() ==> (#[trigger] vstd::utf8::decode_utf8(bytes)[k]) as u32 == bytes[k] as u32,
    decreases bytes.len(),
{
    if bytes.len() > 0 {
        let rest = bytes.drop_first();
        assert forall|k: int| 0 <= k < rest.len() implies #[trigger] rest[k] < 128u8 by {
            assert(rest[k] == bytes[k + 1]);
        }
        lemma_ascii_decode(rest);
        assert(vstd::utf8::pop_first_scalar(bytes) =~= rest) by {
            assert(vstd::utf8::is_leading_byte_width_1(bytes[0]));
        }
        let d = vstd::utf8::decode_utf8(bytes);
        assert forall|k: int| 0 <= k < bytes.len() implies (#[trigger] d[k]) as u32 == bytes[k] as u32 by {
            if k > 0 {
                assert(d[k] == vstd::utf8::decode_utf8(rest)[k - 1]);
                assert(rest[k - 1] == bytes[k]);
            } else {
                assert(vstd::utf8::is_leading_byte_width_1(bytes[0]));
                let c = vstd::utf8::decode_first_scalar(bytes);
                let b0 = bytes[0];
                assert(c == vstd::utf8::codepoint_width_1(b0));
                assert(c == b0 as u32) by (bit_vector)
                    requires
                        c == (b0 & 0x7fu8) as u32,
                        b0 < 128u8;
            }
        }
    }
}

} // verus!
