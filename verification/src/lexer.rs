use vstd::prelude::*;
use vstd::string::StringSliceAdditionalSpecFns;

use crate::text::{lit, push_all, push_i64, push_str};

verus! {

/// The kinds of token the lexer produces.
#[derive(Clone, Debug, PartialEq, Eq)]
pub enum Tok {
    Ident(Vec<u8>),
    Int(i64),
    /// A float literal, kept as its source text.
    Float(Vec<u8>),
    Str(Vec<u8>),
    Bool(bool),
    Atom(Vec<u8>),
    Dollar,
    // keywords
    Fn,
    Struct,
    Enum,
    Trait,
    If,
    Else,
    Do,
    Loop,
    In,
    Match,
    Return,
    Break,
    Continue,
    Defer,
    Or,
    Move,
    Mut,
    Pub,
    Is,
    // punctuation
    LParen,
    RParen,
    LBrace,
    RBrace,
    LBracket,
    RBracket,
    Comma,
    Semi,
    Dot,
    DotDot,
    DotDotEq,
    Colon,
    DoubleColon,
    Bind,
    Assign,
    Eq,
    Ne,
    Lt,
    Gt,
    Le,
    Ge,
    LtLt,
    GtGt,
    Plus,
    Minus,
    Star,
    StarStar,
    Slash,
    Percent,
    Amp,
    Pipe,
    Tilde,
    AndAnd,
    OrOr,
    Not,
    Question,
    At,
    FatArrow,
    Pipeline,
    /// A compound assignment, holding the byte of its operator (`+`, `-`, `*`, `/`, `%`, `&`, `|`, `~`, `<`, `>`, `p` for `**`).
    OpAssign(u8),
    /// A quote: the source text between backticks, kept as written.
    Quote(Vec<u8>),
}

pub const K_IDENT: u8 = 0;
pub const K_INT: u8 = 1;
pub const K_FLOAT: u8 = 2;
pub const K_STR: u8 = 3;
pub const K_BOOL: u8 = 4;
pub const K_ATOM: u8 = 5;
pub const K_DOLLAR: u8 = 6;
pub const K_FN: u8 = 7;
pub const K_STRUCT: u8 = 8;
pub const K_ENUM: u8 = 9;
pub const K_TRAIT: u8 = 10;
pub const K_IF: u8 = 11;
pub const K_ELSE: u8 = 12;
pub const K_DO: u8 = 13;
pub const K_LOOP: u8 = 14;
pub const K_IN: u8 = 15;
pub const K_MATCH: u8 = 16;
pub const K_RETURN: u8 = 17;
pub const K_BREAK: u8 = 18;
pub const K_CONTINUE: u8 = 19;
pub const K_DEFER: u8 = 20;
pub const K_OR: u8 = 21;
pub const K_MOVE: u8 = 22;
pub const K_MUT: u8 = 23;
pub const K_PUB: u8 = 24;
pub const K_IS: u8 = 25;
pub const K_L_PAREN: u8 = 26;
pub const K_R_PAREN: u8 = 27;
pub const K_L_BRACE: u8 = 28;
pub const K_R_BRACE: u8 = 29;
pub const K_L_BRACKET: u8 = 30;
pub const K_R_BRACKET: u8 = 31;
pub const K_COMMA: u8 = 32;
pub const K_SEMI: u8 = 33;
pub const K_DOT: u8 = 34;
pub const K_DOT_DOT: u8 = 35;
pub const K_DOT_DOT_EQ: u8 = 36;
pub const K_COLON: u8 = 37;
pub const K_DOUBLE_COLON: u8 = 38;
pub const K_BIND: u8 = 39;
pub const K_ASSIGN: u8 = 40;
pub const K_EQ: u8 = 41;
pub const K_NE: u8 = 42;
pub const K_LT: u8 = 43;
pub const K_GT: u8 = 44;
pub const K_LE: u8 = 45;
pub const K_GE: u8 = 46;
pub const K_LT_LT: u8 = 47;
pub const K_GT_GT: u8 = 48;
pub const K_PLUS: u8 = 49;
pub const K_MINUS: u8 = 50;
pub const K_STAR: u8 = 51;
pub const K_STAR_STAR: u8 = 52;
pub const K_SLASH: u8 = 53;
pub const K_PERCENT: u8 = 54;
pub const K_AMP: u8 = 55;
pub const K_PIPE: u8 = 56;
pub const K_TILDE: u8 = 57;
pub const K_AND_AND: u8 = 58;
pub const K_OR_OR: u8 = 59;
pub const K_NOT: u8 = 60;
pub const K_QUESTION: u8 = 61;
pub const K_AT: u8 = 62;
pub const K_FAT_ARROW: u8 = 63;
pub const K_PIPELINE: u8 = 64;
pub const K_OP_ASSIGN: u8 = 65;
pub const K_QUOTE: u8 = 66;

/// The kind code of a token.
pub open spec fn spec_code(t: Tok) -> u8 {
    match t {
        Tok::Ident(..) => K_IDENT,
        Tok::Int(..) => K_INT,
        Tok::Float(..) => K_FLOAT,
        Tok::Str(..) => K_STR,
        Tok::Bool(..) => K_BOOL,
        Tok::Atom(..) => K_ATOM,
        Tok::Dollar => K_DOLLAR,
        Tok::Fn => K_FN,
        Tok::Struct => K_STRUCT,
        Tok::Enum => K_ENUM,
        Tok::Trait => K_TRAIT,
        Tok::If => K_IF,
        Tok::Else => K_ELSE,
        Tok::Do => K_DO,
        Tok::Loop => K_LOOP,
        Tok::In => K_IN,
        Tok::Match => K_MATCH,
        Tok::Return => K_RETURN,
        Tok::Break => K_BREAK,
        Tok::Continue => K_CONTINUE,
        Tok::Defer => K_DEFER,
        Tok::Or => K_OR,
        Tok::Move => K_MOVE,
        Tok::Mut => K_MUT,
        Tok::Pub => K_PUB,
        Tok::Is => K_IS,
        Tok::LParen => K_L_PAREN,
        Tok::RParen => K_R_PAREN,
        Tok::LBrace => K_L_BRACE,
        Tok::RBrace => K_R_BRACE,
        Tok::LBracket => K_L_BRACKET,
        Tok::RBracket => K_R_BRACKET,
        Tok::Comma => K_COMMA,
        Tok::Semi => K_SEMI,
        Tok::Dot => K_DOT,
        Tok::DotDot => K_DOT_DOT,
        Tok::DotDotEq => K_DOT_DOT_EQ,
        Tok::Colon => K_COLON,
        Tok::DoubleColon => K_DOUBLE_COLON,
        Tok::Bind => K_BIND,
        Tok::Assign => K_ASSIGN,
        Tok::Eq => K_EQ,
        Tok::Ne => K_NE,
        Tok::Lt => K_LT,
        Tok::Gt => K_GT,
        Tok::Le => K_LE,
        Tok::Ge => K_GE,
        Tok::LtLt => K_LT_LT,
        Tok::GtGt => K_GT_GT,
        Tok::Plus => K_PLUS,
        Tok::Minus => K_MINUS,
        Tok::Star => K_STAR,
        Tok::StarStar => K_STAR_STAR,
        Tok::Slash => K_SLASH,
        Tok::Percent => K_PERCENT,
        Tok::Amp => K_AMP,
        Tok::Pipe => K_PIPE,
        Tok::Tilde => K_TILDE,
        Tok::AndAnd => K_AND_AND,
        Tok::OrOr => K_OR_OR,
        Tok::Not => K_NOT,
        Tok::Question => K_QUESTION,
        Tok::At => K_AT,
        Tok::FatArrow => K_FAT_ARROW,
        Tok::Pipeline => K_PIPELINE,
        Tok::OpAssign(..) => K_OP_ASSIGN,
        Tok::Quote(..) => K_QUOTE,
    }
}

/// The kind of a token, without its payload.
pub(crate) fn code(t: &Tok) -> (r: u8)
    ensures
        r == spec_code(*t),
        r <= 66,
{
    match t {
        Tok::Ident(..) => K_IDENT,
        Tok::Int(..) => K_INT,
        Tok::Float(..) => K_FLOAT,
        Tok::Str(..) => K_STR,
        Tok::Bool(..) => K_BOOL,
        Tok::Atom(..) => K_ATOM,
        Tok::Dollar => K_DOLLAR,
        Tok::Fn => K_FN,
        Tok::Struct => K_STRUCT,
        Tok::Enum => K_ENUM,
        Tok::Trait => K_TRAIT,
        Tok::If => K_IF,
        Tok::Else => K_ELSE,
        Tok::Do => K_DO,
        Tok::Loop => K_LOOP,
        Tok::In => K_IN,
        Tok::Match => K_MATCH,
        Tok::Return => K_RETURN,
        Tok::Break => K_BREAK,
        Tok::Continue => K_CONTINUE,
        Tok::Defer => K_DEFER,
        Tok::Or => K_OR,
        Tok::Move => K_MOVE,
        Tok::Mut => K_MUT,
        Tok::Pub => K_PUB,
        Tok::Is => K_IS,
        Tok::LParen => K_L_PAREN,
        Tok::RParen => K_R_PAREN,
        Tok::LBrace => K_L_BRACE,
        Tok::RBrace => K_R_BRACE,
        Tok::LBracket => K_L_BRACKET,
        Tok::RBracket => K_R_BRACKET,
        Tok::Comma => K_COMMA,
        Tok::Semi => K_SEMI,
        Tok::Dot => K_DOT,
        Tok::DotDot => K_DOT_DOT,
        Tok::DotDotEq => K_DOT_DOT_EQ,
        Tok::Colon => K_COLON,
        Tok::DoubleColon => K_DOUBLE_COLON,
        Tok::Bind => K_BIND,
        Tok::Assign => K_ASSIGN,
        Tok::Eq => K_EQ,
        Tok::Ne => K_NE,
        Tok::Lt => K_LT,
        Tok::Gt => K_GT,
        Tok::Le => K_LE,
        Tok::Ge => K_GE,
        Tok::LtLt => K_LT_LT,
        Tok::GtGt => K_GT_GT,
        Tok::Plus => K_PLUS,
        Tok::Minus => K_MINUS,
        Tok::Star => K_STAR,
        Tok::StarStar => K_STAR_STAR,
        Tok::Slash => K_SLASH,
        Tok::Percent => K_PERCENT,
        Tok::Amp => K_AMP,
        Tok::Pipe => K_PIPE,
        Tok::Tilde => K_TILDE,
        Tok::AndAnd => K_AND_AND,
        Tok::OrOr => K_OR_OR,
        Tok::Not => K_NOT,
        Tok::Question => K_QUESTION,
        Tok::At => K_AT,
        Tok::FatArrow => K_FAT_ARROW,
        Tok::Pipeline => K_PIPELINE,
        Tok::OpAssign(..) => K_OP_ASSIGN,
        Tok::Quote(..) => K_QUOTE,
    }
}

/// A token with where it stands in the source.
#[derive(Clone, Debug)]
pub struct Token {
    pub tok: Tok,
    pub start: usize,
    pub end: usize,
    /// A line break stands between the previous token and this one.
    pub nl: bool,
    /// Whitespace stands between the previous token and this one.
    pub sp: bool,
}

/// A lexing failure: the message and the offset where it happened.
#[derive(Clone, Debug)]
pub struct LexError {
    pub msg: Vec<u8>,
    pub at: usize,
}

/// Tokens lie inside the source, in order, and do not overlap.
pub open spec fn well_placed(toks: Seq<Token>, len: nat) -> bool {
    &&& forall|i: int| 0 <= i < toks.len() ==> #[trigger] toks[i].start < toks[i].end && toks[i].end <= len
    &&& forall|i: int, j: int| 0 <= i < j < toks.len() ==> #[trigger] toks[i].end <= #[trigger] toks[j].start
}

pub open spec fn is_ident_start(c: u8) -> bool {
    (97 <= c && c <= 122) || (65 <= c && c <= 90) || c == 95
}

pub open spec fn is_digit(c: u8) -> bool {
    48 <= c && c <= 57
}

pub open spec fn is_ident_char(c: u8) -> bool {
    is_ident_start(c) || is_digit(c)
}

fn ident_start(c: u8) -> (r: bool)
    ensures
        r == is_ident_start(c),
{
    (97 <= c && c <= 122) || (65 <= c && c <= 90) || c == 95
}

fn ident_char(c: u8) -> (r: bool)
    ensures
        r == is_ident_char(c),
{
    ident_start(c) || (48 <= c && c <= 57)
}

/// The value of a hexadecimal digit of either case, or -1.
pub open spec fn spec_digit(c: u8) -> int {
    if 48 <= c <= 57 {
        c - 48
    } else if 97 <= c <= 102 {
        c - 97 + 10
    } else if 65 <= c <= 70 {
        c - 65 + 10
    } else {
        -1
    }
}

/// The value of a digit in the given radix, if it is one.
fn digit_value(c: u8, radix: u64) -> (r: Option<u64>)
    requires
        radix <= 16,
    ensures
        r == (if spec_digit(c) >= 0 && spec_digit(c) < radix {
            Some(spec_digit(c) as u64)
        } else {
            None
        }),
{
    let d: u64 = if 48 <= c && c <= 57 {
        (c - 48) as u64
    } else if 97 <= c && c <= 102 {
        (c - 97 + 10) as u64
    } else if 65 <= c && c <= 70 {
        (c - 65 + 10) as u64
    } else {
        return None;
    };
    if d < radix {
        Some(d)
    } else {
        None
    }
}

/// The keyword a word spells, if any.
pub open spec fn spec_keyword(w: Seq<u8>) -> Option<Tok> {
    if w == "fn".spec_bytes() {
        Some(Tok::Fn)
    } else if w == "struct".spec_bytes() {
        Some(Tok::Struct)
    } else if w == "enum".spec_bytes() {
        Some(Tok::Enum)
    } else if w == "trait".spec_bytes() {
        Some(Tok::Trait)
    } else if w == "if".spec_bytes() {
        Some(Tok::If)
    } else if w == "else".spec_bytes() {
        Some(Tok::Else)
    } else if w == "do".spec_bytes() {
        Some(Tok::Do)
    } else if w == "loop".spec_bytes() {
        Some(Tok::Loop)
    } else if w == "in".spec_bytes() {
        Some(Tok::In)
    } else if w == "match".spec_bytes() {
        Some(Tok::Match)
    } else if w == "return".spec_bytes() {
        Some(Tok::Return)
    } else if w == "break".spec_bytes() {
        Some(Tok::Break)
    } else if w == "continue".spec_bytes() {
        Some(Tok::Continue)
    } else if w == "defer".spec_bytes() {
        Some(Tok::Defer)
    } else if w == "or".spec_bytes() {
        Some(Tok::Or)
    } else if w == "move".spec_bytes() {
        Some(Tok::Move)
    } else if w == "mut".spec_bytes() {
        Some(Tok::Mut)
    } else if w == "pub".spec_bytes() {
        Some(Tok::Pub)
    } else if w == "is".spec_bytes() {
        Some(Tok::Is)
    } else if w == "true".spec_bytes() {
        Some(Tok::Bool(true))
    } else if w == "false".spec_bytes() {
        Some(Tok::Bool(false))
    } else {
        None
    }
}

/// The keyword an identifier spells, if any.
fn keyword(w: &[u8]) -> (r: Option<Tok>)
    ensures
        r == spec_keyword(w@),
{
    if crate::text::is(w, "fn") {
        Some(Tok::Fn)
    } else if crate::text::is(w, "struct") {
        Some(Tok::Struct)
    } else if crate::text::is(w, "enum") {
        Some(Tok::Enum)
    } else if crate::text::is(w, "trait") {
        Some(Tok::Trait)
    } else if crate::text::is(w, "if") {
        Some(Tok::If)
    } else if crate::text::is(w, "else") {
        Some(Tok::Else)
    } else if crate::text::is(w, "do") {
        Some(Tok::Do)
    } else if crate::text::is(w, "loop") {
        Some(Tok::Loop)
    } else if crate::text::is(w, "in") {
        Some(Tok::In)
    } else if crate::text::is(w, "match") {
        Some(Tok::Match)
    } else if crate::text::is(w, "return") {
        Some(Tok::Return)
    } else if crate::text::is(w, "break") {
        Some(Tok::Break)
    } else if crate::text::is(w, "continue") {
        Some(Tok::Continue)
    } else if crate::text::is(w, "defer") {
        Some(Tok::Defer)
    } else if crate::text::is(w, "or") {
        Some(Tok::Or)
    } else if crate::text::is(w, "move") {
        Some(Tok::Move)
    } else if crate::text::is(w, "mut") {
        Some(Tok::Mut)
    } else if crate::text::is(w, "pub") {
        Some(Tok::Pub)
    } else if crate::text::is(w, "is") {
        Some(Tok::Is)
    } else if crate::text::is(w, "true") {
        Some(Tok::Bool(true))
    } else if crate::text::is(w, "false") {
        Some(Tok::Bool(false))
    } else {
        None
    }
}

/// The two-byte punctuation starting with `a` then `b`, if any.
pub open spec fn spec_punct2(a: u8, b: u8) -> Option<Tok> {
    if a == 58 && b == 58 {
        Some(Tok::DoubleColon)
    } else if a == 58 && b == 61 {
        Some(Tok::Bind)
    } else if a == 61 && b == 61 {
        Some(Tok::Eq)
    } else if a == 61 && b == 62 {
        Some(Tok::FatArrow)
    } else if a == 33 && b == 61 {
        Some(Tok::Ne)
    } else if a == 60 && b == 61 {
        Some(Tok::Le)
    } else if a == 62 && b == 61 {
        Some(Tok::Ge)
    } else if a == 60 && b == 60 {
        Some(Tok::LtLt)
    } else if a == 62 && b == 62 {
        Some(Tok::GtGt)
    } else if a == 42 && b == 42 {
        Some(Tok::StarStar)
    } else if a == 38 && b == 38 {
        Some(Tok::AndAnd)
    } else if a == 124 && b == 124 {
        Some(Tok::OrOr)
    } else if a == 124 && b == 62 {
        Some(Tok::Pipeline)
    } else if b == 61 && (a == 43 || a == 45 || a == 42 || a == 47 || a == 37 || a == 38 || a
        == 124 || a == 126) {
        Some(Tok::OpAssign(a))
    } else {
        None
    }
}

/// The two-byte punctuation starting with `a` then `b`, if any.
fn punct2(a: u8, b: u8) -> (r: Option<Tok>)
    ensures
        r == spec_punct2(a, b),
{
    if a == 58 && b == 58 {
        Some(Tok::DoubleColon)
    } else if a == 58 && b == 61 {
        Some(Tok::Bind)
    } else if a == 61 && b == 61 {
        Some(Tok::Eq)
    } else if a == 61 && b == 62 {
        Some(Tok::FatArrow)
    } else if a == 33 && b == 61 {
        Some(Tok::Ne)
    } else if a == 60 && b == 61 {
        Some(Tok::Le)
    } else if a == 62 && b == 61 {
        Some(Tok::Ge)
    } else if a == 60 && b == 60 {
        Some(Tok::LtLt)
    } else if a == 62 && b == 62 {
        Some(Tok::GtGt)
    } else if a == 42 && b == 42 {
        Some(Tok::StarStar)
    } else if a == 38 && b == 38 {
        Some(Tok::AndAnd)
    } else if a == 124 && b == 124 {
        Some(Tok::OrOr)
    } else if a == 124 && b == 62 {
        Some(Tok::Pipeline)
    } else if b == 61 && (a == 43 || a == 45 || a == 42 || a == 47 || a == 37 || a == 38 || a
        == 124 || a == 126) {
        Some(Tok::OpAssign(a))
    } else {
        None
    }
}

/// The one-byte punctuation `a`, if any.
pub open spec fn spec_punct1(a: u8) -> Option<Tok> {
    if a == 40 {
        Some(Tok::LParen)
    } else if a == 41 {
        Some(Tok::RParen)
    } else if a == 123 {
        Some(Tok::LBrace)
    } else if a == 125 {
        Some(Tok::RBrace)
    } else if a == 91 {
        Some(Tok::LBracket)
    } else if a == 93 {
        Some(Tok::RBracket)
    } else if a == 44 {
        Some(Tok::Comma)
    } else if a == 59 {
        Some(Tok::Semi)
    } else if a == 58 {
        Some(Tok::Colon)
    } else if a == 61 {
        Some(Tok::Assign)
    } else if a == 60 {
        Some(Tok::Lt)
    } else if a == 62 {
        Some(Tok::Gt)
    } else if a == 43 {
        Some(Tok::Plus)
    } else if a == 45 {
        Some(Tok::Minus)
    } else if a == 42 {
        Some(Tok::Star)
    } else if a == 47 {
        Some(Tok::Slash)
    } else if a == 37 {
        Some(Tok::Percent)
    } else if a == 38 {
        Some(Tok::Amp)
    } else if a == 124 {
        Some(Tok::Pipe)
    } else if a == 126 {
        Some(Tok::Tilde)
    } else if a == 33 {
        Some(Tok::Not)
    } else if a == 63 {
        Some(Tok::Question)
    } else if a == 64 {
        Some(Tok::At)
    } else if a == 36 {
        Some(Tok::Dollar)
    } else {
        None
    }
}

/// The one-byte punctuation `a`, if any.
fn punct1(a: u8) -> (r: Option<Tok>)
    ensures
        r == spec_punct1(a),
{
    if a == 40 {
        Some(Tok::LParen)
    } else if a == 41 {
        Some(Tok::RParen)
    } else if a == 123 {
        Some(Tok::LBrace)
    } else if a == 125 {
        Some(Tok::RBrace)
    } else if a == 91 {
        Some(Tok::LBracket)
    } else if a == 93 {
        Some(Tok::RBracket)
    } else if a == 44 {
        Some(Tok::Comma)
    } else if a == 59 {
        Some(Tok::Semi)
    } else if a == 58 {
        Some(Tok::Colon)
    } else if a == 61 {
        Some(Tok::Assign)
    } else if a == 60 {
        Some(Tok::Lt)
    } else if a == 62 {
        Some(Tok::Gt)
    } else if a == 43 {
        Some(Tok::Plus)
    } else if a == 45 {
        Some(Tok::Minus)
    } else if a == 42 {
        Some(Tok::Star)
    } else if a == 47 {
        Some(Tok::Slash)
    } else if a == 37 {
        Some(Tok::Percent)
    } else if a == 38 {
        Some(Tok::Amp)
    } else if a == 124 {
        Some(Tok::Pipe)
    } else if a == 126 {
        Some(Tok::Tilde)
    } else if a == 33 {
        Some(Tok::Not)
    } else if a == 63 {
        Some(Tok::Question)
    } else if a == 64 {
        Some(Tok::At)
    } else if a == 36 {
        Some(Tok::Dollar)
    } else {
        None
    }
}

/// The value of the digits in `radix` from offset `j` on, `_` separators skipped, after the
/// value `v` of the digits before them, with the offset of the first byte that is neither.
pub open spec fn spec_int_digits(src: Seq<u8>, j: int, radix: int, v: int) -> (int, int)
    decreases src.len() - j,
{
    if j < 0 || j >= src.len() {
        (v, j)
    } else if src[j] == 95 {
        spec_int_digits(src, j + 1, radix, v)
    } else if 0 <= spec_digit(src[j]) < radix {
        spec_int_digits(src, j + 1, radix, v * radix + spec_digit(src[j]))
    } else {
        (v, j)
    }
}

/// The digits read on never make the value smaller.
proof fn lemma_int_digits_grow(src: Seq<u8>, j: int, radix: int, v: int)
    requires
        2 <= radix,
        0 <= v,
    ensures
        spec_int_digits(src, j, radix, v).0 >= v,
    decreases src.len() - j,
{
    if j < 0 || j >= src.len() {
    } else if src[j] == 95 {
        lemma_int_digits_grow(src, j + 1, radix, v);
    } else if 0 <= spec_digit(src[j]) < radix {
        assert(v * radix >= v) by (nonlinear_arith)
            requires
                2 <= radix,
                0 <= v,
        ;
        lemma_int_digits_grow(src, j + 1, radix, v * radix + spec_digit(src[j]));
    }
}

/// Scan an integer literal in `radix` from `i`, skipping `_` separators.
/// Returns its value and the offset just past it.
fn scan_int(src: &[u8], i: usize, radix: u64) -> (r: Result<(i64, usize), LexError>)
    requires
        i <= src@.len(),
        2 <= radix <= 16,
    ensures
        r matches Ok((_, j)) ==> i <= j <= src@.len(),
        r is Ok <==> spec_int_digits(src@, i as int, radix as int, 0).0 <= u64::MAX && (spec_int_digits(
            src@,
            i as int,
            radix as int,
            0,
        ).0 <= i64::MAX || radix != 10),
        r matches Ok((n, j)) ==> j == spec_int_digits(src@, i as int, radix as int, 0).1 && n == (if spec_int_digits(
            src@,
            i as int,
            radix as int,
            0,
        ).0 <= i64::MAX {
            spec_int_digits(src@, i as int, radix as int, 0).0
        } else {
            spec_int_digits(src@, i as int, radix as int, 0).0 - 0x1_0000_0000_0000_0000
        }),
{
    let mut j = i;
    let mut v: u64 = 0;
    while j < src.len()
        invariant
            i <= j <= src@.len(),
            2 <= radix <= 16,
            spec_int_digits(src@, i as int, radix as int, 0) == spec_int_digits(src@, j as int, radix as int, v as int),
        ensures
            i <= j <= src@.len(),
            spec_int_digits(src@, i as int, radix as int, 0) == (v as int, j as int),
        decreases src@.len() - j,
    {
        let c = src[j];
        if c == 95 {
            j = j + 1;
            continue;
        }
        match digit_value(c, radix) {
            Some(d) => {
                match v.checked_mul(radix) {
                    Some(m) => match m.checked_add(d) {
                        Some(n) => {
                            v = n;
                        },
                        None => {
                            proof {
                                lemma_int_digits_grow(src@, j + 1, radix as int, v * radix + d);
                            }
                            return Err(LexError { msg: lit("integer literal is too large"), at: i });
                        },
                    },
                    None => {
                        proof {
                            lemma_int_digits_grow(src@, j + 1, radix as int, v * radix + d);
                        }
                        return Err(LexError { msg: lit("integer literal is too large"), at: i });
                    },
                }
            },
            None => {
                break;
            },
        }
        j = j + 1;
    }
    if v <= 9223372036854775807u64 {
        Ok((v as i64, j))
    } else if radix != 10 {
        // hex and binary literals may spell a negative bit pattern
        Ok(((v - 9223372036854775808u64) as i64 - 9223372036854775807i64 - 1, j))
    } else {
        Err(LexError { msg: lit("integer literal is too large"), at: i })
    }
}

/// The byte an escape `\\e` stands for.
pub open spec fn spec_escape(e: u8) -> u8 {
    if e == 110 {
        10
    } else if e == 116 {
        9
    } else if e == 114 {
        13
    } else if e == 48 {
        0
    } else {
        e
    }
}

/// The bytes of a string literal's body from offset `j` on, decoded, with the offset just past
/// its closing quote; nothing when the source ends first.
pub open spec fn spec_string_body(src: Seq<u8>, j: int) -> Option<(Seq<u8>, int)>
    decreases src.len() - j,
{
    if j < 0 || j >= src.len() {
        None
    } else if src[j] == 34 {
        Some((Seq::empty(), j + 1))
    } else if src[j] == 92 && j + 1 < src.len() {
        match spec_string_body(src, j + 2) {
            Some((rest, e)) => Some((seq![spec_escape(src[j + 1])] + rest, e)),
            None => None,
        }
    } else {
        match spec_string_body(src, j + 1) {
            Some((rest, e)) => Some((seq![src[j]] + rest, e)),
            None => None,
        }
    }
}

/// `done` followed by what a string body gives, if it gives anything.
pub open spec fn after(done: Seq<u8>, o: Option<(Seq<u8>, int)>) -> Option<(Seq<u8>, int)> {
    match o {
        Some((rest, e)) => Some((done + rest, e)),
        None => None,
    }
}

/// Scan a string literal whose opening quote is at `i`.
/// Returns its decoded bytes and the offset just past the closing quote.
fn scan_string(src: &[u8], i: usize) -> (r: Result<(Vec<u8>, usize), LexError>)
    requires
        i < src@.len(),
    ensures
        r matches Ok((_, j)) ==> i < j <= src@.len(),
        r is Ok <==> spec_string_body(src@, i + 1) is Some,
        r matches Ok((v, j)) ==> spec_string_body(src@, i + 1) == Some((v@, j as int)),
        r matches Err(e) ==> e.msg@ == "unterminated string".spec_bytes() && e.at == i,
{
    let mut out: Vec<u8> = Vec::new();
    let n = src.len();
    let mut j = i + 1;
    while j < n
        invariant
            i < j <= src@.len(),
            n == src@.len(),
            spec_string_body(src@, i + 1) == after(out@, spec_string_body(src@, j as int)),
        decreases src@.len() - j,
    {
        let c = src[j];
        if c == 34 {
            assert(out@ + Seq::<u8>::empty() =~= out@);
            return Ok((out, j + 1));
        }
        if c == 92 && j + 1 < n {
            let e = src[j + 1];
            let b: u8 = if e == 110 {
                10
            } else if e == 116 {
                9
            } else if e == 114 {
                13
            } else if e == 48 {
                0
            } else {
                e
            };
            proof {
                match spec_string_body(src@, j + 2) {
                    Some((rest, _)) => {
                        assert(out@.push(b) + rest =~= out@ + (seq![spec_escape(e)] + rest));
                    },
                    None => {},
                }
            }
            out.push(b);
            j = j + 2;
        } else {
            proof {
                match spec_string_body(src@, j + 1) {
                    Some((rest, _)) => {
                        assert(out@.push(c) + rest =~= out@ + (seq![c] + rest));
                    },
                    None => {},
                }
            }
            out.push(c);
            j = j + 1;
        }
    }
    Err(LexError { msg: lit("unterminated string"), at: i })
}

/// Whether the bytes at `i` start a float literal's fraction: a `.` followed by a digit.
fn fraction_follows(src: &[u8], i: usize) -> (r: bool)
    ensures
        r == (i + 1 < src@.len() && src@[i as int] == 46 && is_digit(src@[i + 1])),
{
    let n = src.len();
    i < n && i + 1 < n && src[i] == 46 && 48 <= src[i + 1] && src[i + 1] <= 57
}

/// Whether a byte is a space, a tab, a carriage return or a line feed.
pub open spec fn is_blank_byte(b: u8) -> bool {
    b == 32 || b == 9 || b == 13 || b == 10
}

/// Whether a source holds nothing but blanks.
pub open spec fn blank(src: Seq<u8>) -> bool {
    forall|k: int| 0 <= k < src.len() ==> is_blank_byte(#[trigger] src[k])
}

/// Split source bytes into tokens.
pub(crate) fn lex(src: &[u8]) -> (r: Result<Vec<Token>, LexError>)
    ensures
        r matches Ok(toks) ==> well_placed(toks@, src@.len()),
        blank(src@) ==> (r matches Ok(toks) && toks@.len() == 0),
{
    let mut toks: Vec<Token> = Vec::new();
    let mut i: usize = 0;
    let mut nl = false;
    let mut sp = false;
    while i < src.len()
        invariant
            i <= src@.len(),
            well_placed(toks@, src@.len()),
            forall|k: int| 0 <= k < toks@.len() ==> #[trigger] toks@[k].end <= i,
            blank(src@) ==> toks@.len() == 0,
        decreases src@.len() - i,
    {
        let c = src[i];
        assert(blank(src@) ==> is_blank_byte(src@[i as int]));
        // whitespace
        if c == 32 || c == 9 || c == 13 {
            sp = true;
            i = i + 1;
            continue;
        }
        if c == 10 {
            sp = true;
            nl = true;
            i = i + 1;
            continue;
        }
        // line comments
        if c == 47 && src.len() - i > 1 && src[i + 1] == 47 {
            let mut j = i;
            while j < src.len() && src[j] != 10
                invariant
                    i <= j <= src@.len(),
                decreases src@.len() - j,
            {
                j = j + 1;
            }
            sp = true;
            i = j;
            continue;
        }
        let start = i;
        let after_dot = toks.len() > 0 && matches!(toks[toks.len() - 1].tok, Tok::Dot);
        let (tok, end): (Tok, usize) = if ident_start(c) {
            let mut j = i;
            while j < src.len() && ident_char(src[j])
                invariant
                    i <= j <= src@.len(),
                decreases src@.len() - j,
            {
                j = j + 1;
            }
            let mut w: Vec<u8> = Vec::new();
            let mut k = i;
            while k < j
                invariant
                    i <= k <= j <= src@.len(),
                decreases j - k,
            {
                w.push(src[k]);
                k = k + 1;
            }
            let t = match keyword(w.as_slice()) {
                Some(kw) => kw,
                None => Tok::Ident(w),
            };
            (t, j)
        } else if 48 <= c && c <= 57 {
            let radix: u64 = if c == 48 && src.len() - i > 1 && (src[i + 1] == 120 || src[i + 1]
                == 98 || src[i + 1] == 111) {
                if src[i + 1] == 120 {
                    16
                } else if src[i + 1] == 98 {
                    2
                } else {
                    8
                }
            } else {
                10
            };
            let from = if radix == 10 {
                i
            } else {
                i + 2
            };
            let (v, j) = match scan_int(src, from, radix) {
                Ok(p) => p,
                Err(e) => {
                    return Err(e);
                },
            };
            if j <= i {
                return Err(LexError { msg: lit("malformed number"), at: i });
            }
            if radix == 10 && !after_dot && j < src.len() && fraction_follows(src, j) {
                // a float literal: digits, a dot, digits
                let mut k = j + 1;
                while k < src.len() && ((48 <= src[k] && src[k] <= 57) || src[k] == 95)
                    invariant
                        j < k <= src@.len(),
                    decreases src@.len() - k,
                {
                    k = k + 1;
                }
                let mut w: Vec<u8> = Vec::new();
                let mut m = i;
                while m < k
                    invariant
                        i <= m <= k <= src@.len(),
                    decreases k - m,
                {
                    if src[m] != 95 {
                        w.push(src[m]);
                    }
                    m = m + 1;
                }
                (Tok::Float(w), k)
            } else {
                (Tok::Int(v), j)
            }
        } else if c == 34 {
            match scan_string(src, i) {
                Ok((s, j)) => (Tok::Str(s), j),
                Err(e) => {
                    return Err(e);
                },
            }
        } else if c == 96 {
            // a quote runs to the next backtick
            let mut j = i + 1;
            while j < src.len() && src[j] != 96
                invariant
                    i < j <= src@.len(),
                decreases src@.len() - j,
            {
                j = j + 1;
            }
            if j >= src.len() {
                return Err(LexError { msg: lit("unclosed quote"), at: i });
            }
            let mut w: Vec<u8> = Vec::new();
            let mut k = i + 1;
            while k < j
                invariant
                    i < k <= j <= src@.len(),
                decreases j - k,
            {
                w.push(src[k]);
                k = k + 1;
            }
            (Tok::Quote(w), j + 1)
        } else if c == 46 {
            if src.len() - i > 2 && src[i + 1] == 46 && src[i + 2] == 61 {
                (Tok::DotDotEq, i + 3)
            } else if src.len() - i > 1 && src[i + 1] == 46 {
                (Tok::DotDot, i + 2)
            } else {
                (Tok::Dot, i + 1)
            }
        } else if c == 58 && src.len() - i > 1 && ident_start(src[i + 1]) && (toks.len() == 0
            || sp || matches!(toks[toks.len() - 1].tok, Tok::LParen)) {
            // an atom: `:name`
            let mut j = i + 1;
            while j < src.len() && ident_char(src[j])
                invariant
                    i < j <= src@.len(),
                decreases src@.len() - j,
            {
                j = j + 1;
            }
            let mut w: Vec<u8> = Vec::new();
            let mut k = i + 1;
            while k < j
                invariant
                    i < k <= j <= src@.len(),
                decreases j - k,
            {
                w.push(src[k]);
                k = k + 1;
            }
            (Tok::Atom(w), j)
        } else if c == 42 && src.len() - i > 2 && src[i + 1] == 42 && src[i + 2] == 61 {
            (Tok::OpAssign(112), i + 3)
        } else if (c == 60 || c == 62) && src.len() - i > 2 && src[i + 1] == c && src[i + 2]
            == 61 {
            (Tok::OpAssign(c), i + 3)
        } else {
            let two = if src.len() - i > 1 {
                punct2(c, src[i + 1])
            } else {
                None
            };
            match two {
                Some(t) => (t, i + 2),
                None => match punct1(c) {
                    Some(t) => (t, i + 1),
                    None => {
                        let mut msg = lit("unexpected character `");
                        let one: Vec<u8> = vec![c];
                        push_all(&mut msg, one.as_slice());
                        msg.push(96);
                        return Err(LexError { msg, at: i });
                    },
                },
            }
        };
        if end <= start || end > src.len() {
            return Err(LexError { msg: lit("malformed token"), at: i });
        }
        let ghost old_toks = toks@;
        toks.push(Token { tok, start, end, nl, sp });
        assert forall|a: int, b: int| 0 <= a < b < toks@.len() implies #[trigger] toks@[a].end
            <= #[trigger] toks@[b].start by {
            if b < old_toks.len() {
                assert(toks@[a] == old_toks[a] && toks@[b] == old_toks[b]);
            } else {
                assert(toks@[a] == old_toks[a]);
            }
        }
        nl = false;
        sp = false;
        i = end;
    }
    Ok(toks)
}

/// How a token is shown when tokens are dumped: its kind, and its payload in brackets.
pub open spec fn spec_describe(t: Tok) -> Seq<u8> {
    match t {
        Tok::Ident(b) => "Ident(\"".spec_bytes() + b@ + "\")".spec_bytes(),
        Tok::Int(n) => "Int(".spec_bytes() + crate::text::spec_decimal(n as int) + ")".spec_bytes(),
        Tok::Float(b) => "Float(\"".spec_bytes() + b@ + "\")".spec_bytes(),
        Tok::Str(b) => "Str(\"".spec_bytes() + b@ + "\")".spec_bytes(),
        Tok::Bool(b) => if b {
            "Bool(true)".spec_bytes()
        } else {
            "Bool(false)".spec_bytes()
        },
        Tok::Atom(b) => "Atom(\"".spec_bytes() + b@ + "\")".spec_bytes(),
        Tok::Dollar => "Dollar".spec_bytes(),
        Tok::Fn => "Fn".spec_bytes(),
        Tok::Struct => "Struct".spec_bytes(),
        Tok::Enum => "Enum".spec_bytes(),
        Tok::Trait => "Trait".spec_bytes(),
        Tok::If => "If".spec_bytes(),
        Tok::Else => "Else".spec_bytes(),
        Tok::Do => "Do".spec_bytes(),
        Tok::Loop => "Loop".spec_bytes(),
        Tok::In => "In".spec_bytes(),
        Tok::Match => "Match".spec_bytes(),
        Tok::Return => "Return".spec_bytes(),
        Tok::Break => "Break".spec_bytes(),
        Tok::Continue => "Continue".spec_bytes(),
        Tok::Defer => "Defer".spec_bytes(),
        Tok::Or => "Or".spec_bytes(),
        Tok::Move => "Move".spec_bytes(),
        Tok::Mut => "Mut".spec_bytes(),
        Tok::Pub => "Pub".spec_bytes(),
        Tok::Is => "Is".spec_bytes(),
        Tok::LParen => "LParen".spec_bytes(),
        Tok::RParen => "RParen".spec_bytes(),
        Tok::LBrace => "LBrace".spec_bytes(),
        Tok::RBrace => "RBrace".spec_bytes(),
        Tok::LBracket => "LBracket".spec_bytes(),
        Tok::RBracket => "RBracket".spec_bytes(),
        Tok::Comma => "Comma".spec_bytes(),
        Tok::Semi => "Semi".spec_bytes(),
        Tok::Dot => "Dot".spec_bytes(),
        Tok::DotDot => "DotDot".spec_bytes(),
        Tok::DotDotEq => "DotDotEq".spec_bytes(),
        Tok::Colon => "Colon".spec_bytes(),
        Tok::DoubleColon => "DoubleColon".spec_bytes(),
        Tok::Bind => "Bind".spec_bytes(),
        Tok::Assign => "Assign".spec_bytes(),
        Tok::Eq => "Eq".spec_bytes(),
        Tok::Ne => "Ne".spec_bytes(),
        Tok::Lt => "Lt".spec_bytes(),
        Tok::Gt => "Gt".spec_bytes(),
        Tok::Le => "Le".spec_bytes(),
        Tok::Ge => "Ge".spec_bytes(),
        Tok::LtLt => "LtLt".spec_bytes(),
        Tok::GtGt => "GtGt".spec_bytes(),
        Tok::Plus => "Plus".spec_bytes(),
        Tok::Minus => "Minus".spec_bytes(),
        Tok::Star => "Star".spec_bytes(),
        Tok::StarStar => "StarStar".spec_bytes(),
        Tok::Slash => "Slash".spec_bytes(),
        Tok::Percent => "Percent".spec_bytes(),
        Tok::Amp => "Amp".spec_bytes(),
        Tok::Pipe => "Pipe".spec_bytes(),
        Tok::Tilde => "Tilde".spec_bytes(),
        Tok::AndAnd => "AndAnd".spec_bytes(),
        Tok::OrOr => "OrOr".spec_bytes(),
        Tok::Not => "Not".spec_bytes(),
        Tok::Question => "Question".spec_bytes(),
        Tok::At => "At".spec_bytes(),
        Tok::FatArrow => "FatArrow".spec_bytes(),
        Tok::Pipeline => "Pipeline".spec_bytes(),
        Tok::OpAssign(c) => "OpAssign(".spec_bytes() + seq![c] + ")".spec_bytes(),
        Tok::Quote(b) => "Quote(\"".spec_bytes() + b@ + "\")".spec_bytes(),
    }
}

/// Append a token's kind, with its payload: `Plus`, `Int(3)`, `Ident("x")`.
pub fn describe(t: &Tok, out: &mut Vec<u8>)
    ensures
        final(out)@ == old(out)@ + spec_describe(*t),
{
    match t {
        Tok::Ident(b) => {
            push_str(out, "Ident(\"");
            push_all(out, b.as_slice());
            push_str(out, "\")");
        },
        Tok::Int(n) => {
            push_str(out, "Int(");
            push_i64(out, *n);
            push_str(out, ")");
        },
        Tok::Float(b) => {
            push_str(out, "Float(\"");
            push_all(out, b.as_slice());
            push_str(out, "\")");
        },
        Tok::Str(b) => {
            push_str(out, "Str(\"");
            push_all(out, b.as_slice());
            push_str(out, "\")");
        },
        Tok::Bool(b) => push_str(out, if *b {
            "Bool(true)"
        } else {
            "Bool(false)"
        }),
        Tok::Atom(b) => {
            push_str(out, "Atom(\"");
            push_all(out, b.as_slice());
            push_str(out, "\")");
        },
        Tok::Dollar => push_str(out, "Dollar"),
        Tok::Fn => push_str(out, "Fn"),
        Tok::Struct => push_str(out, "Struct"),
        Tok::Enum => push_str(out, "Enum"),
        Tok::Trait => push_str(out, "Trait"),
        Tok::If => push_str(out, "If"),
        Tok::Else => push_str(out, "Else"),
        Tok::Do => push_str(out, "Do"),
        Tok::Loop => push_str(out, "Loop"),
        Tok::In => push_str(out, "In"),
        Tok::Match => push_str(out, "Match"),
        Tok::Return => push_str(out, "Return"),
        Tok::Break => push_str(out, "Break"),
        Tok::Continue => push_str(out, "Continue"),
        Tok::Defer => push_str(out, "Defer"),
        Tok::Or => push_str(out, "Or"),
        Tok::Move => push_str(out, "Move"),
        Tok::Mut => push_str(out, "Mut"),
        Tok::Pub => push_str(out, "Pub"),
        Tok::Is => push_str(out, "Is"),
        Tok::LParen => push_str(out, "LParen"),
        Tok::RParen => push_str(out, "RParen"),
        Tok::LBrace => push_str(out, "LBrace"),
        Tok::RBrace => push_str(out, "RBrace"),
        Tok::LBracket => push_str(out, "LBracket"),
        Tok::RBracket => push_str(out, "RBracket"),
        Tok::Comma => push_str(out, "Comma"),
        Tok::Semi => push_str(out, "Semi"),
        Tok::Dot => push_str(out, "Dot"),
        Tok::DotDot => push_str(out, "DotDot"),
        Tok::DotDotEq => push_str(out, "DotDotEq"),
        Tok::Colon => push_str(out, "Colon"),
        Tok::DoubleColon => push_str(out, "DoubleColon"),
        Tok::Bind => push_str(out, "Bind"),
        Tok::Assign => push_str(out, "Assign"),
        Tok::Eq => push_str(out, "Eq"),
        Tok::Ne => push_str(out, "Ne"),
        Tok::Lt => push_str(out, "Lt"),
        Tok::Gt => push_str(out, "Gt"),
        Tok::Le => push_str(out, "Le"),
        Tok::Ge => push_str(out, "Ge"),
        Tok::LtLt => push_str(out, "LtLt"),
        Tok::GtGt => push_str(out, "GtGt"),
        Tok::Plus => push_str(out, "Plus"),
        Tok::Minus => push_str(out, "Minus"),
        Tok::Star => push_str(out, "Star"),
        Tok::StarStar => push_str(out, "StarStar"),
        Tok::Slash => push_str(out, "Slash"),
        Tok::Percent => push_str(out, "Percent"),
        Tok::Amp => push_str(out, "Amp"),
        Tok::Pipe => push_str(out, "Pipe"),
        Tok::Tilde => push_str(out, "Tilde"),
        Tok::AndAnd => push_str(out, "AndAnd"),
        Tok::OrOr => push_str(out, "OrOr"),
        Tok::Not => push_str(out, "Not"),
        Tok::Question => push_str(out, "Question"),
        Tok::At => push_str(out, "At"),
        Tok::FatArrow => push_str(out, "FatArrow"),
        Tok::Pipeline => push_str(out, "Pipeline"),
        Tok::OpAssign(c) => {
            push_str(out, "OpAssign(");
            out.push(*c);
            push_str(out, ")");
        },
        Tok::Quote(b) => {
            push_str(out, "Quote(\"");
            push_all(out, b.as_slice());
            push_str(out, "\")");
        },
    }
}

} // verus!
