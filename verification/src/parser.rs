#![verifier::loop_isolation(false)]

use vstd::prelude::*;
use vstd::string::StringSliceAdditionalSpecFns;

use crate::ast::{Access, BinOp, Expr, MatchArm, Param, Slot, TypeExpr, TypeParam, Variant};
use crate::lexer::{code, lex, Tok, Token, K_QUOTE, K_AMP, K_AND_AND, K_ASSIGN, K_AT, K_ATOM, K_BIND, K_BOOL, K_BREAK, K_COLON, K_COMMA, K_CONTINUE, K_DEFER, K_DO, K_DOLLAR, K_DOT, K_DOT_DOT, K_DOT_DOT_EQ, K_DOUBLE_COLON, K_ELSE, K_ENUM, K_EQ, K_FAT_ARROW, K_FLOAT, K_FN, K_GE, K_GT, K_GT_GT, K_IDENT, K_IF, K_IN, K_INT, K_IS, K_LE, K_LOOP, K_LT, K_LT_LT, K_L_BRACE, K_L_BRACKET, K_L_PAREN, K_MATCH, K_MINUS, K_MOVE, K_MUT, K_NE, K_NOT, K_OP_ASSIGN, K_OR, K_OR_OR, K_PERCENT, K_PIPE, K_PIPELINE, K_PLUS, K_PUB, K_QUESTION, K_RETURN, K_R_BRACE, K_R_BRACKET, K_R_PAREN, K_SEMI, K_SLASH, K_STAR, K_STAR_STAR, K_STR, K_STRUCT, K_TILDE, K_TRAIT};
use crate::text::lit;

verus! {

/// A syntax error.
#[derive(Clone, Debug)]
pub struct ParseError {
    pub msg: Vec<u8>,
    pub at: usize,
}

/// Where juxtaposed arguments may attach to a callee.
#[derive(Clone, Copy, PartialEq, Eq, Structural)]
pub enum Juxt {
    /// Headers of `if`, `loop` and `match`: no juxtaposition at all.
    NoJuxt,
    /// Inside brackets: only a trailing fn or block.
    TrailOnly,
    /// Statements: a leading argument on the same line and/or a trailing fn or block.
    Full,
}

/// A cursor over the tokens of one source.
pub struct Parser {
    pub toks: Vec<Token>,
    pub pos: usize,
    /// The macros defined so far.
    pub macros: Vec<MacroDef>,
}

/// A macro: its name without the `!`, its parameters, and the tokens of its quoted body.
#[derive(Clone, Debug)]
pub struct MacroDef {
    pub name: Vec<u8>,
    pub params: Vec<Vec<u8>>,
    pub body: Vec<Token>,
}

/// The kind code past the last token.
pub const K_EOF: u8 = 255;

/// `after` is `before` with the cursor moved forward (or left in place) over the same tokens.
pub open spec fn moved(before: Parser, after: Parser) -> bool {
    &&& after.toks@ == before.toks@
    &&& before.pos <= after.pos
    &&& after.pos <= after.toks@.len()
}

/// The recursion budget was spent.
fn too_deep(at: usize) -> (r: ParseError)
    ensures
        r.msg@ == "expression nests too deeply".spec_bytes(),
        r.at == at,
{
    ParseError { msg: lit("expression nests too deeply"), at }
}

/// The binding power, operator and right-associativity of an infix token kind.
pub open spec fn spec_infix_info(k: u8) -> Option<(u8, BinOp, bool)> {
    if k == K_STAR_STAR {
        Some((12, BinOp::Pow, true))
    } else if k == K_STAR {
        Some((11, BinOp::Mul, false))
    } else if k == K_SLASH {
        Some((11, BinOp::Div, false))
    } else if k == K_PERCENT {
        Some((11, BinOp::Mod, false))
    } else if k == K_PLUS {
        Some((10, BinOp::Add, false))
    } else if k == K_MINUS {
        Some((10, BinOp::Sub, false))
    } else if k == K_LT_LT {
        Some((9, BinOp::Shl, false))
    } else if k == K_GT_GT {
        Some((9, BinOp::Shr, false))
    } else if k == K_AMP {
        Some((8, BinOp::BitAnd, false))
    } else if k == K_TILDE {
        Some((7, BinOp::BitXor, false))
    } else if k == K_PIPE {
        Some((6, BinOp::BitOr, false))
    } else if k == K_LT {
        Some((4, BinOp::Lt, false))
    } else if k == K_GT {
        Some((4, BinOp::Gt, false))
    } else if k == K_LE {
        Some((4, BinOp::Le, false))
    } else if k == K_GE {
        Some((4, BinOp::Ge, false))
    } else if k == K_EQ {
        Some((3, BinOp::Eq, false))
    } else if k == K_NE {
        Some((3, BinOp::Ne, false))
    } else if k == K_IN {
        Some((3, BinOp::In, false))
    } else if k == K_AND_AND {
        Some((2, BinOp::And, false))
    } else if k == K_OR_OR {
        Some((1, BinOp::Or, false))
    } else {
        None
    }
}

/// The kind of the token at position `j`, or `K_EOF` outside the list.
pub open spec fn kind_at(ts: Seq<Token>, j: int) -> u8 {
    if 0 <= j < ts.len() {
        crate::lexer::spec_code(ts[j].tok)
    } else {
        K_EOF
    }
}

/// The infix operator the token at position `j` stands for: none on a new line, none for a
/// `-` spaced before and not after (a negative argument), else the operator table's entry.
pub open spec fn infix_at(ts: Seq<Token>, j: int) -> Option<(u8, BinOp, bool)> {
    if !(0 <= j < ts.len()) || ts[j].nl || (kind_at(ts, j) == K_MINUS && ts[j].sp && !(if j + 1 < ts.len() {
        ts[j + 1].sp
    } else {
        true
    })) {
        None
    } else {
        spec_infix_info(kind_at(ts, j))
    }
}

/// Whether the tokens from `i` to the end are integer literals joined by infix operators:
/// a literal, then any number of operator-literal pairs.
pub open spec fn int_run(ts: Seq<Token>, i: int) -> bool
    decreases ts.len() - i, 1nat,
{
    0 <= i < ts.len() && ts[i].tok is Int && ops_run(ts, i + 1)
}

/// Whether the tokens from `j` are nothing, or an operator followed by an `int_run`.
pub open spec fn ops_run(ts: Seq<Token>, j: int) -> bool
    decreases ts.len() - j, 0nat,
{
    if j >= ts.len() {
        j == ts.len()
    } else if j < 0 {
        false
    } else {
        infix_at(ts, j) is Some && int_run(ts, j + 1)
    }
}

/// What a prefix `-` makes of what it applies to: a literal's negation, when there is one,
/// else a negation node.
pub open spec fn negated(e: Expr) -> Expr {
    match e {
        Expr::Int(n) => if n == i64::MIN {
            Expr::Negative(Box::new(Expr::Int(n)))
        } else {
            Expr::Int((-n) as i64)
        },
        _ => Expr::Negative(Box::new(e)),
    }
}

/// A run that opens with a prefix `-`: the minus takes what binds at least as tightly as `**`
/// from the run after it, and the climb goes on from there with that negation on the left.
pub open spec fn spec_minus_climb(ts: Seq<Token>, i: int, min: u8) -> (Expr, int) {
    let inner = spec_climb_from(ts, i + 1, 12);
    spec_climb(ts, negated(inner.0), inner.1, min)
}

/// Where a simple type that starts at `i` ends: a name, under any run of the prefixes `?`, `!`,
/// `..` and `[]`; `None` when the tokens there are no such type.
pub open spec fn simple_type_end(ts: Seq<Token>, i: int) -> Option<int>
    decreases ts.len() - i,
{
    if !(0 <= i < ts.len()) {
        None
    } else {
        let k = kind_at(ts, i);
        if k == K_QUESTION || k == K_NOT || k == K_DOT_DOT {
            simple_type_end(ts, i + 1)
        } else if k == K_L_BRACKET && kind_at(ts, i + 1) == K_R_BRACKET {
            simple_type_end(ts, i + 2)
        } else if ts[i].tok is Ident && kind_at(ts, i + 1) != K_L_BRACKET {
            Some(i + 1)
        } else {
            None
        }
    }
}

/// A simple type takes at least one token.
pub proof fn lemma_simple_type_end(ts: Seq<Token>, i: int)
    ensures
        simple_type_end(ts, i) matches Some(j) ==> i < j <= ts.len(),
    decreases ts.len() - i,
{
    if 0 <= i < ts.len() {
        lemma_simple_type_end(ts, i + 1);
        if i + 1 < ts.len() {
            lemma_simple_type_end(ts, i + 2);
        }
    }
}

/// Whether `t` is the simple type that starts at `i`: each prefix gives its constructor, and the
/// name its `Name`.
pub open spec fn is_simple_type(ts: Seq<Token>, i: int, t: TypeExpr) -> bool
    decreases t,
{
    let k = kind_at(ts, i);
    if k == K_QUESTION {
        t matches TypeExpr::Option(x) && is_simple_type(ts, i + 1, *x)
    } else if k == K_NOT {
        t matches TypeExpr::Result(x) && is_simple_type(ts, i + 1, *x)
    } else if k == K_DOT_DOT {
        t matches TypeExpr::Rest(x) && is_simple_type(ts, i + 1, *x)
    } else if k == K_L_BRACKET {
        t matches TypeExpr::Array(x) && is_simple_type(ts, i + 2, *x)
    } else {
        0 <= i < ts.len() && (t matches TypeExpr::Name(n) && n@ == ts[i].tok->Ident_0@)
    }
}

/// The value of an integer literal token.
pub open spec fn int_value(t: Token) -> i64 {
    match t.tok {
        Tok::Int(n) => n,
        _ => 0,
    }
}

/// Operator-precedence parsing of literals and infix operators from `i`, taking only operators
/// that bind at least as tightly as `min`: the expression and where it ends.
pub open spec fn spec_climb_from(ts: Seq<Token>, i: int, min: u8) -> (Expr, int)
    decreases ts.len() - i, 1nat,
{
    if 0 <= i < ts.len() {
        spec_climb(ts, Expr::Int(int_value(ts[i])), i + 1, min)
    } else {
        (Expr::Int(0), i)
    }
}

/// The rest of `spec_climb_from` once `lhs` ends at `j`: each operator at least as tight as `min`
/// takes `lhs` as its left operand, and as its right one what follows, parsed at its own power
/// (left-associative operators) or one above (right-associative ones take their equal).
pub open spec fn spec_climb(ts: Seq<Token>, lhs: Expr, j: int, min: u8) -> (Expr, int)
    decreases ts.len() - j, 0nat,
{
    if 0 <= j < ts.len() {
        match infix_at(ts, j) {
            Some((p, op, right)) => {
                if p >= min {
                    let next_min: u8 = if right {
                        p
                    } else {
                        (p + 1) as u8
                    };
                    let (rhs, k) = spec_climb_from(ts, j + 1, next_min);
                    let k2 = if j < k <= ts.len() {
                        k
                    } else {
                        j + 1
                    };
                    spec_climb(ts, Expr::Binary(op, Box::new(lhs), Box::new(rhs)), k2, min)
                } else {
                    (lhs, j)
                }
            },
            None => (lhs, j),
        }
    } else {
        (lhs, j)
    }
}

/// Parsing a run ends where an operator run starts, after where it began.
pub proof fn lemma_climb_from_ends(ts: Seq<Token>, i: int, min: u8)
    requires
        int_run(ts, i),
    ensures
        i < spec_climb_from(ts, i, min).1 <= ts.len(),
        ops_run(ts, spec_climb_from(ts, i, min).1),
    decreases ts.len() - i, 1nat,
{
    lemma_climb_ends(ts, Expr::Int(int_value(ts[i])), i + 1, min);
}

/// Climbing from an operator run ends at an operator run, no earlier.
pub proof fn lemma_climb_ends(ts: Seq<Token>, lhs: Expr, j: int, min: u8)
    requires
        ops_run(ts, j),
    ensures
        j <= spec_climb(ts, lhs, j, min).1 <= ts.len(),
        ops_run(ts, spec_climb(ts, lhs, j, min).1),
    decreases ts.len() - j, 0nat,
{
    if 0 <= j < ts.len() {
        match infix_at(ts, j) {
            Some((p, op, right)) => {
                if p >= min {
                    let next_min: u8 = if right {
                        p
                    } else {
                        (p + 1) as u8
                    };
                    lemma_climb_from_ends(ts, j + 1, next_min);
                    let (rhs, k) = spec_climb_from(ts, j + 1, next_min);
                    lemma_climb_ends(ts, Expr::Binary(op, Box::new(lhs), Box::new(rhs)), k, min);
                }
            },
            None => {},
        }
    }
}

/// With no lower bound on binding power, parsing a run takes every token to the end, and
/// gives a literal or an operation.
pub proof fn lemma_climb_all(ts: Seq<Token>, lhs: Expr, j: int)
    requires
        ops_run(ts, j),
        lhs is Int || lhs is Binary || lhs is Negative,
    ensures
        spec_climb(ts, lhs, j, 0).1 == ts.len(),
        spec_climb(ts, lhs, j, 0).0 is Int || spec_climb(ts, lhs, j, 0).0 is Binary || spec_climb(ts, lhs, j, 0).0 is Negative,
    decreases ts.len() - j,
{
    if 0 <= j < ts.len() {
        match infix_at(ts, j) {
            Some((p, op, right)) => {
                let next_min: u8 = if right {
                    p
                } else {
                    (p + 1) as u8
                };
                lemma_climb_from_ends(ts, j + 1, next_min);
                let (rhs, k) = spec_climb_from(ts, j + 1, next_min);
                lemma_climb_all(ts, Expr::Binary(op, Box::new(lhs), Box::new(rhs)), k);
            },
            None => {},
        }
    }
}

/// A run of integer operators, or one behind a prefix `-`.
pub open spec fn simple_run(ts: Seq<Token>, i: int) -> bool {
    int_run(ts, i) || (kind_at(ts, i) == K_MINUS && int_run(ts, i + 1))
}

/// The whole of a `simple_run`, parsed with no lower bound on binding power.
pub open spec fn spec_simple_expr(ts: Seq<Token>, i: int) -> Expr {
    if int_run(ts, i) {
        spec_run_expr(ts, i)
    } else {
        spec_minus_climb(ts, i, 0).0
    }
}

/// A whole `simple_run` is taken, and gives a literal, an operation or a negation.
pub proof fn lemma_simple_run_all(ts: Seq<Token>, i: int)
    requires
        simple_run(ts, i),
    ensures
        spec_climb_from(ts, i, 0).1 == ts.len() || !int_run(ts, i),
        !int_run(ts, i) ==> spec_minus_climb(ts, i, 0).1 == ts.len(),
        spec_simple_expr(ts, i) is Int || spec_simple_expr(ts, i) is Binary || spec_simple_expr(ts, i) is Negative,
{
    if int_run(ts, i) {
        assert(spec_climb_from(ts, i, 0) == spec_climb(ts, Expr::Int(int_value(ts[i])), i + 1, 0));
        lemma_climb_all(ts, Expr::Int(int_value(ts[i])), i + 1);
    } else {
        lemma_climb_from_ends(ts, i + 1, 12);
        let inner = spec_climb_from(ts, i + 1, 12);
        lemma_climb_all(ts, negated(inner.0), inner.1);
    }
}

/// The whole of a run, parsed with no lower bound on binding power.
pub open spec fn spec_run_expr(ts: Seq<Token>, i: int) -> Expr {
    spec_climb_from(ts, i, 0).0
}

/// Whether every operator of a run from `i0` on computes an integer from integers.
pub open spec fn arith_ops_from(ts: Seq<Token>, i0: int) -> bool {
    forall|j: int| i0 <= j < ts.len() && (#[trigger] infix_at(ts, j)) is Some ==> crate::lower::arith_op(
        infix_at(ts, j)->Some_0.1,
    )
}

/// Parsing the rest of a run of integer operators from an operation tree keeps an operation
/// tree, no deeper than its start plus the tokens taken.
pub proof fn lemma_climb_arith(ts: Seq<Token>, lhs: Expr, j: int, min: u8, i0: int)
    requires
        ops_run(ts, j),
        i0 <= j,
        arith_ops_from(ts, i0),
        crate::lower::arith_tree(lhs),
    ensures
        crate::lower::arith_tree(spec_climb(ts, lhs, j, min).0),
        crate::lower::tree_depth(spec_climb(ts, lhs, j, min).0) <= crate::lower::tree_depth(lhs) + spec_climb(
            ts,
            lhs,
            j,
            min,
        ).1 - j,
    decreases ts.len() - j, 0nat,
{
    lemma_climb_ends(ts, lhs, j, min);
    if 0 <= j < ts.len() {
        match infix_at(ts, j) {
            Some((p, op, right)) => {
                if p >= min {
                    let next_min: u8 = if right {
                        p
                    } else {
                        (p + 1) as u8
                    };
                    lemma_climb_from_arith(ts, j + 1, next_min, i0);
                    lemma_climb_from_ends(ts, j + 1, next_min);
                    let (rhs, k) = spec_climb_from(ts, j + 1, next_min);
                    let b = Expr::Binary(op, Box::new(lhs), Box::new(rhs));
                    assert(crate::lower::arith_op(op));
                    lemma_climb_arith(ts, b, k, min, i0);
                }
            },
            None => {},
        }
    }
}

/// Parsing a run of integer operators gives an operation tree no deeper than the tokens taken.
pub proof fn lemma_climb_from_arith(ts: Seq<Token>, i: int, min: u8, i0: int)
    requires
        int_run(ts, i),
        i0 <= i,
        arith_ops_from(ts, i0),
    ensures
        crate::lower::arith_tree(spec_climb_from(ts, i, min).0),
        crate::lower::tree_depth(spec_climb_from(ts, i, min).0) <= spec_climb_from(ts, i, min).1 - i,
    decreases ts.len() - i, 1nat,
{
    lemma_climb_arith(ts, Expr::Int(int_value(ts[i])), i + 1, min, i0);
}

/// A source of integer literals joined by integer operators, with or without a leading `-`,
/// parses to one expression made of integer operations, no deeper than it has tokens; such an
/// expression lowers to a 64-bit integer (see `Translator::lower`).
pub proof fn lemma_int_program_is_an_int_expression(ts: Seq<Token>)
    requires
        simple_run(ts, 0),
        arith_ops_from(ts, 0),
    ensures
        crate::lower::arith_tree(spec_simple_expr(ts, 0)),
        crate::lower::tree_depth(spec_simple_expr(ts, 0)) <= ts.len(),
{
    if int_run(ts, 0) {
        lemma_climb_from_arith(ts, 0, 0, 0);
        lemma_climb_from_ends(ts, 0, 0);
    } else {
        lemma_climb_from_arith(ts, 1, 12, 0);
        lemma_climb_from_ends(ts, 1, 12);
        let inner = spec_climb_from(ts, 1, 12);
        let lhs = negated(inner.0);
        assert(crate::lower::arith_tree(lhs));
        assert(crate::lower::tree_depth(lhs) <= inner.1);
        lemma_climb_arith(ts, lhs, inner.1, 0, 0);
        lemma_climb_ends(ts, lhs, inner.1, 0);
    }
}

/// The binding power, operator and right-associativity of an infix token kind.
fn infix_info(k: u8) -> (r: Option<(u8, BinOp, bool)>)
    ensures
        r == spec_infix_info(k),
        r matches Some((p, _, _)) ==> 1 <= p <= 12,
{
    if k == K_STAR_STAR {
        Some((12, BinOp::Pow, true))
    } else if k == K_STAR {
        Some((11, BinOp::Mul, false))
    } else if k == K_SLASH {
        Some((11, BinOp::Div, false))
    } else if k == K_PERCENT {
        Some((11, BinOp::Mod, false))
    } else if k == K_PLUS {
        Some((10, BinOp::Add, false))
    } else if k == K_MINUS {
        Some((10, BinOp::Sub, false))
    } else if k == K_LT_LT {
        Some((9, BinOp::Shl, false))
    } else if k == K_GT_GT {
        Some((9, BinOp::Shr, false))
    } else if k == K_AMP {
        Some((8, BinOp::BitAnd, false))
    } else if k == K_TILDE {
        Some((7, BinOp::BitXor, false))
    } else if k == K_PIPE {
        Some((6, BinOp::BitOr, false))
    } else if k == K_LT {
        Some((4, BinOp::Lt, false))
    } else if k == K_GT {
        Some((4, BinOp::Gt, false))
    } else if k == K_LE {
        Some((4, BinOp::Le, false))
    } else if k == K_GE {
        Some((4, BinOp::Ge, false))
    } else if k == K_EQ {
        Some((3, BinOp::Eq, false))
    } else if k == K_NE {
        Some((3, BinOp::Ne, false))
    } else if k == K_IN {
        Some((3, BinOp::In, false))
    } else if k == K_AND_AND {
        Some((2, BinOp::And, false))
    } else if k == K_OR_OR {
        Some((1, BinOp::Or, false))
    } else {
        None
    }
}

/// The operator of a compound assignment byte.
pub open spec fn spec_op_of_assign(b: u8) -> BinOp {
    if b == 43 {
        BinOp::Add
    } else if b == 45 {
        BinOp::Sub
    } else if b == 42 {
        BinOp::Mul
    } else if b == 47 {
        BinOp::Div
    } else if b == 37 {
        BinOp::Mod
    } else if b == 38 {
        BinOp::BitAnd
    } else if b == 124 {
        BinOp::BitOr
    } else if b == 126 {
        BinOp::BitXor
    } else if b == 60 {
        BinOp::Shl
    } else if b == 62 {
        BinOp::Shr
    } else {
        BinOp::Pow
    }
}

/// The operator of a compound assignment byte.
fn op_of_assign(b: u8) -> (r: BinOp)
    ensures
        r == spec_op_of_assign(b),
{
    if b == 43 {
        BinOp::Add
    } else if b == 45 {
        BinOp::Sub
    } else if b == 42 {
        BinOp::Mul
    } else if b == 47 {
        BinOp::Div
    } else if b == 37 {
        BinOp::Mod
    } else if b == 38 {
        BinOp::BitAnd
    } else if b == 124 {
        BinOp::BitOr
    } else if b == 126 {
        BinOp::BitXor
    } else if b == 60 {
        BinOp::Shl
    } else if b == 62 {
        BinOp::Shr
    } else {
        BinOp::Pow
    }
}

/// A compound assignment `x op= v` means `x = x op v` with the operator that the same symbol
/// stands for between two operands: for every byte `c` that the lexer reads as `c=` into an
/// assignment token, the operator taken is the infix operator of `c` read alone.
pub proof fn lemma_compound_assign_is_infix(c: u8)
    requires
        crate::lexer::spec_punct2(c, 61) == Some(Tok::OpAssign(c)),
    ensures
        crate::lexer::spec_punct1(c) matches Some(t) && spec_infix_info(crate::lexer::spec_code(t)) matches Some(info)
            && info.1 == spec_op_of_assign(c),
{
}

/// The doubled-symbol compound assignments `<<=`, `>>=` and `**=` (whose token carries the byte
/// 112) take the operator of the doubled symbol between two operands.
pub proof fn lemma_doubled_compound_assign_is_infix(c: u8)
    requires
        c == 60 || c == 62 || c == 42,
    ensures
        crate::lexer::spec_punct2(c, c) matches Some(t) && spec_infix_info(crate::lexer::spec_code(t)) matches Some(info)
            && info.1 == spec_op_of_assign(if c == 42 {
            112u8
        } else {
            c
        }),
{
}

impl Parser {
    pub open spec fn wf(&self) -> bool {
        self.pos <= self.toks@.len()
    }

    /// Whether a token stands `k` places ahead.
    pub open spec fn spec_has(&self, k: int) -> bool {
        0 <= self.pos + k < self.toks@.len()
    }

    /// The kind of the token `k` places ahead, or `K_EOF`.
    pub open spec fn spec_kind(&self, k: int) -> u8 {
        if self.spec_has(k) {
            crate::lexer::spec_code(self.toks@[self.pos + k].tok)
        } else {
            K_EOF
        }
    }

    /// Whether the token `k` places ahead is an identifier.
    pub open spec fn spec_ident_at(&self, k: int) -> bool {
        self.spec_has(k) && self.toks@[self.pos + k].tok is Ident
    }

    /// Whether a line break stands before the token `k` places ahead; past the end, as if one did.
    pub open spec fn nl_spec(&self, k: int) -> bool {
        if self.spec_has(k) {
            self.toks@[self.pos + k].nl
        } else {
            true
        }
    }

    /// Whether whitespace stands before the token `k` places ahead; past the end, as if it did.
    pub open spec fn sp_spec(&self, k: int) -> bool {
        if self.spec_has(k) {
            self.toks@[self.pos + k].sp
        } else {
            true
        }
    }

    /// The byte offset of the next token, or the end of the last one.
    pub open spec fn spec_here(&self) -> usize {
        if self.pos < self.toks@.len() {
            self.toks@[self.pos as int].start
        } else if self.toks@.len() > 0 {
            self.toks@.last().end
        } else {
            0
        }
    }

    /// The kind of the token `k` places ahead, or `K_EOF`.
    fn peek_at(&self, k: usize) -> (r: u8)
        ensures
            r == self.spec_kind(k as int),
            r != K_EOF ==> self.pos + k < self.toks@.len(),
    {
        if k < self.toks.len() && self.pos < self.toks.len() - k {
            code(&self.toks[self.pos + k].tok)
        } else {
            K_EOF
        }
    }

    fn peek(&self) -> (r: u8)
        ensures
            r == self.spec_kind(0),
            r != K_EOF ==> self.pos < self.toks@.len(),
    {
        self.peek_at(0)
    }

    /// Whether a line break stands before the token `k` places ahead.
    fn nl_at(&self, k: usize) -> (r: bool)
        ensures
            r == (if self.spec_has(k as int) {
                self.toks@[self.pos + k].nl
            } else {
                true
            }),
    {
        if k < self.toks.len() && self.pos < self.toks.len() - k {
            self.toks[self.pos + k].nl
        } else {
            true
        }
    }

    /// Whether whitespace stands before the token `k` places ahead.
    fn sp_at(&self, k: usize) -> (r: bool)
        ensures
            r == (if self.spec_has(k as int) {
                self.toks@[self.pos + k].sp
            } else {
                true
            }),
    {
        if k < self.toks.len() && self.pos < self.toks.len() - k {
            self.toks[self.pos + k].sp
        } else {
            true
        }
    }

    /// The identifier `k` places ahead, if that token is one.
    fn ident_at(&self, k: usize) -> (r: Option<Vec<u8>>)
        ensures
            r is Some <==> self.spec_ident_at(k as int),
            r is Some ==> self.pos + k < self.toks@.len(),
            r matches Some(n) ==> n@ == self.toks@[self.pos + k].tok->Ident_0@,
    {
        if k < self.toks.len() && self.pos < self.toks.len() - k {
            match &self.toks[self.pos + k].tok {
                Tok::Ident(n) => Some(crate::text::owned(n.as_slice())),
                _ => None,
            }
        } else {
            None
        }
    }

    /// Every statement to the end of the tokens.
    fn parse_all(&mut self, fuel: u64) -> (r: Result<Vec<Expr>, ParseError>)
        requires
            old(self).wf(),
        ensures
            moved(*old(self), *final(self)),
            r is Ok ==> final(self).pos == final(self).toks@.len(),
            fuel == 0 ==> (r matches Err(e) && e.msg@ == "expression nests too deeply".spec_bytes()),
            fuel > 0 && only_semis(old(self).toks@, old(self).pos as int) ==> (r matches Ok(v) && v@.len() == 0),
            simple_run(old(self).toks@, old(self).pos as int) && fuel >= 10 + 3 * (old(self).toks@.len() - old(self).pos) ==> (r matches Ok(v) && v@ == seq![
                spec_simple_expr(old(self).toks@, old(self).pos as int),
            ]),
        decreases fuel,
    {
        if fuel == 0 {
            return Err(too_deep(self.here()));
        }
        let mut out: Vec<Expr> = Vec::new();
        self.skip_semis();
        proof {
            if only_semis(old(self).toks@, old(self).pos as int) && self.pos < self.toks@.len() {
                assert(crate::lexer::spec_code(old(self).toks@[self.pos as int].tok) == K_SEMI);
            }
            if simple_run(old(self).toks@, old(self).pos as int) && self.pos > old(self).pos {
                assert(crate::lexer::spec_code(self.toks@[old(self).pos as int].tok) == K_SEMI);
            }
        }
        while self.pos < self.toks.len()
            invariant
                moved(*old(self), *self),
                only_semis(old(self).toks@, old(self).pos as int) ==> self.pos == self.toks@.len()
                    && out@.len() == 0,
                simple_run(old(self).toks@, old(self).pos as int) && fuel >= 10 + 3 * (old(self).toks@.len() - old(self).pos) ==> (self.pos == old(self).pos && out@.len() == 0) || (self.pos
                    == self.toks@.len() && out@ == seq![spec_simple_expr(old(self).toks@, old(self).pos as int)]),
            decreases self.toks@.len() - self.pos,
        {
            let before = self.pos;
            let s = self.parse_stmt(fuel - 1)?;
            out.push(s);
            self.skip_semis();
            if self.pos <= before {
                return Err(self.error("unexpected token"));
            }
        }
        Ok(out)
    }

    /// `.{"name", skip = true}` after `@test`: the name to report under, and whether to skip.
    fn parse_test_payload(&mut self, fuel: u64) -> (r: Result<(Option<Vec<u8>>, bool), ParseError>)
        requires
            old(self).wf(),
        ensures
            moved(*old(self), *final(self)),
            (r is Ok ==> final(self).pos >= 1 && crate::lexer::spec_code(final(self).toks@[final(self).pos - 1].tok) == K_R_BRACE),
        decreases fuel,
    {
        if fuel == 0 {
            return Err(too_deep(self.here()));
        }
        self.bump();
        self.bump();
        let mut display: Option<Vec<u8>> = None;
        let mut skip = false;
        while self.peek() != K_R_BRACE && self.peek() != K_EOF
            invariant
                moved(*old(self), *self),
            decreases self.toks@.len() - self.pos,
        {
            let before = self.pos;
            let v = self.parse_expr(Juxt::TrailOnly, fuel - 1)?;
            match v {
                Expr::Str(s) => display = Some(s),
                _ => {},
            }
            if self.eat(K_ASSIGN) {
                let b = self.parse_expr(Juxt::TrailOnly, fuel - 1)?;
                if let Expr::Bool(true) = b {
                    skip = true;
                }
            }
            self.eat(K_COMMA);
            if self.pos <= before {
                return Err(self.error("malformed test annotation"));
            }
        }
        self.expect(K_R_BRACE, "expected `}`")?;
        Ok((display, skip))
    }

    /// The macro of a name, if one is defined.
    fn find_macro(&self, name: &[u8]) -> (r: Option<usize>)
        ensures
            r matches Some(i) ==> i < self.macros@.len() && self.macros@[i as int].name@ == name@,
            r matches Some(i) ==> forall|j: int| 0 <= j < i ==> (#[trigger] self.macros@[j]).name@ != name@,
            r is None ==> forall|j: int| 0 <= j < self.macros@.len() ==> (#[trigger] self.macros@[j]).name@ != name@,
    {
        let mut i: usize = 0;
        while i < self.macros.len()
            invariant
                i <= self.macros@.len(),
                forall|j: int| 0 <= j < i ==> (#[trigger] self.macros@[j]).name@ != name@,
            decreases self.macros@.len() - i,
        {
            if crate::text::bytes_eq(self.macros[i].name.as_slice(), name) {
                return Some(i);
            }
            i = i + 1;
        }
        None
    }

    /// `name! :: fn(params) T { `quote` }` after its `::`: the macro is kept for the calls that
    /// follow it. Its body is one quote, where `%p` stands for the argument of parameter `p` and
    /// `%{..p.items}` for the statements of a block argument.
    fn parse_macro_def(&mut self, name: Vec<u8>, fuel: u64) -> (r: Result<Expr, ParseError>)
        requires
            old(self).wf(),
        ensures
            moved(*old(self), *final(self)),
            r matches Ok(e) ==> e == Expr::MacroDef(name),
        decreases fuel,
    {
        if fuel == 0 {
            return Err(too_deep(self.here()));
        }
        self.expect(K_FN, "expected `fn`")?;
        let params = self.parse_params(fuel - 1)?;
        if self.peek() != K_L_BRACE {
            self.parse_type(fuel - 1)?;
        }
        self.expect(K_L_BRACE, "expected `{`")?;
        let text = if self.pos < self.toks.len() {
            match &self.toks[self.pos].tok {
                Tok::Quote(t) => Some(t.clone()),
                _ => None,
            }
        } else {
            None
        };
        let text = match text {
            Some(t) => t,
            None => {
                return Err(self.error("a macro's body must be one quote"));
            },
        };
        self.bump();
        self.expect(K_R_BRACE, "a macro's body must be one quote")?;
        let body = match lex(text.as_slice()) {
            Ok(t) => t,
            Err(e) => {
                return Err(ParseError { msg: e.msg, at: self.here() });
            },
        };
        let mut names: Vec<Vec<u8>> = Vec::new();
        let mut i: usize = 0;
        while i < params.len()
            invariant
                i <= params@.len(),
            decreases params@.len() - i,
        {
            names.push(params[i].name.clone());
            i = i + 1;
        }
        self.macros.push(MacroDef { name: name.clone(), params: names, body });
        Ok(Expr::MacroDef(name))
    }

    /// A call of macro `m` after its `name!`: the arguments in parentheses, or written after it
    /// on the same line; the call stands for the statements of the macro's body with the
    /// arguments put in.
    fn parse_macro_call(&mut self, m: usize, fuel: u64) -> (r: Result<Expr, ParseError>)
        requires
            old(self).wf(),
        ensures
            moved(*old(self), *final(self)),
        decreases fuel,
    {
        if fuel == 0 || m >= self.macros.len() {
            return Err(too_deep(self.here()));
        }
        let def = self.macros[m].clone();
        let mut args: Vec<(usize, usize)> = Vec::new();
        if self.peek() == K_L_PAREN && !self.sp_at(0) {
            self.bump();
            while self.peek() != K_R_PAREN && self.peek() != K_EOF
                invariant
                    moved(*old(self), *self),
                decreases self.toks@.len() - self.pos,
            {
                let start = self.pos;
                if self.peek() == K_L_BRACE {
                    self.parse_block(fuel - 1)?;
                } else {
                    self.parse_expr(Juxt::TrailOnly, fuel - 1)?;
                }
                args.push((start, self.pos));
                self.eat(K_COMMA);
                if self.pos <= start {
                    return Err(self.error("malformed macro argument"));
                }
            }
            self.expect(K_R_PAREN, "expected `)`")?;
        } else {
            while !self.nl_at(0) && self.peek() != K_EOF && self.peek() != K_R_BRACE && self.peek()
                != K_SEMI
                invariant
                    moved(*old(self), *self),
                decreases self.toks@.len() - self.pos,
            {
                let start = self.pos;
                if self.peek() == K_L_BRACE {
                    self.parse_block(fuel - 1)?;
                } else {
                    self.parse_expr(Juxt::NoJuxt, fuel - 1)?;
                }
                args.push((start, self.pos));
                if self.pos <= start {
                    return Err(self.error("malformed macro argument"));
                }
            }
        }
        if args.len() != def.params.len() {
            let mut msg = def.name.clone();
            crate::text::push_str(&mut msg, "! takes ");
            crate::text::push_u64(&mut msg, def.params.len() as u64);
            crate::text::push_str(&mut msg, " argument(s)");
            return Err(ParseError { msg, at: self.here() });
        }
        let toks = expand(&def, &self.toks, &args);
        let mut p = Parser { toks, pos: 0, macros: self.macros.clone() };
        let stmts = p.parse_all(fuel - 1)?;
        Ok(Expr::Block(stmts))
    }

    /// Whether the token `k` places ahead is the word `delete`.
    fn is_delete_at(&self, k: usize) -> (r: bool)
        ensures
            r == (self.spec_ident_at(k as int) && self.toks@[self.pos + k].tok->Ident_0@ == "delete".spec_bytes()),
    {
        self.is_word_at(k, "delete")
    }

    /// Whether the token `k` places ahead is the name `w`.
    fn is_word_at(&self, k: usize, w: &str) -> (r: bool)
        ensures
            r == (self.spec_ident_at(k as int) && self.toks@[self.pos + k].tok->Ident_0@ == w.spec_bytes()),
    {
        match self.ident_at(k) {
            Some(n) => crate::text::is(n.as_slice(), w),
            None => false,
        }
    }

    /// The byte offset of the next token, for errors.
    fn here(&self) -> (r: usize)
        ensures
            r == self.spec_here(),
    {
        if self.pos < self.toks.len() {
            self.toks[self.pos].start
        } else if self.toks.len() > 0 {
            self.toks[self.toks.len() - 1].end
        } else {
            0
        }
    }

    fn bump(&mut self)
        requires
            old(self).wf(),
        ensures
            moved(*old(self), *final(self)),
            final(self).macros == old(self).macros,
            old(self).pos >= old(self).toks@.len() ==> final(self).pos == old(self).pos,
            old(self).pos < old(self).toks@.len() ==> final(self).pos == old(self).pos + 1,
    {
        if self.pos < self.toks.len() {
            self.pos = self.pos + 1;
        }
    }

    fn eat(&mut self, k: u8) -> (r: bool)
        requires
            old(self).wf(),
        ensures
            moved(*old(self), *final(self)),
            r == (old(self).spec_kind(0) == k && old(self).pos < old(self).toks@.len()),
            final(self).macros == old(self).macros,
            final(self).pos == if r {
                old(self).pos + 1
            } else {
                old(self).pos as int
            },
    {
        if self.peek() == k && self.pos < self.toks.len() {
            self.pos = self.pos + 1;
            true
        } else {
            false
        }
    }

    fn error(&self, msg: &str) -> (r: ParseError)
        ensures
            r.msg@ == msg.spec_bytes(),
            r.at == self.spec_here(),
    {
        ParseError { msg: lit(msg), at: self.here() }
    }

    fn expect(&mut self, k: u8, msg: &str) -> (r: Result<(), ParseError>)
        requires
            old(self).wf(),
        ensures
            moved(*old(self), *final(self)),
            final(self).macros == old(self).macros,
            r is Ok <==> old(self).spec_kind(0) == k && old(self).pos < old(self).toks@.len(),
            r is Ok ==> final(self).pos == old(self).pos + 1,
            r matches Err(e) ==> e.msg@ == msg.spec_bytes() && final(self).pos == old(self).pos,
    {
        if self.eat(k) {
            Ok(())
        } else {
            Err(self.error(msg))
        }
    }

    fn expect_ident(&mut self) -> (r: Result<Vec<u8>, ParseError>)
        requires
            old(self).wf(),
        ensures
            moved(*old(self), *final(self)),
            final(self).macros == old(self).macros,
            r is Ok <==> old(self).spec_ident_at(0),
            r is Ok ==> final(self).pos == old(self).pos + 1,
            r matches Ok(n) ==> n@ == old(self).toks@[old(self).pos as int].tok->Ident_0@,
            r matches Err(e) ==> e.msg@ == "expected a name".spec_bytes() && final(self).pos == old(self).pos,
    {
        match self.ident_at(0) {
            Some(n) => {
                self.bump();
                Ok(n)
            },
            None => Err(self.error("expected a name")),
        }
    }

    /// Skip statement separators.
    fn skip_semis(&mut self)
        requires
            old(self).wf(),
        ensures
            moved(*old(self), *final(self)),
            final(self).macros == old(self).macros,
            final(self).spec_kind(0) != K_SEMI,
            forall|q: int| old(self).pos <= q < final(self).pos ==> crate::lexer::spec_code(#[trigger] final(self).toks@[q].tok) == K_SEMI,
    {
        while self.peek() == K_SEMI
            invariant
                moved(*old(self), *self),
                self.macros == old(self).macros,
                forall|q: int| old(self).pos <= q < self.pos ==> crate::lexer::spec_code(#[trigger] self.toks@[q].tok) == K_SEMI,
            decreases self.toks@.len() - self.pos,
        {
            let before = self.pos;
            self.bump();
            if self.pos == before {
                return;
            }
        }
    }

    /// Whether the next token can begin a juxtaposed leading argument.
    fn starts_lead(&self) -> (r: bool)
        ensures
            r == (!self.nl_spec(0) && {
                let k = self.spec_kind(0);
                k == K_INT || k == K_FLOAT || k == K_STR || k == K_BOOL || k == K_ATOM || k == K_DOLLAR
                    || k == K_IDENT || k == K_L_PAREN || k == K_L_BRACKET || k == K_NOT || (k == K_MINUS
                    && self.sp_spec(0) && !self.sp_spec(1)) || (k == K_DOT && self.sp_spec(0))
            }),
    {
        let k = self.peek();
        if self.nl_at(0) {
            return false;
        }
        k == K_INT || k == K_FLOAT || k == K_STR || k == K_BOOL || k == K_ATOM || k == K_DOLLAR
            || k == K_IDENT || k == K_L_PAREN || k == K_L_BRACKET || k == K_NOT || (k == K_MINUS
            && self.sp_at(0) && !self.sp_at(1)) || (k == K_DOT && self.sp_at(0))
    }

    /// Whether the next token can begin an expression at all.
    fn starts_expr(&self) -> (r: bool)
        ensures
            r == {
                let k = self.spec_kind(0);
                k == K_INT || k == K_FLOAT || k == K_STR || k == K_BOOL || k == K_ATOM || k == K_DOLLAR
                    || k == K_IDENT || k == K_L_PAREN || k == K_L_BRACKET || k == K_NOT || k == K_MINUS
                    || k == K_DOT || k == K_L_BRACE || k == K_IF || k == K_MATCH || k == K_LOOP || k
                    == K_FN || k == K_DOT_DOT || k == K_QUESTION
            },
    {
        let k = self.peek();
        k == K_INT || k == K_FLOAT || k == K_STR || k == K_BOOL || k == K_ATOM || k == K_DOLLAR
            || k == K_IDENT || k == K_L_PAREN || k == K_L_BRACKET || k == K_NOT || k == K_MINUS
            || k == K_DOT || k == K_L_BRACE || k == K_IF || k == K_MATCH || k == K_LOOP || k
            == K_FN || k == K_DOT_DOT || k == K_QUESTION
    }

    // ---------------------------------------------------------------- types
    /// A type expression.
    pub(crate) fn parse_type(&mut self, fuel: u64) -> (r: Result<TypeExpr, ParseError>)
        requires
            old(self).wf(),
        ensures
            moved(*old(self), *final(self)),
            simple_type_end(old(self).toks@, old(self).pos as int) matches Some(j) ==> (fuel > j - old(self).pos ==> (r matches Ok(t)
                && is_simple_type(old(self).toks@, old(self).pos as int, t) && final(self).pos == j)),
        decreases fuel,
    {
        proof {
            lemma_simple_type_end(old(self).toks@, old(self).pos as int);
        }
        if fuel == 0 {
            return Err(too_deep(self.here()));
        }
        let k = self.peek();
        if k == K_QUESTION {
            self.bump();
            let t = self.parse_type(fuel - 1)?;
            return Ok(TypeExpr::Option(Box::new(t)));
        }
        if k == K_NOT {
            self.bump();
            let t = self.parse_type(fuel - 1)?;
            return Ok(TypeExpr::Result(Box::new(t)));
        }
        if k == K_DOT_DOT {
            self.bump();
            let t = self.parse_type(fuel - 1)?;
            return Ok(TypeExpr::Rest(Box::new(t)));
        }
        if k == K_ATOM {
            let a = match &self.toks[self.pos].tok {
                Tok::Atom(a) => a.clone(),
                _ => Vec::new(),
            };
            self.bump();
            return Ok(TypeExpr::Atom(a));
        }
        if k == K_L_BRACKET {
            self.bump();
            if self.eat(K_R_BRACKET) {
                let t = self.parse_type(fuel - 1)?;
                return Ok(TypeExpr::Array(Box::new(t)));
            }
            if self.peek() == K_INT {
                let n = match &self.toks[self.pos].tok {
                    Tok::Int(n) => *n,
                    _ => 0,
                };
                self.bump();
                self.expect(K_R_BRACKET, "expected `]`")?;
                let t = self.parse_type(fuel - 1)?;
                let len: u64 = if n < 0 {
                    0
                } else {
                    n as u64
                };
                return Ok(TypeExpr::FixedArray(Box::new(t), len));
            }
            let key = self.parse_type(fuel - 1)?;
            self.expect(K_R_BRACKET, "expected `]`")?;
            let val = self.parse_type(fuel - 1)?;
            return Ok(TypeExpr::Dict(Box::new(key), Box::new(val)));
        }
        if k == K_L_PAREN {
            self.bump();
            let mut elems: Vec<TypeExpr> = Vec::new();
            while self.peek() != K_R_PAREN && self.peek() != K_EOF
                invariant
                    moved(*old(self), *self),
                decreases self.toks@.len() - self.pos,
            {
                let before = self.pos;
                // a named tuple field: `x: T`
                if self.peek() == K_IDENT && self.peek_at(1) == K_COLON {
                    self.bump();
                    self.bump();
                }
                let t = self.parse_type(fuel - 1)?;
                elems.push(t);
                self.eat(K_COMMA);
                if self.pos <= before {
                    return Err(self.error("malformed tuple type"));
                }
            }
            self.expect(K_R_PAREN, "expected `)`")?;
            return Ok(TypeExpr::Tuple(elems));
        }
        if k == K_FN {
            self.bump();
            self.expect(K_L_PAREN, "expected `(`")?;
            let mut params: Vec<TypeExpr> = Vec::new();
            while self.peek() != K_R_PAREN && self.peek() != K_EOF
                invariant
                    moved(*old(self), *self),
                decreases self.toks@.len() - self.pos,
            {
                let before = self.pos;
                if self.peek() == K_MUT || self.peek() == K_MOVE {
                    self.bump();
                }
                if self.peek() == K_IDENT && self.peek_at(1) == K_COLON {
                    self.bump();
                    self.bump();
                }
                let t = self.parse_type(fuel - 1)?;
                params.push(t);
                self.eat(K_COMMA);
                if self.pos <= before {
                    return Err(self.error("malformed fn type"));
                }
            }
            self.expect(K_R_PAREN, "expected `)`")?;
            let ret = if !self.nl_at(0) && (self.peek() == K_IDENT || self.peek() == K_QUESTION
                || self.peek() == K_NOT || self.peek() == K_L_BRACKET || self.peek()
                == K_L_PAREN) {
                self.parse_type(fuel - 1)?
            } else {
                TypeExpr::Tuple(Vec::new())
            };
            return Ok(TypeExpr::Fn(params, Box::new(ret)));
        }
        let name = self.expect_ident()?;
        if self.peek() == K_L_BRACKET && !self.sp_at(0) {
            self.bump();
            let mut args: Vec<TypeExpr> = Vec::new();
            while self.peek() != K_R_BRACKET && self.peek() != K_EOF
                invariant
                    moved(*old(self), *self),
                decreases self.toks@.len() - self.pos,
            {
                let before = self.pos;
                let t = self.parse_type(fuel - 1)?;
                args.push(t);
                self.eat(K_COMMA);
                if self.pos <= before {
                    return Err(self.error("malformed type arguments"));
                }
            }
            self.expect(K_R_BRACKET, "expected `]`")?;
            return Ok(TypeExpr::Generic(name, args));
        }
        Ok(TypeExpr::Name(name))
    }

    // ---------------------------------------------------------------- params
    /// A parenthesized parameter list.
    fn parse_params(&mut self, fuel: u64) -> (r: Result<Vec<Param>, ParseError>)
        requires
            old(self).wf(),
        ensures
            moved(*old(self), *final(self)),
            fuel == 0 ==> (r matches Err(e) && e.msg@ == "expression nests too deeply".spec_bytes()),
            r is Ok ==> old(self).spec_kind(0) == K_L_PAREN,
        decreases fuel,
    {
        if fuel == 0 {
            return Err(too_deep(self.here()));
        }
        self.expect(K_L_PAREN, "expected `(`")?;
        let mut params: Vec<Param> = Vec::new();
        while self.peek() != K_R_PAREN && self.peek() != K_EOF
            invariant
                moved(*old(self), *self),
            decreases self.toks@.len() - self.pos,
        {
            let before = self.pos;
            let access = if self.eat(K_MUT) {
                Access::Mut
            } else if self.eat(K_MOVE) {
                Access::Move
            } else {
                Access::Read
            };
            let name = self.expect_ident()?;
            let mut typ: Option<TypeExpr> = None;
            let mut default: Option<Expr> = None;
            let mut mutable = false;
            if self.eat(K_COLON) {
                typ = Some(self.parse_type(fuel - 1)?);
                if self.eat(K_ASSIGN) {
                    default = Some(self.parse_expr(Juxt::TrailOnly, fuel - 1)?);
                    mutable = true;
                } else if self.eat(K_COLON) {
                    default = Some(self.parse_expr(Juxt::TrailOnly, fuel - 1)?);
                }
            } else if self.eat(K_BIND) {
                default = Some(self.parse_expr(Juxt::TrailOnly, fuel - 1)?);
                mutable = true;
            } else if self.eat(K_DOUBLE_COLON) {
                default = Some(self.parse_expr(Juxt::TrailOnly, fuel - 1)?);
            }
            params.push(Param { name, typ, access, mutable, default });
            self.eat(K_COMMA);
            if self.pos <= before {
                return Err(self.error("malformed parameter"));
            }
        }
        self.expect(K_R_PAREN, "expected `)`")?;
        Ok(params)
    }

    /// Bracketed type parameter names: `[T, U]`.
    fn parse_type_params(&mut self) -> (r: Result<Vec<TypeParam>, ParseError>)
        requires
            old(self).wf(),
        ensures
            moved(*old(self), *final(self)),
            old(self).spec_kind(0) != K_L_BRACKET ==> (r matches Ok(v) && v@.len() == 0) && final(self).pos == old(self).pos,
    {
        let mut names: Vec<TypeParam> = Vec::new();
        if !self.eat(K_L_BRACKET) {
            return Ok(names);
        }
        while self.peek() != K_R_BRACKET && self.peek() != K_EOF
            invariant
                moved(*old(self), *self),
            decreases self.toks@.len() - self.pos,
        {
            let before = self.pos;
            let name = self.expect_ident()?;
            let bound = if self.eat(K_COLON) {
                Some(self.expect_ident()?)
            } else {
                None
            };
            let default = if self.eat(K_ASSIGN) {
                Some(self.parse_type(64)?)
            } else {
                None
            };
            names.push(TypeParam { name, bound, default });
            self.eat(K_COMMA);
            if self.pos <= before {
                return Err(self.error("malformed type parameters"));
            }
        }
        self.expect(K_R_BRACKET, "expected `]`")?;
        Ok(names)
    }

    // ---------------------------------------------------------------- blocks
    /// A braced statement list, or `do` and one statement.
    pub(crate) fn parse_block(&mut self, fuel: u64) -> (r: Result<Vec<Expr>, ParseError>)
        requires
            old(self).wf(),
        ensures
            moved(*old(self), *final(self)),
            fuel == 0 ==> (r matches Err(e) && e.msg@ == "expression nests too deeply".spec_bytes()),
            r is Ok ==> old(self).spec_kind(0) == K_L_BRACE || old(self).spec_kind(0) == K_DO,
            old(self).spec_kind(0) == K_DO ==> (r matches Ok(v) ==> v@.len() == 1),
        decreases fuel,
    {
        if fuel == 0 {
            return Err(too_deep(self.here()));
        }
        if self.eat(K_DO) {
            let s = self.parse_stmt(fuel - 1)?;
            return Ok(vec![s]);
        }
        self.expect(K_L_BRACE, "expected `{`")?;
        let mut body: Vec<Expr> = Vec::new();
        self.skip_semis();
        while self.peek() != K_R_BRACE && self.peek() != K_EOF
            invariant
                moved(*old(self), *self),
            decreases self.toks@.len() - self.pos,
        {
            let before = self.pos;
            let s = self.parse_stmt(fuel - 1)?;
            body.push(s);
            self.skip_semis();
            if self.pos <= before {
                return Err(self.error("unexpected token"));
            }
        }
        self.expect(K_R_BRACE, "expected `}`")?;
        Ok(body)
    }

    // ---------------------------------------------------------------- statements
    /// The index of the `]` matching the `[` at `pos + k`, searching forward.
    fn matching_bracket(&self, k: usize) -> (r: Option<usize>)
        ensures
            r matches Some(i) ==> k <= i && self.spec_kind(i as int) == K_R_BRACKET,
    {
        let mut depth: usize = 0;
        let mut i = k;
        while i < self.toks.len() && self.pos < self.toks.len() - i
            invariant
                k <= i,
            decreases self.toks@.len() - i,
        {
            let c = code(&self.toks[self.pos + i].tok);
            if c == K_L_BRACKET {
                if depth < usize::MAX {
                    depth = depth + 1;
                }
            } else if c == K_R_BRACKET {
                if depth <= 1 {
                    return Some(i);
                }
                depth = depth - 1;
            }
            i = i + 1;
        }
        None
    }

    /// Whether, from `i` places ahead on, names and commas run up to a `)` that closes
    /// at least one of them and is followed by `:=`, `::` or `=`.
    pub open spec fn spec_names_then_binder(&self, i: int) -> bool
        decreases self.toks@.len() - self.pos - i,
    {
        if i < 1 || !self.spec_has(i) {
            false
        } else if self.spec_kind(i) == K_R_PAREN {
            i > 1 && (self.spec_kind(i + 1) == K_BIND || self.spec_kind(i + 1) == K_DOUBLE_COLON
                || self.spec_kind(i + 1) == K_ASSIGN)
        } else if self.spec_kind(i) != K_IDENT && self.spec_kind(i) != K_COMMA {
            false
        } else {
            self.spec_names_then_binder(i + 1)
        }
    }

    /// Whether a parenthesized list of names followed by a binder starts here.
    fn destructure_ahead(&self) -> (r: bool)
        ensures
            r == (self.spec_kind(0) == K_L_PAREN && self.spec_names_then_binder(1)),
    {
        if self.peek() != K_L_PAREN {
            return false;
        }
        let mut i: usize = 1;
        while i < self.toks.len() && self.pos < self.toks.len() - i
            invariant
                1 <= i,
                self.spec_names_then_binder(1) == self.spec_names_then_binder(i as int),
            decreases self.toks@.len() - i,
        {
            let c = code(&self.toks[self.pos + i].tok);
            if c == K_R_PAREN {
                if i < usize::MAX {
                    let n = self.peek_at(i + 1);
                    return i > 1 && (n == K_BIND || n == K_DOUBLE_COLON || n == K_ASSIGN);
                }
                return false;
            }
            if c != K_IDENT && c != K_COMMA {
                return false;
            }
            i = i + 1;
        }
        false
    }

    /// A `use` item, from its `use` word: the module's path, then the items it names, if any.
    fn parse_use(&mut self, alias: Option<Vec<u8>>) -> (r: Result<Expr, ParseError>)
        requires
            old(self).wf(),
        ensures
            moved(*old(self), *final(self)),
            r matches Ok(e) ==> e is Use && e->Use_alias == alias && e->Use_path@.len() >= 1,
    {
        self.bump();
        let mut path: Vec<Vec<u8>> = Vec::new();
        let first = self.expect_ident()?;
        path.push(first);
        let mut group: Option<Vec<(Vec<u8>, Vec<u8>)>> = None;
        while self.peek() == K_DOT && !self.nl_at(0)
            invariant
                moved(*old(self), *self),
                path@.len() >= 1,
            decreases self.toks@.len() - self.pos,
        {
            self.bump();
            if self.eat(K_L_BRACE) {
                let mut items: Vec<(Vec<u8>, Vec<u8>)> = Vec::new();
                while self.peek() == K_IDENT
                    invariant
                        moved(*old(self), *self),
                    decreases self.toks@.len() - self.pos,
                {
                    let here = self.expect_ident()?;
                    let item = if self.eat(K_DOUBLE_COLON) {
                        self.expect_ident()?
                    } else {
                        here.clone()
                    };
                    items.push((here, item));
                    self.eat(K_COMMA);
                }
                self.expect(K_R_BRACE, "expected `}`")?;
                group = Some(items);
                break;
            }
            let n = self.expect_ident()?;
            path.push(n);
        }
        Ok(Expr::Use { alias, path, group })
    }

    /// One statement or item.
    pub(crate) fn parse_stmt(&mut self, fuel: u64) -> (r: Result<Expr, ParseError>)
        requires
            old(self).wf(),
        ensures
            moved(*old(self), *final(self)),
            simple_run(old(self).toks@, old(self).pos as int) && fuel >= 9 + 3 * (old(self).toks@.len() - old(self).pos) ==> r == Ok::<Expr, ParseError>(spec_simple_expr(old(self).toks@, old(self).pos as int)) && final(self).pos == old(self).toks@.len(),
            old(self).spec_kind(0) == K_IDENT && (old(self).spec_kind(1) == K_ASSIGN || old(self).spec_kind(1) == K_OP_ASSIGN) ==> (
            r matches Ok(e) ==> {
                &&& e is Assign
                &&& e->Assign_name@ == old(self).toks@[old(self).pos as int].tok->Ident_0@
                &&& e->Assign_op == (if old(self).toks@[old(self).pos + 1].tok is OpAssign {
                    Some(spec_op_of_assign(old(self).toks@[old(self).pos + 1].tok->OpAssign_0))
                } else {
                    None
                })
                &&& old(self).pos + 3 < old(self).toks@.len() && old(self).toks@[old(self).pos + 2].tok is Ident && (old(self).spec_kind(3)
                    == K_ASSIGN || old(self).spec_kind(3) == K_OP_ASSIGN) ==> (*e->Assign_value matches Expr::Assign { name: m, .. }
                    && m@ == old(self).toks@[old(self).pos + 2].tok->Ident_0@)
            }),
        decreases fuel,
    {
        if fuel == 0 {
            return Err(too_deep(self.here()));
        }
        let k = self.peek();
        if k == K_IDENT && self.peek_at(1) == K_IDENT && !self.nl_at(1) && self.is_word_at(0, "use") {
            return self.parse_use(None);
        }
        if k == K_IDENT && self.peek_at(1) == K_DOUBLE_COLON && self.peek_at(2) == K_IDENT && self.peek_at(3)
            == K_IDENT && !self.nl_at(3) && self.is_word_at(2, "use") {
            let alias = self.expect_ident()?;
            self.bump();
            return self.parse_use(Some(alias));
        }
        if k == K_IDENT && self.peek_at(1) == K_IDENT && !self.nl_at(1) && self.is_word_at(0, "module") {
            self.bump();
            let name = self.expect_ident()?;
            return Ok(Expr::Module(name));
        }
        if k == K_IDENT && self.peek_at(1) == K_NOT && !self.sp_at(1) {
            let name = match self.ident_at(0) {
                Some(n) => n,
                None => Vec::new(),
            };
            if self.peek_at(2) == K_DOUBLE_COLON {
                self.bump();
                self.bump();
                self.bump();
                return self.parse_macro_def(name, fuel - 1);
            }
            if let Some(m) = self.find_macro(name.as_slice()) {
                self.bump();
                self.bump();
                return self.parse_macro_call(m, fuel - 1);
            }
            if crate::text::is(name.as_slice(), "test") && self.peek_at(2) == K_STR {
                // `test! "name" { body }`
                self.bump();
                self.bump();
                let display = if self.pos < self.toks.len() {
                    match &self.toks[self.pos].tok {
                        Tok::Str(s) => s.clone(),
                        _ => Vec::new(),
                    }
                } else {
                    Vec::new()
                };
                self.bump();
                let body = self.parse_block(fuel - 1)?;
                let mut fname = lit("test ");
                crate::text::push_all(&mut fname, display.as_slice());
                let f = Expr::Fn { name: fname, type_params: Vec::new(), params: Vec::new(), ret: None, body };
                return Ok(Expr::TestDef { display, skip: false, item: Box::new(f) });
            }
            if crate::text::is(name.as_slice(), "assert") {
                // `assert!(cond)` or `assert! cond`
                self.bump();
                self.bump();
                let cond = if self.peek() == K_L_PAREN && !self.sp_at(0) {
                    self.bump();
                    let c = self.parse_expr(Juxt::TrailOnly, fuel - 1)?;
                    self.expect(K_R_PAREN, "expected `)`")?;
                    c
                } else {
                    self.parse_expr(Juxt::NoJuxt, fuel - 1)?
                };
                let mut args: Vec<Expr> = Vec::new();
                args.push(cond);
                return Ok(Expr::Call { name: lit("assert"), type_args: Vec::new(), args });
            }
        }
        if k == K_RETURN {
            self.bump();
            if self.nl_at(0) || self.peek() == K_R_BRACE || self.peek() == K_SEMI || self.peek()
                == K_EOF || self.peek() == K_ELSE {
                return Ok(Expr::Return(None));
            }
            let v = self.parse_expr(Juxt::Full, fuel - 1)?;
            return Ok(Expr::Return(Some(Box::new(v))));
        }
        if k == K_DEFER {
            self.bump();
            let on_err = self.eat(K_OR);
            let body = self.parse_expr(Juxt::Full, fuel - 1)?;
            return Ok(Expr::Defer { body: Box::new(body), on_err });
        }
        if k == K_AT {
            let mut anns: Vec<Vec<u8>> = Vec::new();
            let mut test = false;
            let mut display: Option<Vec<u8>> = None;
            let mut skip = false;
            while self.peek() == K_AT
                invariant
                    moved(*old(self), *self),
                decreases self.toks@.len() - self.pos,
            {
                self.bump();
                let n = self.expect_ident()?;
                if crate::text::is(n.as_slice(), "test") {
                    test = true;
                    // `@test.{"name"}` reports under another name; `@test.{skip = true}` skips
                    if self.peek() == K_DOT && self.peek_at(1) == K_L_BRACE {
                        let (d, s) = self.parse_test_payload(fuel - 1)?;
                        if d.is_some() {
                            display = d;
                        }
                        skip = skip || s;
                    }
                } else {
                    anns.push(n);
                }
            }
            let item = self.parse_stmt(fuel - 1)?;
            let item = if anns.len() > 0 {
                Expr::Annotated(anns, Box::new(item))
            } else {
                item
            };
            if test {
                let name = match &item {
                    Expr::Fn { name, .. } => name.clone(),
                    Expr::Annotated(_, inner) => match &**inner {
                        Expr::Fn { name, .. } => name.clone(),
                        _ => {
                            return Err(self.error("`@test` marks a function"));
                        },
                    },
                    _ => {
                        return Err(self.error("`@test` marks a function"));
                    },
                };
                let display = match display {
                    Some(d) => d,
                    None => name,
                };
                return Ok(Expr::TestDef { display, skip, item: Box::new(item) });
            }
            return Ok(item);
        }
        if k == K_PUB {
            self.bump();
            let inner = self.parse_stmt(fuel - 1)?;
            return Ok(Expr::Pub(Box::new(inner)));
        }
        if self.destructure_ahead() {
            self.bump();
            let mut elems: Vec<(Option<Vec<u8>>, Expr)> = Vec::new();
            while self.peek() == K_IDENT
                invariant
                    moved(*old(self), *self),
                decreases self.toks@.len() - self.pos,
            {
                let n = self.expect_ident()?;
                elems.push((None, Expr::Ident(n)));
                self.eat(K_COMMA);
            }
            self.expect(K_R_PAREN, "expected `)`")?;
            let mutable = if self.eat(K_BIND) {
                Some(true)
            } else if self.eat(K_DOUBLE_COLON) {
                Some(false)
            } else {
                self.expect(K_ASSIGN, "expected `:=`")?;
                None
            };
            let value = self.parse_expr(Juxt::Full, fuel - 1)?;
            return Ok(
                Expr::PatBind { pat: Box::new(Expr::Tuple(elems)), mutable, value: Box::new(value) },
            );
        }
        if k == K_IDENT {
            let name = match self.ident_at(0) {
                Some(n) => n,
                None => Vec::new(),
            };
            let k1 = self.peek_at(1);
            if k1 == K_DOUBLE_COLON || k1 == K_BIND || k1 == K_COLON {
                self.bump();
                return self.parse_binding(name, Vec::new(), fuel - 1);
            }
            if k1 == K_L_BRACKET && !self.sp_at(1) {
                if let Some(m) = self.matching_bracket(1) {
                    if m < usize::MAX {
                        let after = self.peek_at(m + 1);
                        if after == K_DOUBLE_COLON || after == K_COLON {
                            self.bump();
                            let tps = self.parse_type_params()?;
                            return self.parse_binding(name, tps, fuel - 1);
                        }
                        if after == K_ASSIGN || after == K_OP_ASSIGN {
                            self.bump();
                            self.bump();
                            let index = self.parse_expr(Juxt::TrailOnly, fuel - 1)?;
                            self.expect(K_R_BRACKET, "expected `]`")?;
                            let op = self.assign_op();
                            let value = self.parse_expr(Juxt::Full, fuel - 1)?;
                            return Ok(
                                Expr::IndexAssign {
                                    name,
                                    index: Box::new(index),
                                    op,
                                    value: Box::new(value),
                                },
                            );
                        }
                    }
                }
            }
            if k1 == K_DOT && self.peek_at(3) == K_L_BRACKET && self.is_delete_at(2) {
                self.bump();
                self.bump();
                self.bump();
                self.bump();
                let key = self.parse_expr(Juxt::TrailOnly, fuel - 1)?;
                self.expect(K_R_BRACKET, "expected `]`")?;
                return Ok(Expr::DictRemove { name, key: Box::new(key) });
            }
            if k1 == K_DOT && (self.peek_at(2) == K_IDENT || self.peek_at(2) == K_INT) && (
            self.peek_at(3) == K_ASSIGN || self.peek_at(3) == K_OP_ASSIGN) {
                self.bump();
                self.bump();
                let field = if self.peek() == K_INT {
                    let n = match &self.toks[self.pos].tok {
                        Tok::Int(n) => *n,
                        _ => 0,
                    };
                    self.bump();
                    crate::text::fmt_i64(n)
                } else {
                    self.expect_ident()?
                };
                let op = self.assign_op();
                let value = self.parse_expr(Juxt::Full, fuel - 1)?;
                return Ok(Expr::FieldAssign { name, field, op, value: Box::new(value) });
            }
            if k1 == K_ASSIGN || k1 == K_OP_ASSIGN {
                self.bump();
                return self.parse_assign(name, fuel - 1);
            }
        }
        self.parse_expr(Juxt::Full, fuel - 1)
    }

    /// Consume `=` or a compound assignment, returning the compound's operator.
    fn assign_op(&mut self) -> (r: Option<BinOp>)
        requires
            old(self).wf(),
        ensures
            moved(*old(self), *final(self)),
            final(self).macros == old(self).macros,
            old(self).pos < old(self).toks@.len() ==> final(self).pos == old(self).pos + 1,
            r == (if old(self).pos < old(self).toks@.len() && old(self).toks@[old(self).pos as int].tok is OpAssign {
                Some(spec_op_of_assign(old(self).toks@[old(self).pos as int].tok->OpAssign_0))
            } else {
                None
            }),
    {
        if self.pos < self.toks.len() {
            let op = match &self.toks[self.pos].tok {
                Tok::OpAssign(b) => Some(op_of_assign(*b)),
                _ => None,
            };
            self.bump();
            op
        } else {
            None
        }
    }

    /// `name = value` or `name op= value`, with the name consumed; chains to the right.
    fn parse_assign(&mut self, name: Vec<u8>, fuel: u64) -> (r: Result<Expr, ParseError>)
        requires
            old(self).wf(),
        ensures
            moved(*old(self), *final(self)),
            r matches Ok(e) ==> {
                &&& e is Assign
                &&& e->Assign_name == name
                &&& e->Assign_op == (if old(self).pos < old(self).toks@.len()
                    && old(self).toks@[old(self).pos as int].tok is OpAssign {
                    Some(spec_op_of_assign(old(self).toks@[old(self).pos as int].tok->OpAssign_0))
                } else {
                    None
                })
            },
            old(self).pos + 2 < old(self).toks@.len() && old(self).toks@[old(self).pos + 1].tok is Ident && (old(
                self,
            ).spec_kind(2) == K_ASSIGN || old(self).spec_kind(2) == K_OP_ASSIGN) ==> (r matches Ok(e) ==> (
            *e->Assign_value matches Expr::Assign { name: m, .. } && m@ == old(self).toks@[old(self).pos
                + 1].tok->Ident_0@)),
        decreases fuel,
    {
        if fuel == 0 {
            return Err(too_deep(self.here()));
        }
        let op = self.assign_op();
        let value = if self.peek() == K_IDENT && (self.peek_at(1) == K_ASSIGN || self.peek_at(1)
            == K_OP_ASSIGN) {
            let inner = match self.ident_at(0) {
                Some(n) => n,
                None => Vec::new(),
            };
            self.bump();
            self.parse_assign(inner, fuel - 1)?
        } else {
            self.parse_expr(Juxt::Full, fuel - 1)?
        };
        Ok(Expr::Assign { name, op, value: Box::new(value) })
    }

    /// What follows a name (and its type parameters) in a binding or item:
    /// `:: value`, `:= value`, `: T = value`, `: T : value`, `: T`,
    /// `:: fn ...`, `:: struct ...`, `:: enum ...`, `:: trait ...`, or a claim `: Traits < { ... }`.
    fn parse_binding(&mut self, name: Vec<u8>, tparams: Vec<TypeParam>, fuel: u64) -> (r: Result<
        Expr,
        ParseError,
    >)
        requires
            old(self).wf(),
        ensures
            moved(*old(self), *final(self)),
        decreases fuel,
    {
        if fuel == 0 {
            return Err(too_deep(self.here()));
        }
        if self.eat(K_BIND) {
            let value = self.parse_expr(Juxt::Full, fuel - 1)?;
            return Ok(Expr::Bind { mutable: true, name, typ: None, value: Some(Box::new(value)) });
        }
        if self.peek() == K_DOUBLE_COLON && self.peek_at(1) == K_FN {
            self.bump();
            return self.parse_fn_item(name, tparams, fuel - 1);
        }
        let type_params = crate::ast::type_param_names(&tparams);
        if self.eat(K_DOUBLE_COLON) {
            // `Name :: A | B`: a sum of types
            if self.peek() == K_IDENT && self.peek_at(1) == K_PIPE {
                let mut alts: Vec<TypeExpr> = Vec::new();
                let t = self.parse_type(fuel - 1)?;
                alts.push(t);
                while self.eat(K_PIPE)
                    invariant
                        moved(*old(self), *self),
                    decreases self.toks@.len() - self.pos,
                {
                    let t = self.parse_type(fuel - 1)?;
                    alts.push(t);
                }
                return Ok(Expr::TypeAlias { name, typ: TypeExpr::Sum(alts) });
            }
            let k = self.peek();
            if k == K_STRUCT {
                self.bump();
                if self.eat(K_L_PAREN) {
                    let mut fields: Vec<TypeExpr> = Vec::new();
                    let mut names: Vec<Vec<u8>> = Vec::new();
                    let mut all_named = true;
                    while self.peek() != K_R_PAREN && self.peek() != K_EOF
                        invariant
                            moved(*old(self), *self),
                        decreases self.toks@.len() - self.pos,
                    {
                        let before = self.pos;
                        if self.peek() == K_IDENT && self.peek_at(1) == K_COLON {
                            let n = self.expect_ident()?;
                            names.push(n);
                            self.bump();
                        } else {
                            all_named = false;
                        }
                        let t = self.parse_type(fuel - 1)?;
                        fields.push(t);
                        self.eat(K_COMMA);
                        if self.pos <= before {
                            return Err(self.error("malformed tuple struct"));
                        }
                    }
                    self.expect(K_R_PAREN, "expected `)`")?;
                    if all_named && names.len() == fields.len() && fields.len() > 0 {
                        // named positional fields: a struct built by position
                        let mut params: Vec<Param> = Vec::new();
                        let mut fields = fields;
                        let mut names = names;
                        let mut rev: Vec<Param> = Vec::new();
                        while fields.len() > 0 && names.len() > 0
                            decreases fields@.len(),
                        {
                            let t = fields.pop().unwrap();
                            let n = names.pop().unwrap();
                            rev.push(Param { name: n, typ: Some(t), access: Access::Read, mutable: false, default: None });
                        }
                        while rev.len() > 0
                            decreases rev@.len(),
                        {
                            params.push(rev.pop().unwrap());
                        }
                        return Ok(Expr::StructDef { name, type_params: Vec::new(), fields: params });
                    }
                    return Ok(Expr::TupleStructDef { name, fields });
                }
                self.expect(K_L_BRACE, "expected `{`")?;
                let mut fields: Vec<Param> = Vec::new();
                while self.peek() != K_R_BRACE && self.peek() != K_EOF
                    invariant
                        moved(*old(self), *self),
                    decreases self.toks@.len() - self.pos,
                {
                    let before = self.pos;
                    self.eat(K_PUB);
                    let fname = self.expect_ident()?;
                    let mut typ: Option<TypeExpr> = None;
                    let mut default: Option<Expr> = None;
                    if self.eat(K_COLON) {
                        typ = Some(self.parse_type(fuel - 1)?);
                        if self.eat(K_ASSIGN) {
                            default = Some(self.parse_expr(Juxt::TrailOnly, fuel - 1)?);
                        }
                    } else if self.eat(K_BIND) {
                        default = Some(self.parse_expr(Juxt::TrailOnly, fuel - 1)?);
                    }
                    fields.push(
                        Param { name: fname, typ, access: Access::Read, mutable: false, default },
                    );
                    self.eat(K_COMMA);
                    if self.pos <= before {
                        return Err(self.error("malformed struct field"));
                    }
                }
                self.expect(K_R_BRACE, "expected `}`")?;
                return Ok(Expr::StructDef { name, type_params, fields });
            }
            if k == K_ENUM {
                self.bump();
                self.expect(K_L_BRACE, "expected `{`")?;
                let mut variants: Vec<Variant> = Vec::new();
                while self.peek() != K_R_BRACE && self.peek() != K_EOF
                    invariant
                        moved(*old(self), *self),
                    decreases self.toks@.len() - self.pos,
                {
                    let before = self.pos;
                    let vname = self.expect_ident()?;
                    let mut payload: Vec<TypeExpr> = Vec::new();
                    if self.eat(K_L_PAREN) {
                        while self.peek() != K_R_PAREN && self.peek() != K_EOF
                            invariant
                                moved(*old(self), *self),
                            decreases self.toks@.len() - self.pos,
                        {
                            let b2 = self.pos;
                            let t = self.parse_type(fuel - 1)?;
                            payload.push(t);
                            self.eat(K_COMMA);
                            if self.pos <= b2 {
                                return Err(self.error("malformed payload"));
                            }
                        }
                        self.expect(K_R_PAREN, "expected `)`")?;
                    }
                    variants.push(Variant { name: vname, payload });
                    self.eat(K_COMMA);
                    if self.pos <= before {
                        return Err(self.error("malformed variant"));
                    }
                }
                self.expect(K_R_BRACE, "expected `}`")?;
                return Ok(Expr::EnumDef { name, type_params, variants });
            }
            if k == K_TRAIT {
                self.bump();
                self.expect(K_L_BRACE, "expected `{`")?;
                let mut slots: Vec<Slot> = Vec::new();
                let mut defaults: Vec<Expr> = Vec::new();
                while self.peek() != K_R_BRACE && self.peek() != K_EOF
                    invariant
                        moved(*old(self), *self),
                    decreases self.toks@.len() - self.pos,
                {
                    let before = self.pos;
                    let sname = self.expect_ident()?;
                    if self.eat(K_DOUBLE_COLON) {
                        // a method with a default body
                        let f = self.parse_fn_item(sname, Vec::new(), fuel - 1)?;
                        defaults.push(f);
                        self.eat(K_COMMA);
                        if self.pos <= before {
                            return Err(self.error("malformed trait slot"));
                        }
                        continue;
                    }
                    self.expect(K_COLON, "expected `:`")?;
                    self.expect(K_FN, "expected `fn`")?;
                    let params = self.parse_params(fuel - 1)?;
                    let ret = if !self.nl_at(0) && self.peek() != K_R_BRACE && self.peek()
                        != K_COMMA {
                        Some(self.parse_type(fuel - 1)?)
                    } else {
                        None
                    };
                    slots.push(Slot { name: sname, params, ret });
                    self.eat(K_COMMA);
                    if self.pos <= before {
                        return Err(self.error("malformed trait slot"));
                    }
                }
                self.expect(K_R_BRACE, "expected `}`")?;
                return Ok(Expr::TraitDef { name, slots, defaults });
            }
            let value = self.parse_expr(Juxt::Full, fuel - 1)?;
            return Ok(Expr::Bind { mutable: false, name, typ: None, value: Some(Box::new(value)) });
        }
        self.expect(K_COLON, "expected `:`")?;
        // `Name :< { ... }` adds methods; `Name :< Trait, ...` claims traits with nothing to fill
        if self.peek() == K_LT {
            self.bump();
            let mut traits: Vec<Vec<u8>> = Vec::new();
            while self.peek() == K_IDENT && !self.nl_at(0)
                invariant
                    moved(*old(self), *self),
                decreases self.toks@.len() - self.pos,
            {
                let t = self.expect_ident()?;
                traits.push(t);
                self.eat(K_COMMA);
            }
            let fills = if traits.len() == 0 || self.peek() == K_L_BRACE {
                self.parse_block(fuel - 1)?
            } else {
                Vec::new()
            };
            return Ok(Expr::Claim { typ: name, type_params, traits, fills });
        }
        let typ = self.parse_type(fuel - 1)?;
        if self.peek() == K_COMMA || self.peek() == K_LT {
            let mut traits: Vec<Vec<u8>> = Vec::new();
            traits.push(
                match &typ {
                    TypeExpr::Name(n) => n.clone(),
                    TypeExpr::Generic(n, _) => n.clone(),
                    _ => Vec::new(),
                },
            );
            while self.eat(K_COMMA)
                invariant
                    moved(*old(self), *self),
                decreases self.toks@.len() - self.pos,
            {
                let t = self.parse_type(fuel - 1)?;
                traits.push(
                    match &t {
                        TypeExpr::Name(n) => n.clone(),
                        TypeExpr::Generic(n, _) => n.clone(),
                        _ => Vec::new(),
                    },
                );
            }
            self.expect(K_LT, "expected `<`")?;
            let fills = if self.peek() == K_L_BRACE {
                self.parse_block(fuel - 1)?
            } else {
                Vec::new()
            };
            return Ok(Expr::Claim { typ: name, type_params, traits, fills });
        }
        if self.eat(K_ASSIGN) {
            let value = self.parse_expr(Juxt::Full, fuel - 1)?;
            return Ok(
                Expr::Bind { mutable: true, name, typ: Some(typ), value: Some(Box::new(value)) },
            );
        }
        if self.eat(K_COLON) {
            let value = self.parse_expr(Juxt::Full, fuel - 1)?;
            return Ok(
                Expr::Bind { mutable: false, name, typ: Some(typ), value: Some(Box::new(value)) },
            );
        }
        Ok(Expr::Bind { mutable: true, name, typ: Some(typ), value: None })
    }

    /// `fn (params) ret { body }` after `name ::`; without a body it is a fn type alias.
    fn parse_fn_item(&mut self, name: Vec<u8>, type_params: Vec<TypeParam>, fuel: u64) -> (r: Result<
        Expr,
        ParseError,
    >)
        requires
            old(self).wf(),
        ensures
            moved(*old(self), *final(self)),
            r matches Ok(e) ==> (e matches Expr::Fn { name: n, type_params: tp, .. } && n == name
                && tp == type_params) || (e matches Expr::TypeAlias { name: n, .. } && n == name),
        decreases fuel,
    {
        if fuel == 0 {
            return Err(too_deep(self.here()));
        }
        self.expect(K_FN, "expected `fn`")?;
        let params = self.parse_params(fuel - 1)?;
        let ret = if self.peek() != K_L_BRACE && self.peek() != K_DO && !self.nl_at(0) && self.peek()
            != K_EOF && self.peek() != K_SEMI {
            Some(self.parse_type(fuel - 1)?)
        } else {
            None
        };
        if self.peek() == K_L_BRACE || self.peek() == K_DO {
            let body = self.parse_block(fuel - 1)?;
            return Ok(Expr::Fn { name, type_params, params, ret, body });
        }
        // a fn type: the "parameters" name their types
        let mut params = params;
        let mut rev: Vec<TypeExpr> = Vec::new();
        while params.len() > 0
            invariant
                true,
            decreases params@.len(),
        {
            let p = params.pop().unwrap();
            rev.push(
                match p.typ {
                    Some(t) => t,
                    None => TypeExpr::Name(p.name),
                },
            );
        }
        let mut ptypes: Vec<TypeExpr> = Vec::new();
        while rev.len() > 0
            invariant
                true,
            decreases rev@.len(),
        {
            ptypes.push(rev.pop().unwrap());
        }
        let r = match ret {
            Some(t) => t,
            None => TypeExpr::Tuple(Vec::new()),
        };
        Ok(Expr::TypeAlias { name, typ: TypeExpr::Fn(ptypes, Box::new(r)) })
    }

    // ---------------------------------------------------------------- expressions
    /// Operators and operands, then any pipeline steps: `value |> step`, left to right.
    fn parse_core(&mut self, fuel: u64) -> (r: Result<Expr, ParseError>)
        requires
            old(self).wf(),
        ensures
            moved(*old(self), *final(self)),
            r is Ok ==> final(self).spec_kind(0) != K_PIPELINE,
            simple_run(old(self).toks@, old(self).pos as int) && fuel >= 7 + 3 * (old(self).toks@.len() - old(self).pos) ==> r == Ok::<Expr, ParseError>(spec_simple_expr(old(self).toks@, old(self).pos as int)) && final(self).pos == old(self).toks@.len(),
        decreases fuel,
    {
        if fuel == 0 {
            return Err(too_deep(self.here()));
        }
        let mut e = self.parse_bin(0, fuel - 1)?;
        proof {
            if simple_run(old(self).toks@, old(self).pos as int) && fuel >= 7 + 3 * (old(self).toks@.len() - old(self).pos) {
                lemma_simple_run_all(old(self).toks@, old(self).pos as int);
            }
        }
        while self.peek() == K_PIPELINE
            invariant
                moved(*old(self), *self),
                simple_run(old(self).toks@, old(self).pos as int) && fuel >= 7 + 3 * (old(self).toks@.len() - old(self).pos) ==> e == spec_simple_expr(old(self).toks@, old(self).pos as int) && self.pos
                    == old(self).toks@.len(),
            decreases self.toks@.len() - self.pos,
        {
            self.bump();
            let step = self.parse_bin(0, fuel - 1)?;
            e = Expr::Pipe { value: Box::new(e), step: Box::new(pipe_step(step, PARSE_FUEL)) };
        }
        Ok(e)
    }

    /// An expression with juxtaposed arguments (as `juxt` allows) and an `or` tail.
    pub(crate) fn parse_expr(&mut self, juxt: Juxt, fuel: u64) -> (r: Result<Expr, ParseError>)
        requires
            old(self).wf(),
        ensures
            moved(*old(self), *final(self)),
            simple_run(old(self).toks@, old(self).pos as int) && fuel >= 8 + 3 * (old(self).toks@.len() - old(self).pos) ==> r == Ok::<Expr, ParseError>(spec_simple_expr(old(self).toks@, old(self).pos as int)) && final(self).pos == old(self).toks@.len(),
        decreases fuel,
    {
        if fuel == 0 {
            return Err(too_deep(self.here()));
        }
        let core = self.parse_core(fuel - 1)?;
        proof {
            if simple_run(old(self).toks@, old(self).pos as int) && fuel >= 8 + 3 * (old(self).toks@.len() - old(self).pos) {
                lemma_simple_run_all(old(self).toks@, old(self).pos as int);
            }
        }
        let core = if juxt != Juxt::NoJuxt && (matches!(core, Expr::Ident(_)) || matches!(
            core,
            Expr::Field { .. }
        ) || matches!(core, Expr::Call { .. }) || matches!(core, Expr::MethodCall { .. })) {
            let is_call = matches!(core, Expr::Call { .. }) || matches!(
                core,
                Expr::MethodCall { .. }
            );
            let mut extra: Vec<Expr> = Vec::new();
            if juxt == Juxt::Full && !is_call && self.starts_lead() {
                let lead = self.parse_expr(Juxt::NoJuxt, fuel - 1)?;
                extra.push(lead);
            }
            if !self.nl_at(0) && (self.peek() == K_FN || self.peek() == K_L_BRACE) {
                let trail = if self.peek() == K_FN {
                    self.parse_anon_fn(fuel - 1)?
                } else {
                    Expr::Block(self.parse_block(fuel - 1)?)
                };
                extra.push(trail);
            }
            if extra.len() == 0 {
                core
            } else {
                match core {
                    Expr::Ident(name) => Expr::Call { name, type_args: Vec::new(), args: extra },
                    Expr::Field { obj, field } => Expr::MethodCall {
                        recv: obj,
                        method: field,
                        args: extra,
                    },
                    Expr::Call { name, type_args, args } => {
                        let mut args = args;
                        let mut extra = extra;
                        args.append(&mut extra);
                        Expr::Call { name, type_args, args }
                    },
                    Expr::MethodCall { recv, method, args } => {
                        let mut args = args;
                        let mut extra = extra;
                        args.append(&mut extra);
                        Expr::MethodCall { recv, method, args }
                    },
                    other => other,
                }
            }
        } else {
            core
        };
        if self.peek() == K_OR {
            self.bump();
            let body = if self.peek() == K_L_BRACE {
                self.parse_block(fuel - 1)?
            } else {
                vec![pipe_step(self.parse_core(fuel - 1)?, PARSE_FUEL)]
            };
            return Ok(Expr::OrElse { value: Box::new(core), body });
        }
        Ok(core)
    }

    /// Whether the next token is an infix operator that continues the current expression.
    fn infix_here(&self) -> (r: Option<(u8, BinOp, bool)>)
        ensures
            r == (if self.nl_spec(0) || (self.spec_kind(0) == K_MINUS && self.sp_spec(0) && !self.sp_spec(1)) {
                None
            } else {
                spec_infix_info(self.spec_kind(0))
            }),
            r matches Some((p, _, _)) ==> 1 <= p <= 12,
    {
        if self.nl_at(0) {
            return None;
        }
        let k = self.peek();
        if k == K_MINUS && self.sp_at(0) && !self.sp_at(1) {
            // `f -1` is a leading negative argument, not a subtraction
            return None;
        }
        infix_info(k)
    }

    /// Binary operators binding at least as tight as `min`, and ranges.
    fn parse_bin(&mut self, min: u8, fuel: u64) -> (r: Result<Expr, ParseError>)
        requires
            old(self).wf(),
        ensures
            moved(*old(self), *final(self)),
            int_run(old(self).toks@, old(self).pos as int) && fuel >= 4 + 3 * (old(self).toks@.len() - old(self).pos)
                ==> r == Ok::<Expr, ParseError>(spec_climb_from(old(self).toks@, old(self).pos as int, min).0)
                && final(self).pos == spec_climb_from(old(self).toks@, old(self).pos as int, min).1,
            old(self).spec_kind(0) == K_MINUS && int_run(old(self).toks@, old(self).pos + 1) && fuel >= 6 + 3 * (
            old(self).toks@.len() - old(self).pos) ==> r == Ok::<Expr, ParseError>(spec_minus_climb(old(self).toks@, old(self).pos as int, min).0)
                && final(self).pos == spec_minus_climb(old(self).toks@, old(self).pos as int, min).1,
        decreases fuel,
    {
        if fuel == 0 {
            return Err(too_deep(self.here()));
        }
        let ghost run = int_run(old(self).toks@, old(self).pos as int) && fuel >= 4 + 3 * (old(self).toks@.len()
            - old(self).pos);
        let ghost mrun = old(self).spec_kind(0) == K_MINUS && int_run(old(self).toks@, old(self).pos + 1) && fuel >= 6 + 3 * (
            old(self).toks@.len() - old(self).pos);
        let ghost target = if run {
            spec_climb_from(old(self).toks@, old(self).pos as int, min)
        } else {
            spec_minus_climb(old(self).toks@, old(self).pos as int, min)
        };
        let mut lhs = self.parse_prefix(fuel - 1)?;
        proof {
            if mrun {
                lemma_climb_from_ends(old(self).toks@, old(self).pos + 1, 12);
            }
        }
        loop
            invariant
                moved(*old(self), *self),
                run == (int_run(old(self).toks@, old(self).pos as int) && fuel >= 4 + 3 * (old(self).toks@.len()
                    - old(self).pos)),
                mrun == (old(self).spec_kind(0) == K_MINUS && int_run(old(self).toks@, old(self).pos + 1) && fuel >= 6 + 3 * (
                    old(self).toks@.len() - old(self).pos)),
                target == (if run {
                    spec_climb_from(old(self).toks@, old(self).pos as int, min)
                } else {
                    spec_minus_climb(old(self).toks@, old(self).pos as int, min)
                }),
                run || mrun ==> ops_run(self.toks@, self.pos as int) && self.pos > old(self).pos && spec_climb(
                    self.toks@,
                    lhs,
                    self.pos as int,
                    min,
                ) == target,
            decreases self.toks@.len() - self.pos,
        {
            let before = self.pos;
            let k = self.peek();
            if k == K_IS && min <= 4 && !self.nl_at(0) {
                // `Type is [not] Trait`
                self.bump();
                let negated = self.is_word_at(0, "not") && self.peek_at(1) == K_IDENT;
                if negated {
                    self.bump();
                }
                let trait_name = self.expect_ident()?;
                lhs = Expr::Is { subject: Box::new(lhs), trait_name, negated };
            } else if (k == K_DOT_DOT || k == K_DOT_DOT_EQ) && min <= 5 && !self.nl_at(0) {
                let inclusive = k == K_DOT_DOT_EQ;
                self.bump();
                let n = self.peek();
                let open = n == K_R_BRACKET || n == K_R_PAREN || n == K_COMMA || n == K_L_BRACE
                    || n == K_EOF || n == K_FAT_ARROW || n == K_SEMI || self.nl_at(0) || n
                    == K_R_BRACE || n == K_DOT_DOT || n == K_DOT_DOT_EQ;
                if open && !inclusive {
                    lhs = Expr::Range { start: Box::new(lhs), end: None, inclusive: false };
                } else {
                    let rhs = self.parse_bin(6, fuel - 1)?;
                    lhs = Expr::Range {
                        start: Box::new(lhs),
                        end: Some(Box::new(rhs)),
                        inclusive,
                    };
                }
            } else {
                match self.infix_here() {
                    Some((prec, op, right)) => {
                        if prec < min {
                            break ;
                        }
                        if k == K_PERCENT && self.nl_at(0) {
                            break ;
                        }
                        self.bump();
                        let next_min = if right {
                            prec
                        } else {
                            prec + 1
                        };
                        let ghost prev = lhs;
                        let rhs = self.parse_bin(next_min, fuel - 1)?;
                        proof {
                            if run || mrun {
                                lemma_climb_from_ends(self.toks@, before + 1, next_min);
                                assert(infix_at(self.toks@, before as int) == Some((prec, op, right)));
                                assert(spec_climb(self.toks@, prev, before as int, min) == spec_climb(
                                    self.toks@,
                                    Expr::Binary(op, Box::new(prev), Box::new(rhs)),
                                    self.pos as int,
                                    min,
                                ));
                            }
                        }
                        lhs = Expr::Binary(op, Box::new(lhs), Box::new(rhs));
                    },
                    None => {
                        break ;
                    },
                }
            }
            if self.pos <= before {
                break ;
            }
        }
        Ok(lhs)
    }

    /// Prefix operators: `-`, `!`, `..`.
    fn parse_prefix(&mut self, fuel: u64) -> (r: Result<Expr, ParseError>)
        requires
            old(self).wf(),
        ensures
            moved(*old(self), *final(self)),
            old(self).spec_kind(0) == K_MINUS ==> (r matches Ok(e) ==> e is Int || e is Negative),
            old(self).spec_kind(0) == K_NOT ==> (r matches Ok(e) ==> e is Cast || e is Not),
            old(self).spec_kind(0) == K_DOT_DOT ==> (r matches Ok(e) ==> e is Spread),
            fuel > 2 && old(self).pos < old(self).toks@.len() && old(self).toks@[old(self).pos as int].tok is Int && kind_at(old(self).toks@, old(self).pos + 1) != K_DOT && kind_at(old(self).toks@, old(self).pos + 1)
                != K_L_BRACKET && kind_at(old(self).toks@, old(self).pos + 1) != K_L_PAREN && kind_at(
                old(self).toks@,
                old(self).pos + 1,
            ) != K_QUESTION ==> r == Ok::<Expr, ParseError>(Expr::Int(int_value(old(self).toks@[old(self).pos as int])))
                && final(self).pos == old(self).pos + 1,
            old(self).spec_kind(0) == K_MINUS && int_run(old(self).toks@, old(self).pos + 1) && fuel >= 5 + 3 * (
            old(self).toks@.len() - old(self).pos) ==> r == Ok::<Expr, ParseError>(negated(spec_climb_from(old(self).toks@, old(self).pos + 1, 12).0))
                && final(self).pos == spec_climb_from(old(self).toks@, old(self).pos + 1, 12).1,
        decreases fuel,
    {
        if fuel == 0 {
            return Err(too_deep(self.here()));
        }
        let k = self.peek();
        if k == K_MINUS {
            self.bump();
            let e = self.parse_bin(12, fuel - 1)?;
            return Ok(
                match e {
                    Expr::Int(n) => {
                        if n == i64::MIN {
                            Expr::Negative(Box::new(Expr::Int(n)))
                        } else {
                            Expr::Int(-n)
                        }
                    },
                    e => Expr::Negative(Box::new(e)),
                },
            );
        }
        if k == K_NOT {
            self.bump();
            let e = self.parse_bin(12, fuel - 1)?;
            return Ok(
                match e {
                    Expr::Cast { target, args } => Expr::Cast {
                        target: TypeExpr::Result(Box::new(target)),
                        args,
                    },
                    e => Expr::Not(Box::new(e)),
                },
            );
        }
        if k == K_DOT_DOT {
            self.bump();
            let e = self.parse_bin(6, fuel - 1)?;
            return Ok(Expr::Spread(Box::new(e)));
        }
        self.parse_postfix(fuel - 1)
    }

    /// An argument list: `(a, b, name = c)`; named arguments collect into one trailing record.
    fn parse_args(&mut self, fuel: u64) -> (r: Result<Vec<Expr>, ParseError>)
        requires
            old(self).wf(),
        ensures
            moved(*old(self), *final(self)),
            fuel == 0 ==> (r matches Err(e) && e.msg@ == "expression nests too deeply".spec_bytes()),
            r is Ok ==> old(self).spec_kind(0) == K_L_PAREN,
        decreases fuel,
    {
        if fuel == 0 {
            return Err(too_deep(self.here()));
        }
        self.expect(K_L_PAREN, "expected `(`")?;
        let mut args: Vec<Expr> = Vec::new();
        let mut named: Vec<(Option<Vec<u8>>, Expr)> = Vec::new();
        while self.peek() != K_R_PAREN && self.peek() != K_EOF
            invariant
                moved(*old(self), *self),
            decreases self.toks@.len() - self.pos,
        {
            let before = self.pos;
            if self.peek() == K_IDENT && self.peek_at(1) == K_ASSIGN {
                let n = self.expect_ident()?;
                self.bump();
                let v = self.parse_expr(Juxt::TrailOnly, fuel - 1)?;
                named.push((Some(n), v));
            } else if self.peek() == K_MOVE || self.peek() == K_MUT {
                let a = if self.peek() == K_MOVE {
                    Access::Move
                } else {
                    Access::Mut
                };
                self.bump();
                let v = self.parse_expr(Juxt::TrailOnly, fuel - 1)?;
                args.push(Expr::ArgMod(a, Box::new(v)));
            } else {
                let v = self.parse_expr(Juxt::TrailOnly, fuel - 1)?;
                if named.len() > 0 {
                    return Err(self.error("positional args go before named args"));
                }
                args.push(v);
            }
            self.eat(K_COMMA);
            if self.pos <= before {
                return Err(self.error("malformed argument list"));
            }
        }
        self.expect(K_R_PAREN, "expected `)`")?;
        if named.len() > 0 {
            args.push(Expr::StructLit { name: Vec::new(), type_args: Vec::new(), fields: named });
        }
        Ok(args)
    }

    /// A brace-delimited list of struct fields: `{ a = 1, b = 2 }` or positional values.
    fn parse_struct_body(&mut self, fuel: u64) -> (r: Result<
        Vec<(Option<Vec<u8>>, Expr)>,
        ParseError,
    >)
        requires
            old(self).wf(),
        ensures
            moved(*old(self), *final(self)),
            fuel == 0 ==> (r matches Err(e) && e.msg@ == "expression nests too deeply".spec_bytes()),
            r is Ok ==> old(self).spec_kind(0) == K_L_BRACE,
        decreases fuel,
    {
        if fuel == 0 {
            return Err(too_deep(self.here()));
        }
        self.expect(K_L_BRACE, "expected `{`")?;
        let mut fields: Vec<(Option<Vec<u8>>, Expr)> = Vec::new();
        while self.peek() != K_R_BRACE && self.peek() != K_EOF
            invariant
                moved(*old(self), *self),
            decreases self.toks@.len() - self.pos,
        {
            let before = self.pos;
            if self.peek() == K_IDENT && self.peek_at(1) == K_ASSIGN {
                let n = self.expect_ident()?;
                self.bump();
                let v = self.parse_expr(Juxt::TrailOnly, fuel - 1)?;
                fields.push((Some(n), v));
            } else {
                let v = self.parse_expr(Juxt::TrailOnly, fuel - 1)?;
                fields.push((None, v));
            }
            self.eat(K_COMMA);
            if self.pos <= before {
                return Err(self.error("malformed struct literal"));
            }
        }
        self.expect(K_R_BRACE, "expected `}`")?;
        Ok(fields)
    }

    /// A loosely separated list of expressions up to the closing `close` kind.
    fn parse_list(&mut self, close: u8, fuel: u64) -> (r: Result<Vec<Expr>, ParseError>)
        requires
            old(self).wf(),
        ensures
            moved(*old(self), *final(self)),
            fuel == 0 ==> r is Err,
            (r is Ok ==> final(self).pos >= 1 && crate::lexer::spec_code(final(self).toks@[final(self).pos - 1].tok) == close),
        decreases fuel,
    {
        if fuel == 0 {
            return Err(too_deep(self.here()));
        }
        let mut elems: Vec<Expr> = Vec::new();
        while self.peek() != close && self.peek() != K_EOF
            invariant
                moved(*old(self), *self),
            decreases self.toks@.len() - self.pos,
        {
            let before = self.pos;
            let v = self.parse_expr(Juxt::TrailOnly, fuel - 1)?;
            elems.push(v);
            self.eat(K_COMMA);
            if self.pos <= before {
                return Err(self.error("malformed list"));
            }
        }
        self.expect(close, "unclosed list")?;
        Ok(elems)
    }

    /// The rest of `[...]` after its `[`: an array's elements, or a map's `key = value` entries.
    fn parse_bracketed(&mut self, fuel: u64) -> (r: Result<Expr, ParseError>)
        requires
            old(self).wf(),
        ensures
            moved(*old(self), *final(self)),
            r matches Ok(e) ==> (e is Array || e is Dict),
            (r is Ok ==> final(self).pos >= 1 && crate::lexer::spec_code(final(self).toks@[final(self).pos - 1].tok) == K_R_BRACKET),
        decreases fuel,
    {
        if fuel == 0 {
            return Err(too_deep(self.here()));
        }
        if self.peek() == K_R_BRACKET || self.peek() == K_EOF {
            let elems = self.parse_list(K_R_BRACKET, fuel - 1)?;
            return Ok(Expr::Array(elems));
        }
        let first = self.parse_expr(Juxt::TrailOnly, fuel - 1)?;
        if self.peek() != K_ASSIGN {
            let mut elems: Vec<Expr> = Vec::new();
            elems.push(first);
            self.eat(K_COMMA);
            let mut rest = self.parse_list(K_R_BRACKET, fuel - 1)?;
            elems.append(&mut rest);
            return Ok(Expr::Array(elems));
        }
        self.bump();
        let value = self.parse_expr(Juxt::TrailOnly, fuel - 1)?;
        let mut entries: Vec<(Expr, Expr)> = Vec::new();
        entries.push((first, value));
        self.eat(K_COMMA);
        while self.peek() != K_R_BRACKET && self.peek() != K_EOF
            invariant
                moved(*old(self), *self),
            decreases self.toks@.len() - self.pos,
        {
            let before = self.pos;
            let key = self.parse_expr(Juxt::TrailOnly, fuel - 1)?;
            self.expect(K_ASSIGN, "expected `=` in a map entry")?;
            let value = self.parse_expr(Juxt::TrailOnly, fuel - 1)?;
            entries.push((key, value));
            self.eat(K_COMMA);
            if self.pos <= before {
                return Err(self.error("malformed map"));
            }
        }
        self.expect(K_R_BRACKET, "unclosed map")?;
        Ok(Expr::Dict(entries))
    }

    /// Postfix access, subscripts, calls and `?`.
    fn parse_postfix(&mut self, fuel: u64) -> (r: Result<Expr, ParseError>)
        requires
            old(self).wf(),
        ensures
            moved(*old(self), *final(self)),
            fuel > 1 && old(self).pos < old(self).toks@.len() && old(self).toks@[old(self).pos as int].tok is Int && kind_at(old(self).toks@, old(self).pos + 1) != K_DOT && kind_at(old(self).toks@, old(self).pos + 1)
                != K_L_BRACKET && kind_at(old(self).toks@, old(self).pos + 1) != K_L_PAREN && kind_at(
                old(self).toks@,
                old(self).pos + 1,
            ) != K_QUESTION ==> r == Ok::<Expr, ParseError>(Expr::Int(int_value(old(self).toks@[old(self).pos as int])))
                && final(self).pos == old(self).pos + 1,
        decreases fuel,
    {
        if fuel == 0 {
            return Err(too_deep(self.here()));
        }
        let mut e = self.parse_atom(fuel - 1)?;
        loop
            invariant
                moved(*old(self), *self),
                fuel > 1 && old(self).pos < old(self).toks@.len() && old(self).toks@[old(self).pos as int].tok is Int && kind_at(old(self).toks@, old(self).pos + 1) != K_DOT && kind_at(old(self).toks@, old(self).pos + 1)
                != K_L_BRACKET && kind_at(old(self).toks@, old(self).pos + 1) != K_L_PAREN && kind_at(
                old(self).toks@,
                old(self).pos + 1,
            ) != K_QUESTION ==> e == Expr::Int(int_value(old(self).toks@[old(self).pos as int]))
                    && self.pos == old(self).pos + 1,
            decreases self.toks@.len() - self.pos,
        {
            let before = self.pos;
            let k = self.peek();
            // a dot with space before it on the same line starts a juxtaposed argument
            let access_dot = k == K_DOT && !(self.sp_at(0) && !self.nl_at(0));
            if access_dot {
                let k1 = self.peek_at(1);
                if k1 == K_L_BRACE {
                    // `Name.{ ... }`
                    let (name, type_args) = match e {
                        Expr::Ident(n) => (n, Vec::new()),
                        Expr::Call { name, type_args, args } => {
                            if args.len() == 0 {
                                (name, type_args)
                            } else {
                                return Err(self.error("a struct literal needs a type name"));
                            }
                        },
                        // `module.Name.{ ... }`
                        Expr::Field { obj, field } => match *obj {
                            Expr::Ident(m) => {
                                let mut n = m;
                                n.push(46);
                                crate::text::push_all(&mut n, field.as_slice());
                                (n, Vec::new())
                            },
                            _ => {
                                return Err(self.error("a struct literal needs a type name"));
                            },
                        },
                        _ => {
                            return Err(self.error("a struct literal needs a type name"));
                        },
                    };
                    self.bump();
                    let fields = self.parse_struct_body(fuel - 1)?;
                    e = Expr::StructLit { name, type_args, fields };
                } else if k1 == K_L_PAREN {
                    match e {
                        Expr::Field { obj, field } => {
                            // `Enum.variant.(payload)`
                            self.bump();
                            self.bump();
                            let args = self.parse_list(K_R_PAREN, fuel - 1)?;
                            e = Expr::MethodCall { recv: obj, method: field, args };
                        },
                        other => {
                            // `Type.(args)`
                            let target = match other {
                                Expr::Ident(n) => TypeExpr::Name(n),
                                Expr::Call { name, type_args, args } => {
                                    if args.len() == 0 {
                                        TypeExpr::Generic(name, type_args)
                                    } else {
                                        return Err(self.error("a cast needs a type"));
                                    }
                                },
                                _ => {
                                    return Err(self.error("a cast needs a type"));
                                },
                            };
                            self.bump();
                            self.bump();
                            let args = self.parse_list(K_R_PAREN, fuel - 1)?;
                            e = Expr::Cast { target, args };
                        },
                    }
                } else if k1 == K_INT {
                    self.bump();
                    let n = match &self.toks[self.pos].tok {
                        Tok::Int(n) => *n,
                        _ => 0,
                    };
                    self.bump();
                    e = Expr::Field { obj: Box::new(e), field: crate::text::fmt_i64(n) };
                } else if k1 == K_FLOAT {
                    // `x.0.1` lexes `0.1` as one float
                    self.bump();
                    let f = match &self.toks[self.pos].tok {
                        Tok::Float(f) => f.clone(),
                        _ => Vec::new(),
                    };
                    self.bump();
                    let mut first: Vec<u8> = Vec::new();
                    let mut second: Vec<u8> = Vec::new();
                    let mut seen = false;
                    let mut i: usize = 0;
                    while i < f.len()
                        invariant
                            i <= f@.len(),
                        decreases f@.len() - i,
                    {
                        if f[i] == 46 {
                            seen = true;
                        } else if seen {
                            second.push(f[i]);
                        } else {
                            first.push(f[i]);
                        }
                        i = i + 1;
                    }
                    e = Expr::Field {
                        obj: Box::new(Expr::Field { obj: Box::new(e), field: first }),
                        field: second,
                    };
                } else if k1 == K_IDENT {
                    self.bump();
                    let name = self.expect_ident()?;
                    if self.peek() == K_L_PAREN && !self.sp_at(0) {
                        let args = self.parse_args(fuel - 1)?;
                        e = Expr::MethodCall { recv: Box::new(e), method: name, args };
                    } else {
                        e = Expr::Field { obj: Box::new(e), field: name };
                    }
                } else {
                    break ;
                }
            } else if k == K_L_BRACKET && !self.sp_at(0) {
                self.bump();
                if self.eat(K_DOT_DOT) {
                    self.expect(K_R_BRACKET, "expected `]`")?;
                    e = Expr::Slice { coll: Box::new(e), range: None };
                } else {
                    let idx = self.parse_expr(Juxt::TrailOnly, fuel - 1)?;
                    self.expect(K_R_BRACKET, "expected `]`")?;
                    e = match idx {
                        Expr::Range { start, end, inclusive } => Expr::Slice {
                            coll: Box::new(e),
                            range: Some(Box::new(Expr::Range { start, end, inclusive })),
                        },
                        Expr::Spread(inner) => Expr::Slice {
                            coll: Box::new(e),
                            range: Some(Box::new(Expr::Spread(inner))),
                        },
                        idx => Expr::Index { coll: Box::new(e), index: Box::new(idx) },
                    };
                }
            } else if k == K_L_PAREN && !self.sp_at(0) && !matches!(e, Expr::Ident(_)) {
                let args = self.parse_args(fuel - 1)?;
                e = Expr::Apply { callee: Box::new(e), args };
            } else if k == K_QUESTION && !self.sp_at(0) {
                self.bump();
                e = Expr::Propagate(Box::new(e));
            } else {
                break ;
            }
            if self.pos <= before {
                break ;
            }
        }
        Ok(e)
    }

    /// An anonymous fn: `fn (params) ret { body }`.
    fn parse_anon_fn(&mut self, fuel: u64) -> (r: Result<Expr, ParseError>)
        requires
            old(self).wf(),
        ensures
            moved(*old(self), *final(self)),
            fuel == 0 ==> (r matches Err(e) && e.msg@ == "expression nests too deeply".spec_bytes()),
            r is Ok ==> old(self).spec_kind(0) == K_FN,
        decreases fuel,
    {
        if fuel == 0 {
            return Err(too_deep(self.here()));
        }
        self.expect(K_FN, "expected `fn`")?;
        // captures are accepted and ignored: only non-capturing fns are supported
        if self.peek() == K_L_BRACKET {
            self.bump();
            while self.peek() != K_R_BRACKET && self.peek() != K_EOF
                invariant
                    moved(*old(self), *self),
                decreases self.toks@.len() - self.pos,
            {
                self.bump();
            }
            self.expect(K_R_BRACKET, "expected `]`")?;
        }
        let params = if self.peek() == K_L_PAREN {
            self.parse_params(fuel - 1)?
        } else {
            Vec::new()
        };
        let ret = if self.peek() != K_L_BRACE && self.peek() != K_DO {
            Some(self.parse_type(fuel - 1)?)
        } else {
            None
        };
        let body = self.parse_block(fuel - 1)?;
        Ok(Expr::AnonFn { params, ret, body })
    }

    /// The condition of an `if` or `loop`: a binding, a pattern test, or an expression.
    fn parse_header_cond(&mut self, fuel: u64) -> (r: Result<Expr, ParseError>)
        requires
            old(self).wf(),
        ensures
            moved(*old(self), *final(self)),
            old(self).spec_kind(0) == K_IDENT && old(self).spec_kind(1) == K_BIND ==> (r matches Ok(e)
                ==> (e matches Expr::Bind { mutable: m, typ: t, value: v, .. } && m && t is None && v is Some)),
            old(self).spec_kind(0) == K_IDENT && old(self).spec_kind(1) == K_DOUBLE_COLON ==> (r matches Ok(
                e,
            ) ==> (e matches Expr::Bind { mutable: m, typ: t, value: v, .. } && !m && t is None && v is Some)),
            old(self).spec_kind(0) == K_IDENT && old(self).spec_kind(1) == K_COLON ==> (r matches Ok(e) ==> (
            e matches Expr::Bind { mutable: m, typ: t, .. } && m && t is Some)),
        decreases fuel,
    {
        if fuel == 0 {
            return Err(too_deep(self.here()));
        }
        if self.peek() == K_IDENT && (self.peek_at(1) == K_BIND || self.peek_at(1)
            == K_DOUBLE_COLON || self.peek_at(1) == K_COLON) {
            let name = self.expect_ident()?;
            if self.eat(K_BIND) {
                let v = self.parse_expr(Juxt::NoJuxt, fuel - 1)?;
                return Ok(Expr::Bind { mutable: true, name, typ: None, value: Some(Box::new(v)) });
            }
            if self.eat(K_DOUBLE_COLON) {
                let v = self.parse_expr(Juxt::NoJuxt, fuel - 1)?;
                return Ok(Expr::Bind { mutable: false, name, typ: None, value: Some(Box::new(v)) });
            }
            self.expect(K_COLON, "expected `:`")?;
            let t = self.parse_type(fuel - 1)?;
            if self.eat(K_ASSIGN) {
                let v = self.parse_expr(Juxt::NoJuxt, fuel - 1)?;
                return Ok(
                    Expr::Bind { mutable: true, name, typ: Some(t), value: Some(Box::new(v)) },
                );
            }
            return Ok(Expr::Bind { mutable: true, name, typ: Some(t), value: None });
        }
        let e = self.parse_expr(Juxt::NoJuxt, fuel - 1)?;
        if self.peek() == K_BIND || self.peek() == K_DOUBLE_COLON {
            let mutable = self.peek() == K_BIND;
            self.bump();
            let v = self.parse_expr(Juxt::NoJuxt, fuel - 1)?;
            return Ok(Expr::PatBind { pat: Box::new(e), mutable: Some(mutable), value: Box::new(v) });
        }
        Ok(e)
    }

    /// One `match` arm's body: a block, or an expression ended by `,`, `}` or `else`.
    fn parse_arm_body(&mut self, fuel: u64) -> (r: Result<Vec<Expr>, ParseError>)
        requires
            old(self).wf(),
        ensures
            moved(*old(self), *final(self)),
            old(self).spec_kind(0) != K_L_BRACE ==> (r matches Ok(b) ==> b@.len() == 1),
        decreases fuel,
    {
        if fuel == 0 {
            return Err(too_deep(self.here()));
        }
        if self.peek() == K_L_BRACE {
            let b = self.parse_block(fuel - 1)?;
            self.eat(K_COMMA);
            return Ok(b);
        }
        let s = self.parse_stmt(fuel - 1)?;
        if !self.eat(K_COMMA) && self.peek() != K_R_BRACE && self.peek() != K_ELSE {
            if !self.nl_at(0) {
                return Err(self.error("expected `,` after a match arm"));
            }
        }
        Ok(vec![s])
    }

    /// Atoms: literals, names, calls, brackets, blocks and control flow.
    fn parse_atom(&mut self, fuel: u64) -> (r: Result<Expr, ParseError>)
        requires
            old(self).wf(),
        ensures
            moved(*old(self), *final(self)),
            fuel > 0 && old(self).pos < old(self).toks@.len() && old(self).toks@[old(self).pos as int].tok is Int ==> r == Ok::<Expr, ParseError>(Expr::Int(int_value(old(self).toks@[old(self).pos as int])))
                && final(self).pos == old(self).pos + 1,
        decreases fuel,
    {
        if fuel == 0 {
            return Err(too_deep(self.here()));
        }
        if self.pos >= self.toks.len() {
            return Err(self.error("unexpected end of input"));
        }
        let tok = match &self.toks[self.pos].tok {
            Tok::Int(n) => Tok::Int(*n),
            Tok::Float(f) => Tok::Float(f.clone()),
            Tok::Str(s) => Tok::Str(s.clone()),
            Tok::Bool(b) => Tok::Bool(*b),
            Tok::Atom(a) => Tok::Atom(a.clone()),
            Tok::Ident(n) => Tok::Ident(n.clone()),
            Tok::Dollar => Tok::Dollar,
            _ => Tok::Comma,
        };
        match tok {
            Tok::Int(n) => {
                self.bump();
                return Ok(Expr::Int(n));
            },
            Tok::Float(f) => {
                self.bump();
                return Ok(Expr::Float(f));
            },
            Tok::Str(s) => {
                let at = self.here();
                self.bump();
                return interpolate(s, at, fuel - 1);
            },
            Tok::Bool(b) => {
                self.bump();
                return Ok(Expr::Bool(b));
            },
            Tok::Atom(a) => {
                self.bump();
                return Ok(Expr::Atom(a));
            },
            Tok::Dollar => {
                self.bump();
                return Ok(Expr::Dollar);
            },
            Tok::Ident(name) => {
                self.bump();
                // `Name[T]` heads a generic type path when `.` or `(` follows the brackets;
                // type names are capitalized, so `xs[0].f` stays an index
                if self.peek() == K_L_BRACKET && !self.sp_at(0) {
                    let capital = name.len() > 0 && 65 <= name[0] && name[0] <= 90;
                    if let Some(m) = self.matching_bracket(0) {
                        if m < usize::MAX {
                            let after = self.peek_at(m + 1);
                            if (after == K_DOT && capital) || (after == K_L_PAREN && !self.sp_at(m + 1)) {
                                self.bump();
                                let mut targs: Vec<TypeExpr> = Vec::new();
                                while self.peek() != K_R_BRACKET && self.peek() != K_EOF
                                    invariant
                                        moved(*old(self), *self),
                                    decreases self.toks@.len() - self.pos,
                                {
                                    let before = self.pos;
                                    let t = self.parse_type(fuel - 1)?;
                                    targs.push(t);
                                    self.eat(K_COMMA);
                                    if self.pos <= before {
                                        return Err(self.error("malformed type arguments"));
                                    }
                                }
                                self.expect(K_R_BRACKET, "expected `]`")?;
                                if self.peek() == K_L_PAREN {
                                    let args = self.parse_args(fuel - 1)?;
                                    return Ok(Expr::Call { name, type_args: targs, args });
                                }
                                return Ok(
                                    Expr::Call { name, type_args: targs, args: Vec::new() },
                                );
                            }
                        }
                    }
                }
                if self.peek() == K_L_PAREN && !self.sp_at(0) {
                    let args = self.parse_args(fuel - 1)?;
                    return Ok(Expr::Call { name, type_args: Vec::new(), args });
                }
                return Ok(Expr::Ident(name));
            },
            _ => {},
        }
        let k = self.peek();
        if k == K_DOT {
            self.bump();
            let k1 = self.peek();
            if k1 == K_L_BRACE {
                let fields = self.parse_struct_body(fuel - 1)?;
                return Ok(Expr::StructLit { name: Vec::new(), type_args: Vec::new(), fields });
            }
            if k1 == K_L_PAREN {
                self.bump();
                let args = self.parse_list(K_R_PAREN, fuel - 1)?;
                return Ok(Expr::Cast { target: TypeExpr::Tuple(Vec::new()), args });
            }
            if k1 == K_L_BRACKET {
                self.bump();
                let elems = self.parse_list(K_R_BRACKET, fuel - 1)?;
                return Ok(Expr::Array(elems));
            }
            let variant = self.expect_ident()?;
            let mut args: Vec<Expr> = Vec::new();
            if self.peek() == K_DOT && self.peek_at(1) == K_L_PAREN && !self.sp_at(0) {
                self.bump();
                self.bump();
                args = self.parse_list(K_R_PAREN, fuel - 1)?;
            } else if self.peek() == K_DOT && self.peek_at(1) == K_L_BRACE && !self.sp_at(0) {
                self.bump();
                let fields = self.parse_struct_body(fuel - 1)?;
                args.push(Expr::StructLit { name: Vec::new(), type_args: Vec::new(), fields });
            }
            return Ok(Expr::EnumShorthand { variant, args });
        }
        if k == K_QUESTION {
            // `?T.(value)`
            self.bump();
            let t = self.parse_type(fuel - 1)?;
            self.expect(K_DOT, "expected `.(`")?;
            self.expect(K_L_PAREN, "expected `.(`")?;
            let args = self.parse_list(K_R_PAREN, fuel - 1)?;
            return Ok(Expr::Cast { target: TypeExpr::Option(Box::new(t)), args });
        }
        if k == K_L_PAREN {
            self.bump();
            if self.eat(K_R_PAREN) {
                return Ok(Expr::Tuple(Vec::new()));
            }
            let first_named = if self.peek() == K_IDENT && self.peek_at(1) == K_ASSIGN
                && self.peek_at(3) != K_R_PAREN {
                Some(self.expect_ident()?)
            } else {
                None
            };
            // `(a b c)` lists its elements: a name followed by a value on the same line
            let k1 = self.peek_at(1);
            let listed = self.peek() == K_IDENT && !self.nl_at(1) && (k1 == K_IDENT || k1 == K_INT
                || k1 == K_STR || k1 == K_FLOAT);
            let first = match &first_named {
                Some(_) => {
                    self.bump();
                    self.parse_expr(Juxt::TrailOnly, fuel - 1)?
                },
                None => if listed {
                    self.parse_expr(Juxt::TrailOnly, fuel - 1)?
                } else {
                    self.parse_stmt(fuel - 1)?
                },
            };
            if first_named.is_none() && self.eat(K_R_PAREN) {
                return Ok(first);
            }
            let mut elems: Vec<(Option<Vec<u8>>, Expr)> = Vec::new();
            elems.push((first_named, first));
            self.eat(K_COMMA);
            while self.peek() != K_R_PAREN && self.peek() != K_EOF
                invariant
                    moved(*old(self), *self),
                decreases self.toks@.len() - self.pos,
            {
                let before = self.pos;
                if self.peek() == K_IDENT && self.peek_at(1) == K_ASSIGN {
                    let n = self.expect_ident()?;
                    self.bump();
                    let v = self.parse_expr(Juxt::TrailOnly, fuel - 1)?;
                    elems.push((Some(n), v));
                } else {
                    let v = self.parse_expr(Juxt::TrailOnly, fuel - 1)?;
                    elems.push((None, v));
                }
                self.eat(K_COMMA);
                if self.pos <= before {
                    return Err(self.error("malformed tuple"));
                }
            }
            self.expect(K_R_PAREN, "expected `)`")?;
            return Ok(Expr::Tuple(elems));
        }
        if k == K_L_BRACKET {
            // `[]T.(value)` casts to an array type
            if self.peek_at(1) == K_R_BRACKET && self.peek_at(2) == K_IDENT && !self.sp_at(2) {
                let t = self.parse_type(fuel - 1)?;
                self.expect(K_DOT, "expected `.(`")?;
                self.expect(K_L_PAREN, "expected `.(`")?;
                let args = self.parse_list(K_R_PAREN, fuel - 1)?;
                return Ok(Expr::Cast { target: t, args });
            }
            self.bump();
            return self.parse_bracketed(fuel - 1);
        }
        if k == K_L_BRACE {
            let body = self.parse_block(fuel - 1)?;
            return Ok(Expr::Block(body));
        }
        if k == K_IF {
            self.bump();
            let cond = self.parse_header_cond(fuel - 1)?;
            let then = self.parse_block(fuel - 1)?;
            let els = if self.eat(K_ELSE) {
                if self.peek() == K_IF {
                    Some(vec![self.parse_atom(fuel - 1)?])
                } else {
                    Some(self.parse_block(fuel - 1)?)
                }
            } else {
                None
            };
            return Ok(Expr::If { cond: Box::new(cond), then, els });
        }
        if k == K_MATCH {
            self.bump();
            let subject = self.parse_expr(Juxt::NoJuxt, fuel - 1)?;
            self.expect(K_L_BRACE, "expected `{`")?;
            let mut arms: Vec<MatchArm> = Vec::new();
            let mut else_body: Option<Vec<Expr>> = None;
            while self.peek() != K_R_BRACE && self.peek() != K_EOF
                invariant
                    moved(*old(self), *self),
                decreases self.toks@.len() - self.pos,
            {
                let before = self.pos;
                if self.eat(K_ELSE) {
                    self.expect(K_FAT_ARROW, "expected `=>`")?;
                    else_body = Some(self.parse_arm_body(fuel - 1)?);
                } else {
                    let mut patterns: Vec<Expr> = Vec::new();
                    loop
                        invariant
                            moved(*old(self), *self),
                        decreases self.toks@.len() - self.pos,
                    {
                        let b2 = self.pos;
                        let p = self.parse_expr(Juxt::NoJuxt, fuel - 1)?;
                        patterns.push(p);
                        if !self.eat(K_COMMA) || self.peek() == K_FAT_ARROW || self.pos <= b2 {
                            break ;
                        }
                    }
                    self.expect(K_FAT_ARROW, "expected `=>`")?;
                    let body = self.parse_arm_body(fuel - 1)?;
                    arms.push(MatchArm { patterns, body });
                }
                if self.pos <= before {
                    return Err(self.error("malformed match"));
                }
            }
            self.expect(K_R_BRACE, "expected `}`")?;
            return Ok(Expr::Match { subject: Box::new(subject), arms, else_body });
        }
        if k == K_LOOP {
            self.bump();
            if self.peek() == K_L_BRACE {
                let body = self.parse_block(fuel - 1)?;
                return Ok(Expr::Loop { cond: None, body });
            }
            if self.peek() == K_IDENT && self.peek_at(1) == K_IN {
                let var = self.expect_ident()?;
                self.bump();
                let iter = self.parse_expr(Juxt::NoJuxt, fuel - 1)?;
                let body = self.parse_block(fuel - 1)?;
                return Ok(Expr::For { var, iter: Box::new(iter), body });
            }
            let cond = self.parse_header_cond(fuel - 1)?;
            let body = self.parse_block(fuel - 1)?;
            return Ok(Expr::Loop { cond: Some(Box::new(cond)), body });
        }
        if k == K_BREAK {
            self.bump();
            if !self.nl_at(0) && self.starts_expr() && self.peek() != K_L_BRACE {
                let v = self.parse_expr(Juxt::TrailOnly, fuel - 1)?;
                return Ok(Expr::Break(Some(Box::new(v))));
            }
            return Ok(Expr::Break(None));
        }
        if k == K_CONTINUE {
            self.bump();
            return Ok(Expr::Continue);
        }
        if k == K_FN {
            return self.parse_anon_fn(fuel - 1);
        }
        Err(self.error("expected an expression"))
    }
}

/// A string literal: plain text, or literal pieces and `{expr}` holes, each hole holding one
/// expression written as in code.
pub(crate) fn interpolate(s: Vec<u8>, at: usize, fuel: u64) -> (r: Result<Expr, ParseError>)
    ensures
        fuel == 0 ==> r is Err,
        fuel > 0 && !s@.contains(123u8) ==> r == Ok::<Expr, ParseError>(Expr::Str(s)),
    decreases fuel,
{
    if fuel == 0 {
        return Err(too_deep(at));
    }
    let mut has_hole = false;
    let mut i: usize = 0;
    while i < s.len()
        invariant
            i <= s@.len(),
            has_hole ==> s@.contains(123u8),
            !has_hole ==> forall|k: int| 0 <= k < i ==> s@[k] != 123u8,
        decreases s@.len() - i,
    {
        if s[i] == 123 {
            has_hole = true;
        }
        i = i + 1;
    }
    if !has_hole {
        return Ok(Expr::Str(s));
    }
    let mut parts: Vec<Expr> = Vec::new();
    let mut text: Vec<u8> = Vec::new();
    let mut i: usize = 0;
    while i < s.len()
        invariant
            i <= s@.len(),
        decreases s@.len() - i,
    {
        if s[i] != 123 {
            text.push(s[i]);
            i = i + 1;
            continue;
        }
        // the hole runs to the matching `}`
        let mut depth: usize = 1;
        let mut j = i + 1;
        while j < s.len() && depth > 0
            invariant
                i < j <= s@.len(),
                depth <= j - i,
            decreases s@.len() - j,
        {
            if s[j] == 123 {
                depth = depth + 1;
            } else if s[j] == 125 {
                depth = depth - 1;
            }
            j = j + 1;
        }
        if depth > 0 {
            return Err(ParseError { msg: lit("unclosed `{` in a string"), at });
        }
        // the hole's source: the bytes between the `{` and its `}`
        let mut inner: Vec<u8> = Vec::new();
        let mut k = i + 1;
        while k < j - 1
            invariant
                i < k <= j,
                j <= s@.len(),
            decreases j - k,
        {
            inner.push(s[k]);
            k = k + 1;
        }
        if text.len() > 0 {
            parts.push(Expr::Str(text));
            text = Vec::new();
        }
        let toks = match crate::lexer::lex(inner.as_slice()) {
            Ok(t) => t,
            Err(e) => {
                return Err(ParseError { msg: e.msg, at });
            },
        };
        let mut p = Parser { toks, pos: 0, macros: Vec::new() };
        let e = p.parse_expr(Juxt::Full, fuel - 1)?;
        if p.pos < p.toks.len() {
            return Err(ParseError { msg: lit("malformed `{...}` in a string"), at });
        }
        parts.push(e);
        i = j;
    }
    if text.len() > 0 {
        parts.push(Expr::Str(text));
    }
    Ok(Expr::Interp(parts))
}

/// The tokens of a macro's body with its arguments put in: `%p` becomes the tokens of the
/// argument of parameter `p`, and `%{..p.items}` the tokens inside the braces of that argument.
/// Each argument is a range of `toks`.
pub(crate) fn expand(def: &MacroDef, toks: &Vec<Token>, args: &Vec<(usize, usize)>) -> (r: Vec<Token>) {
    let body = &def.body;
    let mut out: Vec<Token> = Vec::new();
    let mut i: usize = 0;
    while i < body.len()
        invariant
            i <= body@.len(),
        decreases body@.len() - i,
    {
        if code(&body[i].tok) == K_PERCENT && i + 1 < body.len() {
            // `%p`
            let whole = match &body[i + 1].tok {
                Tok::Ident(n) => param_index(&def.params, n.as_slice()),
                _ => None,
            };
            match whole {
                Some(a) => {
                    if a < args.len() {
                        copy_tokens(&mut out, toks, args[a].0, args[a].1, &body[i]);
                    }
                    i = i + 2;
                    continue;
                },
                None => {},
            }
            // `%{..p.items}`
            if body.len() - i > 6 && code(&body[i + 1].tok) == K_L_BRACE && code(&body[i + 2].tok) == K_DOT_DOT
                && code(&body[i + 4].tok) == K_DOT && code(&body[i + 6].tok) == K_R_BRACE {
                let items = match (&body[i + 3].tok, &body[i + 5].tok) {
                    (Tok::Ident(n), Tok::Ident(f)) => {
                        if crate::text::is(f.as_slice(), "items") {
                            param_index(&def.params, n.as_slice())
                        } else {
                            None
                        }
                    },
                    _ => None,
                };
                match items {
                    Some(a) => {
                        if a < args.len() && args[a].0 < args[a].1 {
                            copy_tokens(&mut out, toks, args[a].0 + 1, args[a].1 - 1, &body[i]);
                        }
                        i = i + 7;
                        continue;
                    },
                    None => {},
                }
            }
        }
        out.push(body[i].clone());
        i = i + 1;
    }
    out
}

/// The position of a macro parameter.
fn param_index(params: &Vec<Vec<u8>>, name: &[u8]) -> (r: Option<usize>)
    ensures
        r matches Some(i) ==> i < params@.len() && params@[i as int]@ == name@,
        r matches Some(i) ==> forall|j: int| 0 <= j < i ==> (#[trigger] params@[j])@ != name@,
        r is None ==> forall|j: int| 0 <= j < params@.len() ==> (#[trigger] params@[j])@ != name@,
{
    let mut i: usize = 0;
    while i < params.len()
        invariant
            i <= params@.len(),
            forall|j: int| 0 <= j < i ==> (#[trigger] params@[j])@ != name@,
        decreases params@.len() - i,
    {
        if crate::text::bytes_eq(params[i].as_slice(), name) {
            return Some(i);
        }
        i = i + 1;
    }
    None
}

/// Append `toks[from..to]`; the first of them takes the spacing of the token it replaces.
fn copy_tokens(out: &mut Vec<Token>, toks: &Vec<Token>, from: usize, to: usize, at: &Token)
    ensures
        final(out)@.len() == old(out)@.len() + copied_count(from as int, to as int, toks@.len() as int),
        final(out)@.take(old(out)@.len() as int) == old(out)@,
        forall|i: int|
            0 <= i < copied_count(from as int, to as int, toks@.len() as int) ==> {
                let t = #[trigger] final(out)@[old(out)@.len() + i];
                let s = toks@[from + i];
                &&& t.start == s.start
                &&& t.end == s.end
                &&& t.nl == (if i == 0 {
                    at.nl
                } else {
                    s.nl
                })
                &&& t.sp == (if i == 0 {
                    at.sp
                } else {
                    s.sp
                })
            },
{
    let mut k = from;
    while k < to && k < toks.len()
        invariant
            from <= k,
            k <= to || k == from,
            k <= toks@.len() || k == from,
            k > from ==> k <= to && k <= toks@.len(),
            out@.len() == old(out)@.len() + (k - from),
            out@.take(old(out)@.len() as int) == old(out)@,
            forall|i: int|
                0 <= i < k - from ==> {
                    let t = #[trigger] out@[old(out)@.len() + i];
                    let s = toks@[from + i];
                    &&& t.start == s.start
                    &&& t.end == s.end
                    &&& t.nl == (if i == 0 {
                        at.nl
                    } else {
                        s.nl
                    })
                    &&& t.sp == (if i == 0 {
                        at.sp
                    } else {
                        s.sp
                    })
                },
        decreases to - k,
    {
        let src = &toks[k];
        let first = k == from;
        let t = Token {
            tok: src.tok.clone(),
            start: src.start,
            end: src.end,
            nl: if first {
                at.nl
            } else {
                src.nl
            },
            sp: if first {
                at.sp
            } else {
                src.sp
            },
        };
        let ghost before = out@;
        out.push(t);
        assert(out@.take(old(out)@.len() as int) =~= before.take(old(out)@.len() as int));
        k = k + 1;
    }
}

/// How many tokens `copy_tokens` copies: those from `from` up to `to`, within the list.
pub open spec fn copied_count(from: int, to: int, len: int) -> int {
    let end = if to < len {
        to
    } else {
        len
    };
    if end > from {
        end - from
    } else {
        0
    }
}

/// Parse the tokens of one source into its top-level statements, each with the bytes it spans.
pub(crate) fn parse_spans(toks: Vec<Token>) -> (r: Result<Vec<(Expr, usize, usize)>, ParseError>)
    ensures
        only_semis(toks@, 0) ==> (r matches Ok(v) && v@.len() == 0),
        r matches Ok(v) ==> forall|i: int|
            0 <= i < v@.len() ==> exists|x: int, y: int|
                0 <= x <= y < toks@.len() && (#[trigger] v@[i]).1 == toks@[x].start && v@[i].2 == toks@[y].end,
{
    let ghost given = toks@;
    let mut p = Parser { toks, pos: 0, macros: Vec::new() };
    let mut out: Vec<(Expr, usize, usize)> = Vec::new();
    p.skip_semis();
    proof {
        if only_semis(given, 0) && p.pos < p.toks@.len() {
            assert(crate::lexer::spec_code(given[p.pos as int].tok) == K_SEMI);
        }
    }
    while p.pos < p.toks.len()
        invariant
            p.wf(),
            p.toks@ == given,
            only_semis(given, 0) ==> p.pos == p.toks@.len() && out@.len() == 0,
            forall|i: int|
                0 <= i < out@.len() ==> exists|x: int, y: int|
                    0 <= x <= y < given.len() && (#[trigger] out@[i]).1 == given[x].start && out@[i].2 == given[y].end,
        decreases p.toks@.len() - p.pos,
    {
        let before = p.pos;
        let s = p.parse_stmt(PARSE_FUEL)?;
        if p.pos <= before {
            return Err(p.error("unexpected token"));
        }
        let (a, b) = (p.toks[before].start, p.toks[p.pos - 1].end);
        let ghost prev = out@;
        out.push((s, a, b));
        proof {
            assert forall|i: int| 0 <= i < out@.len() implies exists|x: int, y: int|
                0 <= x <= y < given.len() && (#[trigger] out@[i]).1 == given[x].start && out@[i].2
                    == given[y].end by {
                if i < prev.len() {
                    assert(out@[i] == prev[i]);
                } else {
                    assert(0 <= before <= p.pos - 1 < given.len());
                }
            }
        }
        p.skip_semis();
    }
    Ok(out)
}

/// A pipeline step: a bare name is called with `$`, also under `?`.
fn pipe_step(e: Expr, fuel: u64) -> (r: Expr)
    ensures
        fuel > 0 && e is Ident ==> r is Call && r->Call_name == e->Ident_0 && r->Call_type_args@.len() == 0
            && r->Call_args@.len() == 1 && r->Call_args@[0] is Dollar,
        fuel > 0 && e is Propagate ==> r is Propagate,
        !(e is Ident) && !(e is Propagate) ==> r == e,
    decreases fuel,
{
    if fuel == 0 {
        return e;
    }
    match e {
        Expr::Ident(name) => Expr::Call { name, type_args: Vec::new(), args: vec![Expr::Dollar] },
        Expr::Propagate(inner) => Expr::Propagate(Box::new(pipe_step(*inner, fuel - 1))),
        other => other,
    }
}

/// The recursion budget for one source.
pub const PARSE_FUEL: u64 = 100000;

/// Whether every token from `from` on is a `;`.
pub open spec fn only_semis(toks: Seq<Token>, from: int) -> bool {
    forall|q: int| from <= q < toks.len() ==> crate::lexer::spec_code(#[trigger] toks[q].tok) == K_SEMI
}

/// Parse the tokens of one source into its top-level statements and items.
pub fn parser(toks: Vec<Token>) -> (r: Result<Vec<Expr>, ParseError>)
    ensures
        only_semis(toks@, 0) ==> (r matches Ok(v) && v@.len() == 0),
        simple_run(toks@, 0) && 3 * toks@.len() + 10 <= PARSE_FUEL ==> (r matches Ok(v) && v@ == seq![
            spec_simple_expr(toks@, 0),
        ]),
{
    let mut p = Parser { toks, pos: 0, macros: Vec::new() };
    p.parse_all(PARSE_FUEL)
}

} // verus!
