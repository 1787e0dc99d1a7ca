#![verifier::loop_isolation(false)]

//! Lowering of expressions, statements and control flow to instructions.
use vstd::prelude::*;
use vstd::string::StringSliceAdditionalSpecFns;

use crate::ast::{Access, BinOp, Expr, MatchArm, TypeExpr};
use crate::ir::{Instr, NumKind, Op, Val};
use crate::text::{is, lit, push_all, push_str};
use crate::translator::{Defer, Diagnostic, Local, LoopFrame, Translator, diag, diag3, num_kind};
use crate::types::{FieldDef, Typ, copy_all, typ_eq};

verus! {

/// The kind of a 64-bit signed integer.
pub open spec fn spec_int64() -> NumKind {
    NumKind { width: 64, signed: true }
}

/// The kind of a 64-bit signed integer.
pub fn int64() -> (k: NumKind)
    ensures
        k == spec_int64(),
{
    NumKind { width: 64, signed: true }
}

/// Whether a type never produces a value.
pub fn is_never(t: &Typ) -> (r: bool)
    ensures
        r == (*t is Never),
{
    matches!(t, Typ::Never)
}

/// Whether a type is the unit type.
pub fn is_unit_type(t: &Typ) -> (r: bool)
    ensures
        r == t.is_unit(),
{
    match t {
        Typ::Tuple(ts) => ts.len() == 0,
        _ => false,
    }
}

/// A message made of a text, a type's text, a text, a type's text.
pub(crate) fn diag4(a: &str, b: &[u8], c: &str, d: &[u8]) -> (r: Diagnostic)
    ensures
        r.msg@ == a.spec_bytes() + b@ + c.spec_bytes() + d@,
{
    let mut msg = lit(a);
    push_all(&mut msg, b);
    push_str(&mut msg, c);
    push_all(&mut msg, d);
    Diagnostic { msg }
}

/// Whether an operator computes an integer from two integers.
pub open spec fn arith_op(op: BinOp) -> bool {
    op == BinOp::Add || op == BinOp::Sub || op == BinOp::Mul || op == BinOp::Div || op == BinOp::Mod || op
        == BinOp::Pow || op == BinOp::BitAnd || op == BinOp::BitOr || op == BinOp::BitXor || op == BinOp::Shl
        || op == BinOp::Shr
}

/// Whether an expression is a definition, which only the top level holds.
pub open spec fn defines(e: Expr) -> bool {
    ||| e is Fn
    ||| e is StructDef
    ||| e is TupleStructDef
    ||| e is EnumDef
    ||| e is TraitDef
    ||| e is Claim
    ||| e is TypeAlias
    ||| e is MacroDef
    ||| e is Module
    ||| e is Use
    ||| e is Pub
    ||| e is TestDef
}

/// Whether `code` is the lowering of `lb || rb` (`or`) or `lb && rb` on boolean constants: the
/// left constant into slot `a`, then a branch on it that either stores the short-circuit value
/// into `out` or stores the right constant into slot `b` and copies it into `out`.
pub open spec fn bool_op_code(code: Seq<Instr>, a: usize, out: usize, b: usize, lb: bool, rb: bool, or: bool) -> bool {
    let rhs = seq![Instr::Store(b, Op::Const(Val::Bool(rb))), Instr::Store(out, Op::Copy(b))];
    &&& code.len() == 2
    &&& code[0] == Instr::Store(a, Op::Const(Val::Bool(lb)))
    &&& code[1] matches Instr::If(c, th, el)
    &&& c == a
    &&& or ==> th@ == seq![Instr::Store(out, Op::Const(Val::Bool(true)))] && el@ == rhs
    &&& !or ==> th@ == rhs && el@ == seq![Instr::Store(out, Op::Const(Val::Bool(false)))]
}

/// `lb || rb` and `lb && rb` on boolean constants compute the disjunction and the conjunction:
/// run step by step on the machine from any frame that holds their slots, the lowered code
/// leaves `lb || rb` (or `lb && rb`) in the result slot.
pub proof fn lemma_bool_op_value(code: Seq<Instr>, a: usize, out: usize, b: usize, lb: bool, rb: bool, or: bool, f: Seq<Val>)
    requires
        bool_op_code(code, a, out, b, lb, rb, or),
        a < f.len(),
        out < f.len(),
        b < f.len(),
        a != out,
        a != b,
        out != b,
    ensures
        crate::machine::bool_run_ok(code, f),
        crate::machine::bool_run(code, f)[out as int] == Val::Bool(if or {
            lb || rb
        } else {
            lb && rb
        }),
{
    let rhs = seq![Instr::Store(b, Op::Const(Val::Bool(rb))), Instr::Store(out, Op::Copy(b))];
    let g = f.update(a as int, Val::Bool(lb));
    assert(code.subrange(0, 1).subrange(0, 0) =~= Seq::<Instr>::empty());
    assert(crate::machine::bool_run(Seq::<Instr>::empty(), f) == f);
    assert(crate::machine::bool_run_ok(Seq::<Instr>::empty(), f));
    assert(code.subrange(0, 1) =~= seq![Instr::Store(a, Op::Const(Val::Bool(lb)))]);
    crate::machine::lemma_bool_single_store(a, lb, f);
    assert(crate::machine::bool_run(code.subrange(0, 1), f) == g);
    assert(crate::machine::bool_run_ok(code.subrange(0, 1), f));
    // the right operand's block
    let h = g.update(b as int, Val::Bool(rb));
    crate::machine::lemma_bool_single_store(b, rb, g);
    assert(rhs.subrange(0, 1) =~= seq![Instr::Store(b, Op::Const(Val::Bool(rb)))]);
    assert(crate::machine::bool_run(rhs.subrange(0, 1), g) == h);
    assert(crate::machine::bool_step_ok(rhs[1], h));
    assert(crate::machine::bool_run_ok(rhs, g));
    assert(h[b as int] == Val::Bool(rb));
    assert(crate::machine::bool_run(rhs, g) == crate::machine::bool_step(rhs[1], h));
    assert(crate::machine::bool_run(rhs, g) == h.update(out as int, Val::Bool(rb)));
    crate::machine::lemma_bool_single_store(out, or, g);
    let c = code[1];
    assert(g[a as int] == Val::Bool(lb));
    if or {
        if lb {
            assert(crate::machine::bool_step(c, g) == crate::machine::bool_run(c->If_1@, g));
        } else {
            assert(crate::machine::bool_step(c, g) == crate::machine::bool_run(c->If_2@, g));
        }
    } else {
        if lb {
            assert(crate::machine::bool_step(c, g) == crate::machine::bool_run(c->If_1@, g));
        } else {
            assert(crate::machine::bool_step(c, g) == crate::machine::bool_run(c->If_2@, g));
        }
    }
    assert(crate::machine::bool_step_ok(c, g));
    assert(crate::machine::bool_run(code, f) == crate::machine::bool_step(c, g));
}

/// `a || b` and `a && b` short-circuit: the branch that the lowered code of `a || b` takes when
/// the left operand holds `true` stores `true` into the result without running the right
/// operand's code, and that of `a && b` stores `false` when the left operand holds `false`;
/// otherwise the right operand's code runs and its value is stored (see `binary`).
pub proof fn lemma_short_circuit(ins: Instr, s: usize, f: Seq<Val>, or: bool)
    requires
        ins matches Instr::If(c, th, el) && c < f.len() && f[c as int] == Val::Bool(or) && s < f.len() && (if or {
            th@ == seq![Instr::Store(s, Op::Const(Val::Bool(true)))]
        } else {
            el@ == seq![Instr::Store(s, Op::Const(Val::Bool(false)))]
        }),
    ensures
        crate::machine::bool_step_ok(ins, f),
        crate::machine::bool_step(ins, f) == f.update(s as int, Val::Bool(or)),
{
    crate::machine::lemma_bool_single_store(s, or, f);
    let c = ins->If_0;
    if or {
        assert(crate::machine::bool_step(ins, f) == crate::machine::bool_run(ins->If_1@, f));
    } else {
        assert(crate::machine::bool_step(ins, f) == crate::machine::bool_run(ins->If_2@, f));
    }
}

/// A name has one innermost binding.
pub proof fn lemma_innermost_unique<'a>(tr: Translator<'a>, name: Seq<u8>, i: int, j: int)
    requires
        tr.innermost(name, i),
        tr.innermost(name, j),
    ensures
        i == j,
{
}

/// The integer kind of an integer type.
pub open spec fn kind_of(t: Typ) -> NumKind {
    match t {
        Typ::UInt(w) => NumKind { width: w, signed: false },
        Typ::Int(w) => NumKind { width: w, signed: true },
        _ => NumKind { width: 64, signed: true },
    }
}

/// Whether an operator is one of `+`, `-` and `*`.
pub open spec fn ring_op(op: BinOp) -> bool {
    op == BinOp::Add || op == BinOp::Sub || op == BinOp::Mul
}

/// The code for `a op b` on two integer literals from slot `n` on: each literal in a fresh slot,
/// left first, then the operation on them.
pub open spec fn literal_op_code(n: usize, op: BinOp, a: i64, b: i64) -> Seq<Instr> {
    seq![
        Instr::Store(n, Op::Const(Val::Int(a))),
        Instr::Store((n + 1) as usize, Op::Const(Val::Int(b))),
        Instr::Store((n + 2) as usize, Op::Arith(op, n, (n + 1) as usize, NumKind { width: 64, signed: true })),
    ]
}

/// The slot `k` places after slot `n`.
pub open spec fn slot_after(n: usize, k: int) -> usize {
    (n + k) as usize
}

/// The instructions a block gained after `before`.
pub open spec fn appended(now: Seq<Instr>, before: Seq<Instr>) -> Seq<Instr> {
    now.skip(before.len() as int)
}

/// Whether a block only gained instructions after `before`.
pub open spec fn grew_from(now: Seq<Instr>, before: Seq<Instr>) -> bool {
    now.len() >= before.len() && now.take(before.len() as int) == before
}

/// A block extended by some instructions grew from itself, and gained exactly those.
pub proof fn lemma_grew(before: Seq<Instr>, extra: Seq<Instr>)
    ensures
        grew_from(before + extra, before),
        appended(before + extra, before) == extra,
{
    assert((before + extra).take(before.len() as int) =~= before);
    assert((before + extra).skip(before.len() as int) =~= extra);
}

/// What lowering `a op b` on two integer literals keeps: the bindings, the scopes, the defers,
/// the tables.
pub open spec fn lowering_frame<'a>(before: Translator<'a>, after: Translator<'a>) -> bool {
    &&& after.vars == before.vars
    &&& after.scopes == before.scopes
    &&& after.defers == before.defers
    &&& after.funcs == before.funcs
    &&& after.sigs == before.sigs
    &&& after.pending == before.pending
}

/// How many instructions lowering an `int_leaf` operand emits.
pub open spec fn leaf_len(e: Expr) -> int {
    if e is Int {
        1
    } else {
        0
    }
}

/// The first fresh slot after lowering an `int_leaf` operand from `n`.
pub open spec fn next_fresh(n: usize, e: Expr) -> usize {
    (n + leaf_len(e)) as usize
}

/// The operation a binary operator computes on two 64-bit integer slots, left operand first.
pub open spec fn leaf_op(op: BinOp, a: usize, b: usize) -> Op {
    if cmp_op(op) {
        Op::Cmp(op, a, b, NumKind { width: 64, signed: true })
    } else {
        Op::Arith(op, a, b, NumKind { width: 64, signed: true })
    }
}

/// Whether an operator compares two values, giving a `bool`.
pub open spec fn cmp_op(op: BinOp) -> bool {
    op == BinOp::Eq || op == BinOp::Ne || op == BinOp::Lt || op == BinOp::Gt || op == BinOp::Le || op == BinOp::Ge
}

/// Whether an expression is integer literals joined by integer operators, negations and
/// bitwise complements.
pub open spec fn arith_tree(e: Expr) -> bool
    decreases e,
{
    match e {
        Expr::Int(_) => true,
        Expr::Negative(x) => arith_tree(*x),
        Expr::Not(x) => arith_tree(*x),
        Expr::Binary(op, l, r) => arith_op(op) && arith_tree(*l) && arith_tree(*r),
        _ => false,
    }
}

/// How deeply operations nest in an expression.
pub open spec fn tree_depth(e: Expr) -> nat
    decreases e,
{
    match e {
        Expr::Binary(_, l, r) => {
            let a = tree_depth(*l);
            let b = tree_depth(*r);
            1 + if a > b {
                a
            } else {
                b
            }
        },
        Expr::Negative(x) => 1 + tree_depth(*x),
        Expr::Not(x) => 1 + tree_depth(*x),
        _ => 0,
    }
}

/// Whether a hint leaves an integer expression a 64-bit integer: no hint, or that type.
pub open spec fn int64_hint(hint: Option<&Typ>) -> bool {
    match hint {
        Some(t) => *t == Typ::Int(64),
        None => true,
    }
}

impl<'a> Translator<'a> {
    /// Whether the `i`th binding is the innermost one of a name.
    pub open spec fn innermost(&self, name: Seq<u8>, i: int) -> bool {
        &&& 0 <= i < self.vars@.len()
        &&& self.vars@[i].0@ == name
        &&& forall|j: int| i < j < self.vars@.len() ==> self.vars@[j].0@ != name
    }

    /// Whether an operand is an integer literal or a name whose innermost binding is a 64-bit
    /// integer.
    pub open spec fn int_leaf(&self, e: Expr) -> bool {
        ||| e is Int
        ||| (e matches Expr::Ident(n) && exists|i: int| #[trigger] self.innermost(n@, i) && self.vars@[i].1.typ == Typ::Int(64))
    }

    /// The slot an `int_leaf` operand's value is in: a fresh slot for a literal, else its
    /// binding's slot.
    pub open spec fn leaf_slot(&self, e: Expr, fresh: usize) -> usize {
        match e {
            Expr::Ident(n) => self.vars@[choose|i: int| #[trigger] self.innermost(n@, i)].1.slot,
            _ => fresh,
        }
    }

    /// Whether no binding, static or function has a name.
    pub open spec fn unbound(&self, name: Seq<u8>) -> bool {
        &&& forall|i: int| 0 <= i < self.vars@.len() ==> self.vars@[i].0@ != name
        &&& forall|i: int| 0 <= i < self.statics@.len() ==> self.statics@[i].0@ != name
        &&& forall|i: int| 0 <= i < self.sigs@.len() ==> self.sigs@[i].name@ != name
    }

    // ------------------------------------------------------------ slots
    /// A fresh slot holding a copy of a slot's value.
    pub(crate) fn copy_slot(&mut self, s: usize) -> (r: usize)
        ensures
            r == old(self).nslots,
            final(self).code@ == old(self).code@.push(Instr::Store(r, Op::Copy(s))),
            final(self).scopes == old(self).scopes,
            final(self).vars == old(self).vars,
            final(self).temps == old(self).temps,
    {
        self.op(Op::Copy(s))
    }

    /// Whether a binding holds the slot.
    pub(crate) fn slot_is_bound(&self, s: usize) -> (r: bool)
        ensures
            r == exists|i: int| 0 <= i < self.vars@.len() && (#[trigger] self.vars@[i]).1.slot == s,
    {
        let mut i: usize = 0;
        while i < self.vars.len()
            invariant
                i <= self.vars@.len(),
                forall|j: int| 0 <= j < i ==> (#[trigger] self.vars@[j]).1.slot != s,
            decreases self.vars@.len() - i,
        {
            if self.vars[i].1.slot == s {
                return true;
            }
            i = i + 1;
        }
        false
    }

    /// Whether the slot holds a value that no binding owns yet.
    pub(crate) fn is_temp(&self, s: usize) -> (r: bool)
        ensures
            r == self.temps@.contains(s),
    {
        crate::rc::vec_has(&self.temps, s)
    }

    /// An integer constant.
    pub fn int_const(&mut self, n: i64) -> (r: usize)
        ensures
            final(self).pending == old(self).pending,
            final(self).defers == old(self).defers,
            final(self).funcs == old(self).funcs,
            final(self).sigs == old(self).sigs,
            final(self).nslots == r + 1 || r == usize::MAX,
            final(self).vars == old(self).vars,
            final(self).scopes == old(self).scopes,
            final(self).temps == old(self).temps,
            r == old(self).nslots,
            final(self).code@ == old(self).code@.push(Instr::Store(r, Op::Const(Val::Int(n)))),
    {
        self.constant(Val::Int(n))
    }

    /// A boolean constant.
    pub fn bool_const(&mut self, b: bool) -> (r: usize)
        ensures
            r == old(self).nslots,
            final(self).nslots == r + 1 || r == usize::MAX,
            final(self).code@ == old(self).code@.push(Instr::Store(r, Op::Const(Val::Bool(b)))),
    {
        self.constant(Val::Bool(b))
    }

    // ------------------------------------------------------------ expressions
    /// Lower an expression, giving its slot and type.
    pub fn expr(&mut self, e: &'a Expr, fuel: u64) -> (r: Result<(usize, Typ), Diagnostic>)
        ensures
            fuel > 0 && e is Int ==> (r matches Ok((s, t)) && t == Typ::Int(64) && s == old(self).nslots
                && final(self).code@ == old(self).code@.push(Instr::Store(s, Op::Const(Val::Int(e->Int_0))))),
            fuel > 0 && e is Bool ==> (r matches Ok((s, _)) && (final(self).nslots == s + 1 || s == usize::MAX)),
            fuel > 0 && e is Bool ==> (r matches Ok((s, t)) && t == Typ::Bool && s == old(self).nslots
                && final(self).code@ == old(self).code@.push(Instr::Store(s, Op::Const(Val::Bool(e->Bool_0))))),
            fuel > 0 && e is Str ==> (r matches Ok((s, t)) && t == Typ::Str && s == old(self).nslots
                && final(self).code@.drop_last() == old(self).code@ && final(self).code@.len() == old(self).code@.len() + 1
                && (final(self).code@.last() matches Instr::Store(d, Op::Const(Val::Str(b))) && d == s && b@ == e->Str_0@)),
            fuel > 0 ==> (e matches Expr::Ident(n) ==> forall|i: int|
                old(self).innermost(n@, i) ==> (r matches Ok((s, t)) && s == old(self).vars@[i].1.slot && typ_eq(old(self).vars@[i].1.typ, t)
                    && *final(self) == *old(self))),
            fuel > 0 ==> (e matches Expr::Ident(n) ==> (old(self).unbound(n@) ==> r is Err)),
            arith_tree(*e) && fuel >= 3 * tree_depth(*e) + 2 ==> (r matches Ok((_, t)) && t == Typ::Int(64)),
            *e matches Expr::Binary(op, l, x) ==> (cmp_op(op) && arith_tree(*l) && arith_tree(*x)
                && fuel >= 3 * tree_depth(*e) + 2 ==> (r matches Ok((_, t)) && t == Typ::Bool)),
            fuel > 0 && defines(*e) ==> (r matches Err(d) && d.msg@ == "definitions are only allowed at the top level".spec_bytes()),
            fuel > 0 && (e is Break || e is Continue) ==> (r matches Err(d) && d.msg@ == "`break` and `continue` never produce a value".spec_bytes()),
            fuel > 0 && e is Defer ==> (r matches Err(d) && d.msg@ == "`defer` is only allowed as a statement".spec_bytes()),
            fuel > 0 && e is ArgMod ==> r is Err,
            fuel > 0 && e is Atom ==> (r matches Ok((s, t)) && t == Typ::Atom && s == old(self).nslots),
            fuel > 0 && e is Dollar ==> (old(self).dollar is None ==> (r matches Err(d) && d.msg@ == "`$` has no value here".spec_bytes())),
            fuel > 0 && e is Dollar ==> (old(self).dollar matches Some((s0, t0)) ==> (r matches Ok((s, t)) && s == s0 && typ_eq(t0, t)
                && final(self).code == old(self).code)),
            fuel > 1 ==> (*e matches Expr::Assign { name, op, value } ==> forall|i: int| #[trigger] old(self).innermost(name@, i) ==> (
            r matches Ok((s, _)) ==> s == old(self).vars@[i].1.slot)),
            fuel > 1 ==> (*e matches Expr::Assign { name, op, value } ==> forall|i: int| #[trigger] old(self).innermost(name@, i) ==> (
            op matches Some(o) ==> (arith_op(o) && old(self).vars@[i].1.typ == Typ::Int(64) && old(self).vars@[i].1.mutable
                && arith_tree(*value) && fuel >= 3 * tree_depth(*value) + 5 ==> (r matches Ok((s, t)) && t == Typ::Int(64)
                && s == old(self).vars@[i].1.slot)))),
            *e matches Expr::Binary(op, l, x) ==> ((arith_op(op) || cmp_op(op)) && old(self).int_leaf(*l) && old(self).int_leaf(*x)
                && fuel >= 3 && old(self).nslots + 3 < usize::MAX ==> (r matches Ok((s, _))
                && final(self).code@.last() == Instr::Store(s, leaf_op(op, old(self).leaf_slot(*l, old(self).nslots), old(self).leaf_slot(
                *x,
                next_fresh(old(self).nslots, *l),
            ))))),
            *e matches Expr::Not(x) ==> (fuel > 1 ==> (*x matches Expr::Ident(n) ==> forall|i: int| #[trigger] old(self).innermost(n@, i) ==> (
            old(self).vars@[i].1.typ is Int || old(self).vars@[i].1.typ is UInt ==> (r matches Ok((s, t)) && t == old(self).vars@[i].1.typ
                && final(self).code@ == old(self).code@.push(Instr::Store(s, Op::BitNot(old(self).vars@[i].1.slot, kind_of(t)))))))),
            *e matches Expr::Binary(op, l, x) ==> (op == BinOp::Shl && fuel > 1 ==> (*l matches Expr::Ident(n) ==> forall|i: int|
                #[trigger] old(self).innermost(n@, i) ==> (old(self).vars@[i].1.typ is Array ==> (r matches Ok((s, t)) ==> (s == old(
                self,
            ).vars@[i].1.slot && (t is Array) && (final(self).code@.last() matches Instr::Push(a, _) && a == s)))))),
        decreases fuel, 2int,
    {
        self.lower(e, None, fuel)
    }

    /// Lower an expression, using the expected type to settle literals and shorthands.
    pub(crate) fn lower(&mut self, e: &'a Expr, hint: Option<&Typ>, fuel: u64) -> (r: Result<
        (usize, Typ),
        Diagnostic,
    >)
        ensures
            fuel > 0 && int64_hint(hint) && e is Int ==> (r matches Ok((s, t)) && t == Typ::Int(64) && s == old(self).nslots && final(self).code@ == old(self).code@.push(
                Instr::Store(s, Op::Const(Val::Int(e->Int_0))),
            ) && final(self).vars == old(self).vars && (final(self).nslots == s + 1 || s == usize::MAX) && final(self).scopes
                == old(self).scopes && final(self).defers == old(self).defers && final(self).funcs == old(self).funcs
                && final(self).sigs == old(self).sigs && final(self).pending == old(self).pending),
            fuel > 0 && e is Bool ==> (r matches Ok((s, _)) && (final(self).nslots == s + 1 || s == usize::MAX)),
            fuel > 0 && e is Bool ==> (r matches Ok((s, t)) && t == Typ::Bool && s == old(self).nslots
                && final(self).code@ == old(self).code@.push(Instr::Store(s, Op::Const(Val::Bool(e->Bool_0))))),
            fuel > 0 && e is Str ==> (r matches Ok((s, t)) && t == Typ::Str && s == old(self).nslots
                && final(self).code@.drop_last() == old(self).code@ && final(self).code@.len() == old(self).code@.len() + 1
                && (final(self).code@.last() matches Instr::Store(d, Op::Const(Val::Str(b))) && d == s && b@ == e->Str_0@)),
            fuel > 0 ==> (e matches Expr::Ident(n) ==> forall|i: int|
                old(self).innermost(n@, i) ==> (r matches Ok((s, t)) && s == old(self).vars@[i].1.slot && typ_eq(old(self).vars@[i].1.typ, t)
                    && *final(self) == *old(self))),
            fuel > 0 ==> (e matches Expr::Ident(n) ==> (old(self).unbound(n@) ==> r is Err)),
            arith_tree(*e) && int64_hint(hint) && fuel >= 3 * tree_depth(*e) + 2 ==> (r matches Ok((_, t)) && t == Typ::Int(64)),
            *e matches Expr::Not(x) ==> (arith_tree(*e) && int64_hint(hint) && fuel >= 3 * tree_depth(*e) + 2 ==> (r matches Ok((v, _)) && final(self).code@.last() matches Instr::Store(
                d,
                Op::BitNot(_, k),
            ) && d == v && k == (NumKind { width: 64, signed: true }))),
            *e matches Expr::Negative(x) ==> (arith_tree(*e) && int64_hint(hint) && fuel >= 3 * tree_depth(*e) + 2 ==> (r matches Ok((v, _)) && final(self).code@.last() matches Instr::Store(
                d,
                Op::Neg(_, k),
            ) && d == v && k == (NumKind { width: 64, signed: true }))),
            *e matches Expr::Binary(op, l, x) ==> (cmp_op(op) && arith_tree(*l) && arith_tree(*x) && int64_hint(hint)
                && fuel >= 3 * tree_depth(*e) + 2 ==> (r matches Ok((_, t)) && t == Typ::Bool)),
            fuel > 0 && defines(*e) ==> (r matches Err(d) && d.msg@ == "definitions are only allowed at the top level".spec_bytes()),
            fuel > 0 && (e is Break || e is Continue) ==> (r matches Err(d) && d.msg@ == "`break` and `continue` never produce a value".spec_bytes()),
            fuel > 0 && e is Defer ==> (r matches Err(d) && d.msg@ == "`defer` is only allowed as a statement".spec_bytes()),
            fuel > 0 && e is ArgMod ==> r is Err,
            fuel > 0 && e is Atom ==> (r matches Ok((s, t)) && t == Typ::Atom && s == old(self).nslots),
            fuel > 0 && e is Dollar ==> (old(self).dollar is None ==> (r matches Err(d) && d.msg@ == "`$` has no value here".spec_bytes())),
            fuel > 0 && e is Dollar ==> (old(self).dollar matches Some((s0, t0)) ==> (r matches Ok((s, t)) && s == s0 && typ_eq(t0, t)
                && final(self).code == old(self).code)),
            fuel > 1 ==> (*e matches Expr::Assign { name, op, value } ==> forall|i: int| #[trigger] old(self).innermost(name@, i) ==> (
            r matches Ok((s, _)) ==> s == old(self).vars@[i].1.slot)),
            fuel > 1 ==> (*e matches Expr::Assign { name, op, value } ==> forall|i: int| #[trigger] old(self).innermost(name@, i) ==> (
            op matches Some(o) ==> (arith_op(o) && old(self).vars@[i].1.typ == Typ::Int(64) && old(self).vars@[i].1.mutable
                && arith_tree(*value) && fuel >= 3 * tree_depth(*value) + 5 ==> (r matches Ok((s, t)) && t == Typ::Int(64)
                && s == old(self).vars@[i].1.slot)))),
            *e matches Expr::Binary(op, l, x) ==> ((arith_op(op) || cmp_op(op)) && old(self).int_leaf(*l) && old(self).int_leaf(*x)
                && int64_hint(hint) && fuel >= 3 && old(self).nslots + 3 < usize::MAX ==> (r matches Ok((s, _))
                && final(self).code@.last() == Instr::Store(s, leaf_op(op, old(self).leaf_slot(*l, old(self).nslots), old(self).leaf_slot(
                *x,
                next_fresh(old(self).nslots, *l),
            ))))),
            *e matches Expr::Not(x) ==> (fuel > 1 ==> (*x matches Expr::Ident(n) ==> forall|i: int| #[trigger] old(self).innermost(n@, i) ==> (
            old(self).vars@[i].1.typ is Int || old(self).vars@[i].1.typ is UInt ==> (r matches Ok((s, t)) && t == old(self).vars@[i].1.typ
                && final(self).code@ == old(self).code@.push(Instr::Store(s, Op::BitNot(old(self).vars@[i].1.slot, kind_of(t)))))))),
            *e matches Expr::Binary(op, l, x) ==> (op == BinOp::Shl && fuel > 1 ==> (*l matches Expr::Ident(n) ==> forall|i: int|
                #[trigger] old(self).innermost(n@, i) ==> (old(self).vars@[i].1.typ is Array ==> (r matches Ok((s, t)) ==> (s == old(
                self,
            ).vars@[i].1.slot && (t is Array) && (final(self).code@.last() matches Instr::Push(a, _) && a == s)))))),
            *e matches Expr::Binary(op, l, x) ==> (ring_op(op) && *l is Int && *x is Int && hint is None && fuel >= 3 && old(self).nslots
                + 3 < usize::MAX ==> r == Ok::<(usize, Typ), Diagnostic>((slot_after(old(self).nslots, 2), Typ::Int(64)))
                && final(self).code@ == old(self).code@ + literal_op_code(old(self).nslots, op, l->Int_0, x->Int_0) && lowering_frame(
                *old(self),
                *final(self),
            ) && final(self).nslots == old(self).nslots + 3),
        decreases fuel, 1int,
    {
        if fuel == 0 {
            return Err(diag("expression nests too deeply"));
        }
        match e {
            Expr::Int(n) => {
                match hint {
                    Some(t) => {
                        if t.is_int() {
                            let k = num_kind(t);
                            let v = crate::machine::narrow(*n, k);
                            return Ok((self.int_const(v), t.copy()));
                        }
                        if let Typ::Float(w) = t {
                            let mut text = crate::text::fmt_i64(*n);
                            push_str(&mut text, ".0");
                            return Ok((self.constant(Val::Str(text)), Typ::Float(*w)));
                        }
                    },
                    None => {},
                }
                Ok((self.int_const(*n), Typ::Int(64)))
            },
            Expr::Float(f) => Ok((self.constant(Val::Str(f.clone())), Typ::Float(64))),
            Expr::Str(s) => Ok((self.constant(Val::Str(s.clone())), Typ::Str)),
            Expr::Bool(b) => Ok((self.bool_const(*b), Typ::Bool)),
            Expr::Atom(a) => Ok((self.constant(Val::Str(a.clone())), Typ::Atom)),
            Expr::Dollar => match &self.dollar {
                Some((s, t)) => Ok((*s, t.copy())),
                None => Err(diag("`$` has no value here")),
            },
            Expr::Ident(n) => self.ident(n.as_slice(), fuel - 1),
            Expr::Negative(inner) => {
                let (v, t) = self.lower(&**inner, hint, fuel - 1)?;
                if t.is_int() {
                    let k = num_kind(&t);
                    return Ok((self.op(Op::Neg(v, k)), t));
                }
                if let Typ::Struct(n, _) = &t {
                    let name = n.clone();
                    return self.operator_call(name.as_slice(), "neg", v, t, None, fuel - 1);
                }
                let shown = self.show(&t);
                Err(diag3("cannot negate ", shown.as_slice(), ""))
            },
            Expr::Not(inner) => {
                let (v, t) = self.lower(&**inner, hint, fuel - 1)?;
                match &t {
                    Typ::Bool => Ok((self.op(Op::Not(v)), t)),
                    Typ::Struct(n, _) => {
                        let name = n.clone();
                        self.operator_call(name.as_slice(), "not", v, t, None, fuel - 1)
                    },
                    _ => {
                        if t.is_int() {
                            let k = num_kind(&t);
                            Ok((self.op(Op::BitNot(v, k)), t))
                        } else {
                            let shown = self.show(&t);
                            Err(diag3("expected Bool or an integer, got ", shown.as_slice(), ""))
                        }
                    },
                }
            },
            Expr::Binary(op, l, r) => self.binary(*op, &**l, &**r, hint, fuel - 1),
            Expr::Call { name, type_args, args } => self.call(name.as_slice(), type_args, args, hint, fuel - 1),
            Expr::MethodCall { recv, method, args } => self.method_call(
                &**recv,
                method.as_slice(),
                args,
                hint,
                fuel - 1,
            ),
            Expr::Apply { callee, args } => {
                let (f, t) = self.expr(&**callee, fuel - 1)?;
                self.call_value(f, t, args, fuel - 1)
            },
            Expr::Field { obj, field } => self.field(&**obj, field.as_slice(), fuel - 1),
            Expr::Index { coll, index } => {
                let (c, ct) = self.expr(&**coll, fuel - 1)?;
                if let Typ::Dict(kt, vt) = &ct {
                    let k = self.dict_key(&**index, &**kt, fuel - 1)?;
                    return Ok((self.op(Op::DictGet(c, k)), (**vt).copy()));
                }
                let (i, it) = self.expr(&**index, fuel - 1)?;
                if let Typ::Range = it {
                    return self.slice_value(c, ct, i);
                }
                if !it.is_int() {
                    let shown = self.show(&it);
                    return Err(diag3("index must be Int, got ", shown.as_slice(), ""));
                }
                match ct {
                    Typ::Array(et) => Ok((self.op(Op::Index(c, i)), *et)),
                    Typ::Str => Ok((self.op(Op::Index(c, i)), Typ::UInt(8))),
                    other => {
                        let shown = self.show(&other);
                        Err(diag3("cannot index ", shown.as_slice(), ""))
                    },
                }
            },
            Expr::Slice { coll, range } => {
                let (c, ct) = self.expr(&**coll, fuel - 1)?;
                let r = match range {
                    Some(rg) => {
                        let (rs, rt) = self.expr(&**rg, fuel - 1)?;
                        match rt {
                            Typ::Range => rs,
                            _ => {
                                return Err(diag("a slice needs a range"));
                            },
                        }
                    },
                    None => {
                        let z = self.int_const(0);
                        self.op(Op::MakeRange(z, None, 1))
                    },
                };
                self.slice_value(c, ct, r)
            },
            Expr::Tuple(elems) => {
                if elems.len() == 0 {
                    return Ok(self.unit_value());
                }
                let mut slots: Vec<usize> = Vec::new();
                let mut types: Vec<Typ> = Vec::new();
                let mut i: usize = 0;
                while i < elems.len()
                    invariant
                        i <= elems@.len(),
                    decreases elems@.len() - i,
                {
                    let h = match hint {
                        Some(Typ::Tuple(ts)) => if i < ts.len() {
                            Some(&ts[i])
                        } else {
                            None
                        },
                        _ => None,
                    };
                    let (v, t) = self.lower(&elems[i].1, h, fuel - 1)?;
                    let v = self.take_value(&elems[i].1, v, &t, fuel - 1)?;
                    slots.push(v);
                    types.push(t);
                    i = i + 1;
                }
                let out = self.op(Op::Tuple(slots));
                let t = Typ::Tuple(types);
                self.temp(out, t.copy());
                Ok((out, t))
            },
            Expr::Array(elems) => {
                if elems.len() == 0 {
                    if let Some(Typ::Dict(k, v)) = hint {
                        let t = Typ::Dict(Box::new((**k).copy()), Box::new((**v).copy()));
                        let m = self.op(Op::Dict(Vec::new(), Vec::new()));
                        self.temp(m, t.copy());
                        return Ok((m, t));
                    }
                }
                self.array_lit(elems, hint, fuel - 1)
            },
            Expr::Dict(entries) => self.dict_lit(entries, hint, fuel - 1),
            Expr::Interp(parts) => self.interp(parts, fuel - 1),
            Expr::StructLit { name, type_args, fields } => self.struct_lit(
                name.as_slice(),
                type_args,
                fields,
                hint,
                fuel - 1,
            ),
            Expr::EnumShorthand { variant, args } => match hint {
                Some(t) => {
                    let t = t.copy();
                    self.construct_variant(t, variant.as_slice(), Some(args), fuel - 1)
                },
                None => Err(diag3("cannot infer the enum type of `.", variant.as_slice(), "` here")),
            },
            Expr::Cast { target, args } => self.cast(target, args, fuel - 1),
            Expr::If { .. } | Expr::Loop { .. } | Expr::Match { .. } | Expr::For { .. } => {
                match self.control(e, hint, fuel - 1)? {
                    Some(v) => Ok(v),
                    None => Err(diag("this expression never produces a value")),
                }
            },
            Expr::Block(body) => match hint {
                Some(Typ::Fn(ps, r)) => {
                    let ps = copy_all(ps);
                    let r = (**r).copy();
                    self.anon_fn(e, ps, r)
                },
                _ => match self.scoped(body, hint, fuel - 1)? {
                    Some(v) => Ok(v),
                    None => Err(diag("this block never produces a value")),
                },
            },
            Expr::AnonFn { params, ret, .. } => {
                let mut ps: Vec<Typ> = Vec::new();
                let mut i: usize = 0;
                while i < params.len()
                    invariant
                        i <= params@.len(),
                    decreases params@.len() - i,
                {
                    match &params[i].typ {
                        Some(te) => {
                            let t = self.resolve(te, 64)?;
                            ps.push(t);
                        },
                        None => {
                            return Err(diag("anonymous function parameters need types"));
                        },
                    }
                    i = i + 1;
                }
                let r = match ret {
                    Some(te) => self.resolve(te, 64)?,
                    None => match hint {
                        Some(Typ::Fn(_, r)) => (**r).copy(),
                        _ => {
                            return Err(diag("anonymous functions need an explicit return type"));
                        },
                    },
                };
                self.anon_fn(e, ps, r)
            },
            Expr::Range { start, end, inclusive } => self.range_value(&**start, end, *inclusive, fuel - 1),
            Expr::Spread(inner) => {
                let (v, t) = self.expr(&**inner, fuel - 1)?;
                if !t.is_int() {
                    let shown = self.show(&t);
                    return Err(diag3("cannot spread ", shown.as_slice(), " here"));
                }
                let z = self.int_const(0);
                Ok((self.op(Op::MakeRange(z, Some(v), 1)), Typ::Range))
            },
            Expr::OrElse { value, body } => self.or_else(&**value, body, fuel - 1),
            Expr::Is { subject, trait_name, negated } => {
                let name = match &**subject {
                    Expr::Ident(n) => n,
                    _ => {
                        return Err(diag("`is` takes a type name on the left"));
                    },
                };
                let t = self.resolve(&TypeExpr::Name(name.clone()), fuel - 1)?;
                let shown = self.show(&t);
                let holds = self.claims_trait(shown.as_slice(), trait_name.as_slice()) != *negated;
                Ok((self.bool_const(holds), Typ::Bool))
            },
            Expr::Pipe { value, step } => {
                let (v, t) = self.expr(&**value, fuel - 1)?;
                let mut saved_dollar = Some((v, t));
                std::mem::swap(&mut saved_dollar, &mut self.dollar);
                let r = self.expr(&**step, fuel - 1);
                self.dollar = saved_dollar;
                r
            },
            Expr::Propagate(value) => self.propagate(&**value, fuel - 1),
            Expr::ArgMod(a, _) => match a {
                Access::Move => Err(diag("`move` is only allowed on call arguments")),
                Access::Mut => Err(diag("`mut` is only allowed on call arguments")),
                Access::Read => Err(diag("`read` is only allowed on call arguments")),
            },
            Expr::Bind { .. } | Expr::PatBind { .. } | Expr::Assign { .. } | Expr::FieldAssign { .. }
            | Expr::IndexAssign { .. } | Expr::DictRemove { .. } => {
                match self.stmt(e, hint, fuel - 1)? {
                    Some(v) => Ok(v),
                    None => Err(diag("this expression never produces a value")),
                }
            },
            Expr::Return(_) => {
                match self.stmt(e, hint, fuel - 1)? {
                    Some(v) => Ok(v),
                    None => Err(diag("`return` never produces a value")),
                }
            },
            Expr::Break(_) | Expr::Continue => Err(diag("`break` and `continue` never produce a value")),
            Expr::Defer { .. } => Err(diag("`defer` is only allowed as a statement")),
            Expr::Annotated(_, inner) => self.lower(&**inner, hint, fuel - 1),
            Expr::Fn { .. } | Expr::StructDef { .. } | Expr::TupleStructDef { .. } | Expr::EnumDef { .. }
            | Expr::TraitDef { .. } | Expr::Claim { .. } | Expr::TypeAlias { .. } | Expr::MacroDef(_)
            | Expr::Module(_) | Expr::Use { .. } | Expr::Pub(_) | Expr::TestDef { .. } => Err(
                diag("definitions are only allowed at the top level"),
            ),
        }
    }

    /// A name in value position: a binding, a function, or an error.
    pub(crate) fn ident(&mut self, n: &[u8], fuel: u64) -> (r: Result<(usize, Typ), Diagnostic>)
        ensures
            forall|i: int|
                old(self).innermost(n@, i) ==> (r matches Ok((s, t)) && s == old(self).vars@[i].1.slot && typ_eq(old(self).vars@[i].1.typ, t)
                    && *final(self) == *old(self)),
            old(self).unbound(n@) ==> r is Err,
        decreases fuel, 0int,
    {
        match self.find_var(n) {
            Some(i) => {
                let s = self.vars[i].1.slot;
                Ok((s, self.vars[i].1.typ.copy()))
            },
            None => match self.find_sig(n) {
                Some(f) => {
                    let id = self.sigs[f].id;
                    let mut ps: Vec<Typ> = Vec::new();
                    let mut j: usize = 0;
                    while j < self.sigs[f].params.len()
                        invariant
                            f < self.sigs@.len(),
                            j <= self.sigs@[f as int].params@.len(),
                        decreases self.sigs@[f as int].params@.len() - j,
                    {
                        ps.push(self.sigs[f].params[j].0.copy());
                        j = j + 1;
                    }
                    let r = self.sigs[f].ret.copy();
                    Ok((self.constant(Val::Fn(id)), Typ::Fn(ps, Box::new(r))))
                },
                None => {
                    if let Some(g) = self.find_static(n) {
                        if self.pure {
                            return Err(diag3("`", n, "` isn't allowed in a `@pure` fn"));
                        }
                        let cell = self.statics[g].1;
                        let t = self.statics[g].2.copy();
                        return Ok((self.op(Op::Global(cell)), t));
                    }
                    if self.find_struct(n).is_some() || self.find_enum(n).is_some() || crate::translator::int_type_named(n).is_some() {
                        match self.named(n, 64) {
                            Ok(t) => {
                                let shown = self.show(&t);
                                return Err(diag3("`", shown.as_slice(), "` is a type, not a value"));
                            },
                            Err(e) => {
                                return Err(e);
                            },
                        }
                    }
                    Err(diag3("undefined variable `", n, "`"))
                },
            },
        }
    }

    /// A value that a new owner takes: a resource moves out of a binding, a copy runs its hooks,
    /// and a fresh value stops being released by its scope.
    pub(crate) fn take_value(&mut self, e: &'a Expr, v: usize, t: &Typ, fuel: u64) -> (r: Result<usize, Diagnostic>)
        ensures
            !(e is Ident || e is Index || e is Field || e is Slice || e is ArgMod) ==> r is Ok,
            e is Ident && !old(self).spec_is_affine(*t) ==> (r matches Ok(c) && c == old(self).nslots),
            (e is Index || e is Field || e is Slice) && !old(self).spec_is_affine(*t) ==> (r matches Ok(c) && c == old(self).nslots),
            (e is Index || e is Field || e is Slice) && old(self).spec_is_affine(*t) ==> r is Err,
        decreases fuel, 0int,
    {
        let src = match e {
            Expr::ArgMod(_, inner) => &**inner,
            _ => e,
        };
        match src {
            Expr::Ident(_) => {
                if self.is_affine(t) {
                    self.move_out(src, t)?;
                    Ok(v)
                } else {
                    let c = self.copy_slot(v);
                    if self.is_copy(t) {
                        self.copy_hooks(c, t);
                    }
                    Ok(c)
                }
            },
            Expr::Index { .. } | Expr::Field { .. } | Expr::Slice { .. } => {
                self.move_resource(src, t)?;
                let c = self.copy_slot(v);
                if self.is_copy(t) {
                    self.copy_hooks(c, t);
                }
                Ok(c)
            },
            _ => {
                if self.is_temp(v) {
                    self.untemp(v);
                    Ok(v)
                } else if self.slot_is_bound(v) {
                    let c = self.copy_slot(v);
                    if self.is_copy(t) {
                        self.copy_hooks(c, t);
                    }
                    Ok(c)
                } else {
                    Ok(v)
                }
            },
        }
    }

    // ------------------------------------------------------------ operators
    /// Binary operators.
    pub(crate) fn binary(&mut self, op: BinOp, l: &'a Expr, r: &'a Expr, hint: Option<&Typ>, fuel: u64) -> (res: Result<
        (usize, Typ),
        Diagnostic,
    >)
        ensures
            ring_op(op) && *l is Int && *r is Int && hint is None && fuel >= 2 && old(self).nslots + 3 < usize::MAX ==> res
                == Ok::<(usize, Typ), Diagnostic>((slot_after(old(self).nslots, 2), Typ::Int(64))) && final(self).code@ == old(
                self,
            ).code@ + literal_op_code(old(self).nslots, op, l->Int_0, r->Int_0) && lowering_frame(*old(self), *final(self))
                && final(self).nslots == old(self).nslots + 3,
            (op == BinOp::Or || op == BinOp::And) && *l is Bool && *r is Bool && fuel >= 2 && old(self).nslots + 3 < usize::MAX
                ==> (res matches Ok((s, t)) && t == Typ::Bool && s == old(self).nslots + 1 && grew_from(final(self).code@, old(
                self,
            ).code@) && bool_op_code(
                appended(final(self).code@, old(self).code@),
                old(self).nslots,
                s,
                slot_after(old(self).nslots, 2),
                l->Bool_0,
                r->Bool_0,
                op == BinOp::Or,
            )),
            op == BinOp::Or ==> (res matches Ok((s, t)) ==> t == Typ::Bool && (final(self).code@.last() matches Instr::If(_, th, el)
                && th@ == seq![Instr::Store(s, Op::Const(Val::Bool(true)))] && el@.len() > 0 && (el@.last() matches Instr::Store(
                d,
                Op::Copy(_),
            ) && d == s))),
            op == BinOp::And ==> (res matches Ok((s, t)) ==> t == Typ::Bool && (final(self).code@.last() matches Instr::If(_, th, el)
                && el@ == seq![Instr::Store(s, Op::Const(Val::Bool(false)))] && th@.len() > 0 && (th@.last() matches Instr::Store(
                d,
                Op::Copy(_),
            ) && d == s))),
            op == BinOp::Shl && fuel > 0 ==> (*l matches Expr::Ident(n) ==> forall|i: int| #[trigger] old(self).innermost(n@, i) ==> (
            old(self).vars@[i].1.typ is Array ==> (res matches Ok((s, t)) ==> (s == old(self).vars@[i].1.slot && (t is Array) && (
            final(self).code@.last() matches Instr::Push(a, _) && a == s))))),
            (arith_op(op) || cmp_op(op)) && old(self).int_leaf(*l) && old(self).int_leaf(*r) && int64_hint(hint) && fuel >= 2
                && old(self).nslots + 3 < usize::MAX ==> (res matches Ok((s, _)) && final(self).code@.last() == Instr::Store(
                s,
                leaf_op(op, old(self).leaf_slot(*l, old(self).nslots), old(self).leaf_slot(*r, next_fresh(old(self).nslots, *l))),
            )),
            (arith_op(op) || cmp_op(op)) && arith_tree(*l) && arith_tree(*r) && int64_hint(hint) && fuel >= 3
                * tree_depth(Expr::Binary(op, Box::new(*l), Box::new(*r))) + 1 ==> (res matches Ok((_, t)) && t == (
            if cmp_op(op) {
                Typ::Bool
            } else {
                Typ::Int(64)
            })),
        decreases fuel, 0int,
    {
        if fuel == 0 {
            return Err(diag("expression nests too deeply"));
        }
        proof {
            if old(self).int_leaf(*l) {
                if *l is Ident {
                    let n = l->Ident_0;
                    let i = choose|i: int| #[trigger] old(self).innermost(n@, i) && old(self).vars@[i].1.typ == Typ::Int(64);
                    lemma_innermost_unique(*old(self), n@, i, choose|i: int| #[trigger] old(self).innermost(n@, i));
                }
            }
            if old(self).int_leaf(*r) {
                if *r is Ident {
                    let n = r->Ident_0;
                    let i = choose|i: int| #[trigger] old(self).innermost(n@, i) && old(self).vars@[i].1.typ == Typ::Int(64);
                    lemma_innermost_unique(*old(self), n@, i, choose|i: int| #[trigger] old(self).innermost(n@, i));
                }
            }
        }
        match op {
            BinOp::And | BinOp::Or => {
                let (a, at) = self.expr(l, fuel - 1)?;
                if !matches!(at, Typ::Bool) {
                    let shown = self.show(&at);
                    return Err(diag3("expected Bool, got ", shown.as_slice(), ""));
                }
                let out = self.slot();
                let saved = self.open_block();
                let (b, bt) = self.expr(r, fuel - 1)?;
                self.emit(Instr::Store(out, Op::Copy(b)));
                let rhs = self.close_block(saved);
                if !matches!(bt, Typ::Bool) {
                    let shown = self.show(&bt);
                    return Err(diag3("expected Bool, got ", shown.as_slice(), ""));
                }
                let mut short: Vec<Instr> = Vec::new();
                let ghost mid = self.code@;
                if op == BinOp::And {
                    short.push(Instr::Store(out, Op::Const(Val::Bool(false))));
                    assert(short@ == seq![Instr::Store(out, Op::Const(Val::Bool(false)))]);
                    self.emit(Instr::If(a, rhs, short));
                } else {
                    short.push(Instr::Store(out, Op::Const(Val::Bool(true))));
                    assert(short@ == seq![Instr::Store(out, Op::Const(Val::Bool(true)))]);
                    self.emit(Instr::If(a, short, rhs));
                }
                proof {
                    if *l is Bool && *r is Bool && fuel >= 2 && old(self).nslots + 3 < usize::MAX {
                        let b2 = slot_after(old(self).nslots, 2);
                        assert(mid == old(self).code@.push(Instr::Store(a, Op::Const(Val::Bool(l->Bool_0)))));
                        assert(rhs@ =~= seq![
                            Instr::Store(b2, Op::Const(Val::Bool(r->Bool_0))),
                            Instr::Store(out, Op::Copy(b2)),
                        ]);
                        let extra = seq![mid.last(), self.code@.last()];
                        assert(self.code@ =~= old(self).code@ + extra);
                        lemma_grew(old(self).code@, extra);
                    }
                }
                return Ok((out, Typ::Bool));
            },
            BinOp::Shl => {
                if let Some(name) = self.append_target(l) {
                    return self.append(name, l, r, fuel - 1);
                }
            },
            _ => {},
        }
        let (a, at) = self.lower(l, hint, fuel - 1)?;
        proof {
            if old(self).int_leaf(*r) && *r is Ident && self.vars == old(self).vars {
                let n = r->Ident_0;
                let i = choose|i: int| #[trigger] old(self).innermost(n@, i) && old(self).vars@[i].1.typ == Typ::Int(64);
                assert(self.innermost(n@, i));
            }
        }
        if op == BinOp::In {
            let (b, bt) = self.expr(r, fuel - 1)?;
            match bt {
                Typ::Range => {
                    if !at.is_int() {
                        return Err(diag("`in` a range needs an integer"));
                    }
                    return Ok((self.op(Op::InRange(a, b)), Typ::Bool));
                },
                _ => {
                    let shown = self.show(&bt);
                    return Err(diag3("cannot look for a value in ", shown.as_slice(), ""));
                },
            }
        }
        let rhint = if op == BinOp::Shl || op == BinOp::Shr || op == BinOp::Pow {
            if at.is_int() {
                Some(at.copy())
            } else {
                None
            }
        } else {
            Some(at.copy())
        };
        let (b, bt) = match &rhint {
            Some(t) => self.lower(r, Some(t), fuel - 1)?,
            None => self.lower(r, None, fuel - 1)?,
        };
        self.binop_values(op, a, at, b, bt, fuel - 1)
    }

    /// Apply a binary operator to two lowered operands.
    pub(crate) fn binop_values(&mut self, op: BinOp, a: usize, at: Typ, b: usize, bt: Typ, fuel: u64) -> (res: Result<
        (usize, Typ),
        Diagnostic,
    >)
        ensures
            at == Typ::Int(64) && bt == Typ::Int(64) && cmp_op(op) ==> res == Ok::<(usize, Typ), Diagnostic>(
                (old(self).nslots, Typ::Bool),
            ) && final(self).code@ == old(self).code@.push(
                Instr::Store(old(self).nslots, Op::Cmp(op, a, b, NumKind { width: 64, signed: true })),
            ),
            at == Typ::Int(64) && bt == Typ::Int(64) && arith_op(op) ==> res == Ok::<(usize, Typ), Diagnostic>(
                (old(self).nslots, Typ::Int(64)),
            ) && final(self).code@ == old(self).code@.push(
                Instr::Store(old(self).nslots, Op::Arith(op, a, b, NumKind { width: 64, signed: true })),
            ),
            at == Typ::Int(64) && bt == Typ::Int(64) && (arith_op(op) || cmp_op(op)) ==> final(self).vars == old(self).vars
                && final(self).scopes == old(self).scopes && final(self).defers == old(self).defers && final(self).funcs == old(
                self,
            ).funcs && final(self).sigs == old(self).sigs && final(self).pending == old(self).pending && (final(self).nslots
                == old(self).nslots + 1 || old(self).nslots == usize::MAX),
        decreases fuel, 0int,
    {
        let bitwise = op == BinOp::BitAnd || op == BinOp::BitOr || op == BinOp::BitXor || op == BinOp::Shl
            || op == BinOp::Shr;
        let ordering = op == BinOp::Lt || op == BinOp::Gt || op == BinOp::Le || op == BinOp::Ge;
        if op == BinOp::Eq || op == BinOp::Ne {
            if !at.same(&bt) {
                let sa = self.show(&at);
                let sb = self.show(&bt);
                return Err(diag4("cannot compare ", sa.as_slice(), " with ", sb.as_slice()));
            }
            let k = num_kind(&at);
            return Ok((self.op(Op::Cmp(op, a, b, k)), Typ::Bool));
        }
        if let Typ::Float(_) = at {
            if bitwise {
                return Err(diag("bitwise operators need integer operands"));
            }
            if op == BinOp::Mod {
                return Err(diag("`%` is not yet supported on floats"));
            }
            return Err(diag("float arithmetic is not supported"));
        }
        if let Typ::Struct(n, _) = &at {
            let method = match op {
                BinOp::Add => "add",
                BinOp::Sub => "sub",
                BinOp::Mul => "mul",
                BinOp::Div => "div",
                BinOp::Mod => "mod",
                BinOp::BitAnd => "bitand",
                BinOp::BitOr => "bitor",
                BinOp::BitXor => "bitxor",
                BinOp::Shl => "shl",
                BinOp::Shr => "shr",
                _ => "cmp",
            };
            let name = n.clone();
            return self.operator_call(name.as_slice(), method, a, at, Some(b), fuel);
        }
        if op == BinOp::Add && matches!(at, Typ::Str) {
            if !matches!(bt, Typ::Str) {
                let shown = self.show(&bt);
                return Err(diag3("cannot add ", shown.as_slice(), " to a string"));
            }
            let out = self.op(Op::Concat(a, b));
            self.temp(out, Typ::Str);
            return Ok((out, Typ::Str));
        }
        if !at.is_int() || !bt.is_int() {
            if bitwise {
                return Err(diag("bitwise operators need integer operands"));
            }
            let sa = self.show(&at);
            let sb = self.show(&bt);
            return Err(diag4("cannot apply an operator to ", sa.as_slice(), " and ", sb.as_slice()));
        }
        let shift = op == BinOp::Shl || op == BinOp::Shr || op == BinOp::Pow;
        if !shift && !at.same(&bt) {
            let sa = self.show(&at);
            let sb = self.show(&bt);
            return Err(diag4("mismatched operands: ", sa.as_slice(), " and ", sb.as_slice()));
        }
        let k = num_kind(&at);
        if ordering {
            return Ok((self.op(Op::Cmp(op, a, b, k)), Typ::Bool));
        }
        Ok((self.op(Op::Arith(op, a, b, k)), at))
    }

    /// Call the method that overloads an operator on a struct.
    pub(crate) fn operator_call(&mut self, owner: &[u8], method: &str, a: usize, at: Typ, b: Option<usize>, fuel: u64) -> (r: Result<
        (usize, Typ),
        Diagnostic,
    >)
        decreases fuel, 0int,
    {
        let m = lit(method);
        match self.find_method(owner, m.as_slice()) {
            Some(f) => {
                let id = self.sigs[f].id;
                let ret = self.sigs[f].ret.copy();
                let mut args: Vec<usize> = Vec::new();
                args.push(a);
                if let Some(b) = b {
                    args.push(b);
                }
                let out = self.op(Op::Call(id, args));
                self.temp(out, ret.copy());
                Ok((out, ret))
            },
            None => {
                let shown = self.show(&at);
                Err(diag3("no operator for ", shown.as_slice(), ""))
            },
        }
    }

    /// The array binding that `l << v` appends to, if `l` names one (through a chain of appends).
    pub(crate) fn append_target(&self, l: &Expr) -> (r: Option<Vec<u8>>)
        ensures
            arith_tree(*l) ==> r is None,
            *l matches Expr::Ident(n) ==> forall|i: int| #[trigger] self.innermost(n@, i) ==> (!(self.vars@[i].1.typ is Array) ==> r is None),
            *l matches Expr::Ident(n) ==> forall|i: int| #[trigger] self.innermost(n@, i) ==> (self.vars@[i].1.typ is Array ==> (r matches Some(
                m,
            ) && m@ == n@)),
        decreases l,
    {
        match l {
            Expr::Ident(n) => match self.find_var(n.as_slice()) {
                Some(i) => match self.vars[i].1.typ {
                    Typ::Array(_) => Some(crate::text::owned(n.as_slice())),
                    _ => None,
                },
                None => None,
            },
            Expr::Binary(BinOp::Shl, inner, _) => self.append_target(&**inner),
            _ => None,
        }
    }

    /// `xs << v`: append to the array binding, giving the array.
    pub(crate) fn append(&mut self, name: Vec<u8>, l: &'a Expr, r: &'a Expr, fuel: u64) -> (res: Result<
        (usize, Typ),
        Diagnostic,
    >)
        ensures
            res matches Ok((s, t)) ==> t is Array && (final(self).code@.last() matches Instr::Push(a, _) && a == s),
            !(*l is Binary) ==> forall|i: int| #[trigger] old(self).innermost(name@, i) ==> (res matches Ok((s, _)) ==> s == old(
                self,
            ).vars@[i].1.slot),
        decreases fuel, 0int,
    {
        if fuel == 0 {
            return Err(diag("expression nests too deeply"));
        }
        // evaluate the earlier appends of a chain first
        if let Expr::Binary(BinOp::Shl, il, ir) = l {
            self.append(name.clone(), &**il, &**ir, fuel - 1)?;
        }
        let local = match self.var(name.as_slice()) {
            Some(l) => l,
            None => {
                return Err(diag3("cannot append to undefined variable `", name.as_slice(), "`"));
            },
        };
        if !local.mutable {
            return Err(diag3("cannot append to immutable `", name.as_slice(), "`"));
        }
        let et = match &local.typ {
            Typ::Array(et) => (**et).copy(),
            _ => {
                return Err(diag("only an array can be appended to"));
            },
        };
        let (v, vt) = self.lower(r, Some(&et), fuel - 1)?;
        if !vt.same(&et) {
            let sa = self.show(&vt);
            let sb = self.show(&et);
            return Err(diag4("cannot append ", sa.as_slice(), " to an array of ", sb.as_slice()));
        }
        let v = self.take_value(r, v, &vt, fuel - 1)?;
        self.emit(Instr::Push(local.slot, v));
        Ok((local.slot, local.typ))
    }

    /// A slice of an array or a string by a range value.
    pub(crate) fn slice_value(&mut self, c: usize, ct: Typ, r: usize) -> (res: Result<(usize, Typ), Diagnostic>) {
        match ct {
            Typ::Array(et) => {
                let out = self.op(Op::Slice(c, r));
                let t = Typ::Array(et);
                self.temp(out, t.copy());
                Ok((out, t))
            },
            Typ::Str => Ok((self.op(Op::Slice(c, r)), Typ::Str)),
            other => {
                let shown = self.show(&other);
                Err(diag3("cannot slice ", shown.as_slice(), ""))
            },
        }
    }

    /// A range: `a..b`, `a..=b`, `a..`, and stepped `a..s..b` where the first two give the step.
    pub(crate) fn range_value(&mut self, start: &'a Expr, end: &'a Option<Box<Expr>>, inclusive: bool, fuel: u64) -> (res: Result<
        (usize, Typ),
        Diagnostic,
    >)
        decreases fuel, 0int,
    {
        if fuel == 0 {
            return Err(diag("expression nests too deeply"));
        }
        let (first, step) = match start {
            Expr::Range { start: s0, end: Some(s1), inclusive: false } => match (&**s0, &**s1) {
                (Expr::Int(a), Expr::Int(b)) => {
                    let st = (*b as i128) - (*a as i128);
                    if st == 0 || st > i64::MAX as i128 || st < i64::MIN as i128 {
                        return Err(diag("a range step must be a nonzero integer"));
                    }
                    (self.int_const(*a), st as i64)
                },
                _ => {
                    return Err(diag("a range step is written with integer literals"));
                },
            },
            _ => {
                let (a, at) = self.expr(start, fuel - 1)?;
                if !at.is_int() {
                    let shown = self.show(&at);
                    return Err(diag3("a range needs integers, got ", shown.as_slice(), ""));
                }
                (a, 1i64)
            },
        };
        let last = match end {
            Some(e) => {
                let (b, bt) = self.expr(&**e, fuel - 1)?;
                if !bt.is_int() {
                    let shown = self.show(&bt);
                    return Err(diag3("a range needs integers, got ", shown.as_slice(), ""));
                }
                if inclusive {
                    let one = if step > 0 {
                        self.int_const(1)
                    } else {
                        self.int_const(-1)
                    };
                    Some(self.op(Op::Arith(BinOp::Add, b, one, int64())))
                } else {
                    Some(b)
                }
            },
            None => None,
        };
        Ok((self.op(Op::MakeRange(first, last, step)), Typ::Range))
    }

    /// An array literal; `..xs` and `..range` spread their elements into it.
    pub(crate) fn array_lit(&mut self, elems: &'a Vec<Expr>, hint: Option<&Typ>, fuel: u64) -> (res: Result<
        (usize, Typ),
        Diagnostic,
    >)
        decreases fuel, 0int,
    {
        if fuel == 0 {
            return Err(diag("expression nests too deeply"));
        }
        let mut et: Option<Typ> = match hint {
            Some(Typ::Array(e)) => Some((**e).copy()),
            _ => None,
        };
        let mut acc = self.op(Op::Array(Vec::new()));
        let mut i: usize = 0;
        while i < elems.len()
            invariant
                i <= elems@.len(),
            decreases elems@.len() - i,
        {
            let e = &elems[i];
            let mut spread_done = false;
            if let Expr::Spread(inner) = e {
                let (v, t) = self.expr(&**inner, fuel - 1)?;
                match t {
                    Typ::Range => {
                        let arr = self.op(Op::Spread(v));
                        acc = self.op(Op::Extend(acc, arr));
                        if et.is_none() {
                            et = Some(Typ::Int(64));
                        }
                        spread_done = true;
                    },
                    Typ::Array(inner_t) => {
                        acc = self.op(Op::Extend(acc, v));
                        if et.is_none() {
                            et = Some(*inner_t);
                        }
                        spread_done = true;
                    },
                    _ => {},
                }
            }
            if !spread_done {
                let (v, t) = match &et {
                    Some(h) => {
                        let h = h.copy();
                        self.lower(e, Some(&h), fuel - 1)?
                    },
                    None => self.expr(e, fuel - 1)?,
                };
                match &et {
                    Some(h) => {
                        if !t.same(h) {
                            let sa = self.show(&t);
                            let sb = self.show(h);
                            return Err(diag4("array elements must agree: ", sa.as_slice(), " and ", sb.as_slice()));
                        }
                    },
                    None => {},
                }
                let v = self.take_value(e, v, &t, fuel - 1)?;
                let mut one: Vec<usize> = Vec::new();
                one.push(v);
                let single = self.op(Op::Array(one));
                acc = self.op(Op::Extend(acc, single));
                if et.is_none() {
                    et = Some(t);
                }
            }
            i = i + 1;
        }
        let t = Typ::Array(
            Box::new(
                match et {
                    Some(t) => t,
                    None => Typ::Int(64),
                },
            ),
        );
        self.temp(acc, t.copy());
        Ok((acc, t))
    }

    /// A string with holes: its pieces in order, each hole shown as `print` would show it.
    pub(crate) fn interp(&mut self, parts: &'a Vec<Expr>, fuel: u64) -> (res: Result<(usize, Typ), Diagnostic>)
        decreases fuel, 0int,
    {
        if fuel == 0 {
            return Err(diag("expression nests too deeply"));
        }
        let mut acc = self.constant(Val::Str(Vec::new()));
        let mut i: usize = 0;
        while i < parts.len()
            invariant
                i <= parts@.len(),
            decreases parts@.len() - i,
        {
            let piece = match &parts[i] {
                Expr::Str(t) => self.constant(Val::Str(t.clone())),
                e => {
                    let (v, t) = self.expr(e, fuel - 1)?;
                    self.op(Op::Show(v, t))
                },
            };
            acc = self.op(Op::Concat(acc, piece));
            i = i + 1;
        }
        Ok((acc, Typ::Str))
    }

    /// A map literal: each key and value moves into the map, and a later key replaces an
    /// earlier one.
    pub(crate) fn dict_lit(&mut self, entries: &'a Vec<(Expr, Expr)>, hint: Option<&Typ>, fuel: u64) -> (res:
        Result<(usize, Typ), Diagnostic>)
        decreases fuel, 0int,
    {
        if fuel == 0 {
            return Err(diag("expression nests too deeply"));
        }
        let (mut kt, mut vt): (Option<Typ>, Option<Typ>) = match hint {
            Some(Typ::Dict(k, v)) => (Some((**k).copy()), Some((**v).copy())),
            _ => (None, None),
        };
        let mut ks: Vec<usize> = Vec::new();
        let mut vs: Vec<usize> = Vec::new();
        let mut i: usize = 0;
        while i < entries.len()
            invariant
                i <= entries@.len(),
            decreases entries@.len() - i,
        {
            let (k, t) = self.entry_part(&entries[i].0, &kt, "map keys must agree: ", fuel - 1)?;
            ks.push(k);
            if kt.is_none() {
                kt = Some(t);
            }
            let (v, t) = self.entry_part(&entries[i].1, &vt, "map values must agree: ", fuel - 1)?;
            vs.push(v);
            if vt.is_none() {
                vt = Some(t);
            }
            i = i + 1;
        }
        let (kt, vt) = match (kt, vt) {
            (Some(k), Some(v)) => (k, v),
            _ => {
                return Err(diag("cannot infer the type of an empty map"));
            },
        };
        let t = Typ::Dict(Box::new(kt), Box::new(vt));
        let m = self.op(Op::Dict(ks, vs));
        self.temp(m, t.copy());
        Ok((m, t))
    }

    /// One key or value of a map literal, checked against the type the others have, and taken
    /// into the map.
    fn entry_part(&mut self, e: &'a Expr, want: &Option<Typ>, msg: &str, fuel: u64) -> (res: Result<
        (usize, Typ),
        Diagnostic,
    >)
        decreases fuel, 0int,
    {
        if fuel == 0 {
            return Err(diag("expression nests too deeply"));
        }
        let (v, t) = match want {
            Some(h) => {
                let h = h.copy();
                self.lower(e, Some(&h), fuel - 1)?
            },
            None => self.expr(e, fuel - 1)?,
        };
        match want {
            Some(h) => {
                if !t.same(h) {
                    let sa = self.show(&t);
                    let sb = self.show(h);
                    return Err(diag4(msg, sa.as_slice(), " and ", sb.as_slice()));
                }
            },
            None => {},
        }
        let v = self.take_value(e, v, &t, fuel - 1)?;
        Ok((v, t))
    }

    /// `m[key] = value` (or `op=`) on the map in a slot: the value moves into the map, and the
    /// value the key held before is released.
    fn dict_assign(&mut self, slot: usize, kt: &Typ, vt: Typ, index: &'a Expr, op: Option<BinOp>, value: &'a Expr, fuel: u64) -> (res:
        Result<Option<(usize, Typ)>, Diagnostic>)
        decreases fuel, 0int,
    {
        if fuel == 0 {
            return Err(diag("statement nests too deeply"));
        }
        let k = self.dict_key(index, kt, fuel - 1)?;
        let (v, t) = self.lower(value, Some(&vt), fuel - 1)?;
        let v = match op {
            Some(o) => {
                let cur = self.op(Op::DictGet(slot, k));
                let (r, _) = self.binop_values(o, cur, vt.copy(), v, t, fuel - 1)?;
                r
            },
            None => {
                if !t.same(&vt) {
                    let sa = self.show(&t);
                    let sb = self.show(&vt);
                    return Err(diag4("cannot store ", sa.as_slice(), " in a map of ", sb.as_slice()));
                }
                self.release_entry(slot, k, &vt);
                self.take_value(value, v, &vt, fuel - 1)?
            },
        };
        self.emit(Instr::DictSet(slot, k, v));
        Ok(Some((v, vt)))
    }

    /// Release the value the map in a slot holds for a key, when it holds one.
    fn release_entry(&mut self, m: usize, k: usize, vt: &Typ)
        ensures
            !old(self).spec_is_resource(*vt) ==> *final(self) == *old(self),
            old(self).spec_is_resource(*vt) ==> {
                let n = old(self).code@.len() as int;
                let c = final(self).code@;
                &&& c.len() == n + 2
                &&& c.take(n) == old(self).code@
                &&& c[n] == Instr::Store(old(self).nslots, Op::DictHas(m, k))
                &&& c[n + 1] matches Instr::If(g, _, e)
                &&& g == old(self).nslots
                &&& e@.len() == 0
            },
    {
        if !self.is_resource(vt) {
            return;
        }
        let has = self.op(Op::DictHas(m, k));
        let saved = self.open_block();
        let old = self.op(Op::DictGet(m, k));
        self.release_value(old, vt);
        let body = self.close_block(saved);
        self.emit(Instr::If(has, body, Vec::new()));
    }

    /// A map key, checked against the map's key type.
    pub(crate) fn dict_key(&mut self, e: &'a Expr, kt: &Typ, fuel: u64) -> (res: Result<usize, Diagnostic>)
        decreases fuel, 0int,
    {
        if fuel == 0 {
            return Err(diag("expression nests too deeply"));
        }
        let (k, t) = self.lower(e, Some(kt), fuel - 1)?;
        if !t.same(kt) {
            let sa = self.show(&t);
            let sb = self.show(kt);
            return Err(diag4("a map key must be ", sb.as_slice(), ", got ", sa.as_slice()));
        }
        Ok(k)
    }

    // ------------------------------------------------------------ blocks
    /// Lower statements in a child scope; the value of the last one is the block's.
    pub(crate) fn scoped(&mut self, body: &'a Vec<Expr>, hint: Option<&Typ>, fuel: u64) -> (r: Result<
        Option<(usize, Typ)>,
        Diagnostic,
    >)
        ensures
            fuel == 0 ==> r is Err,
            fuel > 1 && body@.len() == 0 ==> (r matches Ok(Some(p)) ==> p.1.is_unit()),
            fuel > 1 ==> final(self).vars@.len() == old(self).vars@.len(),
            fuel > 1 ==> forall|j: int| 0 <= j < old(self).vars@.len() ==> (#[trigger] final(self).vars@[j]).0@ == old(self).vars@[j].0@
                && final(self).vars@[j].1.slot == old(self).vars@[j].1.slot,
        decreases fuel, 3int,
    {
        if fuel == 0 {
            return Err(diag("block nests too deeply"));
        }
        let saved = self.enter_scope();
        let flow = self.block_tail(body, hint, fuel - 1);
        self.leave_scope(saved, flow, fuel - 1)
    }

    /// Lower statements in order; the last one's value is the result, `None` when control never
    /// gets past them.
    pub(crate) fn block_tail(&mut self, body: &'a Vec<Expr>, hint: Option<&Typ>, fuel: u64) -> (r: Result<
        Option<(usize, Typ)>,
        Diagnostic,
    >)
        ensures
            fuel == 0 ==> r is Err,
            fuel > 0 && body@.len() == 0 ==> (r matches Ok(Some(p)) && p.1.is_unit()),
        decreases fuel, 2int,
    {
        if fuel == 0 {
            return Err(diag("block nests too deeply"));
        }
        if body.len() == 0 {
            return Ok(Some(self.unit_value()));
        }
        let mut i: usize = 0;
        while i + 1 < body.len()
            invariant
                i < body@.len(),
            decreases body@.len() - i,
        {
            match self.stmt(&body[i], None, fuel - 1)? {
                Some(_) => {},
                None => {
                    return Ok(None);
                },
            }
            i = i + 1;
        }
        self.stmt(&body[body.len() - 1], hint, fuel - 1)
    }

    /// One statement; `None` when it diverges.
    pub(crate) fn stmt(&mut self, e: &'a Expr, hint: Option<&Typ>, fuel: u64) -> (r: Result<
        Option<(usize, Typ)>,
        Diagnostic,
    >)
        ensures
            *e matches Expr::Binary(op, l, x) ==> (ring_op(op) && *l is Int && *x is Int && hint is None && fuel >= 4 && old(self).nslots
                + 3 < usize::MAX ==> r == Ok::<Option<(usize, Typ)>, Diagnostic>(Some((slot_after(old(self).nslots, 2), Typ::Int(64))))
                && final(self).code@ == old(self).code@ + literal_op_code(old(self).nslots, op, l->Int_0, x->Int_0) && lowering_frame(
                *old(self),
                *final(self),
            ) && final(self).nslots == old(self).nslots + 3),
            fuel > 1 && e is Int && hint is None ==> (r matches Ok(Some((s, t))) && t == Typ::Int(64) && s == old(self).nslots
                && final(self).code@ == old(self).code@.push(Instr::Store(s, Op::Const(Val::Int(e->Int_0))))
                && final(self).vars == old(self).vars && (final(self).nslots == s + 1 || s == usize::MAX) && final(self).scopes
                == old(self).scopes && final(self).defers == old(self).defers && final(self).funcs == old(self).funcs
                && final(self).sigs == old(self).sigs && final(self).pending == old(self).pending),
            fuel > 0 ==> (*e matches Expr::Assign { name, op, value } ==> (r is Ok ==> r matches Ok(Some(_))) && forall|i: int|
                #[trigger] old(self).innermost(name@, i) ==> (r matches Ok(Some((s, _))) ==> s == old(self).vars@[i].1.slot)),
            fuel > 0 ==> (*e matches Expr::Assign { name, op, value } ==> forall|i: int| #[trigger] old(self).innermost(name@, i) ==> (
            op matches Some(o) ==> (arith_op(o) && old(self).vars@[i].1.typ == Typ::Int(64) && old(self).vars@[i].1.mutable
                && arith_tree(*value) && fuel >= 3 * tree_depth(*value) + 4 ==> (r matches Ok(Some((s, t))) && t == Typ::Int(64)
                && s == old(self).vars@[i].1.slot)))),
        decreases fuel, 1int,
    {
        if fuel == 0 {
            return Err(diag("statement nests too deeply"));
        }
        match e {
            Expr::Bind { mutable, name, typ, value } => {
                let declared = match typ {
                    Some(te) => Some(self.resolve(te, 64)?),
                    None => None,
                };
                let (v, t) = match value {
                    Some(val) => {
                        let (v, t) = match &declared {
                            Some(d) => {
                                let d = d.copy();
                                self.lower(&**val, Some(&d), fuel - 1)?
                            },
                            None => self.expr(&**val, fuel - 1)?,
                        };
                        let t = match &declared {
                            Some(d) => {
                                let d = d.copy();
                                let v = self.take_value(&**val, v, &t, fuel - 1)?;
                                let v2 = self.coerce(v, &t, &d)?;
                                (v2, d)
                            },
                            None => {
                                if is_never(&t) {
                                    return Ok(None);
                                }
                                let v = self.take_value(&**val, v, &t, fuel - 1)?;
                                (v, t)
                            },
                        };
                        t
                    },
                    None => match declared {
                        Some(d) => {
                            let z = self.zero(&d, fuel - 1)?;
                            (z, d)
                        },
                        None => {
                            return Err(diag3("`", name.as_slice(), "` needs a type or a value"));
                        },
                    },
                };
                self.bind_local(name.as_slice(), v, t.copy(), *mutable);
                Ok(Some((v, t)))
            },
            Expr::PatBind { pat, mutable, value } => {
                let (v, t) = self.expr(&**value, fuel - 1)?;
                self.bind_pattern(&**pat, v, &t, *mutable, fuel - 1)?;
                Ok(Some((v, t)))
            },
            Expr::Assign { name, op, value } => match self.assign(name.as_slice(), *op, &**value, fuel - 1) {
                Ok(v) => Ok(Some(v)),
                Err(d) => Err(d),
            },
            Expr::FieldAssign { name, field, op, value } => {
                let local = match self.var(name.as_slice()) {
                    Some(l) => l,
                    None => match self.find_static(name.as_slice()) {
                        Some(g) => {
                            // a static's field goes through a copy of its value
                            let cell = self.statics[g].1;
                            let t = self.statics[g].2.copy();
                            let s = self.op(Op::Global(cell));
                            let (idx, ft) = match self.field_index(&t, field.as_slice()) {
                                Some(x) => x,
                                None => {
                                    let shown = self.show(&t);
                                    return Err(diag4("no field `", field.as_slice(), "` on ", shown.as_slice()));
                                },
                            };
                            let (v, vt) = self.lower(&**value, Some(&ft), fuel - 1)?;
                            let v = match op {
                                Some(o) => {
                                    let cur = self.op(Op::Field(s, idx));
                                    let (r, _) = self.binop_values(*o, cur, ft.copy(), v, vt, fuel - 1)?;
                                    r
                                },
                                None => v,
                            };
                            let mut path: Vec<usize> = Vec::new();
                            path.push(idx);
                            self.emit(Instr::SetField(s, path, v));
                            self.emit(Instr::SetGlobal(cell, s));
                            return Ok(Some((v, ft)));
                        },
                        None => {
                            return Err(diag3("cannot assign field of undefined variable `", name.as_slice(), "`"));
                        },
                    },
                };
                if !local.mutable {
                    return Err(diag3("cannot assign field of immutable `", name.as_slice(), "`"));
                }
                let (idx, ft) = match self.field_index(&local.typ, field.as_slice()) {
                    Some(x) => x,
                    None => {
                        let shown = self.show(&local.typ);
                        return Err(diag4("no field `", field.as_slice(), "` on ", shown.as_slice()));
                    },
                };
                let (v, vt) = self.lower(&**value, Some(&ft), fuel - 1)?;
                let v = match op {
                    Some(o) => {
                        let cur = self.op(Op::Field(local.slot, idx));
                        let (r, _) = self.binop_values(*o, cur, ft.copy(), v, vt, fuel - 1)?;
                        r
                    },
                    None => {
                        if !vt.same(&ft) {
                            let sa = self.show(&vt);
                            let sb = self.show(&ft);
                            return Err(diag4("cannot assign ", sa.as_slice(), " to a field of type ", sb.as_slice()));
                        }
                        let old = self.op(Op::Field(local.slot, idx));
                        self.release_value(old, &ft);
                        self.take_value(&**value, v, &ft, fuel - 1)?
                    },
                };
                let mut path: Vec<usize> = Vec::new();
                path.push(idx);
                self.emit(Instr::SetField(local.slot, path, v));
                Ok(Some((v, ft)))
            },
            Expr::IndexAssign { name, index, op, value } => {
                let local = match self.var(name.as_slice()) {
                    Some(l) => l,
                    None => {
                        return Err(diag3("cannot assign to undefined variable `", name.as_slice(), "`"));
                    },
                };
                if !local.mutable {
                    return Err(diag3("cannot assign to element of immutable `", name.as_slice(), "`"));
                }
                let et = match &local.typ {
                    Typ::Array(et) => (**et).copy(),
                    Typ::Dict(kt, vt) => {
                        let (kt, vt) = ((**kt).copy(), (**vt).copy());
                        return self.dict_assign(local.slot, &kt, vt, &**index, *op, &**value, fuel - 1);
                    },
                    _ => {
                        return Err(diag3("cannot index `", name.as_slice(), "`"));
                    },
                };
                let (i, it) = self.expr(&**index, fuel - 1)?;
                if !it.is_int() {
                    let shown = self.show(&it);
                    return Err(diag3("index must be Int, got ", shown.as_slice(), ""));
                }
                let (v, vt) = self.lower(&**value, Some(&et), fuel - 1)?;
                let v = match op {
                    Some(o) => {
                        let cur = self.op(Op::Index(local.slot, i));
                        let (r, _) = self.binop_values(*o, cur, et.copy(), v, vt, fuel - 1)?;
                        r
                    },
                    None => {
                        if !vt.same(&et) {
                            let sa = self.show(&vt);
                            let sb = self.show(&et);
                            return Err(diag4("cannot store ", sa.as_slice(), " in an array of ", sb.as_slice()));
                        }
                        let old = self.op(Op::Index(local.slot, i));
                        self.release_value(old, &et);
                        self.take_value(&**value, v, &et, fuel - 1)?
                    },
                };
                self.emit(Instr::SetIndex(local.slot, i, v));
                Ok(Some((v, et)))
            },
            Expr::DictRemove { name, key } => {
                let local = match self.var(name.as_slice()) {
                    Some(l) => l,
                    None => {
                        return Err(diag3("cannot delete from undefined variable `", name.as_slice(), "`"));
                    },
                };
                if !local.mutable {
                    return Err(diag3("cannot delete from immutable `", name.as_slice(), "`"));
                }
                let (kt, vt) = match &local.typ {
                    Typ::Dict(kt, vt) => ((**kt).copy(), (**vt).copy()),
                    _ => {
                        return Err(diag3("`", name.as_slice(), "` is not a map"));
                    },
                };
                let k = self.dict_key(&**key, &kt, fuel - 1)?;
                self.release_entry(local.slot, k, &vt);
                self.emit(Instr::DictRemove(local.slot, k));
                Ok(Some(self.unit_value()))
            },
            Expr::Return(value) => {
                if self.deferring {
                    return Err(diag("cannot return from a defer body"));
                }
                let ret = match &self.ret {
                    Some(t) => t.copy(),
                    None => Typ::unit(),
                };
                let (v, t) = match value {
                    Some(val) => {
                        let (v, t) = self.lower(&**val, Some(&ret), fuel - 1)?;
                        if is_never(&t) {
                            return Ok(None);
                        }
                        let v = self.take_value(&**val, v, &t, fuel - 1)?;
                        (v, t)
                    },
                    None => self.unit_value(),
                };
                let v = self.coerce(v, &t, &ret)?;
                self.release_scopes(0, Some((v, ret)), fuel - 1)?;
                self.emit(Instr::Return(v));
                Ok(None)
            },
            Expr::Break(value) => {
                if value.is_some() {
                    return Err(diag("`break` with a value is not supported"));
                }
                if self.loops.len() == 0 {
                    return Err(diag("`break` outside of a loop"));
                }
                let depth = self.loops[self.loops.len() - 1].depth;
                self.release_scopes(depth, None, fuel - 1)?;
                self.emit(Instr::Break);
                Ok(None)
            },
            Expr::Continue => {
                if self.loops.len() == 0 {
                    return Err(diag("`continue` outside of a loop"));
                }
                let depth = self.loops[self.loops.len() - 1].depth;
                self.release_scopes(depth, None, fuel - 1)?;
                self.emit(Instr::Continue);
                Ok(None)
            },
            Expr::Defer { body, on_err } => {
                if self.defers.len() == 0 {
                    return Err(diag("`defer` needs a scope"));
                }
                let vars = self.copy_vars();
                let last = self.defers.len() - 1;
                let mut list: Vec<Defer<'a>> = Vec::new();
                std::mem::swap(&mut list, &mut self.defers[last]);
                list.push(Defer { body: &**body, vars, on_err: *on_err });
                self.defers.set(last, list);
                Ok(Some(self.unit_value()))
            },
            Expr::Fn { .. } | Expr::StructDef { .. } | Expr::TupleStructDef { .. } | Expr::EnumDef { .. }
            | Expr::TraitDef { .. } | Expr::Claim { .. } | Expr::TypeAlias { .. } | Expr::MacroDef(_)
            | Expr::Module(_) | Expr::Use { .. } | Expr::Pub(_) | Expr::TestDef { .. } => Ok(
                Some(self.unit_value()),
            ),
            Expr::Annotated(_, inner) => self.stmt(&**inner, hint, fuel - 1),
            Expr::If { .. } | Expr::Loop { .. } | Expr::Match { .. } | Expr::For { .. } => self.control(e, hint, fuel - 1),
            _ => {
                let (v, t) = self.lower(e, hint, fuel - 1)?;
                if is_never(&t) {
                    Ok(None)
                } else {
                    Ok(Some((v, t)))
                }
            },
        }
    }

    /// `name = value`, or `name op= value`: the binding takes the new value and releases the old.
    pub(crate) fn assign(&mut self, name: &[u8], op: Option<BinOp>, value: &'a Expr, fuel: u64) -> (r: Result<
        (usize, Typ),
        Diagnostic,
    >)
        ensures
            forall|i: int| #[trigger] old(self).innermost(name@, i) ==> (r matches Ok((s, _)) ==> (s == old(self).vars@[i].1.slot
                && (final(self).code@.last() matches Instr::Store(d, Op::Copy(_)) && d == s))),
            forall|i: int| #[trigger] old(self).innermost(name@, i) ==> (fuel > 0 && !old(self).vars@[i].1.mutable ==> (r matches Err(d)
                && d.msg@ == "cannot assign to immutable `".spec_bytes() + name@ + "`".spec_bytes())),
            forall|i: int| #[trigger] old(self).innermost(name@, i) ==> (op matches Some(o) ==> (arith_op(o) && old(self).vars@[i].1.typ == Typ::Int(64)
                && old(self).vars@[i].1.mutable && arith_tree(*value) && fuel >= 3 * tree_depth(*value) + 3 ==> (r matches Ok((s, t))
                && t == Typ::Int(64) && final(self).code@.len() >= 2 && (final(self).code@[final(self).code@.len() - 2] matches Instr::Store(
                d,
                Op::Arith(p, a, _, k),
            ) && p == o && a == s && k == (NumKind { width: 64, signed: true }) && final(self).code@.last() == Instr::Store(s, Op::Copy(d)))))),
        decreases fuel, 0int,
    {
        if fuel == 0 {
            return Err(diag("expression nests too deeply"));
        }
        let fuel = fuel - 1;
        let local = match self.var(name) {
            Some(l) => l,
            None => match self.find_static(name) {
                Some(g) => {
                    return self.assign_static(g, name, op, value, fuel);
                },
                None => {
                    return Err(diag3("cannot assign to undefined variable `", name, "`"));
                },
            },
        };
        if !local.mutable {
            return Err(diag3("cannot assign to immutable `", name, "`"));
        }
        let (v, vt) = self.lower(value, Some(&local.typ), fuel)?;
        let v = match op {
            Some(o) => {
                let (r, rt) = self.binop_values(o, local.slot, local.typ.copy(), v, vt, fuel)?;
                if !rt.same(&local.typ) {
                    let sa = self.show(&rt);
                    let sb = self.show(&local.typ);
                    return Err(diag4("cannot assign ", sa.as_slice(), " to a binding of type ", sb.as_slice()));
                }
                r
            },
            None => {
                if !vt.same(&local.typ) {
                    let sa = self.show(&vt);
                    let sb = self.show(&local.typ);
                    let mut msg = lit("cannot assign ");
                    push_all(&mut msg, sa.as_slice());
                    push_str(&mut msg, " to `");
                    push_all(&mut msg, name);
                    push_str(&mut msg, "`, which is ");
                    push_all(&mut msg, sb.as_slice());
                    return Err(Diagnostic { msg });
                }
                let v = self.take_value(value, v, &vt, fuel)?;
                self.release_value(local.slot, &local.typ);
                v
            },
        };
        self.emit(Instr::Store(local.slot, Op::Copy(v)));
        Ok((local.slot, local.typ))
    }

    /// `name = value` where `name` is a static: the value goes into its cell.
    pub(crate) fn assign_static(&mut self, g: usize, name: &[u8], op: Option<BinOp>, value: &'a Expr, fuel: u64) -> (r: Result<
        (usize, Typ),
        Diagnostic,
    >)
        decreases fuel, 0int,
    {
        if fuel == 0 || g >= self.statics.len() {
            return Err(diag("expression nests too deeply"));
        }
        if self.pure {
            return Err(diag3("`", name, "` isn't allowed in a `@pure` fn"));
        }
        let cell = self.statics[g].1;
        let t = self.statics[g].2.copy();
        if !self.statics[g].3 {
            return Err(diag3("cannot assign to immutable `", name, "`"));
        }
        let (v, vt) = self.lower(value, Some(&t), fuel - 1)?;
        let v = match op {
            Some(o) => {
                let cur = self.op(Op::Global(cell));
                let (r, _) = self.binop_values(o, cur, t.copy(), v, vt, fuel - 1)?;
                r
            },
            None => {
                if !vt.same(&t) {
                    let sa = self.show(&vt);
                    let sb = self.show(&t);
                    return Err(diag4("cannot assign ", sa.as_slice(), " to a static of type ", sb.as_slice()));
                }
                self.take_value(value, v, &vt, fuel - 1)?
            },
        };
        self.emit(Instr::SetGlobal(cell, v));
        Ok((v, t))
    }

    /// The index of the static with a name.
    pub fn find_static(&self, name: &[u8]) -> (r: Option<usize>)
        ensures
            r matches Some(i) ==> i < self.statics@.len() && self.statics@[i as int].0@ == name@,
            r is None ==> forall|i: int| 0 <= i < self.statics@.len() ==> self.statics@[i].0@ != name@,
    {
        let mut i: usize = 0;
        while i < self.statics.len()
            invariant
                i <= self.statics@.len(),
                forall|j: int| 0 <= j < i ==> self.statics@[j].0@ != name@,
            decreases self.statics@.len() - i,
        {
            if crate::text::bytes_eq(self.statics[i].0.as_slice(), name) {
                return Some(i);
            }
            i = i + 1;
        }
        None
    }

    /// The index and type of a named (or numbered) field of a struct or tuple type.
    pub(crate) fn field_index(&self, t: &Typ, field: &[u8]) -> (r: Option<(usize, Typ)>)
        ensures
            !(*t is Struct) && !(*t is Tuple) ==> r is None,
            *t is Struct ==> (r is None <==> forall|j: int|
                0 <= j < t->Struct_1@.len() ==> (#[trigger] t->Struct_1@[j]).name@ != field@),
            *t is Struct ==> (r matches Some((i, _)) ==> i < t->Struct_1@.len() && t->Struct_1@[i as int].name@ == field@
                && forall|j: int| 0 <= j < i ==> (#[trigger] t->Struct_1@[j]).name@ != field@),
            *t is Tuple ==> (r is Some <==> 0 < field@.len() <= 6 && (forall|j: int|
                0 <= j < field@.len() ==> crate::lexer::is_digit(#[trigger] field@[j])) && spec_digits_value(field@)
                < t->Tuple_0@.len()),
            *t is Tuple ==> (r matches Some((i, _)) ==> i == spec_digits_value(field@)),
    {
        match t {
            Typ::Struct(_, fs) => {
                let mut i: usize = 0;
                while i < fs.len()
                    invariant
                        i <= fs@.len(),
                        forall|j: int| 0 <= j < i ==> (#[trigger] fs@[j]).name@ != field@,
                    decreases fs@.len() - i,
                {
                    if crate::text::bytes_eq(fs[i].name.as_slice(), field) {
                        return Some((i, fs[i].typ.copy()));
                    }
                    i = i + 1;
                }
                None
            },
            Typ::Tuple(ts) => match parse_index(field) {
                Some(i) => if i < ts.len() {
                    Some((i, ts[i].copy()))
                } else {
                    None
                },
                None => None,
            },
            _ => None,
        }
    }

    /// Bind the names of a pattern against a value.
    pub(crate) fn bind_pattern(&mut self, pat: &'a Expr, v: usize, t: &Typ, mutable: Option<bool>, fuel: u64) -> (r: Result<
        (),
        Diagnostic,
    >)
        decreases fuel, 0int,
    {
        if fuel == 0 {
            return Err(diag("pattern nests too deeply"));
        }
        match pat {
            Expr::Ident(n) => {
                if is(n.as_slice(), "_") {
                    return Ok(());
                }
                match mutable {
                    Some(m) => {
                        let c = self.copy_slot(v);
                        self.bind_local(n.as_slice(), c, t.copy(), m);
                        Ok(())
                    },
                    None => {
                        let local = match self.var(n.as_slice()) {
                            Some(l) => l,
                            None => {
                                return Err(diag3("cannot assign to undefined variable `", n.as_slice(), "`"));
                            },
                        };
                        if !local.mutable {
                            return Err(diag3("cannot assign to immutable `", n.as_slice(), "`"));
                        }
                        self.emit(Instr::Store(local.slot, Op::Copy(v)));
                        Ok(())
                    },
                }
            },
            Expr::Tuple(elems) => match t {
                Typ::Tuple(ts) => {
                    if elems.len() != ts.len() {
                        return Err(diag("the pattern and the tuple have different numbers of fields"));
                    }
                    let mut i: usize = 0;
                    while i < elems.len()
                        invariant
                            i <= elems@.len(),
                            elems@.len() == ts@.len(),
                        decreases elems@.len() - i,
                    {
                        let f = self.op(Op::Field(v, i));
                        let ft = ts[i].copy();
                        self.bind_pattern(&elems[i].1, f, &ft, mutable, fuel - 1)?;
                        i = i + 1;
                    }
                    Ok(())
                },
                _ => {
                    let shown = self.show(t);
                    Err(diag3("cannot destructure ", shown.as_slice(), " with this pattern"))
                },
            },
            _ => Err(diag("this pattern cannot bind here")),
        }
    }

    /// Convert a value to a type it widens to: a value into `?T` or `!T`.
    pub(crate) fn coerce(&mut self, v: usize, from: &Typ, to: &Typ) -> (r: Result<usize, Diagnostic>) {
        if from.same(to) || is_never(from) {
            return Ok(v);
        }
        match to {
            Typ::Option(inner) => {
                if from.same(&**inner) {
                    let mut one: Vec<usize> = Vec::new();
                    one.push(v);
                    return Ok(self.op(Op::Enum(1, one)));
                }
            },
            Typ::Sum(alts) => {
                // a value widens to the sum through its own type's position
                let mut k: usize = 0;
                while k < alts.len()
                    invariant
                        k <= alts@.len(),
                    decreases alts@.len() - k,
                {
                    if from.same(&alts[k]) {
                        let mut one: Vec<usize> = Vec::new();
                        one.push(v);
                        return Ok(self.op(Op::Enum(k as u64, one)));
                    }
                    k = k + 1;
                }
            },
            Typ::Trait(tr) => {
                let tr = tr.clone();
                return self.trait_object(v, from, tr.as_slice());
            },
            Typ::Result(ok, err) => {
                if from.same(&**ok) {
                    let mut one: Vec<usize> = Vec::new();
                    one.push(v);
                    return Ok(self.op(Op::Enum(0, one)));
                }
                if matches!(from, Typ::Error) && matches!(**err, Typ::Error) {
                    let mut one: Vec<usize> = Vec::new();
                    one.push(v);
                    return Ok(self.op(Op::Enum(1, one)));
                }
            },
            _ => {},
        }
        let sa = self.show(from);
        let sb = self.show(to);
        Err(diag4("expected ", sb.as_slice(), ", got ", sa.as_slice()))
    }
}

/// The number a field name spells, if it is one.
pub open spec fn spec_digits_value(s: Seq<u8>) -> int
    decreases s.len(),
{
    if s.len() == 0 {
        0
    } else {
        (10 * spec_digits_value(s.drop_last()) + (s.last() - 48)) % 1_000_000
    }
}

/// A tuple field's index, written with one to six decimal digits.
pub(crate) fn parse_index(s: &[u8]) -> (r: Option<usize>)
    ensures
        r is Some <==> 0 < s@.len() <= 6 && forall|i: int| 0 <= i < s@.len() ==> crate::lexer::is_digit(#[trigger] s@[i]),
        r matches Some(n) ==> n == spec_digits_value(s@),
{
    if s.len() == 0 || s.len() > 6 {
        return None;
    }
    let mut n: usize = 0;
    let mut i: usize = 0;
    while i < s.len()
        invariant
            i <= s@.len() <= 6,
            n < 1_000_000,
            n == spec_digits_value(s@.take(i as int)),
            forall|j: int| 0 <= j < i ==> crate::lexer::is_digit(#[trigger] s@[j]),
        decreases s@.len() - i,
    {
        if s[i] < 48 || s[i] > 57 {
            return None;
        }
        n = (n * 10 + (s[i] - 48) as usize) % 1_000_000;
        assert(s@.take(i + 1).drop_last() =~= s@.take(i as int));
        i = i + 1;
    }
    assert(s@.take(s@.len() as int) =~= s@);
    Some(n)
}

} // verus!
