#![verifier::loop_isolation(false)]

//! Branches, loops, `match`, `or`, `?`, and leaving scopes.
use vstd::prelude::*;
use vstd::string::StringSliceAdditionalSpecFns;

use crate::ast::{BinOp, Expr, MatchArm};
use crate::ir::{Instr, Op, Val};
use crate::lower::{diag4, int64, is_never};
use crate::text::{is, lit, push_all, push_str};
use crate::translator::{Defer, Diagnostic, Local, LoopFrame, Translator, diag, diag3};
use crate::types::{Typ, typ_eq};
use crate::rc::WithoutSlot;

verus! {

/// Whether a match pattern names the variant `name`: a shorthand, a method-call or a field form.
pub open spec fn names_variant(p: Expr, name: Seq<u8>) -> bool {
    match p {
        Expr::EnumShorthand { variant, .. } => variant@ == name,
        Expr::MethodCall { method, .. } => method@ == name,
        Expr::Field { field, .. } => field@ == name,
        _ => false,
    }
}

/// Whether a pattern is the catch-all `_`.
pub open spec fn is_wildcard(p: Expr) -> bool {
    p matches Expr::Ident(n) && n@ == "_".spec_bytes()
}

/// Whether some arm of a match has a `_` pattern.
pub open spec fn has_wildcard(arms: Seq<MatchArm>) -> bool {
    exists|i: int, j: int| 0 <= i < arms.len() && 0 <= j < arms[i].patterns@.len() && is_wildcard(#[trigger] arms[i].patterns@[j])
}

/// Whether some arm of a match names the variant `name`.
pub open spec fn arm_covers(arms: Seq<MatchArm>, name: Seq<u8>) -> bool {
    exists|i: int, j: int| 0 <= i < arms.len() && 0 <= j < arms[i].patterns@.len() && names_variant(#[trigger] arms[i].patterns@[j], name)
}

/// Whether a match on a value of type `t` covers every variant: it has an `else` or a `_` arm,
/// or, for an option, a result or an enum, an arm names each of its variants. Other types have
/// no variants to cover.
pub open spec fn match_covers(arms: Seq<MatchArm>, has_else: bool, t: Typ, enums: Seq<crate::types::EnumInfo>) -> bool {
    has_else || has_wildcard(arms) || match t {
        Typ::Option(_) => arm_covers(arms, "none".spec_bytes()) && arm_covers(arms, "some".spec_bytes()),
        Typ::Result(_, _) => arm_covers(arms, "ok".spec_bytes()) && arm_covers(arms, "err".spec_bytes()),
        Typ::Enum(id) => id < enums.len() ==> forall|k: int|
            0 <= k < enums[id as int].variants@.len() ==> arm_covers(arms, #[trigger] enums[id as int].variants@[k].name@),
        _ => true,
    }
}

/// A copy of a `defer` record.
pub(crate) fn copy_defer<'a>(d: &Defer<'a>) -> (r: Defer<'a>)
    ensures
        r.body == d.body,
        r.on_err == d.on_err,
        r.vars@.len() == d.vars@.len(),
        forall|j: int| 0 <= j < r.vars@.len() ==> (#[trigger] r.vars@[j]).0@ == d.vars@[j].0@ && r.vars@[j].1.slot
            == d.vars@[j].1.slot && r.vars@[j].1.mutable == d.vars@[j].1.mutable,
{
    let mut vars: Vec<(Vec<u8>, Local)> = Vec::new();
    let mut i: usize = 0;
    while i < d.vars.len()
        invariant
            i <= d.vars@.len(),
            vars@.len() == i,
            forall|j: int| 0 <= j < i ==> (#[trigger] vars@[j]).0@ == d.vars@[j].0@ && vars@[j].1.slot == d.vars@[j].1.slot
                && vars@[j].1.mutable == d.vars@[j].1.mutable,
        decreases d.vars@.len() - i,
    {
        vars.push((crate::text::owned(d.vars[i].0.as_slice()), d.vars[i].1.copy()));
        i = i + 1;
    }
    Defer { body: d.body, vars, on_err: d.on_err }
}

/// The tag that a variant name has in an enum-like type, with its payload types.
pub(crate) fn variant_of(t: &Typ, name: &[u8], enums: &Vec<crate::types::EnumInfo>) -> (r: Option<(u64, Vec<Typ>)>)
    ensures
        *t is Option && name@ == "some".spec_bytes() ==> (r matches Some((tag, ps)) && tag == 1 && ps@.len() == 1),
        *t is Option && name@ == "none".spec_bytes() ==> (r matches Some((tag, ps)) && tag == 0 && ps@.len() == 0),
        *t is Option && name@ != "some".spec_bytes() && name@ != "none".spec_bytes() ==> r is None,
        *t is Result && name@ == "ok".spec_bytes() ==> (r matches Some((tag, ps)) && tag == 0 && ps@.len() == 1),
        *t is Result && name@ == "err".spec_bytes() ==> (r matches Some((tag, ps)) && tag == 1 && ps@.len() == 1),
        *t is Result && name@ != "ok".spec_bytes() && name@ != "err".spec_bytes() ==> r is None,
        *t is Enum ==> (r is None <==> (t->Enum_0 >= enums@.len() || forall|k: int|
            0 <= k < enums@[t->Enum_0 as int].variants@.len() ==> (#[trigger] enums@[t->Enum_0 as int].variants@[k]).name@
                != name@)),
        *t is Enum ==> (r matches Some((k, ps)) ==> t->Enum_0 < enums@.len() && k < enums@[t->Enum_0 as int].variants@.len()
            && enums@[t->Enum_0 as int].variants@[k as int].name@ == name@ && ps@.len()
            == enums@[t->Enum_0 as int].variants@[k as int].payload@.len()),
        !(*t is Option) && !(*t is Result) && !(*t is Enum) ==> r is None,
{
    proof {
        reveal_strlit("some");
        reveal_strlit("none");
        reveal_strlit("ok");
        reveal_strlit("err");
        assert(vstd::string::is_ascii("some") && vstd::string::is_ascii("none"));
        assert(vstd::string::is_ascii("ok") && vstd::string::is_ascii("err"));
        assert("some".spec_bytes()[0] != "none".spec_bytes()[0]);
        assert("ok".spec_bytes().len() != "err".spec_bytes().len());
    }
    match t {
        Typ::Option(inner) => {
            if is(name, "some") {
                let mut ps: Vec<Typ> = Vec::new();
                ps.push((**inner).copy());
                Some((1, ps))
            } else if is(name, "none") {
                Some((0, Vec::new()))
            } else {
                None
            }
        },
        Typ::Result(ok, err) => {
            if is(name, "ok") {
                let mut ps: Vec<Typ> = Vec::new();
                ps.push((**ok).copy());
                Some((0, ps))
            } else if is(name, "err") {
                let mut ps: Vec<Typ> = Vec::new();
                ps.push((**err).copy());
                Some((1, ps))
            } else {
                None
            }
        },
        Typ::Enum(id) => {
            if *id >= enums.len() {
                return None;
            }
            let vs = &enums[*id].variants;
            let mut k: usize = 0;
            while k < vs.len()
                invariant
                    k <= vs@.len(),
                    forall|q: int| 0 <= q < k ==> (#[trigger] vs@[q]).name@ != name@,
                decreases vs@.len() - k,
            {
                if crate::text::bytes_eq(vs[k].name.as_slice(), name) {
                    return Some((k as u64, crate::types::copy_all(&vs[k].payload)));
                }
                k = k + 1;
            }
            None
        },
        _ => None,
    }
}

/// The names of an enum-like type's variants, in tag order.
pub(crate) fn variant_names(t: &Typ, enums: &Vec<crate::types::EnumInfo>) -> (r: Vec<Vec<u8>>)
    ensures
        *t is Option ==> r@.len() == 2 && r@[0]@ == "none".spec_bytes() && r@[1]@ == "some".spec_bytes(),
        *t is Result ==> r@.len() == 2 && r@[0]@ == "ok".spec_bytes() && r@[1]@ == "err".spec_bytes(),
        *t is Enum && t->Enum_0 < enums@.len() ==> r@.len() == enums@[t->Enum_0 as int].variants@.len() && forall|k: int|
            0 <= k < r@.len() ==> (#[trigger] r@[k])@ == enums@[t->Enum_0 as int].variants@[k].name@,
        !(*t is Option) && !(*t is Result) && !(*t is Enum && t->Enum_0 < enums@.len()) ==> r@.len() == 0,
{
    let mut out: Vec<Vec<u8>> = Vec::new();
    match t {
        Typ::Option(_) => {
            out.push(lit("none"));
            out.push(lit("some"));
        },
        Typ::Result(_, _) => {
            out.push(lit("ok"));
            out.push(lit("err"));
        },
        Typ::Enum(id) => {
            if *id < enums.len() {
                let vs = &enums[*id].variants;
                let mut k: usize = 0;
                while k < vs.len()
                    invariant
                        k <= vs@.len(),
                        out@.len() == k,
                        forall|q: int| 0 <= q < k ==> (#[trigger] out@[q])@ == vs@[q].name@,
                    decreases vs@.len() - k,
                {
                    out.push(crate::text::owned(vs[k].name.as_slice()));
                    k = k + 1;
                }
            }
        },
        _ => {},
    }
    out
}

/// Whether `code` is the test of a match arm with pattern tests in the slots `pcs`: `c` takes
/// the first test, and each later test that holds turns it on; with no pattern, `c` is `false`.
pub open spec fn any_test_code(code: Seq<Instr>, c: usize, pcs: Seq<usize>) -> bool {
    if pcs.len() == 0 {
        code == seq![Instr::Store(c, Op::Const(Val::Bool(false)))]
    } else {
        &&& code.len() == pcs.len()
        &&& code[0] == Instr::Store(c, Op::Copy(pcs[0]))
        &&& forall|j: int|
            1 <= j < pcs.len() ==> (#[trigger] code[j] matches Instr::If(p, t, e) && p == pcs[j] && t@ == seq![
                Instr::Store(c, Op::Const(Val::Bool(true))),
            ] && e@.len() == 0)
    }
}

/// Whether a block ends with the test of a match arm with pattern tests in `pcs`, setting `c`.
pub open spec fn arm_test_tail(code: Seq<Instr>, c: usize, pcs: Seq<usize>) -> bool {
    let n = if pcs.len() == 0 {
        1int
    } else {
        pcs.len() as int
    };
    code.len() >= n && any_test_code(code.skip(code.len() - n), c, pcs)
}

/// Whether some test slot of `pcs` holds `true` in the frame.
pub open spec fn some_test_holds(f: Seq<Val>, pcs: Seq<usize>) -> bool {
    exists|j: int| 0 <= j < pcs.len() && f[pcs[j] as int] == Val::Bool(true)
}

/// A match arm with several patterns is taken when any one of them matches: run step by step
/// on the machine, the arm's test code leaves in `c` whether some pattern test holds, and
/// changes no other slot.
pub proof fn lemma_arm_test_is_any(code: Seq<Instr>, c: usize, pcs: Seq<usize>, f: Seq<Val>)
    requires
        any_test_code(code, c, pcs),
        c < f.len(),
        forall|j: int| 0 <= j < pcs.len() ==> #[trigger] pcs[j] < f.len() && f[pcs[j] as int] is Bool && pcs[j] != c,
    ensures
        crate::machine::bool_run_ok(code, f),
        crate::machine::bool_run(code, f) == f.update(c as int, Val::Bool(some_test_holds(f, pcs))),
    decreases pcs.len(),
{
    if pcs.len() == 0 {
        assert(code.drop_last() =~= Seq::<Instr>::empty());
        assert(crate::machine::bool_run_ok(code.drop_last(), f));
        assert(crate::machine::bool_step_ok(code.last(), f));
        crate::machine::lemma_bool_single_store(c, false, f);
        assert(!some_test_holds(f, pcs));
    } else if pcs.len() == 1 {
        assert(code.drop_last() =~= Seq::<Instr>::empty());
        assert(crate::machine::bool_run(code.drop_last(), f) == f);
        assert(code.last() == Instr::Store(c, Op::Copy(pcs[0])));
        assert(crate::machine::bool_run_ok(code.drop_last(), f));
        assert(crate::machine::bool_step_ok(code.last(), f));
        assert(crate::machine::bool_run(code, f) == crate::machine::bool_step(code.last(), f));
        assert(crate::machine::bool_step(code.last(), f) == f.update(c as int, f[pcs[0] as int]));
        if f[pcs[0] as int] == Val::Bool(true) {
            assert(some_test_holds(f, pcs));
        } else {
            assert(!some_test_holds(f, pcs));
        }
    } else {
        let k = pcs.len() - 1;
        let pre = pcs.drop_last();
        assert(any_test_code(code.drop_last(), c, pre)) by {
            assert forall|j: int| 1 <= j < pre.len() implies (#[trigger] code.drop_last()[j] matches Instr::If(p, t, e) && p
                == pre[j] && t@ == seq![Instr::Store(c, Op::Const(Val::Bool(true)))] && e@.len() == 0) by {
                assert(code.drop_last()[j] == code[j]);
            }
        }
        assert forall|j: int| 0 <= j < pre.len() implies #[trigger] pre[j] < f.len() && f[pre[j] as int] is Bool && pre[j]
            != c by {
            assert(pre[j] == pcs[j]);
        }
        lemma_arm_test_is_any(code.drop_last(), c, pre, f);
        let g = crate::machine::bool_run(code.drop_last(), f);
        assert(g == f.update(c as int, Val::Bool(some_test_holds(f, pre))));
        assert(code[k] matches Instr::If(p, t, e) && p == pcs[k] && t@ == seq![Instr::Store(c, Op::Const(Val::Bool(true)))]
            && e@.len() == 0);
        assert(code.last() == code[k]);
        assert(g[pcs[k] as int] == f[pcs[k] as int]);
        assert(g.len() == f.len());
        crate::machine::lemma_bool_single_store(c, true, g);
        assert(crate::machine::bool_run_ok(Seq::<Instr>::empty(), g));
        assert(crate::machine::bool_run(Seq::<Instr>::empty(), g) == g);
        assert(crate::machine::bool_step_ok(code.last(), g));
        assert(crate::machine::bool_run(code, f) == crate::machine::bool_step(code.last(), g));
        let t = code[k]->If_1;
        let e = code[k]->If_2;
        if g[pcs[k] as int]->Bool_0 {
            assert(crate::machine::bool_step(code.last(), g) == crate::machine::bool_run(t@, g));
            assert(crate::machine::bool_run(code, f) == g.update(c as int, Val::Bool(true)));
        } else {
            assert(e@ =~= Seq::<Instr>::empty());
            assert(crate::machine::bool_step(code.last(), g) == crate::machine::bool_run(e@, g));
            assert(crate::machine::bool_run(code, f) == g);
        }
        if f[pcs[k] as int] == Val::Bool(true) {
            assert(some_test_holds(f, pcs));
        } else {
            if some_test_holds(f, pcs) {
                let j = choose|j: int| 0 <= j < pcs.len() && f[pcs[j] as int] == Val::Bool(true);
                assert(j < k);
                assert(pre[j] == pcs[j]);
                assert(some_test_holds(f, pre));
            }
            if some_test_holds(f, pre) {
                let j = choose|j: int| 0 <= j < pre.len() && f[pre[j] as int] == Val::Bool(true);
                assert(pcs[j] == pre[j]);
                assert(some_test_holds(f, pcs));
            }
        }
        assert(crate::machine::bool_run(code, f) =~= f.update(c as int, Val::Bool(some_test_holds(f, pcs))));
    }
}

impl<'a> Translator<'a> {
    /// The test of a match arm: each pattern's test, then a fresh slot set to whether any of
    /// them holds. Gives that slot, the slots of the pattern tests, one per pattern, and the
    /// payload bindings of an arm with a single pattern.
    fn arm_test(&mut self, arm: &'a MatchArm, s: usize, st: &Typ, fuel: u64) -> (r: Result<
        (usize, Ghost<Seq<usize>>, Option<(u64, &'a Vec<Expr>, Vec<Typ>)>),
        Diagnostic,
    >)
        ensures
            r matches Ok((c, pcs, _)) ==> pcs@.len() == arm.patterns@.len() && arm_test_tail(final(self).code@, c, pcs@),
        decreases fuel, 1int,
    {
        let c = self.slot();
        let mut binds: Option<(u64, &'a Vec<Expr>, Vec<Typ>)> = None;
        let mut pcs: Vec<usize> = Vec::new();
        let mut j: usize = 0;
        while j < arm.patterns.len()
            invariant
                j <= arm.patterns@.len(),
                pcs@.len() == j,
            decreases arm.patterns@.len() - j,
        {
            let (pc, b) = self.pattern_test(&arm.patterns[j], s, st, fuel)?;
            pcs.push(pc);
            if arm.patterns.len() == 1 {
                binds = b;
            }
            j = j + 1;
        }
        let ghost before = self.code@;
        self.any_of(c, &pcs);
        proof {
            let n = if pcs@.len() == 0 {
                1int
            } else {
                pcs@.len() as int
            };
            let added = self.code@.skip(before.len() as int);
            assert(any_test_code(added, c, pcs@));
            if pcs@.len() == 0 {
                assert(added.len() == 1);
            } else {
                assert(added.len() == pcs@.len());
            }
            assert(self.code@.len() - before.len() == n);
            assert(self.code@.skip(self.code@.len() - n) == self.code@.skip(before.len() as int));
        }
        Ok((c, Ghost(pcs@), binds))
    }

    /// Set `c` to whether any of the pattern tests in `pcs` holds: the first test copied, each
    /// later one turning it on when it holds; `false` when there is no pattern.
    fn any_of(&mut self, c: usize, pcs: &Vec<usize>)
        ensures
            final(self).code@.len() >= old(self).code@.len(),
            final(self).code@.take(old(self).code@.len() as int) == old(self).code@,
            any_test_code(final(self).code@.skip(old(self).code@.len() as int), c, pcs@),
    {
        let ghost start = self.code@.len() as int;
        let ghost before = self.code@;
        if pcs.len() == 0 {
            self.emit(Instr::Store(c, Op::Const(Val::Bool(false))));
            assert(self.code@.skip(start) =~= seq![Instr::Store(c, Op::Const(Val::Bool(false)))]);
            assert(self.code@.take(start) =~= before);
            return;
        }
        self.emit(Instr::Store(c, Op::Copy(pcs[0])));
        let mut j: usize = 1;
        while j < pcs.len()
            invariant
                1 <= j <= pcs@.len(),
                self.code@.len() == start + j,
                self.code@.take(start) == before,
                before.len() == start,
                self.code@[start] == Instr::Store(c, Op::Copy(pcs@[0])),
                forall|k: int|
                    1 <= k < j ==> (#[trigger] self.code@[start + k] matches Instr::If(p, t, e) && p == pcs@[k] && t@ == seq![
                        Instr::Store(c, Op::Const(Val::Bool(true))),
                    ] && e@.len() == 0),
            decreases pcs@.len() - j,
        {
            let mut yes: Vec<Instr> = Vec::new();
            yes.push(Instr::Store(c, Op::Const(Val::Bool(true))));
            assert(yes@ == seq![Instr::Store(c, Op::Const(Val::Bool(true)))]);
            let ghost prev = self.code@;
            self.emit(Instr::If(pcs[j], yes, Vec::new()));
            proof {
                assert forall|k: int| 0 <= k < start + j implies self.code@[k] == prev[k] by {}
                assert(self.code@.take(start) =~= prev.take(start));
            }
            j = j + 1;
        }
        proof {
            let added = self.code@.skip(start);
            assert forall|k: int| 1 <= k < pcs@.len() implies (#[trigger] added[k] matches Instr::If(p, t, e) && p == pcs@[k]
                && t@ == seq![Instr::Store(c, Op::Const(Val::Bool(true)))] && e@.len() == 0) by {
                assert(added[k] == self.code@[start + k]);
            }
            assert(added[0] == self.code@[start]);
        }
    }

    /// Enter a child scope, giving the bindings to restore when it is left.
    pub(crate) fn enter_scope(&mut self) -> (saved: Vec<(Vec<u8>, Local)>)
        ensures
            saved@.len() == old(self).vars@.len(),
            forall|j: int| 0 <= j < saved@.len() ==> (#[trigger] saved@[j]).0@ == old(self).vars@[j].0@ && saved@[j].1.slot
                == old(self).vars@[j].1.slot,
            final(self).scopes@.len() == old(self).scopes@.len() + 1,
            final(self).scopes@.drop_last() == old(self).scopes@,
            final(self).scopes@.last()@.len() == 0,
            final(self).defers@.len() == old(self).defers@.len() + 1,
            final(self).defers@.drop_last() == old(self).defers@,
            final(self).defers@.last()@.len() == 0,
            final(self).vars == old(self).vars,
            final(self).temps == old(self).temps,
    {
        let saved = self.copy_vars();
        self.scopes.push(Vec::new());
        self.defers.push(Vec::new());
        saved
    }

    /// Leave the innermost scope: its value outlives it, then its defers run and it releases
    /// what it owns.
    pub(crate) fn leave_scope(&mut self, saved: Vec<(Vec<u8>, Local)>, flow: Result<Option<(usize, Typ)>, Diagnostic>, fuel: u64) -> (r: Result<
        Option<(usize, Typ)>,
        Diagnostic,
    >)
        ensures
            fuel == 0 ==> (r matches Err(d) && d.msg@ == "block nests too deeply".spec_bytes()),
            fuel > 0 && !(flow matches Ok(Some(_))) ==> r == flow && final(self).vars == saved && (old(self).scopes@.len()
                > 0 ==> final(self).scopes@ == old(self).scopes@.drop_last()) && (old(self).defers@.len() > 0
                ==> final(self).defers@ == old(self).defers@.drop_last()),
            fuel > 0 ==> (flow matches Ok(Some((_, t))) ==> (r matches Ok(Some((_, u))) ==> u == t)),
            fuel > 0 ==> final(self).vars == saved,
            fuel > 1 && old(self).scopes@.len() > 0 && old(self).defers@.len() == old(self).scopes@.len() && old(self).defers@.last()@.len()
                == 0 ==> (flow matches Ok(Some((v, _))) ==> (old(self).temps@.contains(v) ==> r is Ok && final(self).released@ == old(
            self,
            ).released@ + crate::rc::spec_release_order(old(self).scopes@.last()@.filter(crate::rc::other_than(v))))),
        decreases fuel, 4int,
    {
        if fuel == 0 {
            return Err(diag("block nests too deeply"));
        }
        self.vars = saved;
        let out = match flow {
            Ok(Some((v, t))) => {
                let v = if self.is_temp(v) {
                    self.untemp(v);
                    proof {
                        if old(self).scopes@.len() > 0 {
                            let d = old(self).scopes@.len() - 1;
                            assert(self.owned_view()[d] == old(self).owned_view().without(v)[d]);
                            assert(self.scopes@[d]@ == old(self).scopes@[d]@.filter(crate::rc::other_than(v)));
                        }
                    }
                    v
                } else {
                    let c = self.copy_slot(v);
                    if self.is_copy(&t) {
                        self.copy_hooks(c, &t);
                    }
                    c
                };
                let depth = if self.scopes.len() > 0 {
                    self.scopes.len() - 1
                } else {
                    0
                };
                match self.release_scopes(depth, None, fuel - 1) {
                    Ok(()) => Ok(Some((v, t))),
                    Err(e) => Err(e),
                }
            },
            Ok(None) => Ok(None),
            Err(e) => Err(e),
        };
        self.scopes.pop();
        self.defers.pop();
        out
    }

    /// Run the defers and release the values of every scope deeper than `depth`, innermost first.
    /// `ret` is the value being returned, if any; a defer sees it as `$`.
    pub(crate) fn release_scopes(&mut self, depth: usize, ret: Option<(usize, Typ)>, fuel: u64) -> (r: Result<
        (),
        Diagnostic,
    >)
        ensures
            fuel == 0 ==> (r matches Err(d) && d.msg@ == "block nests too deeply".spec_bytes()),
            fuel > 0 && old(self).scopes@.len() <= depth ==> r is Ok && final(self).code == old(self).code
                && final(self).scopes == old(self).scopes && final(self).vars == old(self).vars,
            final(self).vars == old(self).vars,
            fuel > 0 && old(self).scopes@.len() == depth + 1 && depth < old(self).defers@.len() && old(self).defers@[depth as int]@.len()
                == 0 ==> r is Ok && final(self).released@ == old(self).released@ + crate::rc::spec_release_order(
                old(self).scopes@[depth as int]@,
            ),
            fuel > 0 && old(self).scopes@.len() == depth + 1 && depth < old(self).defers@.len() && old(self).defers@[depth as int]@.len()
                == 0 && old(self).scopes@[depth as int]@.len() == 0 ==> final(self).code == old(self).code && final(self).nslots
                == old(self).nslots && final(self).funcs == old(self).funcs && final(self).sigs == old(self).sigs
                && final(self).pending == old(self).pending,
        decreases fuel, 0int,
    {
        if fuel == 0 {
            return Err(diag("block nests too deeply"));
        }
        let ghost lone = old(self).scopes@.len() == depth + 1 && depth < old(self).defers@.len() && old(self).defers@[depth as int]@.len() == 0;
        let ghost expected = if lone {
            old(self).released@ + crate::rc::spec_release_order(old(self).scopes@[depth as int]@)
        } else {
            old(self).released@
        };
        let mut s = self.scopes.len();
        while s > depth
            invariant
                old(self).scopes@.len() <= depth ==> s <= depth && self.code == old(self).code && self.scopes
                    == old(self).scopes && self.vars == old(self).vars,
                self.vars == old(self).vars,
                lone == (old(self).scopes@.len() == depth + 1 && depth < old(self).defers@.len() && old(self).defers@[depth as int]@.len() == 0),
                expected == (if lone {
                    old(self).released@ + crate::rc::spec_release_order(old(self).scopes@[depth as int]@)
                } else {
                    old(self).released@
                }),
                lone ==> (s == depth + 1 && *self == *old(self)) || (s == depth && self.released@ == expected),
                lone && old(self).scopes@[depth as int]@.len() == 0 && s == depth ==> self.code == old(self).code && self.nslots
                    == old(self).nslots && self.funcs == old(self).funcs && self.sigs == old(self).sigs && self.pending == old(self).pending,
            decreases s,
        {
            s = s - 1;
            // defers, last first
            let n = if s < self.defers.len() {
                self.defers[s].len()
            } else {
                0
            };
            let mut k = n;
            while k > 0
                invariant
                    self.vars == old(self).vars,
                    lone ==> k == 0 && s == depth && *self == *old(self),
                decreases k,
            {
                k = k - 1;
                if s < self.defers.len() && k < self.defers[s].len() {
                    let d = copy_defer(&self.defers[s][k]);
                    let r = match &ret {
                        Some((v, t)) => Some((*v, t.copy())),
                        None => None,
                    };
                    self.run_defer(d, r, fuel - 1)?;
                }
            }
            // owned values, last first
            if s < self.scopes.len() {
                let order = crate::rc::release_order(&self.scopes[s]);
                let mut p: usize = 0;
                while p < order.len()
                    invariant
                        self.vars == old(self).vars,
                        s < self.scopes@.len(),
                        order@.len() == self.scopes@[s as int]@.len(),
                        forall|q: int| 0 <= q < order@.len() ==> #[trigger] order@[q] == self.scopes@[s as int]@.len() - 1 - q,
                        p <= order@.len(),
                        lone ==> s == depth && self.scopes == old(self).scopes && self.released@ == old(self).released@
                            + crate::rc::spec_release_order(old(self).scopes@[depth as int]@).take(p as int),
                        lone && old(self).scopes@[depth as int]@.len() == 0 ==> self.code == old(self).code && self.nslots
                            == old(self).nslots && self.funcs == old(self).funcs && self.sigs == old(self).sigs && self.pending == old(self).pending,
                    decreases order@.len() - p,
                {
                    let j = order[p];
                    if s < self.scopes.len() && j < self.scopes[s].len() {
                        let slot = self.scopes[s][j].0;
                        let t = self.scopes[s][j].1.copy();
                        self.release_value(slot, &t);
                        proof {
                            if lone {
                                let sc = old(self).scopes@[depth as int]@;
                                assert(crate::rc::spec_release_order(sc)[p as int] == slot);
                                assert(crate::rc::spec_release_order(sc).take(p + 1) =~= crate::rc::spec_release_order(sc).take(
                                    p as int,
                                ).push(slot));
                            }
                        }
                    }
                    p = p + 1;
                }
                proof {
                    if lone {
                        let sc = old(self).scopes@[depth as int]@;
                        assert(crate::rc::spec_release_order(sc).take(p as int) =~= crate::rc::spec_release_order(sc));
                    }
                }
            }
        }
        Ok(())
    }

    /// Lower a `defer` body at a scope exit. `$` is the returned value, or its error for `defer or`.
    pub(crate) fn run_defer(&mut self, d: Defer<'a>, ret: Option<(usize, Typ)>, fuel: u64) -> (r: Result<(), Diagnostic>)
        ensures
            fuel == 0 ==> (r matches Err(e) && e.msg@ == "block nests too deeply".spec_bytes()),
            final(self).vars == old(self).vars,
        decreases fuel, 0int,
    {
        if fuel == 0 {
            return Err(diag("block nests too deeply"));
        }
        if d.on_err {
            let (v, t) = match ret {
                Some(x) => x,
                None => {
                    return Ok(());
                },
            };
            let (happy, err) = match t {
                Typ::Option(_) => (1i64, None),
                Typ::Result(_, e) => (0i64, Some(*e)),
                _ => {
                    return Err(diag("`defer or` needs a fn returning `?T`/`!T`"));
                },
            };
            let tag = self.op(Op::Tag(v));
            let h = self.int_const(happy);
            let c = self.op(Op::Cmp(BinOp::Eq, tag, h, int64()));
            let saved_code = self.open_block();
            let dollar = match err {
                Some(e) => (self.op(Op::Payload(v, 0)), e),
                None => self.unit_value(),
            };
            let r = self.defer_body(d, Some(dollar), fuel - 1);
            let sad = self.close_block(saved_code);
            r?;
            self.emit(Instr::If(c, Vec::new(), sad));
            Ok(())
        } else {
            let dollar = match ret {
                Some(x) => Some(x),
                None => match &self.dollar {
                    Some((s, t)) => Some((*s, t.copy())),
                    None => None,
                },
            };
            self.defer_body(d, dollar, fuel - 1)
        }
    }

    /// Lower a defer's body with the bindings it saw, no enclosing loop, and `$` set.
    pub(crate) fn defer_body(&mut self, d: Defer<'a>, dollar: Option<(usize, Typ)>, fuel: u64) -> (r: Result<(), Diagnostic>)
        ensures
            final(self).vars == old(self).vars,
        decreases fuel, 0int,
    {
        if fuel == 0 {
            return Err(diag("block nests too deeply"));
        }
        let mut vars = d.vars;
        std::mem::swap(&mut vars, &mut self.vars);
        let mut loops: Vec<LoopFrame> = Vec::new();
        std::mem::swap(&mut loops, &mut self.loops);
        let was_deferring = self.deferring;
        self.deferring = true;
        let mut saved_dollar = dollar;
        std::mem::swap(&mut saved_dollar, &mut self.dollar);
        let saved = self.enter_scope();
        let flow = self.stmt(d.body, None, fuel - 1);
        let out = self.leave_scope(saved, flow, fuel - 1);
        self.vars = vars;
        self.loops = loops;
        self.deferring = was_deferring;
        self.dollar = saved_dollar;
        match out {
            Ok(_) => Ok(()),
            Err(e) => Err(e),
        }
    }

    /// `if`, `loop`, `loop x in xs` and `match`.
    pub(crate) fn control(&mut self, e: &'a Expr, hint: Option<&Typ>, fuel: u64) -> (r: Result<
        Option<(usize, Typ)>,
        Diagnostic,
    >)
        decreases fuel, 0int,
    {
        if fuel == 0 {
            return Err(diag("expression nests too deeply"));
        }
        match e {
            Expr::If { cond, then, els } => {
                let els = match els {
                    Some(b) => Some(b),
                    None => None,
                };
                self.conditional(&**cond, then, els, hint, fuel - 1)
            },
            Expr::Loop { cond, body } => {
                let cond = match cond {
                    Some(c) => Some(&**c),
                    None => None,
                };
                self.loop_expr(cond, body, fuel - 1)
            },
            Expr::For { var, iter, body } => self.for_loop(var.as_slice(), &**iter, body, fuel - 1),
            Expr::Match { subject, arms, else_body } => {
                let els = match else_body {
                    Some(b) => Some(b),
                    None => None,
                };
                self.match_expr(&**subject, arms, els, hint, fuel - 1)
            },
            _ => Err(diag("not a control expression")),
        }
    }

    /// The merged type of two branches, or the mismatch error.
    pub(crate) fn merge_types(&self, kw: &str, a: &Option<Typ>, b: &Typ) -> (r: Result<Typ, Diagnostic>)
        ensures
            a is None ==> (r matches Ok(t) && crate::types::same_kind(t, *b)),
            a is Some && r is Ok ==> crate::types::same_kind(a->0, *b),
            r matches Ok(t) ==> crate::types::same_kind(t, *b),
            r is Err ==> a is Some,
    {
        match a {
            Some(t) => {
                if t.same(b) {
                    Ok(t.copy())
                } else {
                    let sa = self.show(t);
                    let sb = self.show(b);
                    let mut msg = lit("`");
                    push_str(&mut msg, kw);
                    push_str(&mut msg, "` branches have mismatched types: ");
                    push_all(&mut msg, sa.as_slice());
                    push_str(&mut msg, " and ");
                    push_all(&mut msg, sb.as_slice());
                    Err(Diagnostic { msg })
                }
            },
            None => Ok(b.copy()),
        }
    }

    /// `if`/`else`: the branch's value, or the zero value when there is no `else`.
    pub(crate) fn conditional(&mut self, cond: &'a Expr, then: &'a Vec<Expr>, els: Option<&'a Vec<Expr>>, hint: Option<&Typ>, fuel: u64) -> (r: Result<
        Option<(usize, Typ)>,
        Diagnostic,
    >)
        ensures
            fuel == 0 ==> (r matches Err(d) && d.msg@ == "expression nests too deeply".spec_bytes()),
            fuel > 0 && els is Some && (*cond is Bind || (*cond matches Expr::PatBind { pat, .. } && !(*pat is EnumShorthand)))
                ==> (r matches Err(d) && d.msg@ == "this binding always succeeds, so `else` can never run".spec_bytes()),
            fuel > 1 && els is None && (*cond is Bind || (*cond matches Expr::PatBind { pat, .. } && !(*pat is EnumShorthand)))
                ==> final(self).vars@.len() == old(self).vars@.len() && forall|j: int| 0 <= j < old(self).vars@.len()
                ==> (#[trigger] final(self).vars@[j]).0@ == old(self).vars@[j].0@ && final(self).vars@[j].1.slot == old(self).vars@[j].1.slot,
        decreases fuel, 0int,
    {
        if fuel == 0 {
            return Err(diag("expression nests too deeply"));
        }
        // a header binding that always succeeds scopes its names to the body
        let always = match cond {
            Expr::Bind { .. } => true,
            Expr::PatBind { pat, .. } => match &**pat {
                Expr::EnumShorthand { .. } => false,
                _ => true,
            },
            _ => false,
        };
        if always {
            if els.is_some() {
                return Err(diag("this binding always succeeds, so `else` can never run"));
            }
            let saved = self.enter_scope();
            let bound = self.stmt(cond, None, fuel - 1);
            let flow = match bound {
                Ok(Some(_)) => self.block_tail(then, hint, fuel - 1),
                Ok(None) => Ok(None),
                Err(e) => Err(e),
            };
            return self.leave_scope(saved, flow, fuel - 1);
        }
        // the test, and the payload a pattern binds
        let (c, pattern) = match cond {
            Expr::PatBind { pat, value, .. } => {
                let (v, t) = self.expr(&**value, fuel - 1)?;
                match &**pat {
                    Expr::EnumShorthand { variant, args } => {
                        let (tag, payload) = match variant_of(&t, variant.as_slice(), &self.enums) {
                            Some(x) => x,
                            None => {
                                let shown = self.show(&t);
                                return Err(diag4("no variant `", variant.as_slice(), "` in ", shown.as_slice()));
                            },
                        };
                        let tg = self.op(Op::Tag(v));
                        let want = self.int_const(tag as i64);
                        let c = self.op(Op::Cmp(BinOp::Eq, tg, want, int64()));
                        (c, Some((v, args, payload)))
                    },
                    _ => {
                        return Err(diag("unsupported pattern in a condition"));
                    },
                }
            },
            _ => {
                let (c, ct) = self.expr(cond, fuel - 1)?;
                if !matches!(ct, Typ::Bool) {
                    let shown = self.show(&ct);
                    return Err(diag3("`if` condition must be Bool, got ", shown.as_slice(), ""));
                }
                (c, None)
            },
        };
        let out = self.slot();
        let mut rt: Option<Typ> = None;
        // the branch taken when the test holds
        let saved_code = self.open_block();
        let saved = self.enter_scope();
        let mut bind_err: Option<Diagnostic> = None;
        match &pattern {
            Some((v, args, payload)) => {
                let mut k: usize = 0;
                while k < args.len()
                    invariant
                        k <= args@.len(),
                    decreases args@.len() - k,
                {
                    if let Expr::Ident(n) = &args[k] {
                        if k < payload.len() {
                            let p = self.op(Op::Payload(*v, k));
                            self.bind_local(n.as_slice(), p, payload[k].copy(), false);
                        } else {
                            bind_err = Some(diag("the pattern binds more values than the variant holds"));
                        }
                    }
                    k = k + 1;
                }
            },
            None => {},
        }
        let flow = match bind_err {
            Some(e) => Err(e),
            None => self.block_tail(then, hint, fuel - 1),
        };
        let then_flow = self.leave_scope(saved, flow, fuel - 1);
        let then_flow = match then_flow {
            Ok(x) => x,
            Err(e) => {
                let _ = self.close_block(saved_code);
                return Err(e);
            },
        };
        match &then_flow {
            Some((v, t)) => {
                self.emit(Instr::Store(out, Op::Copy(*v)));
                rt = Some(t.copy());
            },
            None => {},
        }
        let then_code = self.close_block(saved_code);
        // the other branch
        let saved_code = self.open_block();
        let else_flow = match els {
            Some(b) => {
                let h = match &rt {
                    Some(t) => Some(t.copy()),
                    None => match hint {
                        Some(t) => Some(t.copy()),
                        None => None,
                    },
                };
                match &h {
                    Some(t) => self.scoped(b, Some(t), fuel - 1),
                    None => self.scoped(b, None, fuel - 1),
                }
            },
            None => {
                let t = match &rt {
                    Some(t) => t.copy(),
                    None => match hint {
                        Some(t) => t.copy(),
                        None => Typ::unit(),
                    },
                };
                match self.zero(&t, fuel - 1) {
                    Ok(z) => Ok(Some((z, t))),
                    Err(e) => Err(e),
                }
            },
        };
        let else_flow = match else_flow {
            Ok(x) => x,
            Err(e) => {
                let _ = self.close_block(saved_code);
                return Err(e);
            },
        };
        let mut merge_err: Option<Diagnostic> = None;
        match &else_flow {
            Some((v, t)) => {
                match self.merge_types("if", &rt, t) {
                    Ok(m) => {
                        rt = Some(m);
                    },
                    Err(e) => {
                        merge_err = Some(e);
                    },
                }
                self.emit(Instr::Store(out, Op::Copy(*v)));
            },
            None => {},
        }
        let else_code = self.close_block(saved_code);
        if let Some(e) = merge_err {
            return Err(e);
        }
        self.emit(Instr::If(c, then_code, else_code));
        match rt {
            Some(t) => {
                self.temp(out, t.copy());
                Ok(Some((out, t)))
            },
            None => Ok(None),
        }
    }

    /// `loop { .. }` and `loop cond { .. }`.
    pub(crate) fn loop_expr(&mut self, cond: Option<&'a Expr>, body: &'a Vec<Expr>, fuel: u64) -> (r: Result<
        Option<(usize, Typ)>,
        Diagnostic,
    >)
        decreases fuel, 0int,
    {
        if fuel == 0 {
            return Err(diag("expression nests too deeply"));
        }
        let depth = self.scopes.len();
        let saved_code = self.open_block();
        match cond {
            Some(c) => {
                let r = self.expr(c, fuel - 1);
                match r {
                    Ok((cv, ct)) => {
                        if !matches!(ct, Typ::Bool) {
                            let _ = self.close_block(saved_code);
                            let shown = self.show(&ct);
                            return Err(diag3("`loop` condition must be Bool, got ", shown.as_slice(), ""));
                        }
                        let mut stop: Vec<Instr> = Vec::new();
                        stop.push(Instr::Break);
                        self.emit(Instr::If(cv, Vec::new(), stop));
                    },
                    Err(e) => {
                        let _ = self.close_block(saved_code);
                        return Err(e);
                    },
                }
            },
            None => {},
        }
        self.loops.push(LoopFrame { depth });
        let flow = self.scoped(body, None, fuel - 1);
        self.loops.pop();
        let flow = match flow {
            Ok(f) => f,
            Err(e) => {
                let _ = self.close_block(saved_code);
                return Err(e);
            },
        };
        if let Some((v, t)) = flow {
            // a discarded body value is released once per iteration
            if self.is_temp(v) {
                self.untemp(v);
            }
            self.release_value(v, &t);
        }
        let code = self.close_block(saved_code);
        self.emit(Instr::Loop(code));
        Ok(Some(self.unit_value()))
    }

    /// `loop x in xs { .. }` over an array or a closed range.
    pub(crate) fn for_loop(&mut self, var: &[u8], iter: &'a Expr, body: &'a Vec<Expr>, fuel: u64) -> (r: Result<
        Option<(usize, Typ)>,
        Diagnostic,
    >)
        ensures
            fuel == 0 ==> (r matches Err(d) && d.msg@ == "expression nests too deeply".spec_bytes()),
            r matches Ok(o) ==> (o matches Some(p) && p.1.is_unit() && final(self).code@.len() >= 2
                && final(self).code@.last() == Instr::Store(p.0, Op::Const(Val::Unit))
                && final(self).code@[final(self).code@.len() - 2] is Loop),
            fuel > 1 ==> (*iter matches Expr::Ident(n) ==> forall|i: int| #[trigger] old(self).innermost(n@, i) ==> (!(old(
                self,
            ).vars@[i].1.typ is Range || old(self).vars@[i].1.typ is Array || old(self).vars@[i].1.typ is Str) ==> (r matches Err(d)
                && d.msg@.take(20) == "cannot iterate over ".spec_bytes()))),
        decreases fuel, 0int,
    {
        if fuel == 0 {
            return Err(diag("expression nests too deeply"));
        }
        let (it, itt) = self.expr(iter, fuel - 1)?;
        let (arr, et, is_range) = match itt {
            Typ::Range => (it, Typ::Int(64), true),
            Typ::Array(et) => (it, *et, false),
            Typ::Str => (self.op(Op::Bytes(it)), Typ::UInt(8), false),
            other => {
                let shown = self.show(&other);
                let d = diag3("cannot iterate over ", shown.as_slice(), "");
                proof {
                    reveal_strlit("cannot iterate over ");
                    assert(vstd::string::is_ascii("cannot iterate over "));
                    assert(d.msg@.take(20) =~= "cannot iterate over ".spec_bytes());
                }
                return Err(d);
            },
        };
        let idx = self.int_const(0);
        let len = if is_range {
            idx
        } else {
            self.op(Op::Len(arr))
        };
        let one = self.int_const(1);
        let depth = self.scopes.len();
        let saved_code = self.open_block();
        // a range may be open: it says itself whether it has a next element
        let more = if is_range {
            self.op(Op::RangeHas(arr, idx))
        } else {
            self.op(Op::Cmp(BinOp::Lt, idx, len, int64()))
        };
        let mut stop: Vec<Instr> = Vec::new();
        stop.push(Instr::Break);
        self.emit(Instr::If(more, Vec::new(), stop));
        let item = if is_range {
            self.op(Op::RangeAt(arr, idx))
        } else {
            self.op(Op::Index(arr, idx))
        };
        self.emit(Instr::Store(idx, Op::Arith(BinOp::Add, idx, one, int64())));
        self.loops.push(LoopFrame { depth });
        let saved = self.enter_scope();
        self.declare(var, item, et, false);
        let flow = self.block_tail(body, None, fuel - 1);
        let flow = self.leave_scope(saved, flow, fuel - 1);
        self.loops.pop();
        let flow = match flow {
            Ok(f) => f,
            Err(e) => {
                let _ = self.close_block(saved_code);
                return Err(e);
            },
        };
        if let Some((v, t)) = flow {
            if self.is_temp(v) {
                self.untemp(v);
            }
            self.release_value(v, &t);
        }
        let code = self.close_block(saved_code);
        self.emit(Instr::Loop(code));
        Ok(Some(self.unit_value()))
    }

    /// The test that a pattern makes of the subject; enum patterns give the payload to bind.
    pub(crate) fn pattern_test(&mut self, pat: &'a Expr, s: usize, st: &Typ, fuel: u64) -> (r: Result<
        (usize, Option<(u64, &'a Vec<Expr>, Vec<Typ>)>),
        Diagnostic,
    >)
        decreases fuel, 0int,
    {
        if fuel == 0 {
            return Err(diag("pattern nests too deeply"));
        }
        let variant: Option<(&'a Vec<u8>, Option<&'a Vec<Expr>>)> = match pat {
            Expr::EnumShorthand { variant, args } => Some((variant, Some(args))),
            Expr::MethodCall { recv, method, args } => match &**recv {
                Expr::Ident(_) | Expr::Call { .. } => Some((method, Some(args))),
                _ => None,
            },
            Expr::Field { obj, field } => match &**obj {
                Expr::Ident(n) => if self.find_var(n.as_slice()).is_none() {
                    Some((field, None))
                } else {
                    None
                },
                Expr::Call { .. } => Some((field, None)),
                _ => None,
            },
            _ => None,
        };
        match variant {
            Some((name, args)) => {
                let (tag, payload) = match variant_of(st, name.as_slice(), &self.enums) {
                    Some(x) => x,
                    None => {
                        let shown = self.show(st);
                        return Err(diag4("no variant `", name.as_slice(), "` in ", shown.as_slice()));
                    },
                };
                let tg = self.op(Op::Tag(s));
                let want = self.int_const(tag as i64);
                let c = self.op(Op::Cmp(BinOp::Eq, tg, want, int64()));
                match args {
                    Some(a) => Ok((c, Some((tag, a, payload)))),
                    None => Ok((c, None)),
                }
            },
            None => match pat {
                Expr::Ident(n) => {
                    if is(n.as_slice(), "_") {
                        Ok((self.bool_const(true), None))
                    } else {
                        let (v, vt) = self.lower(pat, Some(st), fuel - 1)?;
                        if !vt.same(st) {
                            let sa = self.show(&vt);
                            let sb = self.show(st);
                            return Err(diag4("match pattern (", sa.as_slice(), ") does not match subject ", sb.as_slice()));
                        }
                        Ok((self.op(Op::Cmp(BinOp::Eq, s, v, crate::translator::num_kind(st))), None))
                    }
                },
                Expr::Range { .. } => {
                    let (r, _) = self.lower(pat, None, fuel - 1)?;
                    Ok((self.op(Op::InRange(s, r)), None))
                },
                Expr::Spread(_) => {
                    // `..n` is everything below `n`
                    let (r, _) = self.lower(pat, None, fuel - 1)?;
                    Ok((self.op(Op::InRange(s, r)), None))
                },
                _ => {
                    let (v, vt) = self.lower(pat, Some(st), fuel - 1)?;
                    if !vt.same(st) {
                        let sa = self.show(&vt);
                        let sb = self.show(st);
                        return Err(diag4("match pattern (", sa.as_slice(), ") does not match subject ", sb.as_slice()));
                    }
                    Ok((self.op(Op::Cmp(BinOp::Eq, s, v, crate::translator::num_kind(st))), None))
                },
            },
        }
    }

    /// A match covers every variant of its subject (`names`, in tag order), unless it has an
    /// `else` or a `_` arm; otherwise the error lists the variants left out, in order.
    pub(crate) fn exhaustive(&self, names: &Vec<Vec<u8>>, arms: &Vec<MatchArm>, has_else: bool) -> (r: Result<(), Diagnostic>)
        ensures
            r is Ok <==> (has_else || has_wildcard(arms@) || forall|k: int| 0 <= k < names@.len() ==> arm_covers(arms@, #[trigger] names@[k]@)),
            r matches Err(d) ==> d.msg@.take(31) == "non-exhaustive match, missing: ".spec_bytes(),
    {
        let mut catch_all = has_else;
        let mut i: usize = 0;
        while i < arms.len()
            invariant
                i <= arms@.len(),
                catch_all == (has_else || exists|a: int, j: int| 0 <= a < i && 0 <= j < arms@[a].patterns@.len() && is_wildcard(
                    #[trigger] arms@[a].patterns@[j],
                )),
            decreases arms@.len() - i,
        {
            let mut j: usize = 0;
            while j < arms[i].patterns.len()
                invariant
                    i < arms@.len(),
                    j <= arms@[i as int].patterns@.len(),
                    catch_all == (has_else || (exists|a: int, b: int| 0 <= a < i && 0 <= b < arms@[a].patterns@.len() && is_wildcard(
                        #[trigger] arms@[a].patterns@[b],
                    )) || (exists|b: int| 0 <= b < j && is_wildcard(#[trigger] arms@[i as int].patterns@[b]))),
                decreases arms@[i as int].patterns@.len() - j,
            {
                if let Expr::Ident(n) = &arms[i].patterns[j] {
                    if is(n.as_slice(), "_") {
                        catch_all = true;
                    }
                }
                proof {
                    if is_wildcard(arms@[i as int].patterns@[j as int]) {
                        assert(catch_all);
                    }
                }
                j = j + 1;
            }
            proof {
                assert forall|a: int, b: int| 0 <= a < i + 1 && 0 <= b < arms@[a].patterns@.len() && is_wildcard(
                    #[trigger] arms@[a].patterns@[b],
                ) implies catch_all by {
                    if a == i {
                        assert(0 <= b < j);
                    }
                }
            }
            i = i + 1;
        }
        if catch_all {
            return Ok(());
        }
        let mut missing: Vec<u8> = Vec::new();
        let mut uncovered = false;
        let mut k: usize = 0;
        while k < names.len()
            invariant
                k <= names@.len(),
                uncovered == exists|q: int| 0 <= q < k && !arm_covers(arms@, #[trigger] names@[q]@),
            decreases names@.len() - k,
        {
            if !self.covers(arms, names[k].as_slice()) {
                if uncovered {
                    push_str(&mut missing, ", ");
                }
                push_all(&mut missing, names[k].as_slice());
                uncovered = true;
            }
            k = k + 1;
        }
        if uncovered {
            let d = diag3("non-exhaustive match, missing: ", missing.as_slice(), "");
            proof {
                reveal_strlit("non-exhaustive match, missing: ");
                assert(vstd::string::is_ascii("non-exhaustive match, missing: "));
                assert("non-exhaustive match, missing: ".spec_bytes().len() == 31);
                assert(d.msg@.take(31) =~= "non-exhaustive match, missing: ".spec_bytes());
            }
            return Err(d);
        }
        Ok(())
    }

    /// `match`: the first arm whose pattern holds runs.
    pub(crate) fn match_expr(&mut self, subject: &'a Expr, arms: &'a Vec<MatchArm>, els: Option<&'a Vec<Expr>>, hint: Option<&Typ>, fuel: u64) -> (r: Result<
        Option<(usize, Typ)>,
        Diagnostic,
    >)
        ensures
            fuel == 0 ==> (r matches Err(d) && d.msg@ == "expression nests too deeply".spec_bytes()),
            fuel > 1 ==> (*subject matches Expr::Ident(n) ==> forall|i: int| #[trigger] old(self).innermost(n@, i) ==> (
            !match_covers(arms@, els is Some, old(self).vars@[i].1.typ, old(self).enums@) ==> (r matches Err(d)
                && d.msg@.take(31) == "non-exhaustive match, missing: ".spec_bytes()))),
        decreases fuel, 0int,
    {
        if fuel == 0 {
            return Err(diag("expression nests too deeply"));
        }
        let (s, st) = self.expr(subject, fuel - 1)?;
        // an enum match covers every variant, unless it has a catch-all
        let names = variant_names(&st, &self.enums);
        proof {
            if fuel > 1 && *subject is Ident {
                let n = subject->Ident_0;
                if exists|i: int| #[trigger] old(self).innermost(n@, i) {
                    let i = choose|i: int| #[trigger] old(self).innermost(n@, i);
                    let t = old(self).vars@[i].1.typ;
                    if !match_covers(arms@, els is Some, t, old(self).enums@) {
                        assert(typ_eq(t, st));
                        if t is Option {
                            assert(!arm_covers(arms@, names@[0]@) || !arm_covers(arms@, names@[1]@));
                        } else if t is Result {
                            assert(!arm_covers(arms@, names@[0]@) || !arm_covers(arms@, names@[1]@));
                        } else if t is Enum {
                            let id = t->Enum_0;
                            let k = choose|k: int|
                                0 <= k < old(self).enums@[id as int].variants@.len() && !arm_covers(
                                    arms@,
                                    #[trigger] old(self).enums@[id as int].variants@[k].name@,
                                );
                            assert(!arm_covers(arms@, names@[k]@));
                        }
                    }
                }
            }
        }
        self.exhaustive(&names, arms, els.is_some())?;
        let out = self.slot();
        let mut rt: Option<Typ> = None;
        let mut parts: Vec<(Vec<Instr>, usize, Vec<Instr>)> = Vec::new();
        let mut i: usize = 0;
        while i < arms.len()
            invariant
                i <= arms@.len(),
            decreases arms@.len() - i,
        {
            let arm = &arms[i];
            // the test: any of the arm's patterns
            let saved_code = self.open_block();
            let tested = self.arm_test(arm, s, &st, fuel - 1);
            let test = self.close_block(saved_code);
            let (c, binds) = match tested {
                Ok((c, _, binds)) => (c, binds),
                Err(e) => {
                    return Err(e);
                },
            };
            // the body, with the payload bound
            let saved_code = self.open_block();
            let saved = self.enter_scope();
            match &binds {
                Some((_, args, payload)) => {
                    let mut k: usize = 0;
                    while k < args.len()
                        invariant
                            k <= args@.len(),
                        decreases args@.len() - k,
                    {
                        if let Expr::Ident(n) = &args[k] {
                            if k < payload.len() && !crate::text::is(n.as_slice(), "_") {
                                let p = self.op(Op::Payload(s, k));
                                self.bind_local(n.as_slice(), p, payload[k].copy(), false);
                            }
                        }
                        k = k + 1;
                    }
                },
                None => {},
            }
            let h = match &rt {
                Some(t) => Some(t.copy()),
                None => match hint {
                    Some(t) => Some(t.copy()),
                    None => None,
                },
            };
            let flow = match &h {
                Some(t) => self.block_tail(&arm.body, Some(t), fuel - 1),
                None => self.block_tail(&arm.body, None, fuel - 1),
            };
            let flow = self.leave_scope(saved, flow, fuel - 1);
            let flow = match flow {
                Ok(f) => f,
                Err(e) => {
                    let _ = self.close_block(saved_code);
                    return Err(e);
                },
            };
            let mut merge_err: Option<Diagnostic> = None;
            match &flow {
                Some((v, t)) => {
                    match self.merge_types("match", &rt, t) {
                        Ok(m) => {
                            rt = Some(m);
                        },
                        Err(e) => {
                            merge_err = Some(e);
                        },
                    }
                    self.emit(Instr::Store(out, Op::Copy(*v)));
                },
                None => {},
            }
            let body = self.close_block(saved_code);
            if let Some(e) = merge_err {
                return Err(e);
            }
            parts.push((test, c, body));
            i = i + 1;
        }
        // no arm matched
        let saved_code = self.open_block();
        let else_flow = match els {
            Some(b) => {
                let h = match &rt {
                    Some(t) => Some(t.copy()),
                    None => None,
                };
                match &h {
                    Some(t) => self.scoped(b, Some(t), fuel - 1),
                    None => self.scoped(b, None, fuel - 1),
                }
            },
            None => {
                let t = match &rt {
                    Some(t) => t.copy(),
                    None => Typ::unit(),
                };
                match self.zero(&t, fuel - 1) {
                    Ok(z) => Ok(Some((z, t))),
                    Err(e) => Err(e),
                }
            },
        };
        let else_flow = match else_flow {
            Ok(f) => f,
            Err(e) => {
                let _ = self.close_block(saved_code);
                return Err(e);
            },
        };
        let mut merge_err: Option<Diagnostic> = None;
        match &else_flow {
            Some((v, t)) => {
                match self.merge_types("match", &rt, t) {
                    Ok(m) => {
                        rt = Some(m);
                    },
                    Err(e) => {
                        merge_err = Some(e);
                    },
                }
                self.emit(Instr::Store(out, Op::Copy(*v)));
            },
            None => {},
        }
        let mut tail = self.close_block(saved_code);
        if let Some(e) = merge_err {
            return Err(e);
        }
        // chain the arms: each arm's test runs only when the earlier ones failed
        while parts.len() > 0
            decreases parts@.len(),
        {
            let (test, c, body) = parts.pop().unwrap();
            let mut block = test;
            block.push(Instr::If(c, body, tail));
            tail = block;
        }
        let mut k: usize = 0;
        let mut tail = tail;
        let mut rev: Vec<Instr> = Vec::new();
        while tail.len() > 0
            decreases tail@.len(),
        {
            rev.push(tail.pop().unwrap());
        }
        while rev.len() > 0
            decreases rev@.len(),
        {
            let ins = rev.pop().unwrap();
            self.emit(ins);
        }
        match rt {
            Some(t) => {
                self.temp(out, t.copy());
                Ok(Some((out, t)))
            },
            None => Ok(None),
        }
    }

    /// Whether some arm names a variant.
    pub(crate) fn covers(&self, arms: &Vec<MatchArm>, name: &[u8]) -> (r: bool)
        ensures
            r == exists|i: int, j: int|
                0 <= i < arms@.len() && 0 <= j < arms@[i].patterns@.len() && names_variant(
                    #[trigger] arms@[i].patterns@[j],
                    name@,
                ),
    {
        let mut i: usize = 0;
        while i < arms.len()
            invariant
                i <= arms@.len(),
                forall|a: int, b: int|
                    0 <= a < i && 0 <= b < arms@[a].patterns@.len() ==> !names_variant(
                        #[trigger] arms@[a].patterns@[b],
                        name@,
                    ),
            decreases arms@.len() - i,
        {
            let mut j: usize = 0;
            while j < arms[i].patterns.len()
                invariant
                    i < arms@.len(),
                    j <= arms@[i as int].patterns@.len(),
                    forall|a: int, b: int|
                        0 <= a < i && 0 <= b < arms@[a].patterns@.len() ==> !names_variant(
                            #[trigger] arms@[a].patterns@[b],
                            name@,
                        ),
                    forall|b: int| 0 <= b < j ==> !names_variant(#[trigger] arms@[i as int].patterns@[b], name@),
                decreases arms@[i as int].patterns@.len() - j,
            {
                let hit = match &arms[i].patterns[j] {
                    Expr::EnumShorthand { variant, .. } => crate::text::bytes_eq(variant.as_slice(), name),
                    Expr::MethodCall { method, .. } => crate::text::bytes_eq(method.as_slice(), name),
                    Expr::Field { field, .. } => crate::text::bytes_eq(field.as_slice(), name),
                    _ => false,
                };
                assert(hit == names_variant(arms@[i as int].patterns@[j as int], name@));
                if hit {
                    return true;
                }
                j = j + 1;
            }
            i = i + 1;
        }
        false
    }

    /// `value or body`: the payload of a `?T`/`!T`, or the body's value, which sees the error as `$`.
    pub(crate) fn or_else(&mut self, value: &'a Expr, body: &'a Vec<Expr>, fuel: u64) -> (r: Result<
        (usize, Typ),
        Diagnostic,
    >)
        ensures
            fuel == 0 ==> (r matches Err(d) && d.msg@ == "expression nests too deeply".spec_bytes()),
            r matches Ok((o, _)) ==> {
                &&& final(self).code@.len() >= 1
                &&& final(self).code@.last() matches Instr::If(_, happy, _)
                &&& happy@.len() == 1
                &&& happy@[0] matches Instr::Store(d, Op::Payload(_, k))
                &&& d == o
                &&& k == 0
            },
        decreases fuel, 0int,
    {
        if fuel == 0 {
            return Err(diag("expression nests too deeply"));
        }
        let (v, t) = self.expr(value, fuel - 1)?;
        let (inner, happy, err) = match t {
            Typ::Option(i) => (*i, 1i64, None),
            Typ::Result(ok, e) => (*ok, 0i64, Some(*e)),
            other => {
                let shown = self.show(&other);
                return Err(diag3("`or` needs a `?T`/`!T` value, got ", shown.as_slice(), ""));
            },
        };
        let tag = self.op(Op::Tag(v));
        let h = self.int_const(happy);
        let c = self.op(Op::Cmp(BinOp::Eq, tag, h, int64()));
        let out = self.slot();
        let mut then_code: Vec<Instr> = Vec::new();
        then_code.push(Instr::Store(out, Op::Payload(v, 0)));
        let saved_code = self.open_block();
        let dollar = match err {
            Some(e) => (self.op(Op::Payload(v, 0)), e),
            None => self.unit_value(),
        };
        let mut saved_dollar = Some(dollar);
        std::mem::swap(&mut saved_dollar, &mut self.dollar);
        let flow = self.scoped(body, Some(&inner), fuel - 1);
        self.dollar = saved_dollar;
        let flow = match flow {
            Ok(f) => f,
            Err(e) => {
                let _ = self.close_block(saved_code);
                return Err(e);
            },
        };
        let mut bad: Option<Diagnostic> = None;
        match &flow {
            Some((bv, bt)) => {
                if !bt.same(&inner) {
                    let sa = self.show(bt);
                    let sb = self.show(&inner);
                    bad = Some(diag4("`or` body gives ", sa.as_slice(), ", expected ", sb.as_slice()));
                }
                self.emit(Instr::Store(out, Op::Copy(*bv)));
            },
            None => {},
        }
        let else_code = self.close_block(saved_code);
        if let Some(e) = bad {
            return Err(e);
        }
        self.emit(Instr::If(c, then_code, else_code));
        self.temp(out, inner.copy());
        Ok((out, inner))
    }

    /// `value?`: the payload, or an early return of the `none`/error from the enclosing fn.
    pub(crate) fn propagate(&mut self, value: &'a Expr, fuel: u64) -> (r: Result<(usize, Typ), Diagnostic>)
        ensures
            fuel == 0 ==> (r matches Err(d) && d.msg@ == "expression nests too deeply".spec_bytes()),
            r matches Ok((x, _)) ==> {
                let c = final(self).code@;
                &&& c.len() >= 2
                &&& c.last() matches Instr::Store(y, Op::Payload(_, k))
                &&& y == x
                &&& k == 0
                &&& c[c.len() - 2] matches Instr::If(_, a, b)
                &&& a@.len() == 0
                &&& b@.len() >= 1
                &&& (b@.last() is Abort || b@.last() is Return)
            },
            fuel > 1 ==> (*value matches Expr::Ident(n) ==> forall|i: int| #[trigger] old(self).innermost(n@, i) ==> {
                let vt = old(self).vars@[i].1.typ;
                &&& !(vt is Option || vt is Result) ==> r is Err
                &&& vt matches Typ::Option(inner) ==> (old(self).ret is None || old(self).ret matches Some(Typ::Option(_))
                    || r is Err) && (old(self).ret is None ==> r is Ok)
                &&& vt matches Typ::Result(ok, _) ==> (old(self).ret is None || old(self).ret matches Some(Typ::Result(_, _))
                    || r is Err) && (old(self).ret is None ==> r is Ok)
            }),
        decreases fuel, 0int,
    {
        if fuel == 0 {
            return Err(diag("expression nests too deeply"));
        }
        let (v, t) = self.expr(value, fuel - 1)?;
        let ret = match &self.ret {
            Some(rt) => Some(rt.copy()),
            None => None,
        };
        let (inner, is_result) = match &t {
            Typ::Option(i) => ((**i).copy(), false),
            Typ::Result(ok, _) => ((**ok).copy(), true),
            other => {
                let shown = self.show(other);
                return Err(diag3("`?` needs a `?T` or `!T` value, got ", shown.as_slice(), ""));
            },
        };
        let tag = self.op(Op::Tag(v));
        let h = self.int_const(
            if is_result {
                0
            } else {
                1
            },
        );
        let c = self.op(Op::Cmp(BinOp::Eq, tag, h, int64()));
        let saved_code = self.open_block();
        let sad = match &ret {
            None => {
                if is_result {
                    self.emit(Instr::Abort(lit("unwrapped an error")));
                } else {
                    self.emit(Instr::Abort(lit("unwrapped `none`")));
                }
                Ok(())
            },
            Some(rt) => {
                let rt = rt.copy();
                let ok = match (&rt, is_result) {
                    (Typ::Option(_), false) => true,
                    (Typ::Result(_, re), true) => match &t {
                        Typ::Result(_, te) => (**re).same(&**te) || matches!(**re, Typ::Error),
                        _ => false,
                    },
                    _ => false,
                };
                if !ok {
                    let shown = self.show(&rt);
                    Err(diag3("`?` needs an enclosing fn returning a matching `?T`/`!T`, found ", shown.as_slice(), ""))
                } else {
                    let rv = if is_result {
                        let e = self.op(Op::Payload(v, 0));
                        let mut one: Vec<usize> = Vec::new();
                        one.push(e);
                        self.op(Op::Enum(1, one))
                    } else {
                        self.op(Op::Enum(0, Vec::new()))
                    };
                    match self.release_scopes(0, Some((rv, rt)), fuel - 1) {
                        Ok(()) => {
                            self.emit(Instr::Return(rv));
                            Ok(())
                        },
                        Err(e) => Err(e),
                    }
                }
            },
        };
        let sad_code = self.close_block(saved_code);
        sad?;
        self.emit(Instr::If(c, Vec::new(), sad_code));
        Ok((self.op(Op::Payload(v, 0)), inner))
    }
}

} // verus!
