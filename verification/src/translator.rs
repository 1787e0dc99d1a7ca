#![verifier::loop_isolation(false)]
use vstd::prelude::*;
use vstd::string::StringSliceAdditionalSpecFns;

use crate::ast::{Access, Expr, TypeExpr, Variant};
use crate::ir::{Func, Instr, NumKind, Op, Val};
use crate::text::{bytes_eq, lit, push_all, push_str};
use crate::types::{EnumInfo, FieldDef, Typ, VariantInfo, copy_all, show, spec_base_name, typ_eq};

verus! {

/// A compile error.
#[derive(Debug)]
pub struct Diagnostic {
    pub msg: Vec<u8>,
}

/// A diagnostic with a fixed message.
pub fn diag(msg: &str) -> (d: Diagnostic)
    ensures
        d.msg@ == msg.spec_bytes(),
{
    Diagnostic { msg: lit(msg) }
}

/// A diagnostic whose message is `a`, then a name or type text, then `b`.
pub fn diag3(a: &str, mid: &[u8], b: &str) -> (d: Diagnostic)
    ensures
        d.msg@ == a.spec_bytes() + mid@ + b.spec_bytes(),
{
    Diagnostic { msg: crate::text::join3(a, mid, b) }
}

/// A named binding: the slot that holds it, its type, and whether it may be reassigned.
#[derive(Debug)]
pub struct Local {
    pub slot: usize,
    pub typ: Typ,
    pub mutable: bool,
}

impl Local {
    pub fn copy(&self) -> (r: Local)
        ensures
            r.slot == self.slot,
            r.mutable == self.mutable,
            typ_eq(self.typ, r.typ),
    {
        Local { slot: self.slot, typ: self.typ.copy(), mutable: self.mutable }
    }
}

/// A `defer` body, lowered again at every exit of its scope, with the bindings in scope where it stood.
pub struct Defer<'a> {
    pub body: &'a Expr,
    pub vars: Vec<(Vec<u8>, Local)>,
    pub on_err: bool,
}

/// A callable function: its name, parameter types and access, return type and index.
#[derive(Debug)]
pub struct FnSig {
    pub name: Vec<u8>,
    pub params: Vec<(Typ, Access)>,
    pub ret: Typ,
    pub id: usize,
    /// Whether the first parameter is the receiver, `self`.
    pub has_self: bool,
}

/// A struct definition: its fields, their defaults, and whether it has no zero value.
pub struct StructInfo<'a> {
    pub name: Vec<u8>,
    pub fields: Vec<FieldDef>,
    pub defaults: Vec<Option<&'a Expr>>,
    pub nozero: bool,
}

/// A generic definition waiting for type arguments: its name, type parameters and item.
pub struct GenericDef<'a> {
    pub name: Vec<u8>,
    pub params: Vec<Vec<u8>>,
    pub item: &'a Expr,
}

/// A loop being lowered: the scope depth outside its body.
pub struct LoopFrame {
    pub depth: usize,
}

/// Translates a program to instructions, checking types and ownership on the way.
pub struct Translator<'a> {
    // program-wide tables
    pub sigs: Vec<FnSig>,
    pub funcs: Vec<Func>,
    pub structs: Vec<StructInfo<'a>>,
    pub enums: Vec<EnumInfo>,
    pub generic_enums: Vec<GenericDef<'a>>,
    pub generic_structs: Vec<GenericDef<'a>>,
    pub generic_fns: Vec<GenericDef<'a>>,
    /// Instances of generic functions already compiled: key and function index.
    pub instances: Vec<(Vec<u8>, usize)>,
    /// The type arguments of generic instances: the instance's name, the generic's name, the arguments.
    pub instance_args: Vec<(Vec<u8>, Vec<u8>, Vec<Typ>)>,
    /// The functions marked `@pure`, which may not touch statics.
    pub pure_fns: Vec<Vec<u8>>,
    /// Whether the function being lowered is `@pure`.
    pub pure: bool,
    /// Statics: a name, its cell, its type, and whether it may be reassigned.
    pub statics: Vec<(Vec<u8>, usize, Typ, bool)>,
    /// `(type, trait)` pairs that claims established.
    pub claims: Vec<(Vec<u8>, Vec<u8>)>,
    pub aliases: Vec<(Vec<u8>, Typ)>,
    /// Trait names.
    pub traits: Vec<Vec<u8>>,
    /// Trait definitions, at the same positions as their names.
    pub trait_defs: Vec<&'a Expr>,
    /// The function that fills the statics, when the program has one.
    pub statics_fn: Option<usize>,
    /// Function bodies left to compile: function index, item, receiver type name and type bindings.
    pub pending: Vec<(usize, &'a Expr, Vec<u8>, Vec<(Vec<u8>, Typ)>)>,
    // per-function state
    pub vars: Vec<(Vec<u8>, Local)>,
    /// Owned slots per scope, innermost last.
    pub scopes: Vec<Vec<(usize, Typ)>>,
    pub defers: Vec<Vec<Defer<'a>>>,
    pub loops: Vec<LoopFrame>,
    pub deferring: bool,
    /// `$`: the slot and type of the implicit input, or of the value a `defer` sees.
    pub dollar: Option<(usize, Typ)>,
    /// The declared return type of the function being lowered; `None` in the entry.
    pub ret: Option<Typ>,
    /// Slots holding values that no binding owns yet.
    pub temps: Vec<usize>,
    /// The slots handed to `release_value` so far, in order: the record of what was released.
    pub released: Ghost<Seq<usize>>,
    /// Type parameters bound while an instance is compiled.
    pub type_env: Vec<(Vec<u8>, Typ)>,
    /// The type whose claim the current function fills, for `Self`.
    pub self_type: Vec<u8>,
    pub code: Vec<Instr>,
    pub nslots: usize,
}

/// The kind an integer type computes in; other types use 64-bit signed.
pub fn num_kind(t: &Typ) -> (k: NumKind)
    ensures
        t is Int ==> k == (NumKind { width: t->Int_0, signed: true }),
        t is UInt ==> k == (NumKind { width: t->UInt_0, signed: false }),
{
    match t {
        Typ::Int(w) => NumKind { width: *w, signed: true },
        Typ::UInt(w) => NumKind { width: *w, signed: false },
        _ => NumKind { width: 64, signed: true },
    }
}

/// Whether no type parameter of the instance being compiled has the name.
pub open spec fn unbound_type_param(env: Seq<(Vec<u8>, Typ)>, n: Seq<u8>) -> bool {
    forall|k: int| 0 <= k < env.len() ==> (#[trigger] env[k]).0@ != n
}

/// The number that a run of decimal digits spells.
pub open spec fn digits_value(s: Seq<u8>) -> nat
    decreases s.len(),
{
    if s.len() == 0 {
        0
    } else {
        digits_value(s.drop_last()) * 10 + (s.last() - 48) as nat
    }
}

/// Whether a name is `iN` or `uN` with `N` from 1 to 64 in decimal digits.
pub open spec fn sized_int_name(n: Seq<u8>) -> bool {
    &&& 2 <= n.len() <= 3
    &&& n[0] == 105 || n[0] == 117
    &&& forall|i: int| 1 <= i < n.len() ==> crate::lexer::is_digit(#[trigger] n[i])
    &&& 1 <= digits_value(n.skip(1)) <= 64
}

/// The integer type such a name spells.
pub open spec fn sized_int_type(n: Seq<u8>) -> Typ {
    if n[0] == 105 {
        Typ::Int(digits_value(n.skip(1)) as u32)
    } else {
        Typ::UInt(digits_value(n.skip(1)) as u32)
    }
}

/// The kind of integer such a name spells: signed for `iN`, unsigned for `uN`, of width `N`.
pub open spec fn sized_int_kind(n: Seq<u8>) -> NumKind {
    NumKind { width: digits_value(n.skip(1)) as u32, signed: n[0] == 105 }
}

/// The least (or, with `hi`, the greatest) value of the integer type such a name spells.
pub open spec fn sized_int_bound(n: Seq<u8>, hi: bool) -> i64 {
    if hi {
        crate::machine::spec_kind_bounds(sized_int_kind(n)).1 as i64
    } else {
        crate::machine::spec_kind_bounds(sized_int_kind(n)).0 as i64
    }
}

/// The bounds of the integer types that `iN` and `uN` name: `iN.min` is `-2^(N-1)` and
/// `iN.max` is `2^(N-1) - 1`; `uN.min` is 0 and, below 64 bits, `uN.max` is `2^N - 1`.
pub proof fn lemma_sized_int_bounds(n: Seq<u8>)
    requires
        sized_int_name(n),
    ensures
        n[0] == 105 ==> sized_int_bound(n, false) == -vstd::arithmetic::power2::pow2((digits_value(n.skip(1)) - 1) as nat)
            && sized_int_bound(n, true) == vstd::arithmetic::power2::pow2((digits_value(n.skip(1)) - 1) as nat) - 1,
        n[0] == 117 ==> sized_int_bound(n, false) == 0,
        n[0] == 117 && digits_value(n.skip(1)) < 64 ==> sized_int_bound(n, true) == vstd::arithmetic::power2::pow2(
            digits_value(n.skip(1)),
        ) - 1,
{
    let w = digits_value(n.skip(1));
    vstd::arithmetic::power2::lemma2_to64();
    vstd::arithmetic::power2::lemma2_to64_rest();
    if w - 1 < 63 {
        vstd::arithmetic::power2::lemma_pow2_strictly_increases((w - 1) as nat, 63);
    }
    if w < 63 {
        vstd::arithmetic::power2::lemma_pow2_strictly_increases(w, 63);
    }
}

/// The integer type a name spells: `int`, `iN`, `uN`, `isize`, `usize`, `byte`.
pub(crate) fn int_type_named(n: &[u8]) -> (r: Option<Typ>)
    ensures
        2 <= n@.len() <= 3 && (n@[0] == 105 || n@[0] == 117) && (forall|i: int| 1 <= i < n@.len() ==> crate::lexer::is_digit(
            #[trigger] n@[i],
        )) ==> r == (if 1 <= digits_value(n@.skip(1)) <= 64 {
            if n@[0] == 105 {
                Some(Typ::Int(digits_value(n@.skip(1)) as u32))
            } else {
                Some(Typ::UInt(digits_value(n@.skip(1)) as u32))
            }
        } else {
            None::<Typ>
        }),
        n@ == "int".spec_bytes() || n@ == "isize".spec_bytes() ==> r == Some(Typ::Int(64)),
        n@ == "usize".spec_bytes() || n@ == "uint".spec_bytes() ==> r == Some(Typ::UInt(64)),
        n@ == "byte".spec_bytes() ==> r == Some(Typ::UInt(8)),
        r matches Some(t) ==> (t matches Typ::Int(w) && 1 <= w <= 64) || (t matches Typ::UInt(w) && 1 <= w <= 64),
        r is Some && n@ != "int".spec_bytes() && n@ != "isize".spec_bytes() && n@ != "usize".spec_bytes() && n@
            != "uint".spec_bytes() && n@ != "byte".spec_bytes() ==> 2 <= n@.len() <= 3 && (n@[0] == 105 || n@[0] == 117)
            && forall|i: int| 1 <= i < n@.len() ==> crate::lexer::is_digit(#[trigger] n@[i]),
{
    proof {
        reveal_strlit("int");
        reveal_strlit("isize");
        reveal_strlit("usize");
        reveal_strlit("uint");
        assert(vstd::string::is_ascii("isize") && vstd::string::is_ascii("usize") && vstd::string::is_ascii("int"));
        assert(vstd::string::is_ascii("uint"));
        assert("isize".spec_bytes()[0] != "usize".spec_bytes()[0]);
        assert("int".spec_bytes().len() != "uint".spec_bytes().len());
        reveal_strlit("byte");
        assert(vstd::string::is_ascii("byte"));
        assert("byte".spec_bytes()[0] != "uint".spec_bytes()[0]);
        assert("byte".spec_bytes().len() != "int".spec_bytes().len());
        assert("byte".spec_bytes().len() != "isize".spec_bytes().len());
        assert("byte".spec_bytes().len() != "usize".spec_bytes().len());
    }
    if crate::text::is(n, "int") || crate::text::is(n, "isize") {
        return Some(Typ::Int(64));
    }
    if crate::text::is(n, "usize") || crate::text::is(n, "uint") {
        return Some(Typ::UInt(64));
    }
    if crate::text::is(n, "byte") {
        return Some(Typ::UInt(8));
    }
    if n.len() >= 2 && n.len() <= 3 && (n[0] == 105 || n[0] == 117) {
        let mut w: u32 = 0;
        let mut i: usize = 1;
        while i < n.len()
            invariant
                1 <= i <= n@.len() <= 3,
                w < 100,
                w == digits_value(n@.subrange(1, i as int)),
                forall|j: int| 1 <= j < i ==> crate::lexer::is_digit(#[trigger] n@[j]),
            decreases n@.len() - i,
        {
            if n[i] < 48 || n[i] > 57 {
                return None;
            }
            proof {
                assert(n@.subrange(1, i + 1).drop_last() =~= n@.subrange(1, i as int));
                if i == 2 {
                    let d = n@.subrange(1, 2);
                    assert(d.drop_last() =~= Seq::<u8>::empty());
                    assert(digits_value(d.drop_last()) == 0);
                    assert(d.len() == 1 && d.last() == n@[1]);
                    assert(digits_value(d) == (n@[1] - 48) as nat);
                }
                assert(digits_value(n@.subrange(1, i as int)) < 10);
            }
            w = (w * 10 + (n[i] - 48) as u32) % 100;
            i = i + 1;
        }
        assert(n@.subrange(1, n@.len() as int) =~= n@.skip(1));
        if w == 0 || w > 64 {
            return None;
        }
        if n[0] == 105 {
            return Some(Typ::Int(w));
        }
        return Some(Typ::UInt(w));
    }
    None
}

impl<'a> Translator<'a> {
    /// An empty translator: no definitions, no function being lowered.
    pub fn new() -> (r: Self)
        ensures
            r.sigs@.len() == 0,
            r.funcs@.len() == 0,
            r.structs@.len() == 0,
            r.enums@.len() == 0,
            r.claims@.len() == 0,
            r.statics@.len() == 0,
            r.vars@.len() == 0,
            r.scopes@.len() == 0,
            r.defers@.len() == 0,
            r.loops@.len() == 0,
            r.temps@.len() == 0,
            r.code@.len() == 0,
            r.nslots == 0,
            !r.deferring,
            r.dollar is None,
            r.ret is None,
            r.pending@.len() == 0,
    {
        Translator {
            sigs: Vec::new(),
            funcs: Vec::new(),
            structs: Vec::new(),
            enums: Vec::new(),
            generic_enums: Vec::new(),
            generic_structs: Vec::new(),
            generic_fns: Vec::new(),
            instances: Vec::new(),
            instance_args: Vec::new(),
            pure_fns: Vec::new(),
            pure: false,
            statics: Vec::new(),
            claims: Vec::new(),
            aliases: Vec::new(),
            traits: Vec::new(),
            trait_defs: Vec::new(),
            statics_fn: None,
            pending: Vec::new(),
            vars: Vec::new(),
            scopes: Vec::new(),
            defers: Vec::new(),
            loops: Vec::new(),
            deferring: false,
            dollar: None,
            ret: None,
            temps: Vec::new(),
            released: Ghost(Seq::empty()),
            type_env: Vec::new(),
            self_type: Vec::new(),
            code: Vec::new(),
            nslots: 0,
        }
    }

    // ------------------------------------------------------------ emission
    /// A fresh slot.
    pub fn slot(&mut self) -> (r: usize)
        ensures
            final(self).defers == old(self).defers,
            final(self).released == old(self).released,
            final(self).pending == old(self).pending,
            final(self).funcs == old(self).funcs,
            final(self).sigs == old(self).sigs,
            final(self).statics_fn == old(self).statics_fn,
            r == old(self).nslots,
            final(self).nslots == r + 1 || r == usize::MAX,
            final(self).scopes == old(self).scopes,
            final(self).vars == old(self).vars,
            final(self).temps == old(self).temps,
            final(self).code == old(self).code,
    {
        let s = self.nslots;
        if self.nslots < usize::MAX {
            self.nslots = self.nslots + 1;
        }
        s
    }

    /// Append an instruction to the current block.
    pub fn emit(&mut self, i: Instr)
        ensures
            final(self).defers == old(self).defers,
            final(self).released == old(self).released,
            final(self).pending == old(self).pending,
            final(self).funcs == old(self).funcs,
            final(self).sigs == old(self).sigs,
            final(self).statics_fn == old(self).statics_fn,
            final(self).scopes == old(self).scopes,
            final(self).vars == old(self).vars,
            final(self).temps == old(self).temps,
            final(self).nslots == old(self).nslots,
            final(self).code@ == old(self).code@.push(i),
    {
        self.code.push(i);
    }

    /// Emit `op` into a fresh slot and return the slot.
    pub fn op(&mut self, o: Op) -> (r: usize)
        ensures
            final(self).defers == old(self).defers,
            final(self).released == old(self).released,
            final(self).pending == old(self).pending,
            final(self).funcs == old(self).funcs,
            final(self).sigs == old(self).sigs,
            final(self).statics_fn == old(self).statics_fn,
            r == old(self).nslots,
            final(self).nslots == r + 1 || r == usize::MAX,
            final(self).scopes == old(self).scopes,
            final(self).vars == old(self).vars,
            final(self).temps == old(self).temps,
            final(self).code@ == old(self).code@.push(Instr::Store(r, o)),
    {
        let s = self.slot();
        self.emit(Instr::Store(s, o));
        s
    }

    /// Emit a constant into a fresh slot.
    pub fn constant(&mut self, v: Val) -> (r: usize)
        ensures
            final(self).defers == old(self).defers,
            final(self).released == old(self).released,
            final(self).pending == old(self).pending,
            final(self).funcs == old(self).funcs,
            final(self).sigs == old(self).sigs,
            final(self).statics_fn == old(self).statics_fn,
            r == old(self).nslots,
            final(self).nslots == r + 1 || r == usize::MAX,
            final(self).scopes == old(self).scopes,
            final(self).vars == old(self).vars,
            final(self).temps == old(self).temps,
            final(self).code@ == old(self).code@.push(Instr::Store(r, Op::Const(v))),
    {
        self.op(Op::Const(v))
    }

    /// The unit value.
    pub(crate) fn unit_value(&mut self) -> (r: (usize, Typ))
        ensures
            final(self).scopes == old(self).scopes,
            final(self).vars == old(self).vars,
            final(self).temps == old(self).temps,
            r.1.is_unit(),
            r.0 == old(self).nslots,
            final(self).code@ == old(self).code@.push(Instr::Store(r.0, Op::Const(Val::Unit))),
    {
        (self.constant(Val::Unit), Typ::unit())
    }

    /// Start collecting instructions into a fresh block, returning the outer one.
    pub(crate) fn open_block(&mut self) -> (saved: Vec<Instr>)
        ensures
            saved == old(self).code,
            final(self).code@.len() == 0,
            final(self).scopes == old(self).scopes,
            final(self).vars == old(self).vars,
            final(self).temps == old(self).temps,
            final(self).nslots == old(self).nslots,
    {
        let mut saved: Vec<Instr> = Vec::new();
        std::mem::swap(&mut saved, &mut self.code);
        saved
    }

    /// Finish the current block, going back to the outer one; returns the finished block.
    pub(crate) fn close_block(&mut self, saved: Vec<Instr>) -> (block: Vec<Instr>)
        ensures
            block == old(self).code,
            final(self).code == saved,
            final(self).scopes == old(self).scopes,
            final(self).vars == old(self).vars,
            final(self).temps == old(self).temps,
            final(self).nslots == old(self).nslots,
    {
        let mut saved = saved;
        std::mem::swap(&mut saved, &mut self.code);
        saved
    }

    // ------------------------------------------------------------ variables
    /// The index of the innermost binding of `name`, if any.
    pub fn find_var(&self, name: &[u8]) -> (r: Option<usize>)
        ensures
            r matches Some(i) ==> i < self.vars@.len() && self.vars@[i as int].0@ == name@ && forall|j: int|
                i < j < self.vars@.len() ==> self.vars@[j].0@ != name@,
            r is None ==> forall|i: int| 0 <= i < self.vars@.len() ==> self.vars@[i].0@ != name@,
    {
        let mut i = self.vars.len();
        while i > 0
            invariant
                i <= self.vars@.len(),
                forall|j: int| i <= j < self.vars@.len() ==> self.vars@[j].0@ != name@,
            decreases i,
        {
            i = i - 1;
            if bytes_eq(self.vars[i].0.as_slice(), name) {
                return Some(i);
            }
        }
        None
    }

    /// A copy of the innermost binding of `name`, if any.
    pub(crate) fn var(&self, name: &[u8]) -> (r: Option<Local>)
        ensures
            r is None <==> forall|i: int| 0 <= i < self.vars@.len() ==> self.vars@[i].0@ != name@,
            r matches Some(l) ==> exists|i: int|
                0 <= i < self.vars@.len() && self.vars@[i].0@ == name@ && (forall|j: int|
                    i < j < self.vars@.len() ==> self.vars@[j].0@ != name@) && l.slot == self.vars@[i].1.slot
                    && l.mutable == self.vars@[i].1.mutable && typ_eq(self.vars@[i].1.typ, l.typ),
    {
        match self.find_var(name) {
            Some(i) => Some(self.vars[i].1.copy()),
            None => None,
        }
    }

    /// Bind `name` to a slot without taking ownership of anything.
    pub fn declare(&mut self, name: &[u8], slot: usize, typ: Typ, mutable: bool)
        ensures
            final(self).scopes == old(self).scopes,
            final(self).temps == old(self).temps,
            final(self).vars@.len() == old(self).vars@.len() + 1,
            final(self).vars@.last().0@ == name@,
            final(self).vars@.last().1.slot == slot,
            final(self).vars@.last().1.mutable == mutable,
            final(self).vars@.drop_last() == old(self).vars@,
    {
        self.vars.push((crate::text::owned(name), Local { slot, typ, mutable }));
    }

    /// Forget every binding of `name`.
    pub fn forget(&mut self, name: &[u8])
        ensures
            final(self).scopes == old(self).scopes,
            final(self).temps == old(self).temps,
            final(self).loops == old(self).loops,
            final(self).deferring == old(self).deferring,
            forall|i: int| 0 <= i < final(self).vars@.len() ==> final(self).vars@[i].0@ != name@,
    {
        let mut kept: Vec<(Vec<u8>, Local)> = Vec::new();
        let mut vars: Vec<(Vec<u8>, Local)> = Vec::new();
        std::mem::swap(&mut vars, &mut self.vars);
        let mut rev: Vec<(Vec<u8>, Local)> = Vec::new();
        while vars.len() > 0
            invariant
                forall|i: int| 0 <= i < rev@.len() ==> rev@[i].0@ != name@,
            decreases vars@.len(),
        {
            let entry = vars.pop().unwrap();
            if !bytes_eq(entry.0.as_slice(), name) {
                rev.push(entry);
            }
        }
        while rev.len() > 0
            invariant
                forall|i: int| 0 <= i < rev@.len() ==> rev@[i].0@ != name@,
                forall|i: int| 0 <= i < kept@.len() ==> kept@[i].0@ != name@,
            decreases rev@.len(),
        {
            let entry = rev.pop().unwrap();
            kept.push(entry);
        }
        self.vars = kept;
    }

    /// A copy of all bindings.
    pub(crate) fn copy_vars(&self) -> (r: Vec<(Vec<u8>, Local)>)
        ensures
            r@.len() == self.vars@.len(),
            forall|j: int| 0 <= j < r@.len() ==> (#[trigger] r@[j]).0@ == self.vars@[j].0@ && r@[j].1.slot
                == self.vars@[j].1.slot && r@[j].1.mutable == self.vars@[j].1.mutable,
    {
        let mut out: Vec<(Vec<u8>, Local)> = Vec::new();
        let mut i: usize = 0;
        while i < self.vars.len()
            invariant
                i <= self.vars@.len(),
                out@.len() == i,
                forall|j: int| 0 <= j < i ==> (#[trigger] out@[j]).0@ == self.vars@[j].0@ && out@[j].1.slot
                    == self.vars@[j].1.slot && out@[j].1.mutable == self.vars@[j].1.mutable,
            decreases self.vars@.len() - i,
        {
            out.push((crate::text::owned(self.vars[i].0.as_slice()), self.vars[i].1.copy()));
            i = i + 1;
        }
        out
    }

    // ------------------------------------------------------------ tables
    /// The index of the function with a name.
    pub fn find_sig(&self, name: &[u8]) -> (r: Option<usize>)
        ensures
            r matches Some(i) ==> i < self.sigs@.len() && self.sigs@[i as int].name@ == name@,
            r is None ==> forall|i: int| 0 <= i < self.sigs@.len() ==> self.sigs@[i].name@ != name@,
    {
        let mut i: usize = 0;
        while i < self.sigs.len()
            invariant
                i <= self.sigs@.len(),
                forall|j: int| 0 <= j < i ==> self.sigs@[j].name@ != name@,
            decreases self.sigs@.len() - i,
        {
            if bytes_eq(self.sigs[i].name.as_slice(), name) {
                return Some(i);
            }
            i = i + 1;
        }
        None
    }

    /// The index of the function `owner.method`.
    pub(crate) fn find_method(&self, owner: &[u8], method: &[u8]) -> (r: Option<usize>)
        ensures
            r matches Some(i) ==> i < self.sigs@.len() && self.sigs@[i as int].name@ == owner@ + seq![46u8] + method@,
            r is None ==> forall|i: int| 0 <= i < self.sigs@.len() ==> self.sigs@[i].name@ != owner@ + seq![46u8] + method@,
    {
        let mut key = crate::text::owned(owner);
        key.push(46);
        push_all(&mut key, method);
        assert(key@ =~= owner@ + seq![46u8] + method@);
        self.find_sig(key.as_slice())
    }

    /// The index of the struct with a name.
    pub(crate) fn find_struct(&self, name: &[u8]) -> (r: Option<usize>)
        ensures
            r matches Some(i) ==> i < self.structs@.len() && self.structs@[i as int].name@ == name@,
            r matches Some(i) ==> forall|j: int| 0 <= j < i ==> (#[trigger] self.structs@[j]).name@ != name@,
            r is None ==> forall|j: int| 0 <= j < self.structs@.len() ==> (#[trigger] self.structs@[j]).name@ != name@,
    {
        let mut i: usize = 0;
        while i < self.structs.len()
            invariant
                i <= self.structs@.len(),
                forall|j: int| 0 <= j < i ==> (#[trigger] self.structs@[j]).name@ != name@,
            decreases self.structs@.len() - i,
        {
            if bytes_eq(self.structs[i].name.as_slice(), name) {
                return Some(i);
            }
            i = i + 1;
        }
        None
    }

    /// The index of the enum with a name.
    pub(crate) fn find_enum(&self, name: &[u8]) -> (r: Option<usize>)
        ensures
            r matches Some(i) ==> i < self.enums@.len() && self.enums@[i as int].name@ == name@,
            r matches Some(i) ==> forall|j: int| 0 <= j < i ==> (#[trigger] self.enums@[j]).name@ != name@,
            r is None ==> forall|j: int| 0 <= j < self.enums@.len() ==> (#[trigger] self.enums@[j]).name@ != name@,
    {
        let mut i: usize = 0;
        while i < self.enums.len()
            invariant
                i <= self.enums@.len(),
                forall|j: int| 0 <= j < i ==> (#[trigger] self.enums@[j]).name@ != name@,
            decreases self.enums@.len() - i,
        {
            if bytes_eq(self.enums[i].name.as_slice(), name) {
                return Some(i);
            }
            i = i + 1;
        }
        None
    }

    /// The index of a generic definition with a name in a list.
    pub(crate) fn find_generic(list: &Vec<GenericDef<'a>>, name: &[u8]) -> (r: Option<usize>)
        ensures
            r matches Some(i) ==> i < list@.len() && list@[i as int].name@ == name@,
            r matches Some(i) ==> forall|j: int| 0 <= j < i ==> (#[trigger] list@[j]).name@ != name@,
            r is None ==> forall|j: int| 0 <= j < list@.len() ==> (#[trigger] list@[j]).name@ != name@,
    {
        let mut i: usize = 0;
        while i < list.len()
            invariant
                i <= list@.len(),
                forall|j: int| 0 <= j < i ==> (#[trigger] list@[j]).name@ != name@,
            decreases list@.len() - i,
        {
            if bytes_eq(list[i].name.as_slice(), name) {
                return Some(i);
            }
            i = i + 1;
        }
        None
    }

    /// Whether the type named `typ` claims the trait.
    pub fn claims_name(&self, typ: &[u8], tr: &str) -> (r: bool)
        ensures
            r == spec_claims_name(self.claims@, typ@, tr.spec_bytes()),
    {
        let t = lit(tr);
        self.claims_trait(typ, t.as_slice())
    }

    /// Whether the type named `typ` claims the trait named `tr`.
    pub fn claims_trait(&self, typ: &[u8], tr: &[u8]) -> (r: bool)
        ensures
            r == spec_claims_name(self.claims@, typ@, tr@),
    {
        let base = crate::types::base_name(typ);
        let mut i: usize = 0;
        while i < self.claims.len()
            invariant
                i <= self.claims@.len(),
                base@ == spec_base_name(typ@),
                forall|j: int|
                    0 <= j < i ==> !((#[trigger] self.claims@[j]).0@ == typ@ || self.claims@[j].0@
                        == spec_base_name(typ@)) || self.claims@[j].1@ != tr@,
            decreases self.claims@.len() - i,
        {
            if (bytes_eq(self.claims[i].0.as_slice(), typ) || bytes_eq(
                self.claims[i].0.as_slice(),
                base.as_slice(),
            )) && bytes_eq(self.claims[i].1.as_slice(), tr) {
                assert(0 <= i < self.claims@.len());
                return true;
            }
            i = i + 1;
        }
        false
    }

    /// Whether a type claims a trait.
    pub fn claims(&self, typ: &Typ, tr: &str) -> (r: bool)
        ensures
            r == self.spec_claims(*typ, tr.spec_bytes()),
    {
        match typ {
            Typ::Struct(n, _) => n.len() > 0 && self.claims_name(n.as_slice(), tr),
            Typ::Enum(i) => {
                if *i < self.enums.len() {
                    self.claims_name(self.enums[*i].name.as_slice(), tr)
                } else {
                    false
                }
            },
            _ => false,
        }
    }

    /// Whether the claim table says that a type claims a trait: a named struct or an enum by its name.
    pub open spec fn spec_claims(&self, t: Typ, tr: Seq<u8>) -> bool {
        match t {
            Typ::Struct(n, _) => n@.len() > 0 && spec_claims_name(self.claims@, n@, tr),
            Typ::Enum(i) => i < self.enums@.len() && spec_claims_name(
                self.claims@,
                self.enums@[i as int].name@,
                tr,
            ),
            _ => false,
        }
    }

    /// The text of a type, for messages.
    pub(crate) fn show(&self, t: &Typ) -> (r: Vec<u8>)
        ensures
            crate::types::spec_show_leaf(*t, self.enums@) matches Some(s) ==> r@ == s,
            *t is Option ==> r@.len() > 0 && r@[0] == 63,
            *t is Result ==> r@.len() > 0 && r@[0] == 33,
            *t is Ref ==> r@.len() > 0 && r@[0] == 38,
    {
        show(t, &self.enums)
    }

    // ------------------------------------------------------------ types
    /// Resolve a written type.
    pub(crate) fn resolve(&mut self, te: &TypeExpr, fuel: u64) -> (r: Result<Typ, Diagnostic>)
        ensures
            fuel == 0 ==> r is Err,
            r matches Ok(t) ==> {
                &&& *te matches TypeExpr::Tuple(ts) ==> (t matches Typ::Tuple(us) && us@.len() == ts@.len())
                &&& *te matches TypeExpr::Sum(ts) ==> (t matches Typ::Sum(us) && us@.len() == ts@.len())
                &&& *te matches TypeExpr::Fn(ps, _) ==> (t matches Typ::Fn(qs, _) && qs@.len() == ps@.len())
                &&& (*te is Array || *te is FixedArray || *te is Rest) ==> t is Array
                &&& *te is Dict ==> t is Dict
                &&& *te is Option ==> t is Option
                &&& *te is Result ==> (t matches Typ::Result(_, e) && *e == Typ::Error)
            },
            fuel > 0 && *te is Atom ==> r == Ok::<Typ, Diagnostic>(Typ::Atom),
        decreases fuel,
    {
        if fuel == 0 {
            return Err(diag("type nests too deeply"));
        }
        match te {
            TypeExpr::Name(n) => self.named(n.as_slice(), fuel - 1),
            TypeExpr::Generic(n, args) => {
                let mut targs: Vec<Typ> = Vec::new();
                let mut i: usize = 0;
                while i < args.len()
                    invariant
                        i <= args@.len(),
                    decreases args@.len() - i,
                {
                    let t = self.resolve(&args[i], fuel - 1)?;
                    targs.push(t);
                    i = i + 1;
                }
                self.instantiate(n.as_slice(), targs, fuel - 1)
            },
            TypeExpr::Tuple(ts) => {
                let mut out: Vec<Typ> = Vec::new();
                let mut i: usize = 0;
                while i < ts.len()
                    invariant
                        i <= ts@.len(),
                        out@.len() == i,
                    decreases ts@.len() - i,
                {
                    let t = self.resolve(&ts[i], fuel - 1)?;
                    out.push(t);
                    i = i + 1;
                }
                Ok(Typ::Tuple(out))
            },
            TypeExpr::Array(e) => Ok(Typ::Array(Box::new(self.resolve(&**e, fuel - 1)?))),
            TypeExpr::FixedArray(e, _) => Ok(Typ::Array(Box::new(self.resolve(&**e, fuel - 1)?))),
            TypeExpr::Rest(e) => Ok(Typ::Array(Box::new(self.resolve(&**e, fuel - 1)?))),
            TypeExpr::Dict(k, v) => {
                let kt = self.resolve(&**k, fuel - 1)?;
                let vt = self.resolve(&**v, fuel - 1)?;
                Ok(Typ::Dict(Box::new(kt), Box::new(vt)))
            },
            TypeExpr::Option(e) => Ok(Typ::Option(Box::new(self.resolve(&**e, fuel - 1)?))),
            TypeExpr::Result(e) => Ok(
                Typ::Result(Box::new(self.resolve(&**e, fuel - 1)?), Box::new(Typ::Error)),
            ),
            TypeExpr::Fn(ps, r) => {
                let mut out: Vec<Typ> = Vec::new();
                let mut i: usize = 0;
                while i < ps.len()
                    invariant
                        i <= ps@.len(),
                        out@.len() == i,
                    decreases ps@.len() - i,
                {
                    let t = self.resolve(&ps[i], fuel - 1)?;
                    out.push(t);
                    i = i + 1;
                }
                let rt = self.resolve(&**r, fuel - 1)?;
                Ok(Typ::Fn(out, Box::new(rt)))
            },
            TypeExpr::Atom(_) => Ok(Typ::Atom),
            TypeExpr::Sum(alts) => {
                let mut out: Vec<Typ> = Vec::new();
                let mut i: usize = 0;
                while i < alts.len()
                    invariant
                        i <= alts@.len(),
                        out@.len() == i,
                    decreases alts@.len() - i,
                {
                    let t = self.resolve(&alts[i], fuel - 1)?;
                    out.push(t);
                    i = i + 1;
                }
                Ok(Typ::Sum(out))
            },
        }
    }

    /// The type a bare name stands for.
    pub(crate) fn named(&mut self, n: &[u8], fuel: u64) -> (r: Result<Typ, Diagnostic>)
        ensures
            fuel == 0 ==> r is Err,
            fuel > 0 && unbound_type_param(old(self).type_env@, n@) ==> {
                &&& n@ == "bool".spec_bytes() ==> r == Ok::<Typ, Diagnostic>(Typ::Bool)
                &&& n@ == "string".spec_bytes() ==> r == Ok::<Typ, Diagnostic>(Typ::Str)
                &&& n@ == "atom".spec_bytes() ==> r == Ok::<Typ, Diagnostic>(Typ::Atom)
                &&& n@ == "float".spec_bytes() ==> r == Ok::<Typ, Diagnostic>(Typ::Float(64))
                &&& n@ == "int".spec_bytes() ==> r == Ok::<Typ, Diagnostic>(Typ::Int(64))
                &&& n@ == "byte".spec_bytes() ==> r == Ok::<Typ, Diagnostic>(Typ::UInt(8))
            },
        decreases fuel,
    {
        if fuel == 0 {
            return Err(diag("type nests too deeply"));
        }
        proof {
            reveal_strlit("bool");
            reveal_strlit("string");
            reveal_strlit("atom");
            reveal_strlit("float");
            reveal_strlit("int");
            reveal_strlit("byte");
            reveal_strlit("Self");
            reveal_strlit("isize");
            reveal_strlit("usize");
            reveal_strlit("uint");
            reveal_strlit("f64");
            reveal_strlit("f32");
            assert(vstd::string::is_ascii("bool") && vstd::string::is_ascii("string") && vstd::string::is_ascii("atom"));
            assert(vstd::string::is_ascii("float") && vstd::string::is_ascii("int") && vstd::string::is_ascii("byte"));
            assert(vstd::string::is_ascii("Self") && vstd::string::is_ascii("isize") && vstd::string::is_ascii("usize"));
            assert(vstd::string::is_ascii("uint") && vstd::string::is_ascii("f64") && vstd::string::is_ascii("f32"));
            assert("bool".spec_bytes().len() == 4);
            assert("bool".spec_bytes()[0] == 98u8 && "bool".spec_bytes()[1] == 111u8);
            assert("string".spec_bytes().len() == 6);
            assert("string".spec_bytes()[0] == 115u8 && "string".spec_bytes()[1] == 116u8);
            assert("atom".spec_bytes().len() == 4);
            assert("atom".spec_bytes()[0] == 97u8 && "atom".spec_bytes()[1] == 116u8);
            assert("float".spec_bytes().len() == 5);
            assert("float".spec_bytes()[0] == 102u8 && "float".spec_bytes()[1] == 108u8);
            assert("int".spec_bytes().len() == 3);
            assert("int".spec_bytes()[0] == 105u8 && "int".spec_bytes()[1] == 110u8);
            assert("byte".spec_bytes().len() == 4);
            assert("byte".spec_bytes()[0] == 98u8 && "byte".spec_bytes()[1] == 121u8);
            assert("Self".spec_bytes().len() == 4);
            assert("Self".spec_bytes()[0] == 83u8 && "Self".spec_bytes()[1] == 101u8);
            assert("isize".spec_bytes().len() == 5);
            assert("isize".spec_bytes()[0] == 105u8 && "isize".spec_bytes()[1] == 115u8);
            assert("usize".spec_bytes().len() == 5);
            assert("usize".spec_bytes()[0] == 117u8 && "usize".spec_bytes()[1] == 115u8);
            assert("uint".spec_bytes().len() == 4);
            assert("uint".spec_bytes()[0] == 117u8 && "uint".spec_bytes()[1] == 105u8);
            assert("f64".spec_bytes().len() == 3);
            assert("f64".spec_bytes()[0] == 102u8 && "f64".spec_bytes()[1] == 54u8);
            assert("f32".spec_bytes().len() == 3);
            assert("f32".spec_bytes()[0] == 102u8 && "f32".spec_bytes()[1] == 51u8);
        }
        // type parameters of the instance being compiled
        let mut i: usize = self.type_env.len();
        while i > 0
            invariant
                i <= self.type_env@.len(),
            decreases i,
        {
            i = i - 1;
            if bytes_eq(self.type_env[i].0.as_slice(), n) {
                return Ok(self.type_env[i].1.copy());
            }
        }
        if crate::text::is(n, "Self") && self.self_type.len() > 0 {
            let st = self.self_type.clone();
            return self.named(st.as_slice(), fuel - 1);
        }
        if let Some(t) = int_type_named(n) {
            return Ok(t);
        }
        if crate::text::is(n, "float") || crate::text::is(n, "f64") {
            return Ok(Typ::Float(64));
        }
        if crate::text::is(n, "f32") {
            return Ok(Typ::Float(32));
        }
        if crate::text::is(n, "bool") {
            return Ok(Typ::Bool);
        }
        if crate::text::is(n, "string") {
            return Ok(Typ::Str);
        }
        if crate::text::is(n, "atom") {
            return Ok(Typ::Atom);
        }
        if crate::text::is(n, "Error") {
            return Ok(Typ::Error);
        }
        if let Some(s) = self.find_struct(n) {
            let fields = copy_fields(&self.structs[s].fields);
            return Ok(Typ::Struct(crate::text::owned(n), fields));
        }
        if let Some(e) = self.find_enum(n) {
            return Ok(Typ::Enum(e));
        }
        let mut j: usize = 0;
        while j < self.aliases.len()
            invariant
                j <= self.aliases@.len(),
            decreases self.aliases@.len() - j,
        {
            if bytes_eq(self.aliases[j].0.as_slice(), n) {
                return Ok(self.aliases[j].1.copy());
            }
            j = j + 1;
        }
        if Self::find_generic(&self.generic_enums, n).is_some() || Self::find_generic(
            &self.generic_structs,
            n,
        ).is_some() {
            return Err(diag3("`", n, "` needs type arguments"));
        }
        if self.defines_trait(n) {
            return Ok(Typ::Trait(crate::text::owned(n)));
        }
        Err(diag3("unknown type `", n, "`"))
    }

    /// The name of an instance of a generic definition: `Box[int]`.
    pub(crate) fn instance_name(&self, n: &[u8], args: &Vec<Typ>) -> (r: Vec<u8>)
        ensures
            r@.len() >= n@.len() + 2,
            r@.take(n@.len() as int) == n@,
            r@[n@.len() as int] == 91,
            r@.last() == 93,
    {
        let mut key = crate::text::owned(n);
        key.push(91);
        let mut i: usize = 0;
        while i < args.len()
            invariant
                i <= args@.len(),
                key@.len() >= n@.len() + 1,
                key@.take(n@.len() as int) == n@,
                key@[n@.len() as int] == 91,
            decreases args@.len() - i,
        {
            if i > 0 {
                push_str(&mut key, ", ");
            }
            let s = self.show(&args[i]);
            push_all(&mut key, s.as_slice());
            i = i + 1;
        }
        key.push(93);
        key
    }

    /// The type that a generic enum or struct is at some type arguments.
    pub(crate) fn instantiate(&mut self, n: &[u8], args: Vec<Typ>, fuel: u64) -> (r: Result<Typ, Diagnostic>)
        ensures
            fuel > 0 && n@ == "Option".spec_bytes() && args@.len() == 1 ==> r == Ok::<Typ, Diagnostic>(
                Typ::Option(Box::new(args@[0])),
            ),
            fuel > 0 && n@ == "Result".spec_bytes() && args@.len() == 2 ==> r == Ok::<Typ, Diagnostic>(
                Typ::Result(Box::new(args@[0]), Box::new(args@[1])),
            ),
            fuel == 0 ==> (r matches Err(d) && d.msg@ == "type nests too deeply".spec_bytes()),
        decreases fuel,
    {
        if fuel == 0 {
            return Err(diag("type nests too deeply"));
        }
        if crate::text::is(n, "Option") && args.len() == 1 {
            let mut args = args;
            return Ok(Typ::Option(Box::new(args.pop().unwrap())));
        }
        if crate::text::is(n, "Result") && args.len() == 2 {
            let mut args = args;
            let e = args.pop().unwrap();
            let o = args.pop().unwrap();
            return Ok(Typ::Result(Box::new(o), Box::new(e)));
        }
        let key = self.instance_name(n, &args);
        if let Some(e) = self.find_enum(key.as_slice()) {
            return Ok(Typ::Enum(e));
        }
        if let Some(s) = self.find_struct(key.as_slice()) {
            let fields = copy_fields(&self.structs[s].fields);
            return Ok(Typ::Struct(key, fields));
        }
        if let Some(g) = Self::find_generic(&self.generic_enums, n) {
            let nparams = self.generic_enums[g].params.len();
            if nparams != args.len() {
                let mut msg = lit("`");
                push_all(&mut msg, n);
                push_str(&mut msg, "` expects ");
                crate::text::push_u64(&mut msg, nparams as u64);
                push_str(&mut msg, " type argument(s), got ");
                crate::text::push_u64(&mut msg, args.len() as u64);
                return Err(Diagnostic { msg });
            }
            let item = self.generic_enums[g].item;
            let params = clone_names(&self.generic_enums[g].params);
            // register the instance first, so recursive payloads find it
            let id = self.enums.len();
            self.instance_args.push((key.clone(), crate::text::owned(n), copy_all(&args)));
            self.enums.push(EnumInfo { name: key, variants: Vec::new() });
            let saved = self.bind_type_params(&params, &args);
            let variants = match item {
                Expr::EnumDef { variants, .. } => self.resolve_variants(variants, fuel - 1),
                _ => Ok(Vec::new()),
            };
            self.type_env = saved;
            let variants = variants?;
            if id < self.enums.len() {
                self.enums.set(id, EnumInfo { name: self.enums[id].name.clone(), variants });
            }
            return Ok(Typ::Enum(id));
        }
        if let Some(g) = Self::find_generic(&self.generic_structs, n) {
            let nparams = self.generic_structs[g].params.len();
            if nparams != args.len() {
                let mut msg = lit("`");
                push_all(&mut msg, n);
                push_str(&mut msg, "` expects ");
                crate::text::push_u64(&mut msg, nparams as u64);
                push_str(&mut msg, " type argument(s), got ");
                crate::text::push_u64(&mut msg, args.len() as u64);
                return Err(Diagnostic { msg });
            }
            let item = self.generic_structs[g].item;
            let params = clone_names(&self.generic_structs[g].params);
            self.instance_args.push((key.clone(), crate::text::owned(n), copy_all(&args)));
            let saved = self.bind_type_params(&params, &args);
            let r = match item {
                Expr::StructDef { fields, .. } => self.declare_struct(key.clone(), fields, false, fuel - 1),
                _ => Ok(()),
            };
            self.type_env = saved;
            r?;
            // the instance shares the generic claims' methods
            self.instantiate_methods(n, &params, &args, key.as_slice(), fuel - 1);
            if let Some(s) = self.find_struct(key.as_slice()) {
                let fields = copy_fields(&self.structs[s].fields);
                return Ok(Typ::Struct(key, fields));
            }
            return Err(diag("bad struct instance"));
        }
        Err(diag3("unknown generic type `", n, "`"))
    }

    /// Bind type parameters to arguments, returning the previous bindings.
    pub(crate) fn bind_type_params(&mut self, params: &Vec<Vec<u8>>, args: &Vec<Typ>) -> (saved: Vec<(Vec<u8>, Typ)>)
        ensures
            saved == old(self).type_env,
            final(self).type_env@.len() == old(self).type_env@.len() + (if params@.len() < args@.len() {
                params@.len()
            } else {
                args@.len()
            }),
            forall|k: int|
                0 <= k < old(self).type_env@.len() ==> (#[trigger] final(self).type_env@[k]).0@
                    == old(self).type_env@[k].0@,
            forall|i: int|
                0 <= i < params@.len() && i < args@.len() ==> (#[trigger] final(self).type_env@[old(
                    self,
                ).type_env@.len() + i]).0@ == params@[i]@,
    {
        let mut saved: Vec<(Vec<u8>, Typ)> = Vec::new();
        std::mem::swap(&mut saved, &mut self.type_env);
        let mut j: usize = 0;
        while j < saved.len()
            invariant
                j <= saved@.len(),
                saved == old(self).type_env,
                self.type_env@.len() == j,
                forall|k: int| 0 <= k < j ==> (#[trigger] self.type_env@[k]).0@ == saved@[k].0@,
            decreases saved@.len() - j,
        {
            self.type_env.push((crate::text::owned(saved[j].0.as_slice()), saved[j].1.copy()));
            j = j + 1;
        }
        let mut i: usize = 0;
        while i < params.len() && i < args.len()
            invariant
                i <= params@.len(),
                i <= args@.len(),
                saved == old(self).type_env,
                self.type_env@.len() == saved@.len() + i,
                forall|k: int| 0 <= k < saved@.len() ==> (#[trigger] self.type_env@[k]).0@ == saved@[k].0@,
                forall|q: int| 0 <= q < i ==> (#[trigger] self.type_env@[saved@.len() + q]).0@ == params@[q]@,
            decreases params@.len() - i,
        {
            self.type_env.push((crate::text::owned(params[i].as_slice()), args[i].copy()));
            i = i + 1;
        }
        saved
    }

    /// Resolve enum variants' payload types.
    pub(crate) fn resolve_variants(&mut self, variants: &Vec<Variant>, fuel: u64) -> (r: Result<Vec<VariantInfo>, Diagnostic>)
        ensures
            fuel == 0 ==> r is Err,
            r matches Ok(v) ==> v@.len() == variants@.len(),
            r matches Ok(v) ==> forall|i: int|
                0 <= i < v@.len() ==> (#[trigger] v@[i]).name@ == variants@[i].name@ && v@[i].payload@.len()
                    == variants@[i].payload@.len(),
        decreases fuel,
    {
        if fuel == 0 {
            return Err(diag("type nests too deeply"));
        }
        let mut out: Vec<VariantInfo> = Vec::new();
        let mut i: usize = 0;
        while i < variants.len()
            invariant
                i <= variants@.len(),
                out@.len() == i,
                forall|q: int|
                    0 <= q < i ==> (#[trigger] out@[q]).name@ == variants@[q].name@ && out@[q].payload@.len()
                        == variants@[q].payload@.len(),
            decreases variants@.len() - i,
        {
            let mut payload: Vec<Typ> = Vec::new();
            let mut j: usize = 0;
            while j < variants[i].payload.len()
                invariant
                    i < variants@.len(),
                    j <= variants@[i as int].payload@.len(),
                    payload@.len() == j,
                decreases variants@[i as int].payload@.len() - j,
            {
                let t = self.resolve(&variants[i].payload[j], fuel - 1)?;
                payload.push(t);
                j = j + 1;
            }
            out.push(VariantInfo { name: crate::text::owned(variants[i].name.as_slice()), payload });
            i = i + 1;
        }
        Ok(out)
    }

    /// Register (or complete) a struct with resolved field types.
    pub(crate) fn declare_struct(&mut self, name: Vec<u8>, fields: &'a Vec<crate::ast::Param>, nozero: bool, fuel: u64) -> (r: Result<(), Diagnostic>)
        decreases fuel,
    {
        if fuel == 0 {
            return Err(diag("type nests too deeply"));
        }
        let idx = match self.find_struct(name.as_slice()) {
            Some(i) => i,
            None => {
                self.structs.push(StructInfo { name: name.clone(), fields: Vec::new(), defaults: Vec::new(), nozero });
                self.structs.len() - 1
            },
        };
        let mut fdefs: Vec<FieldDef> = Vec::new();
        let mut defaults: Vec<Option<&'a Expr>> = Vec::new();
        let mut i: usize = 0;
        while i < fields.len()
            invariant
                i <= fields@.len(),
            decreases fields@.len() - i,
        {
            let f = &fields[i];
            let t = match &f.typ {
                Some(te) => self.resolve(te, fuel - 1)?,
                None => match &f.default {
                    Some(Expr::Int(_)) => Typ::Int(64),
                    Some(Expr::Bool(_)) => Typ::Bool,
                    Some(Expr::Str(_)) => Typ::Str,
                    Some(Expr::Float(_)) => Typ::Float(64),
                    _ => {
                        return Err(diag3("field `", f.name.as_slice(), "` needs a type"));
                    },
                },
            };
            fdefs.push(FieldDef { name: f.name.clone(), typ: t });
            defaults.push(
                match &f.default {
                    Some(d) => Some(d),
                    None => None,
                },
            );
            i = i + 1;
        }
        if idx < self.structs.len() {
            let nz = self.structs[idx].nozero || nozero;
            self.structs.set(idx, StructInfo { name, fields: fdefs, defaults, nozero: nz });
        }
        Ok(())
    }

    /// Give a struct instance the methods its generic claims define, queued for compiling.
    pub(crate) fn instantiate_methods(&mut self, base: &[u8], params: &Vec<Vec<u8>>, args: &Vec<Typ>, key: &[u8], fuel: u64)
        decreases fuel,
    {
        if fuel == 0 {
            return;
        }
        let mut k: usize = 0;
        let n = self.generic_fns.len();
        while k < n && k < self.generic_fns.len()
            invariant
                k <= n,
            decreases n - k,
        {
            // generic claim methods are stored under `Base.method`
            let gname = self.generic_fns[k].name.clone();
            let item = self.generic_fns[k].item;
            let mut prefix = crate::text::owned(base);
            prefix.push(46);
            if gname.len() > prefix.len() && starts_with(gname.as_slice(), prefix.as_slice()) {
                let mut method: Vec<u8> = Vec::new();
                let mut j = prefix.len();
                while j < gname.len()
                    invariant
                        j <= gname@.len(),
                    decreases gname@.len() - j,
                {
                    method.push(gname[j]);
                    j = j + 1;
                }
                let mut env: Vec<(Vec<u8>, Typ)> = Vec::new();
                let mut i: usize = 0;
                while i < params.len() && i < args.len()
                    invariant
                        i <= params@.len(),
                    decreases params@.len() - i,
                {
                    env.push((params[i].clone(), args[i].copy()));
                    i = i + 1;
                }
                let saved = self.bind_type_params(params, args);
                let _ = self.declare_fn(key, method.as_slice(), item, env, fuel - 1);
                self.type_env = saved;
            }
            k = k + 1;
        }
    }

    /// Register a function's signature and queue its body; methods take the owner's name as prefix.
    pub(crate) fn declare_fn(&mut self, owner: &[u8], name: &[u8], item: &'a Expr, env: Vec<(Vec<u8>, Typ)>, fuel: u64) -> (r: Result<usize, Diagnostic>)
        decreases fuel,
    {
        if fuel == 0 {
            return Err(diag("type nests too deeply"));
        }
        let (params, ret) = match item {
            Expr::Fn { params, ret, .. } => (params, ret),
            _ => {
                return Err(diag("not a function"));
            },
        };
        let mut full = crate::text::owned(owner);
        if owner.len() > 0 {
            full.push(46);
        }
        push_all(&mut full, name);
        let saved_self = self.self_type.clone();
        if owner.len() > 0 {
            self.self_type = crate::text::owned(owner);
        }
        let mut ptypes: Vec<(Typ, Access)> = Vec::new();
        let mut i: usize = 0;
        let mut failed: Option<Diagnostic> = None;
        while i < params.len()
            invariant
                i <= params@.len(),
            decreases params@.len() - i,
        {
            let p = &params[i];
            let t = if crate::text::is(p.name.as_slice(), "self") && owner.len() > 0 {
                self.named(owner, fuel - 1)
            } else {
                match &p.typ {
                    Some(te) => self.resolve(te, fuel - 1),
                    None => Err(diag3("parameter `", p.name.as_slice(), "` needs a type")),
                }
            };
            match t {
                Ok(t) => ptypes.push((t, p.access)),
                Err(e) => {
                    failed = Some(e);
                    break ;
                },
            }
            i = i + 1;
        }
        let rt = match failed {
            Some(e) => Err(e),
            None => match ret {
                Some(te) => self.resolve(te, fuel - 1),
                None => Ok(Typ::unit()),
            },
        };
        self.self_type = saved_self;
        let rt = rt?;
        let id = self.funcs.len();
        self.funcs.push(Func { name: full.clone(), nparams: ptypes.len(), nslots: 0, body: Vec::new() });
        let has_self = params.len() > 0 && crate::text::is(params[0].name.as_slice(), "self");
        self.sigs.push(FnSig { name: full, params: ptypes, ret: rt, id, has_self });
        self.pending.push((id, item, crate::text::owned(owner), env));
        Ok(id)
    }
}

/// Whether a claim table says that the type named `typ`, or the generic it instantiates, claims `tr`.
pub open spec fn spec_claims_name(claims: Seq<(Vec<u8>, Vec<u8>)>, typ: Seq<u8>, tr: Seq<u8>) -> bool {
    exists|i: int|
        0 <= i < claims.len() && ((#[trigger] claims[i]).0@ == typ || claims[i].0@ == spec_base_name(typ))
            && claims[i].1@ == tr
}

/// Whether `s` starts with `prefix`.
pub fn starts_with(s: &[u8], prefix: &[u8]) -> (r: bool)
    ensures
        r == (prefix@.len() <= s@.len() && s@.take(prefix@.len() as int) == prefix@),
{
    if prefix.len() > s.len() {
        return false;
    }
    let mut i: usize = 0;
    while i < prefix.len()
        invariant
            i <= prefix@.len() <= s@.len(),
            s@.take(i as int) == prefix@.take(i as int),
        decreases prefix@.len() - i,
    {
        if s[i] != prefix[i] {
            assert(s@.take(prefix@.len() as int)[i as int] != prefix@[i as int]);
            return false;
        }
        assert(s@.take(i + 1) == s@.take(i as int).push(s@[i as int]));
        assert(prefix@.take(i + 1) == prefix@.take(i as int).push(prefix@[i as int]));
        i = i + 1;
    }
    assert(prefix@.take(prefix@.len() as int) == prefix@);
    true
}

/// Copies of a list of names.
pub(crate) fn clone_names(v: &Vec<Vec<u8>>) -> (r: Vec<Vec<u8>>)
    ensures
        r@.len() == v@.len(),
{
    let mut out: Vec<Vec<u8>> = Vec::new();
    let mut i: usize = 0;
    while i < v.len()
        invariant
            i <= v@.len(),
            out@.len() == i,
        decreases v@.len() - i,
    {
        out.push(v[i].clone());
        i = i + 1;
    }
    out
}

/// Deep copies of struct fields.
pub(crate) fn copy_fields(fs: &Vec<FieldDef>) -> (r: Vec<FieldDef>)
    ensures
        r@.len() == fs@.len(),
{
    let mut out: Vec<FieldDef> = Vec::new();
    let mut i: usize = 0;
    while i < fs.len()
        invariant
            i <= fs@.len(),
            out@.len() == i,
        decreases fs@.len() - i,
    {
        out.push(FieldDef { name: fs[i].name.clone(), typ: fs[i].typ.copy() });
        i = i + 1;
    }
    out
}

} // verus!
