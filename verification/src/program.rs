#![verifier::loop_isolation(false)]

//! Whole programs: the declarations, the functions' bodies, `main`, and a run.
use vstd::prelude::*;
use vstd::string::StringSliceAdditionalSpecFns;

use crate::ast::{Access, BinOp, Expr, Param};
use crate::ir::{Func, Instr, Op, Val};
use crate::lower::{is_never, is_unit_type};
use crate::text::{is, lit, push_all, push_str};
use crate::translator::{Diagnostic, GenericDef, Local, StructInfo, Translator, diag, diag3};
use crate::types::{EnumInfo, FieldDef, Typ, typ_eq};

verus! {

/// How deep the lowering of one function may nest.
pub const LOWER_FUEL: u64 = 4096;

/// What a run of a program printed, and how it ended: 0, 1 for a compile error, 101 for an abort.
pub struct Outcome {
    pub stdout: Vec<u8>,
    pub stderr: Vec<u8>,
    pub status: i32,
}

/// Whether every item is an integer literal or a binary operation, which define nothing.
pub open spec fn defines_nothing(items: Seq<Expr>) -> bool {
    forall|i: int| 0 <= i < items.len() ==> (#[trigger] items[i]) is Int || items[i] is Binary
}

/// Whether a program is one integer literal, with no imported modules.
pub open spec fn single_literal(deps: Seq<Expr>, items: Seq<Expr>) -> bool {
    deps.len() == 0 && items.len() == 1 && items[0] is Int
}

/// Whether a program is `a + b`, `a - b` or `a * b` on two integer literals, with no imported
/// modules.
pub open spec fn single_sum(deps: Seq<Expr>, items: Seq<Expr>) -> bool {
    &&& deps.len() == 0
    &&& items.len() == 1
    &&& items[0] matches Expr::Binary(op, l, r) && crate::lower::ring_op(op) && *l is Int && *r is Int
}

/// The entry compiled from `a op b`: the operation's code, then print its result on a line of
/// its own, and return the unit value.
pub open spec fn sum_main(f: Func, op: BinOp, a: i64, b: i64) -> bool {
    &&& f.nparams == 0
    &&& f.nslots == 4
    &&& crate::machine::sum_body(f.body@, op, a, b)
}

/// Whether no function is named `main`.
pub open spec fn no_main(sigs: Seq<crate::translator::FnSig>) -> bool {
    forall|i: int| 0 <= i < sigs.len() ==> (#[trigger] sigs[i]).name@ != "main".spec_bytes()
}

/// The entry compiled from a program that is the integer literal `n`: store it, print it on a
/// line of its own, and return the unit value.
pub open spec fn literal_main(f: Func, n: i64) -> bool {
    &&& f.nparams == 0
    &&& f.nslots == 2
    &&& crate::machine::literal_body(f.body@, n)
}

/// Whether a statement is a definition, which `main` does not run.
pub(crate) fn is_definition(e: &Expr) -> (r: bool)
    ensures
        r == (*e is Fn || *e is StructDef || *e is TupleStructDef || *e is EnumDef || *e is TraitDef || *e is Claim
            || *e is TypeAlias || *e is MacroDef || *e is Module || *e is Use || *e is Pub || *e is TestDef || (
        *e matches Expr::Annotated(_, inner) && (*inner is Fn || *inner is StructDef || *inner is TupleStructDef
            || *inner is EnumDef || *inner is TraitDef || *inner is Claim || *inner is TypeAlias))),
{
    match e {
        Expr::Fn { .. } | Expr::StructDef { .. } | Expr::TupleStructDef { .. } | Expr::EnumDef { .. }
        | Expr::TraitDef { .. } | Expr::Claim { .. } | Expr::TypeAlias { .. } | Expr::MacroDef(_)
        | Expr::Module(_) | Expr::Use { .. } | Expr::Pub(_) | Expr::TestDef { .. } => true,
        Expr::Annotated(_, inner) => match &**inner {
            Expr::Fn { .. } | Expr::StructDef { .. } | Expr::TupleStructDef { .. } | Expr::EnumDef { .. }
            | Expr::TraitDef { .. } | Expr::Claim { .. } | Expr::TypeAlias { .. } => true,
            _ => false,
        },
        _ => false,
    }
}

/// Whether a statement's value is not shown when it ends the program: bindings and defers.
pub(crate) fn is_quiet(e: &Expr) -> (r: bool)
    ensures
        r == (*e is Bind || *e is Defer || (*e matches Expr::PatBind { mutable, .. } && mutable is Some)),
{
    match e {
        Expr::Bind { .. } | Expr::Defer { .. } => true,
        Expr::PatBind { mutable, .. } => mutable.is_some(),
        _ => false,
    }
}

/// Whether an annotation list holds a marker: each annotation resolves through `core`.
pub(crate) fn has_annotation(anns: &Vec<Vec<u8>>, name: &str) -> (r: bool)
    ensures
        r == exists|i: int|
            0 <= i < anns@.len() && crate::role::spec_markers().contains((#[trigger] anns@[i])@)
                && crate::role::spec_core_path(anns@[i]@) == "core::".spec_bytes() + name.spec_bytes(),
{
    let mut want = lit("core::");
    push_str(&mut want, name);
    let mut i: usize = 0;
    while i < anns.len()
        invariant
            i <= anns@.len(),
            want@ == "core::".spec_bytes() + name.spec_bytes(),
            forall|j: int|
                0 <= j < i ==> !(crate::role::spec_markers().contains((#[trigger] anns@[j])@)
                    && crate::role::spec_core_path(anns@[j]@) == "core::".spec_bytes() + name.spec_bytes()),
        decreases anns@.len() - i,
    {
        match crate::role::marker(anns[i].as_slice()) {
            Some(path) => {
                if crate::text::bytes_eq(path.as_slice(), want.as_slice()) {
                    return true;
                }
            },
            None => {},
        }
        i = i + 1;
    }
    false
}

/// Whether an item, if it is a top-level binding, has no declared type and an integer literal
/// for its value.
pub open spec fn literal_item(e: Expr) -> bool {
    e matches Expr::Bind { typ, value, .. } ==> (typ is None && (value matches Some(v) && *v is Int))
}

/// Whether every top-level binding of a program is an untyped integer literal.
pub open spec fn literal_statics(items: Seq<Expr>) -> bool {
    forall|i: int| 0 <= i < items.len() ==> #[trigger] literal_item(items[i])
}

/// The names that a program's top-level bindings give its statics, in order.
pub open spec fn spec_static_names(items: Seq<Expr>) -> Seq<Seq<u8>>
    decreases items.len(),
{
    if items.len() == 0 {
        Seq::empty()
    } else {
        let rest = spec_static_names(items.drop_last());
        match items.last() {
            Expr::Bind { name, .. } => rest.push(name@),
            _ => rest,
        }
    }
}

impl<'a> Translator<'a> {
    /// The names of the statics, in order.
    pub open spec fn static_names(&self) -> Seq<Seq<u8>> {
        self.statics@.map_values(|e: (Vec<u8>, usize, Typ, bool)| e.0@)
    }

    /// A static reads and writes through its cell: every top-level binding becomes a static, in
    /// order, and its initializer (or its type's zero value) fills the cell.
    pub fn seed_statics(&mut self, items: &'a Vec<Expr>) -> (r: Result<(), Diagnostic>)
        ensures
            r is Ok ==> final(self).static_names() == old(self).static_names() + spec_static_names(items@),
            literal_statics(items@) ==> r is Ok,
            items@.len() == 0 ==> *final(self) == (Translator { statics: final(self).statics, ..*old(self) }),
    {
        let ghost simple = literal_statics(items@);
        let mut local: Vec<(Vec<u8>, usize, Typ, bool)> = Vec::new();
        let mut k: usize = 0;
        while k < self.statics.len()
            invariant
                k <= self.statics@.len(),
                self.statics == old(self).statics,
                *self == *old(self),
                local@.map_values(|e: (Vec<u8>, usize, Typ, bool)| e.0@) =~= old(self).static_names().take(k as int),
            decreases self.statics@.len() - k,
        {
            let e = (crate::text::owned(self.statics[k].0.as_slice()), self.statics[k].1, self.statics[k].2.copy(), self.statics[k].3);
            local.push(e);
            proof {
                assert(local@.map_values(|e: (Vec<u8>, usize, Typ, bool)| e.0@) =~= old(self).static_names().take(k + 1));
            }
            k = k + 1;
        }
        assert(old(self).static_names().take(k as int) =~= old(self).static_names());
        let mut i: usize = 0;
        while i < items.len()
            invariant
                i <= items@.len(),
                local@.map_values(|e: (Vec<u8>, usize, Typ, bool)| e.0@) =~= old(self).static_names()
                    + spec_static_names(items@.take(i as int)),
                simple == literal_statics(items@),
                items@.len() == 0 ==> *self == *old(self),
            decreases items@.len() - i,
        {
            proof {
                assert(items@.take(i + 1).drop_last() =~= items@.take(i as int));
                assert(items@.take(i + 1).last() == items@[i as int]);
                if simple {
                    assert(literal_item(items@[i as int]));
                }
            }
            if let Expr::Bind { mutable, name, typ, value } = &items[i] {
                let declared = match typ {
                    Some(te) => Some(self.resolve(te, 64)?),
                    None => None,
                };
                let (v, t) = match value {
                    Some(val) => {
                        let (v, t) = match &declared {
                            Some(d) => {
                                let d = d.copy();
                                self.lower(&**val, Some(&d), LOWER_FUEL)?
                            },
                            None => self.expr(&**val, LOWER_FUEL)?,
                        };
                        let v = self.take_value(&**val, v, &t, LOWER_FUEL)?;
                        match declared {
                            Some(d) => {
                                let v = self.coerce(v, &t, &d)?;
                                (v, d)
                            },
                            None => (v, t),
                        }
                    },
                    None => match declared {
                        Some(d) => {
                            let z = self.zero(&d, LOWER_FUEL)?;
                            (z, d)
                        },
                        None => {
                            return Err(diag3("`", name.as_slice(), "` needs a type or a value"));
                        },
                    },
                };
                let cell = local.len();
                self.emit(Instr::SetGlobal(cell, v));
                let ghost before = local@;
                local.push((crate::text::owned(name.as_slice()), cell, t.copy(), *mutable));
                proof {
                    assert(local@.map_values(|e: (Vec<u8>, usize, Typ, bool)| e.0@) =~= before.map_values(
                        |e: (Vec<u8>, usize, Typ, bool)| e.0@,
                    ).push(name@));
                }
                self.statics.push((crate::text::owned(name.as_slice()), cell, t, *mutable));
            }
            i = i + 1;
        }
        assert(items@.take(items@.len() as int) =~= items@);
        self.statics = local;
        Ok(())
    }

    /// Register every definition: names first, then types, then functions and methods.
    pub(crate) fn declare_items(&mut self, items: &'a Vec<Expr>) -> (r: Result<(), Diagnostic>)
        ensures
            defines_nothing(items@) ==> r is Ok && *final(self) == *old(self),
    {
        // names
        let mut i: usize = 0;
        while i < items.len()
            invariant
                i <= items@.len(),
                defines_nothing(items@) ==> *self == *old(self),
            decreases items@.len() - i,
        {
            let (item, nozero) = match &items[i] {
                Expr::Annotated(anns, inner) => (&**inner, has_annotation(anns, "nozero")),
                other => (other, false),
            };
            match item {
                Expr::StructDef { name, type_params, .. } => {
                    if type_params.len() > 0 {
                        self.generic_structs.push(
                            GenericDef { name: name.clone(), params: crate::translator::clone_names(type_params), item },
                        );
                    } else {
                        self.structs.push(StructInfo { name: name.clone(), fields: Vec::new(), defaults: Vec::new(), nozero });
                    }
                },
                Expr::TupleStructDef { name, .. } => {
                    self.structs.push(StructInfo { name: name.clone(), fields: Vec::new(), defaults: Vec::new(), nozero });
                },
                Expr::EnumDef { name, type_params, .. } => {
                    if type_params.len() > 0 {
                        self.generic_enums.push(
                            GenericDef { name: name.clone(), params: crate::translator::clone_names(type_params), item },
                        );
                    } else {
                        self.enums.push(EnumInfo { name: name.clone(), variants: Vec::new() });
                    }
                },
                Expr::TraitDef { name, .. } => {
                    self.traits.push(name.clone());
                    self.trait_defs.push(item);
                },
                Expr::Fn { name, type_params, .. } => {
                    if type_params.len() > 0 {
                        self.generic_fns.push(
                            GenericDef { name: name.clone(), params: crate::ast::type_param_names(type_params), item },
                        );
                    }
                },
                Expr::Claim { typ, type_params, traits, fills } => {
                    let mut has_drop = false;
                    let mut has_copy = false;
                    let mut k: usize = 0;
                    while k < traits.len()
                        invariant
                            k <= traits@.len(),
                        decreases traits@.len() - k,
                    {
                        if is(traits[k].as_slice(), "Drop") {
                            has_drop = true;
                        } else if is(traits[k].as_slice(), "Copy") {
                            has_copy = true;
                        } else if type_params.len() > 0 {
                            return Err(diag("generic trait claims aren't supported yet"));
                        }
                        self.claims.push((typ.clone(), traits[k].clone()));
                        k = k + 1;
                    }
                    if has_copy && !has_drop {
                        return Err(diag3("`", typ.as_slice(), "` claims `Copy` without `Drop`"));
                    }
                    if type_params.len() > 0 {
                        let mut f: usize = 0;
                        while f < fills.len()
                            invariant
                                f <= fills@.len(),
                            decreases fills@.len() - f,
                        {
                            if let Expr::Fn { name, .. } = &fills[f] {
                                let mut full = typ.clone();
                                full.push(46);
                                push_all(&mut full, name.as_slice());
                                self.generic_fns.push(
                                    GenericDef { name: full, params: crate::translator::clone_names(type_params), item: &fills[f] },
                                );
                            }
                            f = f + 1;
                        }
                    }
                },
                _ => {},
            }
            i = i + 1;
        }
        // types
        let mut i: usize = 0;
        while i < items.len()
            invariant
                i <= items@.len(),
                defines_nothing(items@) ==> *self == *old(self),
            decreases items@.len() - i,
        {
            let (item, nozero) = match &items[i] {
                Expr::Annotated(anns, inner) => (&**inner, has_annotation(anns, "nozero")),
                other => (other, false),
            };
            match item {
                Expr::Fn { type_params, .. } => {
                    let mut k: usize = 0;
                    while k < type_params.len()
                        invariant
                            k <= type_params@.len(),
                        decreases type_params@.len() - k,
                    {
                        match &type_params[k].bound {
                            Some(b) => {
                                if !self.known_trait(b.as_slice()) {
                                    return Err(diag3("unknown trait `", b.as_slice(), "`"));
                                }
                            },
                            None => {},
                        }
                        k = k + 1;
                    }
                },
                Expr::TypeAlias { name, typ } => {
                    let t = self.resolve(typ, 64)?;
                    self.aliases.push((name.clone(), t));
                },
                Expr::StructDef { name, type_params, fields } => {
                    if type_params.len() == 0 {
                        self.declare_struct(name.clone(), fields, nozero, 64)?;
                    }
                },
                Expr::TupleStructDef { name, fields } => {
                    let mut fdefs: Vec<FieldDef> = Vec::new();
                    let mut defaults: Vec<Option<&'a Expr>> = Vec::new();
                    let mut k: usize = 0;
                    while k < fields.len()
                        invariant
                            k <= fields@.len(),
                        decreases fields@.len() - k,
                    {
                        let t = self.resolve(&fields[k], 64)?;
                        fdefs.push(FieldDef { name: crate::text::fmt_i64(k as i64), typ: t });
                        defaults.push(None);
                        k = k + 1;
                    }
                    match self.find_struct(name.as_slice()) {
                        Some(s) => {
                            let nz = self.structs[s].nozero;
                            self.structs.set(s, StructInfo { name: name.clone(), fields: fdefs, defaults, nozero: nz });
                        },
                        None => {},
                    }
                },
                Expr::EnumDef { name, type_params, variants } => {
                    if type_params.len() == 0 {
                        let vs = self.resolve_variants(variants, 64)?;
                        match self.find_enum(name.as_slice()) {
                            Some(e) => {
                                self.enums.set(e, EnumInfo { name: name.clone(), variants: vs });
                            },
                            None => {},
                        }
                    }
                },
                _ => {},
            }
            i = i + 1;
        }
        // functions and methods
        let mut i: usize = 0;
        while i < items.len()
            invariant
                i <= items@.len(),
                defines_nothing(items@) ==> *self == *old(self),
            decreases items@.len() - i,
        {
            let (item, pure) = match &items[i] {
                Expr::Annotated(anns, inner) => (&**inner, has_annotation(anns, "pure")),
                other => (other, false),
            };
            match item {
                Expr::Fn { name, type_params, .. } => {
                    if pure {
                        self.pure_fns.push(name.clone());
                    }
                    if type_params.len() == 0 {
                        self.declare_fn(&[], name.as_slice(), item, Vec::new(), 64)?;
                    }
                },
                Expr::Claim { typ, type_params, traits, fills } => {
                    if type_params.len() == 0 {
                        let mut f: usize = 0;
                        while f < fills.len()
                            invariant
                                f <= fills@.len(),
                            decreases fills@.len() - f,
                        {
                            if let Expr::Fn { name, .. } = &fills[f] {
                                self.declare_fn(typ.as_slice(), name.as_slice(), &fills[f], Vec::new(), 64)?;
                            }
                            f = f + 1;
                        }
                        let mut k: usize = 0;
                        while k < traits.len()
                            invariant
                                k <= traits@.len(),
                            decreases traits@.len() - k,
                        {
                            self.fill_from_trait(typ.as_slice(), traits[k].as_slice(), fills)?;
                            k = k + 1;
                        }
                    }
                },
                _ => {},
            }
            i = i + 1;
        }
        Ok(())
    }

    /// Hold a claim to the trait it names: each filled slot keeps the slot's parameters and how
    /// they are taken, each slot left out must have a default, and the defaults that are left
    /// out become the type's methods.
    pub(crate) fn fill_from_trait(&mut self, typ: &[u8], tr: &[u8], fills: &'a Vec<Expr>) -> (r: Result<(), Diagnostic>) {
        let mut t: usize = 0;
        while t < self.traits.len() && !crate::text::bytes_eq(self.traits[t].as_slice(), tr)
            invariant
                t <= self.traits@.len(),
            decreases self.traits@.len() - t,
        {
            t = t + 1;
        }
        if t >= self.trait_defs.len() {
            return Ok(());
        }
        let (slots, defaults) = match self.trait_defs[t] {
            Expr::TraitDef { slots, defaults, .. } => (slots, defaults),
            _ => {
                return Ok(());
            },
        };
        let mut s: usize = 0;
        while s < slots.len()
            invariant
                s <= slots@.len(),
            decreases slots@.len() - s,
        {
            match find_fill(fills, slots[s].name.as_slice()) {
                Some(f) => {
                    if let Expr::Fn { params, .. } = &fills[f] {
                        if !same_shape(params, &slots[s].params) {
                            let mut msg = lit("`");
                            push_all(&mut msg, typ);
                            push_str(&mut msg, ".");
                            push_all(&mut msg, slots[s].name.as_slice());
                            push_str(&mut msg, "` has the wrong signature for `");
                            push_all(&mut msg, tr);
                            push_str(&mut msg, "`");
                            return Err(Diagnostic { msg });
                        }
                    }
                },
                None => {
                    let mut msg = lit("`");
                    push_all(&mut msg, typ);
                    push_str(&mut msg, "` claims `");
                    push_all(&mut msg, tr);
                    push_str(&mut msg, "` without filling `");
                    push_all(&mut msg, slots[s].name.as_slice());
                    push_str(&mut msg, "`");
                    return Err(Diagnostic { msg });
                },
            }
            s = s + 1;
        }
        let mut d: usize = 0;
        while d < defaults.len()
            invariant
                d <= defaults@.len(),
            decreases defaults@.len() - d,
        {
            if let Expr::Fn { name, .. } = &defaults[d] {
                if find_fill(fills, name.as_slice()).is_none() {
                    self.declare_fn(typ, name.as_slice(), &defaults[d], Vec::new(), 64)?;
                }
            }
            d = d + 1;
        }
        Ok(())
    }

    /// Clear the state of the function being lowered.
    pub(crate) fn reset_fn_state(&mut self)
        ensures
            final(self).vars@.len() == 0,
            final(self).scopes@.len() == 1 && final(self).scopes@[0]@.len() == 0,
            final(self).defers@.len() == 1 && final(self).defers@[0]@.len() == 0,
            final(self).loops@.len() == 0,
            !final(self).deferring,
            final(self).dollar is None,
            final(self).ret is None,
            final(self).temps@.len() == 0,
            final(self).code@.len() == 0,
            final(self).nslots == 0,
            !final(self).pure,
            final(self).sigs == old(self).sigs,
            final(self).structs == old(self).structs,
            final(self).enums == old(self).enums,
            final(self).funcs == old(self).funcs,
            final(self).statics_fn == old(self).statics_fn,
            final(self).pending == old(self).pending,
    {
        self.vars = Vec::new();
        let mut top: Vec<Vec<(usize, Typ)>> = Vec::new();
        top.push(Vec::new());
        self.scopes = top;
        let mut tops: Vec<Vec<crate::translator::Defer<'a>>> = Vec::new();
        tops.push(Vec::new());
        self.defers = tops;
        self.loops = Vec::new();
        self.deferring = false;
        self.dollar = None;
        self.ret = None;
        self.temps = Vec::new();
        self.code = Vec::new();
        self.nslots = 0;
        self.pure = false;
    }

    /// The index of the signature of a function.
    pub(crate) fn sig_of(&self, id: usize) -> (r: Option<usize>)
        ensures
            r matches Some(i) ==> i < self.sigs@.len() && self.sigs@[i as int].id == id,
            r matches Some(i) ==> forall|j: int| 0 <= j < i ==> (#[trigger] self.sigs@[j]).id != id,
            r is None ==> forall|j: int| 0 <= j < self.sigs@.len() ==> (#[trigger] self.sigs@[j]).id != id,
    {
        let mut i: usize = 0;
        while i < self.sigs.len()
            invariant
                i <= self.sigs@.len(),
                forall|j: int| 0 <= j < i ==> (#[trigger] self.sigs@[j]).id != id,
            decreases self.sigs@.len() - i,
        {
            if self.sigs[i].id == id {
                return Some(i);
            }
            i = i + 1;
        }
        None
    }

    /// The slots of the bindings, in order.
    pub open spec fn bound_slots(&self) -> Seq<usize> {
        self.vars@.map_values(|v: (Vec<u8>, Local)| v.1.slot)
    }

    /// Determine `$` once the parameters are bound: the first parameter, or all of them as a tuple
    /// (the unit value when there are none).
    pub fn bind_dollar(&mut self, params_tuple: bool)
        ensures
            final(self).vars == old(self).vars,
            !params_tuple && old(self).vars@.len() > 0 ==> (final(self).dollar matches Some((s, t)) && s
                == old(self).vars@[0].1.slot && typ_eq(old(self).vars@[0].1.typ, t) && final(self).code == old(self).code),
            !params_tuple && old(self).vars@.len() == 0 ==> final(self).dollar == old(self).dollar
                && final(self).code == old(self).code,
            params_tuple && old(self).vars@.len() == 0 ==> (final(self).dollar matches Some((s, t))
                && t.is_unit() && final(self).code@ == old(self).code@.push(
                Instr::Store(s, Op::Const(Val::Unit)),
            )),
            params_tuple && old(self).vars@.len() > 0 ==> (final(self).dollar matches Some((s, t)) && (
            t matches Typ::Tuple(ts) && ts@.len() == old(self).vars@.len() && forall|j: int| 0 <= j < ts@.len() ==> typ_eq(
                old(self).vars@[j].1.typ,
                #[trigger] ts@[j],
            )) && final(self).code@.drop_last()
                == old(self).code@ && (final(self).code@.last() matches Instr::Store(d, Op::Tuple(v)) && d
                == s && v@ == old(self).bound_slots())),
    {
        let n = self.vars.len();
        if !params_tuple {
            if n > 0 {
                self.dollar = Some((self.vars[0].1.slot, self.vars[0].1.typ.copy()));
            }
            return;
        }
        if n == 0 {
            let s = self.constant(Val::Unit);
            self.dollar = Some((s, Typ::unit()));
            return;
        }
        let mut slots: Vec<usize> = Vec::new();
        let mut types: Vec<Typ> = Vec::new();
        let mut i: usize = 0;
        while i < n
            invariant
                i <= n == self.vars@.len(),
                self.vars == old(self).vars,
                slots@ == old(self).bound_slots().take(i as int),
                types@.len() == i,
                forall|j: int| 0 <= j < i ==> typ_eq(old(self).vars@[j].1.typ, #[trigger] types@[j]),
            decreases n - i,
        {
            slots.push(self.vars[i].1.slot);
            types.push(self.vars[i].1.typ.copy());
            proof {
                assert(old(self).bound_slots().take(i + 1) =~= old(self).bound_slots().take(i as int).push(
                    self.vars@[i as int].1.slot,
                ));
            }
            i = i + 1;
        }
        assert(old(self).bound_slots().take(n as int) =~= old(self).bound_slots());
        let t = self.op(Op::Tuple(slots));
        self.dollar = Some((t, Typ::Tuple(types)));
    }

    /// Lower a function's body into its slot of the program.
    pub(crate) fn compile_fn(&mut self, id: usize, item: &'a Expr, owner: Vec<u8>, env: Vec<(Vec<u8>, Typ)>) -> (r: Result<
        (),
        Diagnostic,
    >) {
        let f = match self.sig_of(id) {
            Some(f) => f,
            None => {
                return Err(diag("a function has no signature"));
            },
        };
        let (params, body): (Option<&'a Vec<Param>>, &'a Vec<Expr>) = match item {
            Expr::Fn { params, body, .. } => (Some(params), body),
            Expr::AnonFn { params, body, .. } => (Some(params), body),
            Expr::Block(body) => (None, body),
            _ => {
                return Err(diag("not a function"));
            },
        };
        let ret = self.sigs[f].ret.copy();
        let mut ptypes: Vec<(Typ, Access)> = Vec::new();
        let mut i: usize = 0;
        while i < self.sigs[f].params.len()
            invariant
                f < self.sigs@.len(),
                i <= self.sigs@[f as int].params@.len(),
            decreases self.sigs@[f as int].params@.len() - i,
        {
            ptypes.push((self.sigs[f].params[i].0.copy(), self.sigs[f].params[i].1));
            i = i + 1;
        }
        let fname = self.sigs[f].name.clone();
        self.reset_fn_state();
        self.type_env = env;
        self.self_type = owner;
        self.ret = Some(ret.copy());
        let mut p: usize = 0;
        while p < self.pure_fns.len()
            invariant
                p <= self.pure_fns@.len(),
            decreases self.pure_fns@.len() - p,
        {
            if crate::text::bytes_eq(self.pure_fns[p].as_slice(), fname.as_slice()) {
                self.pure = true;
            }
            p = p + 1;
        }
        let n = ptypes.len();
        self.nslots = n;
        let mut i: usize = 0;
        while i < n
            invariant
                i <= n,
                n == ptypes@.len(),
            decreases n - i,
        {
            let t = ptypes[i].0.copy();
            let access = ptypes[i].1;
            let (name, mutable) = match params {
                Some(ps) => if i < ps.len() {
                    (ps[i].name.clone(), ps[i].mutable || access == Access::Mut)
                } else {
                    (Vec::new(), false)
                },
                None => (Vec::new(), false),
            };
            if access == Access::Move {
                self.bind_local(name.as_slice(), i, t, mutable);
            } else {
                self.declare(name.as_slice(), i, t, mutable);
            }
            i = i + 1;
        }
        self.bind_dollar(false);
        let flow = self.block_tail(body, Some(&ret), LOWER_FUEL)?;
        match flow {
            Some((v, t)) => {
                let v = if is_unit_type(&ret) {
                    let tail_is_value = body.len() > 0 && !is_unit_type(&t) && !is_never(&t) && !crate::program::is_quiet(
                        &body[body.len() - 1],
                    ) && !matches!(body[body.len() - 1], Expr::Assign { .. } | Expr::FieldAssign { .. } | Expr::IndexAssign { .. } | Expr::If { .. } | Expr::Match { .. } | Expr::Binary(crate::ast::BinOp::Shl, _, _) | Expr::Call { .. } | Expr::MethodCall { .. } | Expr::Apply { .. });
                    if tail_is_value {
                        let shown = self.show(&t);
                        return Err(diag3("expected (), got ", shown.as_slice(), ""));
                    }
                    self.constant(Val::Unit)
                } else {
                    let c = self.coerce(v, &t, &ret)?;
                    if body.len() > 0 {
                        self.take_value(&body[body.len() - 1], c, &ret, LOWER_FUEL)?
                    } else {
                        c
                    }
                };
                self.release_scopes(0, Some((v, ret)), LOWER_FUEL)?;
                self.emit(Instr::Return(v));
            },
            None => {},
        }
        let mut code: Vec<Instr> = Vec::new();
        std::mem::swap(&mut code, &mut self.code);
        if id < self.funcs.len() {
            let name = self.funcs[id].name.clone();
            self.funcs.set(id, Func { name, nparams: n, nslots: self.nslots, body: code });
        }
        Ok(())
    }

    /// Lower `main`: the program's statements in order, showing the value of the last one.
    pub(crate) fn compile_main(&mut self, deps: &'a Vec<Expr>, items: &'a Vec<Expr>, testing: bool) -> (r: Result<usize, Diagnostic>)
        ensures
            single_literal(deps@, items@) && !testing && no_main(old(self).sigs@) ==> (r matches Ok(id) && id == old(self).funcs@.len()
                && final(self).funcs@.len() == id + 1 && final(self).funcs@.drop_last() == old(self).funcs@ && literal_main(
                final(self).funcs@[id as int],
                items@[0]->Int_0,
            ) && final(self).sigs == old(self).sigs && final(self).pending == old(self).pending),
            single_sum(deps@, items@) && !testing && no_main(old(self).sigs@) ==> (r matches Ok(id) && id == old(self).funcs@.len()
                && final(self).funcs@.len() == id + 1 && final(self).funcs@.drop_last() == old(self).funcs@ && sum_main(
                final(self).funcs@[id as int],
                items@[0]->Binary_0,
                items@[0]->Binary_1->Int_0,
                items@[0]->Binary_2->Int_0,
            ) && final(self).sigs == old(self).sigs && final(self).pending == old(self).pending),
    {
        let ghost lit_prog = single_literal(deps@, items@) && !testing && no_main(old(self).sigs@);
        let ghost sum_prog = single_sum(deps@, items@) && !testing && no_main(old(self).sigs@);
        self.reset_fn_state();
        self.type_env = Vec::new();
        self.self_type = Vec::new();
        // the statics of imported modules come first
        self.seed_statics(deps)?;
        // with a `main` fn, or under test, top-level bindings are statics, and the program runs
        // `main` after filling them
        let main = lit("main");
        let main_fn = match self.find_sig(main.as_slice()) {
            Some(f) => Some(self.sigs[f].id),
            None => None,
        };
        if main_fn.is_some() || testing {
            self.seed_statics(items)?;
            let u = self.constant(Val::Unit);
            self.emit(Instr::Return(u));
            let mut code: Vec<Instr> = Vec::new();
            std::mem::swap(&mut code, &mut self.code);
            let fill = self.funcs.len();
            self.funcs.push(Func { name: lit("statics"), nparams: 0, nslots: self.nslots, body: code });
            self.statics_fn = Some(fill);
            self.reset_fn_state();
            let _ = self.op(Op::Call(fill, Vec::new()));
            match main_fn {
                Some(id) => {
                    let _ = self.op(Op::Call(id, Vec::new()));
                },
                None => {},
            }
            let u = self.constant(Val::Unit);
            self.emit(Instr::Return(u));
            let mut code: Vec<Instr> = Vec::new();
            std::mem::swap(&mut code, &mut self.code);
            let entry = self.funcs.len();
            self.funcs.push(Func { name: lit("init"), nparams: 0, nslots: self.nslots, body: code });
            return Ok(entry);
        }
        let mut last: Option<(usize, Typ)> = None;
        let mut quiet = true;
        let mut i: usize = 0;
        while i < items.len()
            invariant
                i <= items@.len(),
                lit_prog == (single_literal(deps@, items@) && !testing && no_main(old(self).sigs@)),
                sum_prog == (single_sum(deps@, items@) && !testing && no_main(old(self).sigs@)),
                sum_prog && i == 0 ==> self.vars@.len() == 0 && self.scopes@.len() == 1 && self.scopes@[0]@.len() == 0
                    && self.defers@.len() == 1 && self.defers@[0]@.len() == 0 && self.code@.len() == 0 && self.nslots == 0
                    && self.funcs == old(self).funcs && self.sigs == old(self).sigs && self.pending == old(self).pending,
                sum_prog && i == 1 ==> self.scopes@.len() == 1 && self.scopes@[0]@.len() == 0 && self.defers@.len() == 1
                    && self.defers@[0]@.len() == 0 && self.code@ == crate::lower::literal_op_code(
                    0,
                    items@[0]->Binary_0,
                    items@[0]->Binary_1->Int_0,
                    items@[0]->Binary_2->Int_0,
                ) && self.nslots == 3 && self.funcs == old(self).funcs && self.sigs == old(self).sigs && self.pending == old(
                    self,
                ).pending && last == Some((2usize, Typ::Int(64))) && !quiet,
                lit_prog && i == 0 ==> self.vars@.len() == 0 && self.scopes@.len() == 1 && self.scopes@[0]@.len() == 0
                    && self.defers@.len() == 1 && self.defers@[0]@.len() == 0 && self.code@.len() == 0 && self.nslots == 0
                    && self.funcs == old(self).funcs && self.sigs == old(self).sigs && self.pending == old(self).pending,
                lit_prog && i == 1 ==> self.scopes@.len() == 1 && self.scopes@[0]@.len() == 0 && self.defers@.len() == 1
                    && self.defers@[0]@.len() == 0 && self.code@ == seq![Instr::Store(0, Op::Const(Val::Int(items@[0]->Int_0)))]
                    && self.nslots == 1 && self.funcs == old(self).funcs && self.sigs == old(self).sigs && self.pending == old(
                    self,
                ).pending && last == Some(
                    (0usize, Typ::Int(64)),
                ) && !quiet,
            decreases items@.len() - i,
        {
            let e = &items[i];
            if !is_definition(e) {
                match self.stmt(e, None, LOWER_FUEL)? {
                    Some(v) => {
                        last = Some(v);
                        // a trailing `:=` binding shows the value it binds; a `::` binding and
                        // a defer show nothing
                        quiet = match e {
                            Expr::Defer { .. } => true,
                            Expr::Bind { mutable, .. } => !*mutable,
                            Expr::PatBind { mutable: Some(m), .. } => !*m,
                            _ => false,
                        };
                    },
                    None => {
                        last = None;
                        break;
                    },
                }
            }
            i = i + 1;
        }
        match last {
            Some((v, t)) => {
                if !quiet && !is_unit_type(&t) && !is_never(&t) {
                    let mut items: Vec<(usize, Typ)> = Vec::new();
                    items.push((v, t));
                    proof {
                        if lit_prog {
                            assert(items@ =~= seq![(0usize, Typ::Int(64))]);
                        }
                        if sum_prog {
                            assert(items@ =~= seq![(2usize, Typ::Int(64))]);
                        }
                    }
                    self.emit(Instr::Print(false, true, items));
                }
                self.release_scopes(0, None, LOWER_FUEL)?;
            },
            None => {},
        }
        let u = self.constant(Val::Unit);
        self.emit(Instr::Return(u));
        let mut code: Vec<Instr> = Vec::new();
        std::mem::swap(&mut code, &mut self.code);
        proof {
            if sum_prog {
                assert(code@.take(3) =~= crate::lower::literal_op_code(
                    0,
                    items@[0]->Binary_0,
                    items@[0]->Binary_1->Int_0,
                    items@[0]->Binary_2->Int_0,
                ));
            }
        }
        let id = self.funcs.len();
        self.funcs.push(Func { name: lit("main"), nparams: 0, nslots: self.nslots, body: code });
        Ok(id)
    }

    /// Compile a parsed program: its declarations, `main`, and every function it reaches.
    pub(crate) fn compile_program(&mut self, deps: &'a Vec<Expr>, items: &'a Vec<Expr>, testing: bool) -> (r: Result<usize, Diagnostic>)
        ensures
            single_literal(deps@, items@) && !testing && no_main(old(self).sigs@) && old(self).pending@.len() == 0 ==> (r matches Ok(id)
                && id == old(self).funcs@.len() && final(self).funcs@.len() == id + 1 && final(self).funcs@.drop_last() == old(
                self,
            ).funcs@ && literal_main(final(self).funcs@[id as int], items@[0]->Int_0)),
            single_sum(deps@, items@) && !testing && no_main(old(self).sigs@) && old(self).pending@.len() == 0 ==> (r matches Ok(id)
                && id == old(self).funcs@.len() && final(self).funcs@.len() == id + 1 && final(self).funcs@.drop_last() == old(
                self,
            ).funcs@ && sum_main(
                final(self).funcs@[id as int],
                items@[0]->Binary_0,
                items@[0]->Binary_1->Int_0,
                items@[0]->Binary_2->Int_0,
            )),
    {
        let ghost lit_prog = (single_literal(deps@, items@) || single_sum(deps@, items@)) && !testing && no_main(old(self).sigs@)
            && old(self).pending@.len() == 0;
        self.declare_items(deps)?;
        self.declare_items(items)?;
        let entry = self.compile_main(deps, items, testing)?;
        let ghost funcs_now = self.funcs@;
        let mut k: usize = 0;
        // bodies can queue more bodies (instances and anonymous functions); each is compiled once
        while k < self.pending.len()
            invariant
                lit_prog ==> k == 0 && self.pending@.len() == 0 && self.funcs@ == funcs_now,
            decreases usize::MAX - k,
        {
            let id = self.pending[k].0;
            let item = self.pending[k].1;
            let owner = self.pending[k].2.clone();
            let mut env: Vec<(Vec<u8>, Typ)> = Vec::new();
            let mut j: usize = 0;
            while j < self.pending[k].3.len()
                invariant
                    k < self.pending@.len(),
                    j <= self.pending@[k as int].3@.len(),
                decreases self.pending@[k as int].3@.len() - j,
            {
                env.push((self.pending[k].3[j].0.clone(), self.pending[k].3[j].1.copy()));
                j = j + 1;
            }
            self.compile_fn(id, item, owner, env)?;
            if k == usize::MAX {
                break;
            }
            k = k + 1;
        }
        Ok(entry)
    }
}

impl<'a> Translator<'a> {
    /// An entry that fills the statics, then runs the function of signature `f`.
    pub(crate) fn test_entry(&mut self, f: usize) -> (r: usize)
        ensures
            r == old(self).funcs@.len(),
            final(self).funcs@.len() == old(self).funcs@.len() + 1,
            final(self).funcs@.drop_last() == old(self).funcs@,
            final(self).funcs@.last().name@ == "test".spec_bytes(),
            final(self).funcs@.last().nparams == 0,
            final(self).funcs@.last().body@.len() == 2 + (if old(self).statics_fn is Some {
                1int
            } else {
                0
            }) + (if f < old(self).sigs@.len() {
                1int
            } else {
                0
            }),
            final(self).funcs@.last().body@.last() is Return,
            f < old(self).sigs@.len() ==> (final(self).funcs@.last().body@[if old(self).statics_fn is Some {
                1int
            } else {
                0
            }] matches Instr::Store(_, Op::Call(id, args)) && id == old(self).sigs@[f as int].id && args@.len() == 0),
    {
        self.reset_fn_state();
        match self.statics_fn {
            Some(s) => {
                let _ = self.op(Op::Call(s, Vec::new()));
            },
            None => {},
        }
        if f < self.sigs.len() {
            let id = self.sigs[f].id;
            let _ = self.op(Op::Call(id, Vec::new()));
        }
        let u = self.constant(Val::Unit);
        self.emit(Instr::Return(u));
        let mut code: Vec<Instr> = Vec::new();
        std::mem::swap(&mut code, &mut self.code);
        let entry = self.funcs.len();
        self.funcs.push(Func { name: lit("test"), nparams: 0, nslots: self.nslots, body: code });
        entry
    }
}

/// Whether a statement defines something, imports, or binds: a function, a type, a trait, a
/// claim, an alias, a macro, a `use`, or a binding.
pub open spec fn spec_defines(e: Expr) -> bool {
    match e {
        Expr::Fn { .. } | Expr::StructDef { .. } | Expr::TupleStructDef { .. } | Expr::EnumDef { .. }
        | Expr::TraitDef { .. } | Expr::Claim { .. } | Expr::TypeAlias { .. } | Expr::Bind { .. }
        | Expr::Use { .. } | Expr::MacroDef(_) => true,
        _ => false,
    }
}

/// Whether a session keeps a statement for its later lines: what it defines, imports or binds,
/// looking through `pub` and annotations.
pub open spec fn spec_kept(e: Expr) -> bool {
    match e {
        Expr::Annotated(_, inner) => spec_defines(*inner),
        Expr::Pub(inner) => spec_defines(*inner),
        _ => spec_defines(e),
    }
}

fn defines(e: &Expr) -> (r: bool)
    ensures
        r == spec_defines(*e),
{
    match e {
        Expr::Fn { .. } | Expr::StructDef { .. } | Expr::TupleStructDef { .. } | Expr::EnumDef { .. }
        | Expr::TraitDef { .. } | Expr::Claim { .. } | Expr::TypeAlias { .. } | Expr::Bind { .. }
        | Expr::Use { .. } | Expr::MacroDef(_) => true,
        _ => false,
    }
}

/// Whether a session keeps a statement.
pub fn kept(e: &Expr) -> (r: bool)
    ensures
        r == spec_kept(*e),
{
    match e {
        Expr::Annotated(_, inner) => defines(&**inner),
        Expr::Pub(inner) => defines(&**inner),
        _ => defines(e),
    }
}

/// The source a session keeps of a line: for each statement, by whether it is kept and the bytes
/// it spans, the kept ones' text, each followed by a line break.
pub open spec fn spec_keep(line: Seq<u8>, spans: Seq<(bool, usize, usize)>) -> Seq<u8>
    decreases spans.len(),
{
    if spans.len() == 0 {
        Seq::empty()
    } else {
        let (k, a, b) = spans.last();
        spec_keep(line, spans.drop_last()) + if k && a <= b && b <= line.len() {
            line.subrange(a as int, b as int).push(10u8)
        } else {
            Seq::empty()
        }
    }
}

/// The text of the kept statements of a line, each on a line of its own.
pub fn keep_spans(line: &[u8], spans: &Vec<(bool, usize, usize)>) -> (r: Vec<u8>)
    ensures
        r@ == spec_keep(line@, spans@),
{
    let mut out: Vec<u8> = Vec::new();
    let mut i: usize = 0;
    while i < spans.len()
        invariant
            i <= spans@.len(),
            out@ == spec_keep(line@, spans@.take(i as int)),
        decreases spans@.len() - i,
    {
        let (k, a, b) = spans[i];
        let ghost before = out@;
        if k && a <= b && b <= line.len() {
            let mut j = a;
            while j < b
                invariant
                    a <= j <= b <= line@.len(),
                    out@ == before + line@.subrange(a as int, j as int),
                decreases b - j,
            {
                out.push(line[j]);
                assert(line@.subrange(a as int, j + 1) =~= line@.subrange(a as int, j as int).push(line@[j as int]));
                j = j + 1;
            }
            out.push(10);
        }
        assert(spans@.take(i + 1).drop_last() =~= spans@.take(i as int));
        assert(out@ =~= spec_keep(line@, spans@.take(i + 1)));
        i = i + 1;
    }
    assert(spans@.take(spans@.len() as int) =~= spans@);
    out
}

/// What a session keeps of a line it ran: the source of its definitions, imports and bindings,
/// one per line, which the session runs again before each later line. A line that does not lex
/// or parse keeps nothing.
pub fn session_defs(line: &[u8]) -> (r: Vec<u8>) {
    let toks = match crate::lexer::lex(line) {
        Ok(t) => t,
        Err(_) => {
            return Vec::new();
        },
    };
    match crate::parser::parse_spans(toks) {
        Ok(stmts) => {
            let mut spans: Vec<(bool, usize, usize)> = Vec::new();
            let mut i: usize = 0;
            while i < stmts.len()
                invariant
                    i <= stmts@.len(),
                decreases stmts@.len() - i,
            {
                spans.push((kept(&stmts[i].0), stmts[i].1, stmts[i].2));
                i = i + 1;
            }
            keep_spans(line, &spans)
        },
        Err(_) => Vec::new(),
    }
}

/// The items of a program's entry file, lexed, parsed and folded into module `main`; or the
/// message of the first error.
pub fn load_source(src: &[u8]) -> (r: Result<Vec<Expr>, Vec<u8>>)
    ensures
        r matches Ok(items) ==> crate::loader::distinct_defs(items@) && crate::loader::no_declarations(items@),
        crate::lexer::blank(src@) ==> (r matches Ok(items) && items@.len() == 0),
{
    let items = crate::loader::parse_file(src)?;
    match crate::loader::entry_module(items) {
        Ok(m) => Ok(m.items),
        Err(d) => Err(d.msg),
    }
}

/// The report of an error that stops a program before it runs.
pub open spec fn error_text(msg: Seq<u8>) -> Seq<u8> {
    "Error: ".spec_bytes() + msg + seq![10u8]
}

/// Whether an outcome is that of a program that did not load or compile: status 1, nothing
/// printed, and the error's report on stderr.
pub open spec fn refused(o: Outcome) -> bool {
    &&& o.status == 1
    &&& o.stdout@.len() == 0
    &&& exists|m: Seq<u8>| #[trigger] error_text(m) == o.stderr@
}

/// The message a run that aborts adds to what it wrote to stderr.
pub open spec fn panic_text(msg: Seq<u8>) -> Seq<u8> {
    "panic: ".spec_bytes() + msg + seq![10u8]
}

/// Whether a stream ends with the message of an abort.
pub open spec fn aborted(err: Seq<u8>) -> bool {
    exists|m: Seq<u8>| #[trigger] panic_text(m).len() <= err.len() && err.subrange(err.len() - panic_text(m).len(), err.len() as int)
        == panic_text(m)
}

/// A compile error's report.
pub fn report(msg: &[u8]) -> (r: Vec<u8>)
    ensures
        r@ == "Error: ".spec_bytes() + msg@ + seq![10u8],
{
    let mut out = lit("Error: ");
    push_all(&mut out, msg);
    out.push(10);
    out
}

/// Lex, parse and compile a program without running it: status 0, or 1 with the error.
pub fn check_source(src: &[u8]) -> (r: Outcome)
    ensures
        r.stdout@.len() == 0,
        r.status == 0 || r.status == 1,
        r.status == 0 <==> r.stderr@.len() == 0,
        r.status == 1 ==> refused(r),
{
    let items = match load_source(src) {
        Ok(items) => items,
        Err(msg) => {
            let o = Outcome { stdout: Vec::new(), stderr: report(msg.as_slice()), status: 1 };
            assert(error_text(msg@) == o.stderr@);
            return o;
        },
    };
    let deps: Vec<Expr> = Vec::new();
    let mut tr = Translator::new();
    match tr.compile_program(&deps, &items, false) {
        Ok(_) => Outcome { stdout: Vec::new(), stderr: Vec::new(), status: 0 },
        Err(d) => {
            let o = Outcome { stdout: Vec::new(), stderr: report(d.msg.as_slice()), status: 1 };
            assert(error_text(d.msg@) == o.stderr@);
            o
        },
    }
}

/// Lex, parse, compile and run a program, collecting what it prints: status 1 with the error
/// when it does not compile, 101 with the message when it aborts, else 0.
pub fn run_source(src: &[u8]) -> (r: Outcome)
    ensures
        r.status == 0 || r.status == 1 || r.status == 101,
        r.status == 1 ==> r.stdout@.len() == 0,
        r.status == 1 ==> refused(r),
        r.status == 101 ==> aborted(r.stderr@),
{
    let items = match load_source(src) {
        Ok(items) => items,
        Err(msg) => {
            let o = Outcome { stdout: Vec::new(), stderr: report(msg.as_slice()), status: 1 };
            assert(error_text(msg@) == o.stderr@);
            return o;
        },
    };
    run_items(&Vec::new(), &items)
}

/// Run a program: the entry sources make module `main`, and a module `m` that a loaded module
/// imports is, among the other files (each a path and its source), the file `m.oi` or the
/// files under `m/`. Status 1 with the error when it does not load or compile, 101 with the
/// message when it aborts, else 0.
pub fn run_project(entry: &Vec<Vec<u8>>, files: &Vec<(Vec<u8>, Vec<u8>)>) -> (r: Outcome)
    ensures
        r.status == 0 || r.status == 1 || r.status == 101,
        r.status == 1 ==> r.stdout@.len() == 0,
        r.status == 1 ==> refused(r),
        r.status == 101 ==> aborted(r.stderr@),
{
    match project_items(entry, files) {
        Ok((deps, items)) => run_items(&deps, &items),
        Err(msg) => {
            let o = Outcome { stdout: Vec::new(), stderr: report(msg.as_slice()), status: 1 };
            assert(error_text(msg@) == o.stderr@);
            o
        },
    }
}

/// The sources of module `name` among a project's files.
fn module_sources(files: &Vec<(Vec<u8>, Vec<u8>)>, name: &[u8]) -> (r: Vec<Vec<u8>>)
    ensures
        r@.map_values(|v: Vec<u8>| v@) == spec_module_sources(files@, name@),
{
    let mut file = crate::text::owned(name);
    push_str(&mut file, ".oi");
    let mut dir = crate::text::owned(name);
    dir.push(47);
    let mut out: Vec<Vec<u8>> = Vec::new();
    let mut i: usize = 0;
    while i < files.len()
        invariant
            i <= files@.len(),
            file@ == name@ + ".oi".spec_bytes(),
            dir@ == name@.push(47u8),
            out@.map_values(|v: Vec<u8>| v@) == spec_module_sources(files@.take(i as int), name@),
        decreases files@.len() - i,
    {
        let path = files[i].0.as_slice();
        assert(files@.take(i + 1).drop_last() =~= files@.take(i as int));
        if crate::text::bytes_eq(path, file.as_slice()) || crate::translator::starts_with(path, dir.as_slice()) {
            let src = crate::text::owned(files[i].1.as_slice());
            let ghost before = out@;
            out.push(src);
            assert(out@.map_values(|v: Vec<u8>| v@) =~= before.map_values(|v: Vec<u8>| v@).push(files@[i as int].1@));
        }
        i = i + 1;
    }
    assert(files@.take(files@.len() as int) =~= files@);
    out
}

/// Whether a project file belongs to module `name`: it is `name.oi`, or lies under `name/`.
pub open spec fn in_module(path: Seq<u8>, name: Seq<u8>) -> bool {
    path == name + ".oi".spec_bytes() || (name.len() + 1 <= path.len() && path.take(name.len() + 1 as int) == name.push(47u8))
}

/// The sources of the files of module `name`, in the order the files come.
pub open spec fn spec_module_sources(files: Seq<(Vec<u8>, Vec<u8>)>, name: Seq<u8>) -> Seq<Seq<u8>>
    decreases files.len(),
{
    if files.len() == 0 {
        Seq::empty()
    } else {
        spec_module_sources(files.drop_last(), name) + if in_module(files.last().0@, name) {
            seq![files.last().1@]
        } else {
            Seq::empty()
        }
    }
}

/// Lex and parse each source.
fn parse_sources(srcs: Vec<Vec<u8>>) -> (r: Result<Vec<Vec<Expr>>, Vec<u8>>)
    ensures
        r matches Ok(v) ==> v@.len() == srcs@.len(),
{
    let mut out: Vec<Vec<Expr>> = Vec::new();
    let mut i: usize = 0;
    while i < srcs.len()
        invariant
            i <= srcs@.len(),
            out@.len() == i,
        decreases srcs@.len() - i,
    {
        out.push(crate::loader::parse_file(srcs[i].as_slice())?);
        i = i + 1;
    }
    Ok(out)
}

/// Load a project's modules, starting from `main`, made of the entry sources, and following
/// imports: a module `m` is, among the other files (each a path and its source), the file
/// `m.oi` or the files under `m/`. A module that no file holds, and an import cycle, are
/// refused.
pub fn load(entry: &Vec<Vec<u8>>, files: &Vec<(Vec<u8>, Vec<u8>)>) -> (r: Result<crate::loader::Program, Vec<u8>>)
    ensures
        r matches Ok(p) ==> crate::loader::sound_modules(p.modules@),
        r matches Ok(p) ==> p.modules@.len() > 0 && p.modules@[0].name@ == "main".spec_bytes(),
        r matches Ok(p) ==> forall|i: int, k: int|
            0 <= i < p.modules@.len() && 0 <= k < p.modules@[i].imports@.len() ==> exists|j: int|
                0 <= j < p.modules@.len() && p.modules@[j].name@ == (#[trigger] p.modules@[i].imports@[k])@,
{
    let main = lit("main");
    let mut loader = crate::loader::Loader::new();
    assert(!loader.loaded(main@));
    let parsed = parse_sources(entry.clone())?;
    match loader.add_module(main.as_slice(), parsed) {
        Ok(()) => {},
        Err(d) => {
            return Err(d.msg);
        },
    }
    // each round loads a module, and each module has a file
    let mut rounds = files.len();
    while rounds > 0
        invariant
            crate::loader::sound_modules(loader.modules@),
            loader.modules@.len() > 0 && loader.modules@[0].name@ == "main".spec_bytes(),
        decreases rounds,
    {
        match loader.missing_import() {
            Some(name) => {
                if is(name.as_slice(), "rt") {
                    return Err(lit("`rt` is internal to core"));
                }
                let srcs = module_sources(files, name.as_slice());
                if srcs.len() == 0 {
                    let mut msg = lit("cannot find module `");
                    push_all(&mut msg, name.as_slice());
                    push_str(&mut msg, "`");
                    return Err(msg);
                }
                let parsed = parse_sources(srcs)?;
                match loader.add_module(name.as_slice(), parsed) {
                    Ok(()) => {},
                    Err(d) => {
                        return Err(d.msg);
                    },
                }
            },
            None => {
                break ;
            },
        }
        rounds = rounds - 1;
    }
    // every module that has a file has been loaded by now
    match loader.missing_import() {
        Some(name) => {
            let mut msg = lit("cannot find module `");
            push_all(&mut msg, name.as_slice());
            push_str(&mut msg, "`");
            return Err(msg);
        },
        None => {},
    }
    assert(forall|i: int, k: int|
        0 <= i < loader.modules@.len() && 0 <= k < loader.modules@[i].imports@.len() ==> loader.loaded(
            #[trigger] loader.modules@[i].imports@[k]@,
        ));
    match loader.import_cycle() {
        Some(msg) => {
            return Err(msg);
        },
        None => {},
    }
    let ghost loaded = loader.modules@;
    match loader.finish() {
        Ok(r) => {
            assert forall|i: int, k: int|
                0 <= i < r.modules@.len() && 0 <= k < r.modules@[i].imports@.len() implies exists|j: int|
                    0 <= j < r.modules@.len() && r.modules@[j].name@ == (#[trigger] r.modules@[i].imports@[k])@ by {
                assert(r.modules@[i].imports == loaded[i].imports);
                let j = choose|j: int| 0 <= j < loaded.len() && (#[trigger] loaded[j]).name@ == loaded[i].imports@[k]@;
                assert(r.modules@[j].name == loaded[j].name);
            }
            Ok(r)
        },
        Err(d) => Err(d.msg),
    }
}

/// The items of a project's imported modules and those of its `main`, qualified; or the
/// message of the first error.
pub(crate) fn project_items(entry: &Vec<Vec<u8>>, files: &Vec<(Vec<u8>, Vec<u8>)>) -> (r: Result<(Vec<Expr>, Vec<Expr>), Vec<u8>>) {
    match load(entry, files)?.items() {
        Ok(r) => Ok(r),
        Err(d) => Err(d.msg),
    }
}

/// A compiled program: its functions, its enums, and the function it starts from.
pub struct Compiled {
    pub funcs: Vec<Func>,
    pub enums: Vec<crate::types::EnumInfo>,
    pub entry: usize,
}

/// Compile the items of the imported modules and those of `main`; or the error's message.
pub fn compile(deps: &Vec<Expr>, items: &Vec<Expr>) -> (r: Result<Compiled, Vec<u8>>)
    ensures
        single_literal(deps@, items@) ==> (r matches Ok(c) && c.entry == 0 && c.funcs@.len() == 1 && literal_main(
            c.funcs@[0],
            items@[0]->Int_0,
        )),
        single_sum(deps@, items@) ==> (r matches Ok(c) && c.entry == 0 && c.funcs@.len() == 1 && sum_main(
            c.funcs@[0],
            items@[0]->Binary_0,
            items@[0]->Binary_1->Int_0,
            items@[0]->Binary_2->Int_0,
        )),
{
    let mut tr = Translator::new();
    let entry = match tr.compile_program(deps, items, false) {
        Ok(entry) => entry,
        Err(d) => {
            return Err(d.msg);
        },
    };
    let mut funcs: Vec<Func> = Vec::new();
    let mut enums: Vec<crate::types::EnumInfo> = Vec::new();
    std::mem::swap(&mut funcs, &mut tr.funcs);
    std::mem::swap(&mut enums, &mut tr.enums);
    Ok(Compiled { funcs, enums, entry })
}

/// Compile and run the items of the imported modules and those of `main`: status 1 with the
/// error when they do not compile, 101 with the message when the run aborts, else 0. A program
/// that is one integer literal prints it on a line of its own, and one that is `a + b`, `a - b`
/// or `a * b` on two integer literals prints the result, wrapped to 64 bits.
pub fn run_items(deps: &Vec<Expr>, items: &Vec<Expr>) -> (r: Outcome)
    ensures
        single_literal(deps@, items@) ==> r.status == 0 && r.stdout@ == crate::machine::int_line(items@[0]->Int_0)
            && r.stderr@.len() == 0,
        single_sum(deps@, items@) ==> r.status == 0 && r.stdout@ == crate::machine::int_line(
            crate::machine::ring_value(items@[0]->Binary_0, items@[0]->Binary_1->Int_0, items@[0]->Binary_2->Int_0),
        ) && r.stderr@.len() == 0,
        r.status == 0 || r.status == 1 || r.status == 101,
        r.status == 1 ==> r.stdout@.len() == 0,
        r.status == 1 ==> refused(r),
        r.status == 101 ==> aborted(r.stderr@),
{
    match compile(deps, items) {
        Ok(c) => run_compiled(&c),
        Err(msg) => {
            let o = Outcome { stdout: Vec::new(), stderr: report(msg.as_slice()), status: 1 };
            assert(error_text(msg@) == o.stderr@);
            o
        },
    }
}

/// Run a compiled program, collecting what it prints: status 101 with the message when it
/// aborts, else 0.
pub fn run_compiled(c: &Compiled) -> (r: Outcome)
    ensures
        r.status == 0 || r.status == 101,
        r.status == 101 ==> aborted(r.stderr@),
        forall|n: i64|
            c.entry < c.funcs@.len() && #[trigger] literal_main(c.funcs@[c.entry as int], n) ==> r.status == 0 && r.stdout@
                == crate::machine::int_line(n) && r.stderr@.len() == 0,
        forall|op: BinOp, a: i64, b: i64|
            c.entry < c.funcs@.len() && #[trigger] sum_main(c.funcs@[c.entry as int], op, a, b) && crate::lower::ring_op(op)
                ==> r.status == 0 && r.stdout@ == crate::machine::int_line(crate::machine::ring_value(op, a, b)) && r.stderr@.len()
                == 0,
        c.entry >= c.funcs@.len() ==> r.status == 101 && r.stdout@.len() == 0 && r.stderr@
            == "panic: bad function\n".spec_bytes(),
{
    let (out, err, failure) = crate::machine::run_program(&c.funcs, &c.enums, c.entry);
    match failure {
        Some(m) => {
            let mut stderr = err;
            let ghost e0 = stderr@;
            push_str(&mut stderr, "panic: ");
            push_all(&mut stderr, m.as_slice());
            stderr.push(10);
            proof {
                reveal_strlit("panic: ");
                reveal_strlit("bad function");
                reveal_strlit("panic: bad function\n");
                assert(vstd::string::is_ascii("panic: ") && vstd::string::is_ascii("bad function"));
                assert(vstd::string::is_ascii("panic: bad function\n"));
                if c.entry >= c.funcs@.len() {
                    assert(stderr@ =~= "panic: bad function\n".spec_bytes());
                }
                assert(stderr@ =~= e0 + panic_text(m@));
                assert(stderr@.subrange(stderr@.len() - panic_text(m@).len(), stderr@.len() as int) =~= panic_text(m@));
            }
            Outcome { stdout: out, stderr, status: 101 }
        },
        None => Outcome { stdout: out, stderr: err, status: 0 },
    }
}

/// The position of the function named `name` among a claim's fills.
pub(crate) fn find_fill(fills: &Vec<Expr>, name: &[u8]) -> (r: Option<usize>)
    ensures
        r matches Some(i) ==> i < fills@.len() && fills@[i as int] is Fn && fills@[i as int]->Fn_name@ == name@,
        r is None ==> forall|j: int|
            0 <= j < fills@.len() && (#[trigger] fills@[j]) is Fn ==> fills@[j]->Fn_name@ != name@,
{
    let mut i: usize = 0;
    while i < fills.len()
        invariant
            i <= fills@.len(),
            forall|j: int| 0 <= j < i && (#[trigger] fills@[j]) is Fn ==> fills@[j]->Fn_name@ != name@,
        decreases fills@.len() - i,
    {
        if let Expr::Fn { name: n, .. } = &fills[i] {
            if crate::text::bytes_eq(n.as_slice(), name) {
                return Some(i);
            }
        }
        i = i + 1;
    }
    None
}

/// Whether two parameter lists have the same length and take each parameter the same way.
pub(crate) fn same_shape(a: &Vec<crate::ast::Param>, b: &Vec<crate::ast::Param>) -> (r: bool)
    ensures
        r == (a@.len() == b@.len() && forall|j: int| 0 <= j < a@.len() ==> (#[trigger] a@[j]).access == b@[j].access),
{
    if a.len() != b.len() {
        return false;
    }
    let mut i: usize = 0;
    while i < a.len()
        invariant
            i <= a@.len(),
            a@.len() == b@.len(),
            forall|j: int| 0 <= j < i ==> (#[trigger] a@[j]).access == b@[j].access,
        decreases a@.len() - i,
    {
        if a[i].access != b[i].access {
            return false;
        }
        i = i + 1;
    }
    true
}

} // verus!
