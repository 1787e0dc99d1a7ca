#![verifier::loop_isolation(false)]

//! Calls, builtins, fields, literals of structs and enums, casts and zero values.
use vstd::prelude::*;
use vstd::string::StringSliceAdditionalSpecFns;

use crate::ast::{Access, BinOp, Expr, TypeExpr};
use crate::control::variant_of;
use crate::ir::{Func, Instr, NumKind, Op, Val};
use crate::lower::{diag4, is_never};
use crate::text::{bytes_eq, is, lit, push_all, push_str};
use crate::translator::{Diagnostic, FnSig, Translator, diag, diag3, num_kind};
use crate::types::{FieldDef, Typ, copy_all};

verus! {

/// An argument after lowering: its slot, type, and whether it was marked `move`.
pub struct Arg<'a> {
    pub slot: usize,
    pub typ: Typ,
    pub expr: &'a Expr,
    pub moved: bool,
}

/// The names of a trait's methods, in the order its objects' tables hold them: its slots, then
/// its methods with a default body.
pub(crate) fn trait_methods(def: &Expr) -> (r: Vec<Vec<u8>>)
    ensures
        !(*def is TraitDef) ==> r@.len() == 0,
        *def is TraitDef ==> r@.len() >= def->TraitDef_slots@.len() && forall|i: int|
            0 <= i < def->TraitDef_slots@.len() ==> (#[trigger] r@[i])@ == def->TraitDef_slots@[i].name@,
        *def is TraitDef ==> r@.len() <= def->TraitDef_slots@.len() + def->TraitDef_defaults@.len(),
{
    let mut out: Vec<Vec<u8>> = Vec::new();
    if let Expr::TraitDef { slots, defaults, .. } = def {
        let mut i: usize = 0;
        while i < slots.len()
            invariant
                i <= slots@.len(),
                out@.len() == i,
                forall|j: int| 0 <= j < i ==> (#[trigger] out@[j])@ == slots@[j].name@,
            decreases slots@.len() - i,
        {
            out.push(crate::text::owned(slots[i].name.as_slice()));
            i = i + 1;
        }
        let mut i: usize = 0;
        while i < defaults.len()
            invariant
                i <= defaults@.len(),
                slots@.len() <= out@.len() <= slots@.len() + i,
                forall|j: int| 0 <= j < slots@.len() ==> (#[trigger] out@[j])@ == slots@[j].name@,
            decreases defaults@.len() - i,
        {
            if let Expr::Fn { name, .. } = &defaults[i] {
                out.push(crate::text::owned(name.as_slice()));
            }
            i = i + 1;
        }
    }
    out
}

/// A trait method by name: its position in the objects' tables, its parameters and its return type.
pub(crate) fn trait_method<'e>(def: &'e Expr, method: &[u8]) -> (r: Option<(usize, &'e Vec<crate::ast::Param>, &'e Option<TypeExpr>)>)
    ensures
        !(*def is TraitDef) ==> r is None,
        r matches Some((k, ps, rt)) ==> *def is TraitDef && ((k < def->TraitDef_slots@.len()
            && def->TraitDef_slots@[k as int].name@ == method@ && *ps == def->TraitDef_slots@[k as int].params
            && *rt == def->TraitDef_slots@[k as int].ret) || (k >= def->TraitDef_slots@.len() && exists|i: int|
            0 <= i < def->TraitDef_defaults@.len() && (#[trigger] def->TraitDef_defaults@[i]) is Fn
                && def->TraitDef_defaults@[i]->Fn_name@ == method@)),
        r is None && *def is TraitDef ==> (forall|i: int|
            0 <= i < def->TraitDef_slots@.len() ==> (#[trigger] def->TraitDef_slots@[i]).name@ != method@) && (
        forall|i: int|
            0 <= i < def->TraitDef_defaults@.len() && (#[trigger] def->TraitDef_defaults@[i]) is Fn
                ==> def->TraitDef_defaults@[i]->Fn_name@ != method@),
{
    if let Expr::TraitDef { slots, defaults, .. } = def {
        let mut i: usize = 0;
        while i < slots.len()
            invariant
                i <= slots@.len(),
                forall|j: int| 0 <= j < i ==> (#[trigger] slots@[j]).name@ != method@,
            decreases slots@.len() - i,
        {
            if bytes_eq(slots[i].name.as_slice(), method) {
                return Some((i, &slots[i].params, &slots[i].ret));
            }
            i = i + 1;
        }
        let mut k: usize = slots.len();
        let mut i: usize = 0;
        while i < defaults.len()
            invariant
                i <= defaults@.len(),
                k >= slots@.len(),
                forall|j: int| 0 <= j < slots@.len() ==> (#[trigger] slots@[j]).name@ != method@,
                forall|j: int| 0 <= j < i && (#[trigger] defaults@[j]) is Fn ==> defaults@[j]->Fn_name@ != method@,
            decreases defaults@.len() - i,
        {
            if let Expr::Fn { name, params, ret, .. } = &defaults[i] {
                if bytes_eq(name.as_slice(), method) {
                    return Some((k, params, ret));
                }
                if k < usize::MAX {
                    k = k + 1;
                }
            }
            i = i + 1;
        }
    }
    None
}

/// Whether values of the type hold elements that `len` counts.
pub(crate) fn is_collection(t: &Typ) -> (r: bool)
    ensures
        r == (*t is Array || *t is Str || *t is Dict),
{
    matches!(t, Typ::Array(_) | Typ::Str | Typ::Dict(_, _))
}

/// The traits `core` defines.
pub open spec fn spec_core_trait(name: Seq<u8>) -> bool {
    name == "Eq".spec_bytes() || name == "Ord".spec_bytes() || name == "Neg".spec_bytes() || name == "Add".spec_bytes()
        || name == "Sub".spec_bytes() || name == "Mul".spec_bytes() || name == "Div".spec_bytes() || name
        == "Mod".spec_bytes() || name == "Pow".spec_bytes() || name == "Not".spec_bytes() || name == "BitAnd".spec_bytes()
        || name == "BitOr".spec_bytes() || name == "BitXor".spec_bytes() || name == "Shl".spec_bytes() || name
        == "Shr".spec_bytes() || name == "Contains".spec_bytes() || name == "Iterator".spec_bytes() || name
        == "Iterable".spec_bytes() || name == "Error".spec_bytes() || name == "Drop".spec_bytes() || name
        == "Copy".spec_bytes() || name == "From".spec_bytes()
}

/// The traits `core` defines.
pub(crate) fn is_core_trait(name: &[u8]) -> (r: bool)
    ensures
        r == spec_core_trait(name@),
{
    is(name, "Eq") || is(name, "Ord") || is(name, "Neg") || is(name, "Add") || is(name, "Sub") || is(name, "Mul")
        || is(name, "Div") || is(name, "Mod") || is(name, "Pow") || is(name, "Not") || is(name, "BitAnd") || is(
        name,
        "BitOr",
    ) || is(name, "BitXor") || is(name, "Shl") || is(name, "Shr") || is(name, "Contains") || is(name, "Iterator")
        || is(name, "Iterable") || is(name, "Error") || is(name, "Drop") || is(name, "Copy") || is(name, "From")
}

/// Whether a name is one of the printing builtins: `print`, `write`, `eprint`, `ewrite`.
pub open spec fn print_name(n: Seq<u8>) -> bool {
    n == "print".spec_bytes() || n == "write".spec_bytes() || n == "eprint".spec_bytes() || n
        == "ewrite".spec_bytes()
}

/// The opening of the refusal of `Enum.from` on a value that is no int, string or atom.
pub open spec fn from_refusal<'a>(tr: Translator<'a>, id: usize) -> Seq<u8> {
    "`".spec_bytes() + (if id < tr.enums@.len() {
        tr.enums@[id as int].name@
    } else {
        Seq::empty()
    }) + ".from` needs an int, string, or atom. Got ".spec_bytes()
}

/// Whether a type's values carry a tag that `ord` gives: options, results, enums and sums.
pub open spec fn ordinal(t: Typ) -> bool {
    t is Option || t is Result || t is Enum || t is Sum
}

impl<'a> Translator<'a> {
    /// A call by name: a builtin, a function value, a function, a generic function, or a tuple
    /// struct's constructor.
    pub(crate) fn call(&mut self, name: &[u8], type_args: &'a Vec<TypeExpr>, args: &'a Vec<Expr>, hint: Option<&Typ>, fuel: u64) -> (r: Result<
        (usize, Typ),
        Diagnostic,
    >)
        ensures
            fuel == 0 ==> (r matches Err(d) && d.msg@ == "expression nests too deeply".spec_bytes()),
            fuel > 0 && print_name(name@) ==> (r matches Ok((v, t)) ==> {
                let c = final(self).code@;
                &&& t.is_unit()
                &&& c.len() >= 2
                &&& c.last() == Instr::Store(v, Op::Const(Val::Unit))
                &&& c[c.len() - 2] matches Instr::Print(to_err, newline, items)
                &&& to_err == (name@ == "eprint".spec_bytes() || name@ == "ewrite".spec_bytes())
                &&& newline == (name@ == "print".spec_bytes() || name@ == "eprint".spec_bytes())
                &&& items@.len() == args@.len()
            }),
            fuel > 0 && print_name(name@) && (forall|i: int|
                0 <= i < args@.len() ==> crate::lower::arith_tree(#[trigger] args@[i]) && fuel >= 3
                    * crate::lower::tree_depth(args@[i]) + 3) ==> {
                let c = final(self).code@;
                &&& r is Ok
                &&& c[c.len() - 2] matches Instr::Print(_, _, items)
                &&& forall|i: int| 0 <= i < items@.len() ==> (#[trigger] items@[i]).1 == Typ::Int(64)
            },
            fuel > 0 && name@ == "ord".spec_bytes() && args@.len() != 1 ==> (r matches Err(d) && d.msg@
                == "`ord` cast takes exactly 1 argument".spec_bytes()),
            fuel > 1 && name@ == "ord".spec_bytes() && args@.len() == 1 ==> (args@[0] matches Expr::Ident(n) ==> forall|i: int|
                #[trigger] old(self).innermost(n@, i) ==> (ordinal(old(self).vars@[i].1.typ) ==> (r matches Ok((s, t)) && t == Typ::Int(32)
                && final(self).code@ == old(self).code@.push(Instr::Store(s, Op::Tag(old(self).vars@[i].1.slot))))) && (!ordinal(
                old(self).vars@[i].1.typ,
            ) ==> r is Err)),
        decreases fuel, 0int,
    {
        if fuel == 0 {
            return Err(diag("expression nests too deeply"));
        }
        proof {
            reveal_strlit("ord");
            reveal_strlit("print");
            reveal_strlit("write");
            reveal_strlit("eprint");
            reveal_strlit("ewrite");
            assert(vstd::string::is_ascii("ord") && vstd::string::is_ascii("print") && vstd::string::is_ascii("write"));
            assert(vstd::string::is_ascii("eprint") && vstd::string::is_ascii("ewrite"));
            reveal_strlit("assert");
            assert(vstd::string::is_ascii("assert"));
        }
        if is(name, "print") || is(name, "write") || is(name, "eprint") || is(name, "ewrite") {
            let to_err = is(name, "eprint") || is(name, "ewrite");
            let newline = is(name, "print") || is(name, "eprint");
            let mut items: Vec<(usize, Typ)> = Vec::new();
            let mut i: usize = 0;
            let ghost ints = forall|i: int|
                0 <= i < args@.len() ==> crate::lower::arith_tree(#[trigger] args@[i]) && fuel >= 3
                    * crate::lower::tree_depth(args@[i]) + 3;
            while i < args.len()
                invariant
                    i <= args@.len(),
                    items@.len() == i,
                    fuel > 0,
                    ints == forall|i: int|
                        0 <= i < args@.len() ==> crate::lower::arith_tree(#[trigger] args@[i]) && fuel >= 3
                            * crate::lower::tree_depth(args@[i]) + 3,
                    ints ==> forall|j: int| 0 <= j < i ==> (#[trigger] items@[j]).1 == Typ::Int(64),
                decreases args@.len() - i,
            {
                let (v, t) = self.expr(&args[i], fuel - 1)?;
                items.push((v, t));
                i = i + 1;
            }
            self.emit(Instr::Print(to_err, newline, items));
            return Ok(self.unit_value());
        }
        if is(name, "assert") && self.find_sig(name).is_none() {
            // `assert!`: stop the program unless the condition holds
            if args.len() != 1 {
                return Err(diag("`assert!` takes one condition"));
            }
            let (c, t) = self.lower(&args[0], Some(&Typ::Bool), fuel - 1)?;
            if !matches!(t, Typ::Bool) {
                let shown = self.show(&t);
                return Err(diag3("`assert!` needs a bool, got ", shown.as_slice(), ""));
            }
            let mut fail: Vec<Instr> = Vec::new();
            fail.push(Instr::Abort(lit("assertion failed")));
            self.emit(Instr::If(c, Vec::new(), fail));
            return Ok(self.unit_value());
        }
        if is(name, "ord") {
            if args.len() != 1 {
                return Err(diag("`ord` cast takes exactly 1 argument"));
            }
            let (v, t) = self.expr(&args[0], fuel - 1)?;
            match t {
                Typ::Option(_) | Typ::Result(_, _) | Typ::Enum(_) | Typ::Sum(_) => {},
                _ => {
                    let shown = self.show(&t);
                    return Err(diag3("`ord` expects an Ordinal, got ", shown.as_slice(), ""));
                },
            }
            return Ok((self.op(Op::Tag(v)), Typ::Int(32)));
        }
        if is(name, "error") {
            if args.len() != 1 {
                return Err(diag("`error` takes 1 argument"));
            }
            let ret = match &self.ret {
                Some(t) => Some(t.copy()),
                None => None,
            };
            match ret {
                Some(Typ::Result(ok, err)) => {
                    let (v, t) = self.lower(&args[0], Some(&*err), fuel - 1)?;
                    if t.same(&*err) || (matches!(*err, Typ::Error) && matches!(t, Typ::Str)) {
                        let mut one: Vec<usize> = Vec::new();
                        one.push(v);
                        let out = self.op(Op::Enum(1, one));
                        return Ok((out, Typ::Result(ok, err)));
                    }
                    let shown = self.show(&t);
                    return Err(diag3("`", shown.as_slice(), "` doesn't claim Error"));
                },
                _ => {
                    let (v, t) = self.expr(&args[0], fuel - 1)?;
                    if matches!(t, Typ::Str) || matches!(t, Typ::Error) {
                        return Ok((v, Typ::Error));
                    }
                    let shown = self.show(&t);
                    return Err(diag3("`", shown.as_slice(), "` doesn't claim Error"));
                },
            }
        }
        match self.find_var(name) {
            Some(i) => {
                let s = self.vars[i].1.slot;
                let t = self.vars[i].1.typ.copy();
                return self.call_value(s, t, args, fuel - 1);
            },
            None => {},
        }
        if let Some(s) = self.find_struct(name) {
            if type_args.len() == 0 {
                let t = self.named(name, 64)?;
                return self.construct_positional(t, args, fuel - 1);
            }
        }
        if let Some(f) = self.find_sig(name) {
            if type_args.len() > 0 {
                return Err(diag3("`", name, "` is not generic"));
            }
            let lowered = self.lower_args(f, args, fuel - 1)?;
            return self.finish_call(f, None, lowered);
        }
        if let Some(g) = Self::find_generic(&self.generic_fns, name) {
            return self.call_generic(g, type_args, args, hint, fuel - 1);
        }
        if type_args.len() > 0 && args.len() == 0 {
            return Err(diag3("`", name, "` is a type, not a value"));
        }
        Err(diag3("undefined function `", name, "`"))
    }

    /// Lower the arguments of a call to a known function, checking `move` against the parameters.
    pub(crate) fn lower_args(&mut self, f: usize, args: &'a Vec<Expr>, fuel: u64) -> (r: Result<Vec<Arg<'a>>, Diagnostic>)
        decreases fuel, 0int,
    {
        if fuel == 0 {
            return Err(diag("expression nests too deeply"));
        }
        if f >= self.sigs.len() {
            return Err(diag("bad function"));
        }
        let skip: usize = if self.sigs[f].has_self {
            1
        } else {
            0
        };
        let mut out: Vec<Arg<'a>> = Vec::new();
        let mut i: usize = 0;
        while i < args.len()
            invariant
                i <= args@.len(),
            decreases args@.len() - i,
        {
            let j = if skip == 1 && i < usize::MAX {
                i + 1
            } else {
                i
            };
            let (pt, access) = if f < self.sigs.len() && j < self.sigs[f].params.len() {
                (Some(self.sigs[f].params[j].0.copy()), self.sigs[f].params[j].1)
            } else {
                (None, Access::Read)
            };
            let (e, moved) = match &args[i] {
                Expr::ArgMod(Access::Move, inner) => (&**inner, true),
                Expr::ArgMod(_, inner) => (&**inner, false),
                other => (other, false),
            };
            if access == Access::Move && !moved {
                return Err(diag("missing `move` at the callsite"));
            }
            if moved && access != Access::Move {
                return Err(diag("this parameter is not `move`"));
            }
            let (v, t) = match (&pt, e) {
                (Some(Typ::Array(et)), Expr::Spread(inner)) => {
                    // `..xs` and `..range` fill a variadic parameter
                    let (v, t) = self.expr(&**inner, fuel - 1)?;
                    match t {
                        Typ::Range => (self.op(Op::Spread(v)), Typ::Array(Box::new((**et).copy()))),
                        other => (v, other),
                    }
                },
                (Some(p), _) => self.lower(e, Some(p), fuel - 1)?,
                (None, _) => self.expr(e, fuel - 1)?,
            };
            out.push(Arg { slot: v, typ: t, expr: e, moved });
            i = i + 1;
        }
        Ok(out)
    }

    /// Call a function on lowered arguments, after the receiver if there is one.
    pub(crate) fn finish_call(&mut self, f: usize, recv: Option<(usize, &'a Expr)>, args: Vec<Arg<'a>>) -> (r: Result<
        (usize, Typ),
        Diagnostic,
    >) {
        if f >= self.sigs.len() {
            return Err(diag("bad function"));
        }
        let n = self.sigs[f].params.len();
        if args.len() == usize::MAX {
            return Err(diag("too many arguments"));
        }
        let given = args.len() + if recv.is_some() {
            1
        } else {
            0
        };
        if given != n {
            let mut msg = lit("`");
            push_all(&mut msg, self.sigs[f].name.as_slice());
            push_str(&mut msg, "` takes ");
            crate::text::push_u64(&mut msg, n as u64);
            push_str(&mut msg, " argument(s), got ");
            crate::text::push_u64(&mut msg, given as u64);
            return Err(Diagnostic { msg });
        }
        let id = self.sigs[f].id;
        let ret = self.sigs[f].ret.copy();
        let mut ptypes: Vec<(Typ, Access)> = Vec::new();
        let mut k: usize = 0;
        while k < self.sigs[f].params.len()
            invariant
                f < self.sigs@.len(),
                k <= self.sigs@[f as int].params@.len(),
            decreases self.sigs@[f as int].params@.len() - k,
        {
            ptypes.push((self.sigs[f].params[k].0.copy(), self.sigs[f].params[k].1));
            k = k + 1;
        }
        let mut slots: Vec<usize> = Vec::new();
        let mut j: usize = 0;
        match recv {
            Some((rv, re)) => {
                if ptypes.len() > 0 {
                    let pt = ptypes[0].0.copy();
                    if ptypes[0].1 == Access::Move {
                        self.move_out(re, &pt)?;
                    }
                }
                slots.push(rv);
                j = 1;
            },
            None => {},
        }
        let mut args = args;
        let mut rev: Vec<Arg<'a>> = Vec::new();
        while args.len() > 0
            decreases args@.len(),
        {
            rev.push(args.pop().unwrap());
        }
        while rev.len() > 0
            decreases rev@.len(),
        {
            let a = rev.pop().unwrap();
            if j < ptypes.len() {
                let pt = ptypes[j].0.copy();
                if !a.typ.same(&pt) {
                    let sa = self.show(&a.typ);
                    let sb = self.show(&pt);
                    return Err(diag4("expected ", sb.as_slice(), ", got ", sa.as_slice()));
                }
                if a.moved {
                    self.move_out(a.expr, &pt)?;
                    if self.is_temp(a.slot) {
                        self.untemp(a.slot);
                    }
                }
            }
            slots.push(a.slot);
            if j < usize::MAX {
                j = j + 1;
            }
        }
        let out = self.op(Op::Call(id, slots));
        self.temp(out, ret.copy());
        Ok((out, ret))
    }

    /// Call a function value.
    pub(crate) fn call_value(&mut self, f: usize, ft: Typ, args: &'a Vec<Expr>, fuel: u64) -> (r: Result<(usize, Typ), Diagnostic>)
        decreases fuel, 0int,
    {
        if fuel == 0 {
            return Err(diag("expression nests too deeply"));
        }
        let (ps, ret) = match ft {
            Typ::Fn(ps, ret) => (ps, *ret),
            other => {
                let shown = self.show(&other);
                return Err(diag3("cannot call ", shown.as_slice(), ""));
            },
        };
        if ps.len() != args.len() {
            return Err(diag("wrong number of arguments"));
        }
        let mut slots: Vec<usize> = Vec::new();
        let mut i: usize = 0;
        while i < args.len()
            invariant
                i <= args@.len(),
                ps@.len() == args@.len(),
            decreases args@.len() - i,
        {
            let p = ps[i].copy();
            let (v, t) = self.lower(&args[i], Some(&p), fuel - 1)?;
            if !t.same(&p) {
                let sa = self.show(&t);
                let sb = self.show(&p);
                return Err(diag4("expected ", sb.as_slice(), ", got ", sa.as_slice()));
            }
            slots.push(v);
            i = i + 1;
        }
        let out = self.op(Op::CallValue(f, slots));
        self.temp(out, ret.copy());
        Ok((out, ret))
    }

    /// Call a generic function, inferring its type parameters from the arguments.
    pub(crate) fn call_generic(&mut self, g: usize, type_args: &'a Vec<TypeExpr>, args: &'a Vec<Expr>, hint: Option<&Typ>, fuel: u64) -> (r: Result<
        (usize, Typ),
        Diagnostic,
    >)
        decreases fuel, 0int,
    {
        if fuel == 0 || g >= self.generic_fns.len() {
            return Err(diag("expression nests too deeply"));
        }
        let item = self.generic_fns[g].item;
        let gname = self.generic_fns[g].name.clone();
        let params = crate::translator::clone_names(&self.generic_fns[g].params);
        let (fparams, tparams) = match item {
            Expr::Fn { params, type_params, .. } => (params, type_params),
            _ => {
                return Err(diag("not a function"));
            },
        };
        let mut binds: Vec<(Vec<u8>, Typ)> = Vec::new();
        if type_args.len() > params.len() {
            let mut msg = lit("`");
            push_all(&mut msg, gname.as_slice());
            push_str(&mut msg, "` expects ");
            crate::text::push_u64(&mut msg, params.len() as u64);
            push_str(&mut msg, " type argument(s), got ");
            crate::text::push_u64(&mut msg, type_args.len() as u64);
            return Err(Diagnostic { msg });
        }
        // explicit type arguments come first
        let mut i: usize = 0;
        while i < type_args.len() && i < params.len()
            invariant
                i <= type_args@.len(),
            decreases type_args@.len() - i,
        {
            let t = self.resolve(&type_args[i], 64)?;
            binds.push((params[i].clone(), t));
            i = i + 1;
        }
        let mut lowered: Vec<Arg<'a>> = Vec::new();
        let mut i: usize = 0;
        while i < args.len()
            invariant
                i <= args@.len(),
            decreases args@.len() - i,
        {
            let (e, moved) = match &args[i] {
                Expr::ArgMod(Access::Move, inner) => (&**inner, true),
                Expr::ArgMod(_, inner) => (&**inner, false),
                other => (other, false),
            };
            // a parameter whose type is already bound settles the argument's literals
            let known = if i < fparams.len() {
                match &fparams[i].typ {
                    Some(crate::ast::TypeExpr::Name(pn)) => lookup(&binds, pn.as_slice()),
                    _ => None,
                }
            } else {
                None
            };
            let (v, t) = match &known {
                Some(k) => self.lower(e, Some(k), fuel - 1)?,
                None => self.expr(e, fuel - 1)?,
            };
            if i < fparams.len() {
                match &fparams[i].typ {
                    Some(te) => {
                        if let crate::ast::TypeExpr::Name(pn) = te {
                            if let Some(prev) = lookup(&binds, pn.as_slice()) {
                                if !prev.same(&t) {
                                    let sa = self.show(&prev);
                                    let sb = self.show(&t);
                                    let mut msg = lit("`");
                                    push_all(&mut msg, pn.as_slice());
                                    push_str(&mut msg, "` is bound to both ");
                                    push_all(&mut msg, sa.as_slice());
                                    push_str(&mut msg, " and ");
                                    push_all(&mut msg, sb.as_slice());
                                    return Err(Diagnostic { msg });
                                }
                            }
                        }
                        unify(te, &t, &params, &mut binds, &self.instance_args, &self.enums, 16)
                    },
                    None => {},
                }
            }
            lowered.push(Arg { slot: v, typ: t, expr: e, moved });
            i = i + 1;
        }
        let mut targs: Vec<Typ> = Vec::new();
        let mut k: usize = 0;
        while k < params.len()
            invariant
                k <= params@.len(),
            decreases params@.len() - k,
        {
            let spec = if k < tparams.len() && crate::text::bytes_eq(tparams[k].name.as_slice(), params[k].as_slice()) {
                Some(&tparams[k])
            } else {
                None
            };
            let t = match lookup(&binds, params[k].as_slice()) {
                Some(t) => t,
                None => match spec {
                    // nothing settles the parameter: its default does
                    Some(crate::ast::TypeParam { default: Some(d), .. }) => self.resolve(d, 64)?,
                    _ => {
                        return Err(diag3("cannot infer the type parameter `", params[k].as_slice(), "`"));
                    },
                },
            };
            match spec {
                Some(crate::ast::TypeParam { bound: Some(b), .. }) => self.check_bound(&t, b.as_slice())?,
                _ => {},
            }
            targs.push(t);
            k = k + 1;
        }
        let key = self.instance_name(gname.as_slice(), &targs);
        let f = match self.find_sig(key.as_slice()) {
            Some(f) => f,
            None => {
                let saved = self.bind_type_params(&params, &targs);
                let mut env: Vec<(Vec<u8>, Typ)> = Vec::new();
                let mut k: usize = 0;
                while k < params.len() && k < targs.len()
                    invariant
                        k <= params@.len(),
                    decreases params@.len() - k,
                {
                    env.push((params[k].clone(), targs[k].copy()));
                    k = k + 1;
                }
                let r = self.declare_fn(&[], key.as_slice(), item, env, 64);
                self.type_env = saved;
                let id = r?;
                match self.find_sig(key.as_slice()) {
                    Some(f) => f,
                    None => {
                        return Err(diag("bad generic instance"));
                    },
                }
            },
        };
        self.finish_call(f, None, lowered)
    }

    /// Whether a name is a trait: one the program defines, or one of `core`'s.
    pub(crate) fn known_trait(&self, name: &[u8]) -> (r: bool)
        ensures
            r == (spec_core_trait(name@) || self.traits@.map_values(|t: Vec<u8>| t@).contains(name@)),
    {
        is_core_trait(name) || self.defines_trait(name)
    }

    /// Check a type argument against its parameter's bound: the trait must exist, and the type
    /// must claim it; a primitive type meets `core`'s traits that the program does not redefine.
    pub(crate) fn check_bound(&self, t: &Typ, bound: &[u8]) -> (r: Result<(), Diagnostic>)
        ensures
            !(spec_core_trait(bound@) || self.traits@.map_values(|x: Vec<u8>| x@).contains(bound@)) ==> (r matches Err(d)
                && d.msg@ == "unknown trait `".spec_bytes() + bound@ + "`".spec_bytes()),
            (*t is Int || *t is UInt || *t is Bool || *t is Str || *t is Float) && spec_core_trait(bound@) && !self.traits@.map_values(
                |x: Vec<u8>| x@,
            ).contains(bound@) ==> r is Ok,
            spec_core_trait(bound@) || self.traits@.map_values(|x: Vec<u8>| x@).contains(bound@) ==> (r is Ok
                <== crate::translator::spec_claims_name(self.claims@, crate::types::spec_show_leaf(*t, self.enums@)->0, bound@)
                && crate::types::spec_show_leaf(*t, self.enums@) is Some),
    {
        if !self.known_trait(bound) {
            return Err(diag3("unknown trait `", bound, "`"));
        }
        let shown = self.show(t);
        if self.claims_trait(shown.as_slice(), bound) {
            return Ok(());
        }
        let primitive = t.is_int() || matches!(t, Typ::Bool | Typ::Str | Typ::Float(_));
        if primitive && is_core_trait(bound) && !self.defines_trait(bound) {
            return Ok(());
        }
        let mut msg = lit("`");
        push_all(&mut msg, shown.as_slice());
        push_str(&mut msg, "` does not claim `");
        push_all(&mut msg, bound);
        push_str(&mut msg, "`");
        Err(Diagnostic { msg })
    }

    /// The definition of a trait the program defines.
    pub(crate) fn trait_def(&self, tr: &[u8]) -> (r: Option<&'a Expr>)
        ensures
            r matches Some(d) ==> exists|t: int|
                0 <= t < self.traits@.len() && t < self.trait_defs@.len() && (#[trigger] self.traits@[t])@ == tr@
                    && *d == *self.trait_defs@[t],
            r is None ==> forall|t: int|
                0 <= t < self.traits@.len() && t < self.trait_defs@.len() ==> (#[trigger] self.traits@[t])@ != tr@,
    {
        let mut t: usize = 0;
        while t < self.traits.len() && t < self.trait_defs.len()
            invariant
                t <= self.traits@.len(),
                forall|q: int| 0 <= q < t && q < self.trait_defs@.len() ==> (#[trigger] self.traits@[q])@ != tr@,
            decreases self.traits@.len() - t,
        {
            if bytes_eq(self.traits[t].as_slice(), tr) {
                return Some(self.trait_defs[t]);
            }
            t = t + 1;
        }
        None
    }

    /// Box a value as an object of a trait its type claims: a table of the type's methods for
    /// the trait, in the trait's order, beside the value. The object only borrows the value,
    /// which stays with its owner.
    pub(crate) fn trait_object(&mut self, v: usize, from: &Typ, tr: &[u8]) -> (r: Result<usize, Diagnostic>) {
        let owner = self.owner_name(from);
        if !self.claims_trait(owner.as_slice(), tr) {
            let shown = self.show(from);
            return Err(diag4("`", shown.as_slice(), "` does not claim ", tr));
        }
        let names = match self.trait_def(tr) {
            Some(def) => trait_methods(def),
            None => Vec::new(),
        };
        let mut table: Vec<usize> = Vec::new();
        let mut i: usize = 0;
        while i < names.len()
            invariant
                i <= names@.len(),
            decreases names@.len() - i,
        {
            match self.find_method(owner.as_slice(), names[i].as_slice()) {
                Some(f) => {
                    let id = self.sigs[f].id;
                    let c = self.constant(Val::Fn(id));
                    table.push(c);
                },
                None => {
                    return Err(diag4("`", owner.as_slice(), "` has no method ", names[i].as_slice()));
                },
            }
            i = i + 1;
        }
        if self.owns(from) {
            self.temp(v, from.copy());
        }
        let tv = self.op(Op::Tuple(table));
        let mut pair: Vec<usize> = Vec::new();
        pair.push(tv);
        pair.push(v);
        Ok(self.op(Op::Tuple(pair)))
    }

    /// Call a method through a trait object: the object's table picks the function, which gets
    /// the object's data as its receiver. A method that takes `move self` cannot be called, since
    /// the object does not own its data.
    pub(crate) fn dyn_call(&mut self, obj: usize, tr: &[u8], method: &[u8], args: &'a Vec<Expr>, fuel: u64) -> (r: Result<
        (usize, Typ),
        Diagnostic,
    >)
        decreases fuel, 0int,
    {
        if fuel == 0 {
            return Err(diag("expression nests too deeply"));
        }
        let def = match self.trait_def(tr) {
            Some(d) => d,
            None => {
                return Err(diag3("unknown trait `", tr, "`"));
            },
        };
        let (k, params, ret) = match trait_method(def, method) {
            Some(m) => m,
            None => {
                return Err(diag4("`", tr, "` has no method ", method));
            },
        };
        let has_self = params.len() > 0 && is(params[0].name.as_slice(), "self");
        if !has_self {
            return Err(diag4("`", tr, "` objects cannot call the static method ", method));
        }
        if params[0].access == Access::Move {
            let mut msg = lit("`");
            push_all(&mut msg, method);
            push_str(&mut msg, "` takes `move self`, but a `");
            push_all(&mut msg, tr);
            push_str(&mut msg, "` object only borrows its data");
            return Err(Diagnostic { msg });
        }
        if args.len() != params.len() - 1 {
            return Err(diag4("`", method, "` takes a different number of arguments on ", tr));
        }
        let rt = match ret {
            Some(te) => self.resolve(te, 64)?,
            None => Typ::unit(),
        };
        let table = self.op(Op::Field(obj, 0));
        let f = self.op(Op::Field(table, k));
        let data = self.op(Op::Field(obj, 1));
        let mut slots: Vec<usize> = Vec::new();
        slots.push(data);
        let mut i: usize = 0;
        while i < args.len()
            invariant
                i <= args@.len(),
                args@.len() + 1 == params@.len(),
            decreases args@.len() - i,
        {
            let pt = match &params[i + 1].typ {
                Some(te) => self.resolve(te, 64)?,
                None => {
                    return Err(diag3("parameter `", params[i + 1].name.as_slice(), "` needs a type"));
                },
            };
            let (v, t) = self.lower(&args[i], Some(&pt), fuel - 1)?;
            if !t.same(&pt) {
                let sa = self.show(&t);
                let sb = self.show(&pt);
                return Err(diag4("expected ", sb.as_slice(), ", got ", sa.as_slice()));
            }
            slots.push(v);
            i = i + 1;
        }
        let out = self.op(Op::CallValue(f, slots));
        self.temp(out, rt.copy());
        Ok((out, rt))
    }

    /// Whether the array, string or map in a slot has no elements.
    pub(crate) fn is_empty(&mut self, v: usize) -> (r: (usize, Typ))
        ensures
            r.1 is Bool,
            exists|n: usize, z: usize|
                final(self).code@ == old(self).code@ + seq![
                    Instr::Store(n, Op::Len(v)),
                    Instr::Store(z, Op::Const(Val::Int(0))),
                    Instr::Store(r.0, Op::Cmp(BinOp::Eq, n, z, NumKind { width: 64, signed: true })),
                ],
    {
        let n = self.op(Op::Len(v));
        let z = self.int_const(0);
        let c = self.op(Op::Cmp(BinOp::Eq, n, z, NumKind { width: 64, signed: true }));
        assert(self.code@ =~= old(self).code@ + seq![
            Instr::Store(n, Op::Len(v)),
            Instr::Store(z, Op::Const(Val::Int(0))),
            Instr::Store(c, Op::Cmp(BinOp::Eq, n, z, NumKind { width: 64, signed: true })),
        ]);
        let r = (c, Typ::Bool);
        assert(exists|n2: usize, z2: usize|
            self.code@ == old(self).code@ + seq![
                Instr::Store(n2, Op::Len(v)),
                Instr::Store(z2, Op::Const(Val::Int(0))),
                Instr::Store(r.0, Op::Cmp(BinOp::Eq, n2, z2, NumKind { width: 64, signed: true })),
            ]) by {
            assert(self.code@ == old(self).code@ + seq![
                Instr::Store(n, Op::Len(v)),
                Instr::Store(z, Op::Const(Val::Int(0))),
                Instr::Store(r.0, Op::Cmp(BinOp::Eq, n, z, NumKind { width: 64, signed: true })),
            ]);
        }
        r
    }

    /// Whether the program defines a trait of this name.
    pub(crate) fn defines_trait(&self, name: &[u8]) -> (r: bool)
        ensures
            r == self.traits@.map_values(|t: Vec<u8>| t@).contains(name@),
    {
        let mut i: usize = 0;
        while i < self.traits.len()
            invariant
                i <= self.traits@.len(),
                forall|j: int| 0 <= j < i ==> (#[trigger] self.traits@[j])@ != name@,
            decreases self.traits@.len() - i,
        {
            if crate::text::bytes_eq(self.traits[i].as_slice(), name) {
                assert(self.traits@.map_values(|t: Vec<u8>| t@)[i as int] == name@);
                return true;
            }
            i = i + 1;
        }
        false
    }

    /// `recv.method(args)`: a variant with a payload, a static function, or a method.
    pub(crate) fn method_call(&mut self, recv: &'a Expr, method: &[u8], args: &'a Vec<Expr>, hint: Option<&Typ>, fuel: u64) -> (r: Result<
        (usize, Typ),
        Diagnostic,
    >)
        decreases fuel, 0int,
    {
        if fuel == 0 {
            return Err(diag("expression nests too deeply"));
        }
        // a type before the dot
        match self.type_receiver(recv, method, Some(args), fuel - 1)? {
            Some(t) => {
                if let Typ::Enum(id) = t {
                    if is(method, "from") {
                        return self.enum_from(id, args, fuel - 1);
                    }
                }
                return self.construct_variant(t, method, Some(args), fuel - 1);
            },
            None => {},
        }
        if let Expr::Ident(n) = recv {
            // a type parameter before the dot: a static call on the type it stands for
            if self.find_var(n.as_slice()).is_none() {
                if let Some(t) = lookup(&self.type_env, n.as_slice()) {
                    let owner = self.owner_name(&t);
                    match self.find_method(owner.as_slice(), method) {
                        Some(f) => {
                            let lowered = self.lower_args(f, args, fuel - 1)?;
                            return self.finish_call(f, None, lowered);
                        },
                        None => {
                            if is_collection(&t) && is(method, "is_empty") && args.len() == 1 {
                                let (v, vt) = self.lower(&args[0], Some(&t), fuel - 1)?;
                                if vt.same(&t) {
                                    return Ok(self.is_empty(v));
                                }
                            }
                            return Err(diag4("`", owner.as_slice(), "` has no method ", method));
                        },
                    }
                }
            }
            if self.find_var(n.as_slice()).is_none() && self.find_struct(n.as_slice()).is_some() {
                match self.find_method(n.as_slice(), method) {
                    Some(f) => {
                        let lowered = self.lower_args(f, args, fuel - 1)?;
                        return self.finish_call(f, None, lowered);
                    },
                    None => {
                        return Err(diag4("`", n.as_slice(), "` has no method ", method));
                    },
                }
            }
        }
        let (rv, rt) = self.expr(recv, fuel - 1)?;
        if let Typ::Trait(tr) = &rt {
            let tr = tr.clone();
            return self.dyn_call(rv, tr.as_slice(), method, args, fuel - 1);
        }
        let owner = self.owner_name(&rt);
        match self.find_method(owner.as_slice(), method) {
            Some(f) => {
                if self.sigs[f].has_self {
                    let lowered = self.lower_args(f, args, fuel - 1)?;
                    return self.finish_call(f, Some((rv, recv)), lowered);
                }
                let lowered = self.lower_args(f, args, fuel - 1)?;
                return self.finish_call(f, None, lowered);
            },
            None => {},
        }
        if is_collection(&rt) && is(method, "is_empty") && args.len() == 0 {
            return Ok(self.is_empty(rv));
        }
        // a function stored in a field
        match self.field_index(&rt, method) {
            Some((i, ft)) => {
                let fv = self.op(Op::Field(rv, i));
                return self.call_value(fv, ft, args, fuel - 1);
            },
            None => {},
        }
        let shown = self.show(&rt);
        let mut msg = lit("`");
        push_all(&mut msg, shown.as_slice());
        push_str(&mut msg, "` has no method `");
        push_all(&mut msg, method);
        push_str(&mut msg, "`");
        Err(Diagnostic { msg })
    }

    /// The name methods of a type are filed under.
    pub(crate) fn owner_name(&self, t: &Typ) -> (r: Vec<u8>)
        ensures
            *t is Struct ==> r@ == t->Struct_0@,
            *t is Enum ==> r@ == (if t->Enum_0 < self.enums@.len() {
                self.enums@[t->Enum_0 as int].name@
            } else {
                Seq::empty()
            }),
            !(*t is Struct) && !(*t is Enum) ==> (crate::types::spec_show_leaf(*t, self.enums@) matches Some(s) ==> r@ == s),
    {
        match t {
            Typ::Struct(n, _) => crate::text::owned(n.as_slice()),
            Typ::Enum(id) => if *id < self.enums.len() {
                crate::text::owned(self.enums[*id].name.as_slice())
            } else {
                Vec::new()
            },
            _ => self.show(t),
        }
    }

    /// The enum-like type named before a dot, when the receiver names a type rather than a value.
    pub(crate) fn type_receiver(&mut self, recv: &'a Expr, variant: &[u8], args: Option<&'a Vec<Expr>>, fuel: u64) -> (r: Result<
        Option<Typ>,
        Diagnostic,
    >)
        decreases fuel, 0int,
    {
        if fuel == 0 {
            return Err(diag("expression nests too deeply"));
        }
        match recv {
            Expr::Ident(n) => {
                if self.find_var(n.as_slice()).is_some() {
                    return Ok(None);
                }
                if is(n.as_slice(), "Option") || is(n.as_slice(), "Result") || Self::find_generic(
                    &self.generic_enums,
                    n.as_slice(),
                ).is_some() {
                    // infer the type arguments from the payload
                    return self.infer_variant_type(n.as_slice(), variant, args, fuel - 1);
                }
                match self.find_enum(n.as_slice()) {
                    Some(id) => Ok(Some(Typ::Enum(id))),
                    None => Ok(None),
                }
            },
            Expr::Call { name, type_args, args: cargs } => {
                if cargs.len() > 0 || type_args.len() == 0 || self.find_var(name.as_slice()).is_some()
                    || Self::find_generic(&self.generic_fns, name.as_slice()).is_some() {
                    return Ok(None);
                }
                let mut targs: Vec<Typ> = Vec::new();
                let mut i: usize = 0;
                while i < type_args.len()
                    invariant
                        i <= type_args@.len(),
                    decreases type_args@.len() - i,
                {
                    let t = self.resolve(&type_args[i], 64)?;
                    targs.push(t);
                    i = i + 1;
                }
                let t = self.instantiate(name.as_slice(), targs, 64)?;
                match t {
                    Typ::Enum(_) | Typ::Option(_) | Typ::Result(_, _) => Ok(Some(t)),
                    other => {
                        let shown = self.show(&other);
                        Err(diag3("`", shown.as_slice(), "` is a type, not a value"))
                    },
                }
            },
            _ => Ok(None),
        }
    }

    /// The instance of a generic enum that a variant's payload fixes: `Opt.yep("hi")`.
    pub(crate) fn infer_variant_type(&mut self, name: &[u8], variant: &[u8], args: Option<&'a Vec<Expr>>, fuel: u64) -> (r: Result<
        Option<Typ>,
        Diagnostic,
    >)
        decreases fuel, 0int,
    {
        if fuel == 0 {
            return Err(diag("expression nests too deeply"));
        }
        // the payload types, to match against the written variant
        let mut types: Vec<Typ> = Vec::new();
        let saved_code = self.open_block();
        let mut failed: Option<Diagnostic> = None;
        match args {
            Some(args) => {
                let mut i: usize = 0;
                while i < args.len()
                    invariant
                        i <= args@.len(),
                    decreases args@.len() - i,
                {
                    match self.expr(&args[i], fuel - 1) {
                        Ok((_, t)) => types.push(t),
                        Err(e) => {
                            failed = Some(e);
                            break;
                        },
                    }
                    i = i + 1;
                }
            },
            None => {},
        }
        // the probe's code is dropped: the variant is lowered again with the type known
        let _ = self.close_block(saved_code);
        if let Some(e) = failed {
            return Err(e);
        }
        if is(name, "Option") {
            if types.len() == 1 {
                let t = types.pop().unwrap();
                return Ok(Some(Typ::Option(Box::new(t))));
            }
            return Err(diag3("cannot infer the type of `Option.", variant, "`"));
        }
        if is(name, "Result") {
            return Err(diag("`Result` needs type arguments here"));
        }
        let g = match Self::find_generic(&self.generic_enums, name) {
            Some(g) => g,
            None => {
                return Ok(None);
            },
        };
        let item = self.generic_enums[g].item;
        let params = crate::translator::clone_names(&self.generic_enums[g].params);
        let mut binds: Vec<(Vec<u8>, Typ)> = Vec::new();
        if let Expr::EnumDef { variants, .. } = item {
            let mut k: usize = 0;
            while k < variants.len()
                invariant
                    k <= variants@.len(),
                decreases variants@.len() - k,
            {
                if bytes_eq(variants[k].name.as_slice(), variant) {
                    let mut j: usize = 0;
                    while j < variants[k].payload.len() && j < types.len()
                        invariant
                            k < variants@.len(),
                            j <= variants@[k as int].payload@.len(),
                        decreases variants@[k as int].payload@.len() - j,
                    {
                        unify(&variants[k].payload[j], &types[j], &params, &mut binds, &self.instance_args, &self.enums, 16);
                        j = j + 1;
                    }
                }
                k = k + 1;
            }
        }
        let mut targs: Vec<Typ> = Vec::new();
        let mut k: usize = 0;
        while k < params.len()
            invariant
                k <= params@.len(),
            decreases params@.len() - k,
        {
            match lookup(&binds, params[k].as_slice()) {
                Some(t) => targs.push(t),
                None => {
                    return Err(diag3("cannot infer the type arguments of `", name, "`"));
                },
            }
            k = k + 1;
        }
        let t = self.instantiate(name, targs, 64)?;
        Ok(Some(t))
    }

    /// A variant of an enum-like type, with its payload.
    pub(crate) fn construct_variant(&mut self, t: Typ, variant: &[u8], args: Option<&'a Vec<Expr>>, fuel: u64) -> (r: Result<
        (usize, Typ),
        Diagnostic,
    >)
        decreases fuel, 0int,
    {
        if fuel == 0 {
            return Err(diag("expression nests too deeply"));
        }
        let (tag, payload) = match variant_of(&t, variant, &self.enums) {
            Some(x) => x,
            None => {
                let shown = self.show(&t);
                return Err(diag4("no variant `", variant, "` in ", shown.as_slice()));
            },
        };
        let nargs = match args {
            Some(a) => a.len(),
            None => 0,
        };
        if payload.len() != nargs {
            return Err(diag3("wrong number of values for the variant `", variant, "`"));
        }
        let mut slots: Vec<usize> = Vec::new();
        let args = match args {
            Some(a) => a,
            None => {
                let out = self.op(Op::Enum(tag, slots));
                self.temp(out, t.copy());
                return Ok((out, t));
            },
        };
        let mut i: usize = 0;
        while i < args.len()
            invariant
                i <= args@.len(),
                payload@.len() == args@.len(),
            decreases args@.len() - i,
        {
            let p = payload[i].copy();
            let (v, vt) = self.lower(&args[i], Some(&p), fuel - 1)?;
            if !vt.same(&p) {
                let sa = self.show(&vt);
                let sb = self.show(&p);
                return Err(diag4("expected ", sb.as_slice(), ", got ", sa.as_slice()));
            }
            let v = self.take_value(&args[i], v, &vt, fuel - 1)?;
            slots.push(v);
            i = i + 1;
        }
        let out = self.op(Op::Enum(tag, slots));
        self.temp(out, t.copy());
        Ok((out, t))
    }

    /// `Enum.from(v)`: as `ok`, the variant that a string or atom names, or whose tag an integer
    /// is, with zero payload values; `err("no matching variant")` when none matches.
    pub(crate) fn enum_from(&mut self, id: usize, args: &'a Vec<Expr>, fuel: u64) -> (r: Result<
        (usize, Typ),
        Diagnostic,
    >)
        ensures
            fuel == 0 ==> r is Err,
            fuel > 0 && args@.len() != 1 ==> (r matches Err(d) && d.msg@ == "`".spec_bytes() + (if id
                < old(self).enums@.len() {
                old(self).enums@[id as int].name@
            } else {
                Seq::empty()
            }) + ".from` takes 1 argument, got ".spec_bytes() + crate::text::spec_digits(args@.len() as nat)),
            r matches Ok((_, t)) ==> t == Typ::Result(Box::new(Typ::Enum(id)), Box::new(Typ::Error)),
            fuel > 1 && args@.len() == 1 ==> (args@[0] matches Expr::Ident(n) ==> forall|i: int| #[trigger] old(self).innermost(n@, i) ==> (
            !(old(self).vars@[i].1.typ is Str || old(self).vars@[i].1.typ is Atom || old(self).vars@[i].1.typ is Int
                || old(self).vars@[i].1.typ is UInt) ==> (r matches Err(d) && d.msg@.take(from_refusal(*old(self), id).len() as int)
                == from_refusal(*old(self), id)))),
        decreases fuel, 0int,
    {
        if fuel == 0 {
            return Err(diag("expression nests too deeply"));
        }
        let name = if id < self.enums.len() {
            crate::text::owned(self.enums[id].name.as_slice())
        } else {
            Vec::new()
        };
        if args.len() != 1 {
            let mut msg = lit("`");
            push_all(&mut msg, name.as_slice());
            push_str(&mut msg, ".from` takes 1 argument, got ");
            crate::text::push_u64(&mut msg, args.len() as u64);
            return Err(Diagnostic { msg });
        }
        let (av, at) = self.expr(&args[0], fuel - 1)?;
        let by_name = match &at {
            Typ::Str | Typ::Atom => true,
            Typ::Int(_) | Typ::UInt(_) => false,
            _ => {
                let shown = self.show(&at);
                let mut msg = lit("`");
                push_all(&mut msg, name.as_slice());
                push_str(&mut msg, ".from` needs an int, string, or atom. Got ");
                push_all(&mut msg, shown.as_slice());
                return Err(Diagnostic { msg });
            },
        };
        let t = Typ::Result(Box::new(Typ::Enum(id)), Box::new(Typ::Error));
        let none = self.constant(Val::Str(lit("no matching variant")));
        let mut eargs: Vec<usize> = Vec::new();
        eargs.push(none);
        let result = self.op(Op::Enum(1, eargs));
        // what each variant needs, taken out before emitting
        let mut names: Vec<Vec<u8>> = Vec::new();
        let mut payloads: Vec<Vec<Typ>> = Vec::new();
        if id < self.enums.len() {
            let vs = &self.enums[id].variants;
            let mut v: usize = 0;
            while v < vs.len()
                invariant
                    v <= vs@.len(),
                    names@.len() == v,
                    payloads@.len() == v,
                decreases vs@.len() - v,
            {
                names.push(crate::text::owned(vs[v].name.as_slice()));
                payloads.push(copy_all(&vs[v].payload));
                v = v + 1;
            }
        }
        let mut v: usize = 0;
        while v < names.len()
            invariant
                v <= names@.len(),
                names@.len() == payloads@.len(),
            decreases names@.len() - v,
        {
            let matched = if by_name {
                let c = self.constant(Val::Str(crate::text::owned(names[v].as_slice())));
                self.op(Op::Cmp(BinOp::Eq, av, c, NumKind { width: 64, signed: true }))
            } else {
                let c = self.constant(Val::Int(v as i64));
                self.op(Op::Cmp(BinOp::Eq, av, c, num_kind(&at)))
            };
            let mut fields: Vec<usize> = Vec::new();
            let mut k: usize = 0;
            while k < payloads[v].len()
                invariant
                    v < payloads@.len(),
                    k <= payloads@[v as int]@.len(),
                    names@.len() == payloads@.len(),
                decreases payloads@[v as int]@.len() - k,
            {
                let z = self.zero(&payloads[v][k], fuel - 1)?;
                fields.push(z);
                k = k + 1;
            }
            let inner = self.op(Op::Enum(v as u64, fields));
            let mut wrap: Vec<usize> = Vec::new();
            wrap.push(inner);
            let wrapped = self.op(Op::Enum(0, wrap));
            let saved = self.open_block();
            self.emit(Instr::Store(result, Op::Copy(wrapped)));
            let body = self.close_block(saved);
            self.emit(Instr::If(matched, body, Vec::new()));
            v = v + 1;
        }
        self.temp(result, t.copy());
        Ok((result, t))
    }

    /// `obj.field`: a struct or tuple field, a length, a variant without payload, or a bound of
    /// an integer type.
    pub(crate) fn field(&mut self, obj: &'a Expr, field: &[u8], fuel: u64) -> (r: Result<(usize, Typ), Diagnostic>)
        ensures
            fuel > 0 && (field@ == "min".spec_bytes() || field@ == "max".spec_bytes()) ==> (*obj matches Expr::Ident(n) ==> (
            crate::translator::sized_int_name(n@) && (forall|i: int| 0 <= i < old(self).vars@.len() ==> old(self).vars@[i].0@ != n@)
                ==> (r matches Ok((s, t)) && s == old(self).nslots && t == crate::translator::sized_int_type(n@)
                && final(self).code@ == old(self).code@.push(
                Instr::Store(s, Op::Const(Val::Int(crate::translator::sized_int_bound(n@, field@ == "max".spec_bytes())))),
            )))),
        decreases fuel, 0int,
    {
        proof {
            reveal_strlit("min");
            reveal_strlit("max");
            assert(vstd::string::is_ascii("min") && vstd::string::is_ascii("max"));
            assert("min".spec_bytes()[1] != "max".spec_bytes()[1]);
        }
        if fuel == 0 {
            return Err(diag("expression nests too deeply"));
        }
        if let Expr::Ident(n) = obj {
            if self.find_var(n.as_slice()).is_none() {
                if let Some(t) = crate::translator::int_type_named(n.as_slice()) {
                    let k = num_kind(&t);
                    let (lo, hi) = crate::machine::kind_bounds(k);
                    if is(field, "min") {
                        return Ok((self.int_const(lo), t));
                    }
                    if is(field, "max") {
                        return Ok((self.int_const(hi), t));
                    }
                }
            }
        }
        match self.type_receiver(obj, field, None, fuel - 1)? {
            Some(t) => {
                return self.construct_variant(t, field, None, fuel - 1);
            },
            None => {},
        }
        let (v, t) = self.expr(obj, fuel - 1)?;
        match &t {
            Typ::Array(_) | Typ::Str => {
                if is(field, "len") {
                    return Ok((self.op(Op::Len(v)), Typ::Int(64)));
                }
            },
            Typ::Dict(kt, vt) => {
                if is(field, "len") {
                    return Ok((self.op(Op::Len(v)), Typ::Int(64)));
                }
                if is(field, "keys") {
                    return Ok((self.op(Op::DictEntries(v, false)), Typ::Array(Box::new((**kt).copy()))));
                }
                if is(field, "values") {
                    return Ok((self.op(Op::DictEntries(v, true)), Typ::Array(Box::new((**vt).copy()))));
                }
            },
            _ => {},
        }
        match self.field_index(&t, field) {
            Some((i, ft)) => Ok((self.op(Op::Field(v, i)), ft)),
            None => {
                let shown = self.show(&t);
                Err(diag4("no field `", field, "` on ", shown.as_slice()))
            },
        }
    }

    /// A struct literal: named fields, defaults for the rest, and zero values after that.
    pub(crate) fn struct_lit(&mut self, name: &[u8], type_args: &'a Vec<TypeExpr>, fields: &'a Vec<(Option<Vec<u8>>, Expr)>, hint: Option<&Typ>, fuel: u64) -> (r: Result<
        (usize, Typ),
        Diagnostic,
    >)
        decreases fuel, 0int,
    {
        if fuel == 0 {
            return Err(diag("expression nests too deeply"));
        }
        let t = if name.len() == 0 {
            match hint {
                Some(Typ::Struct(n, fs)) => {
                    if n.len() > 0 {
                        Typ::Struct(n.clone(), crate::translator::copy_fields(fs))
                    } else {
                        return self.record_lit(fields, fuel - 1);
                    }
                },
                _ => {
                    return self.record_lit(fields, fuel - 1);
                },
            }
        } else if type_args.len() > 0 {
            let mut targs: Vec<Typ> = Vec::new();
            let mut i: usize = 0;
            while i < type_args.len()
                invariant
                    i <= type_args@.len(),
                decreases type_args@.len() - i,
            {
                let ta = self.resolve(&type_args[i], 64)?;
                targs.push(ta);
                i = i + 1;
            }
            self.instantiate(name, targs, 64)?
        } else {
            self.named(name, 64)?
        };
        let (sname, fdefs) = match &t {
            Typ::Struct(n, fs) => (n.clone(), crate::translator::copy_fields(fs)),
            _ => {
                return Err(diag3("`", name, "` is not a struct"));
            },
        };
        // every given field must exist
        let mut i: usize = 0;
        while i < fields.len()
            invariant
                i <= fields@.len(),
            decreases fields@.len() - i,
        {
            match &fields[i].0 {
                Some(fname) => {
                    let mut found = false;
                    let mut j: usize = 0;
                    while j < fdefs.len()
                        invariant
                            j <= fdefs@.len(),
                        decreases fdefs@.len() - j,
                    {
                        if bytes_eq(fdefs[j].name.as_slice(), fname.as_slice()) {
                            found = true;
                        }
                        j = j + 1;
                    }
                    if !found {
                        return Err(diag4("`", sname.as_slice(), "` has no field ", fname.as_slice()));
                    }
                },
                None => {},
            }
            i = i + 1;
        }
        let sidx = self.find_struct(sname.as_slice());
        let mut slots: Vec<usize> = Vec::new();
        let mut positional: usize = 0;
        let mut j: usize = 0;
        while j < fdefs.len()
            invariant
                j <= fdefs@.len(),
            decreases fdefs@.len() - j,
        {
            let ft = fdefs[j].typ.copy();
            // the value written for the field: by name, or the next unnamed one
            let mut given: Option<&'a Expr> = None;
            let mut k: usize = 0;
            while k < fields.len()
                invariant
                    k <= fields@.len(),
                decreases fields@.len() - k,
            {
                match &fields[k].0 {
                    Some(fname) => {
                        if bytes_eq(fname.as_slice(), fdefs[j].name.as_slice()) {
                            given = Some(&fields[k].1);
                        }
                    },
                    None => {},
                }
                k = k + 1;
            }
            if given.is_none() {
                let mut seen: usize = 0;
                let mut k: usize = 0;
                while k < fields.len()
                    invariant
                        k <= fields@.len(),
                    decreases fields@.len() - k,
                {
                    if fields[k].0.is_none() {
                        if seen == positional {
                            given = Some(&fields[k].1);
                        }
                        seen = if seen < usize::MAX {
                            seen + 1
                        } else {
                            seen
                        };
                    }
                    k = k + 1;
                }
                if given.is_some() && positional < usize::MAX {
                    positional = positional + 1;
                }
            }
            let default: Option<&'a Expr> = match sidx {
                Some(s) => if s < self.structs.len() && j < self.structs[s].defaults.len() {
                    self.structs[s].defaults[j]
                } else {
                    None
                },
                None => None,
            };
            let v = match given {
                Some(e) => {
                    let (v, vt) = self.lower(e, Some(&ft), fuel - 1)?;
                    if !vt.same(&ft) {
                        let sa = self.show(&vt);
                        let sb = self.show(&ft);
                        return Err(diag4("expected ", sb.as_slice(), ", got ", sa.as_slice()));
                    }
                    self.take_value(e, v, &vt, fuel - 1)?
                },
                None => match default {
                    Some(d) => {
                        let (v, vt) = self.lower(d, Some(&ft), fuel - 1)?;
                        self.take_value(d, v, &vt, fuel - 1)?
                    },
                    None => self.zero(&ft, fuel - 1)?,
                },
            };
            slots.push(v);
            j = j + 1;
        }
        let out = self.op(Op::Tuple(slots));
        self.temp(out, t.copy());
        Ok((out, t))
    }

    /// An anonymous record: `.{ x = 1 }`.
    pub(crate) fn record_lit(&mut self, fields: &'a Vec<(Option<Vec<u8>>, Expr)>, fuel: u64) -> (r: Result<
        (usize, Typ),
        Diagnostic,
    >)
        decreases fuel, 0int,
    {
        if fuel == 0 {
            return Err(diag("expression nests too deeply"));
        }
        let mut slots: Vec<usize> = Vec::new();
        let mut fdefs: Vec<FieldDef> = Vec::new();
        let mut i: usize = 0;
        while i < fields.len()
            invariant
                i <= fields@.len(),
            decreases fields@.len() - i,
        {
            let name = match &fields[i].0 {
                Some(n) => n.clone(),
                None => {
                    return Err(diag("record fields are named"));
                },
            };
            let (v, t) = self.expr(&fields[i].1, fuel - 1)?;
            let v = self.take_value(&fields[i].1, v, &t, fuel - 1)?;
            slots.push(v);
            fdefs.push(FieldDef { name, typ: t });
            i = i + 1;
        }
        let out = self.op(Op::Tuple(slots));
        let t = Typ::Struct(Vec::new(), fdefs);
        self.temp(out, t.copy());
        Ok((out, t))
    }

    /// A tuple struct built from positional values: `Money(5)`.
    pub(crate) fn construct_positional(&mut self, t: Typ, args: &'a Vec<Expr>, fuel: u64) -> (r: Result<
        (usize, Typ),
        Diagnostic,
    >)
        decreases fuel, 0int,
    {
        if fuel == 0 {
            return Err(diag("expression nests too deeply"));
        }
        let fdefs = match &t {
            Typ::Struct(_, fs) => crate::translator::copy_fields(fs),
            _ => {
                return Err(diag("not a struct"));
            },
        };
        if fdefs.len() != args.len() {
            return Err(diag("wrong number of fields"));
        }
        let mut slots: Vec<usize> = Vec::new();
        let mut i: usize = 0;
        while i < args.len()
            invariant
                i <= args@.len(),
                fdefs@.len() == args@.len(),
            decreases args@.len() - i,
        {
            let ft = fdefs[i].typ.copy();
            let (v, vt) = self.lower(&args[i], Some(&ft), fuel - 1)?;
            if !vt.same(&ft) {
                let sa = self.show(&vt);
                let sb = self.show(&ft);
                return Err(diag4("expected ", sb.as_slice(), ", got ", sa.as_slice()));
            }
            let v = self.take_value(&args[i], v, &vt, fuel - 1)?;
            slots.push(v);
            i = i + 1;
        }
        let out = self.op(Op::Tuple(slots));
        self.temp(out, t.copy());
        Ok((out, t))
    }

    /// `T.(value)`: a conversion to the type.
    pub(crate) fn cast(&mut self, target: &'a TypeExpr, args: &'a Vec<Expr>, fuel: u64) -> (r: Result<
        (usize, Typ),
        Diagnostic,
    >)
        ensures
            fuel == 0 ==> r is Err,
            args@.len() != 1 && (*target is Tuple || *target is Sum || *target is Fn || *target is Array || *target is FixedArray
                || *target is Rest || *target is Dict || *target is Option || *target is Result || *target is Atom) ==> r is Err,
            r matches Ok((_, t)) ==> (*target is Option ==> t is Option) && (*target is Result ==> t is Result) && (*target is Dict
                ==> t is Dict) && (*target is Array ==> t is Array),
        decreases fuel, 0int,
    {
        if fuel == 0 {
            return Err(diag("expression nests too deeply"));
        }
        let t = self.resolve(target, 64)?;
        if args.len() != 1 {
            if let Typ::Struct(_, _) = t {
                return self.construct_positional(t, args, fuel - 1);
            }
            let shown = self.show(&t);
            return Err(diag3("`", shown.as_slice(), "` casts a single value"));
        }
        let arg = &args[0];
        if t.is_int() {
            let (v, vt) = self.lower(arg, Some(&t), fuel - 1)?;
            if vt.is_int() {
                let k = num_kind(&t);
                return Ok((self.op(Op::Narrow(v, k)), t));
            }
            if let Typ::Float(_) = vt {
                return Err(diag("float conversions are not supported"));
            }
            let sa = self.show(&vt);
            let sb = self.show(&t);
            return Err(diag4("cannot cast ", sa.as_slice(), " to ", sb.as_slice()));
        }
        match &t {
            Typ::Float(_) => {
                let (_, vt) = self.expr(arg, fuel - 1)?;
                if matches!(vt, Typ::Str) {
                    let sb = self.show(&t);
                    let mut msg = lit("cannot cast string to ");
                    push_all(&mut msg, sb.as_slice());
                    push_str(&mut msg, ": `");
                    push_all(&mut msg, sb.as_slice());
                    push_str(&mut msg, ".try_from(...)` parses strings");
                    return Err(Diagnostic { msg });
                }
                return Err(diag("float conversions are not supported"));
            },
            Typ::Array(e) => {
                if matches!(**e, Typ::UInt(8)) {
                    let (v, vt) = self.expr(arg, fuel - 1)?;
                    if matches!(vt, Typ::Str) {
                        let out = self.op(Op::Bytes(v));
                        self.temp(out, t.copy());
                        return Ok((out, t));
                    }
                }
            },
            Typ::Option(inner) => {
                if let Expr::Ident(n) = arg {
                    if crate::text::is(n.as_slice(), "none") && self.find_var(n.as_slice()).is_none() {
                        return Ok((self.op(Op::Enum(0, Vec::new())), t));
                    }
                }
                let inner = (**inner).copy();
                let (v, vt) = self.lower(arg, Some(&inner), fuel - 1)?;
                if vt.same(&t) {
                    return Ok((v, t));
                }
                if vt.same(&inner) {
                    let v = self.take_value(arg, v, &vt, fuel - 1)?;
                    let mut one: Vec<usize> = Vec::new();
                    one.push(v);
                    let out = self.op(Op::Enum(1, one));
                    return Ok((out, t));
                }
            },
            Typ::Sum(_) | Typ::Trait(_) => {
                let (v, vt) = self.expr(arg, fuel - 1)?;
                let v = self.take_value(arg, v, &vt, fuel - 1)?;
                let out = self.coerce(v, &vt, &t)?;
                return Ok((out, t));
            },
            Typ::Result(ok, err) => {
                let (ok, err) = ((**ok).copy(), (**err).copy());
                let (v, vt) = self.lower(arg, Some(&ok), fuel - 1)?;
                if vt.same(&t) {
                    return Ok((v, t));
                }
                // a success value wraps as `ok`, an error value as `err`
                let tag: u64 = if vt.same(&ok) {
                    0
                } else if vt.same(&err) {
                    1
                } else {
                    let sa = self.show(&vt);
                    let sb = self.show(&t);
                    return Err(diag4("cannot cast ", sa.as_slice(), " to ", sb.as_slice()));
                };
                let v = self.take_value(arg, v, &vt, fuel - 1)?;
                let mut one: Vec<usize> = Vec::new();
                one.push(v);
                let out = self.op(Op::Enum(tag, one));
                return Ok((out, t));
            },
            Typ::Struct(n, fs) => {
                if fs.len() == 1 && is(fs[0].name.as_slice(), "0") {
                    let ft = fs[0].typ.copy();
                    let (v, vt) = self.lower(arg, Some(&ft), fuel - 1)?;
                    if vt.same(&t) {
                        return Ok((v, t));
                    }
                    if vt.same(&ft) {
                        let mut one: Vec<usize> = Vec::new();
                        one.push(v);
                        let out = self.op(Op::Tuple(one));
                        self.temp(out, t.copy());
                        return Ok((out, t));
                    }
                    let n = n.clone();
                    return self.from_claim(n.as_slice(), v, vt, t);
                }
                let n = n.clone();
                let (v, vt) = self.lower(arg, Some(&t), fuel - 1)?;
                if vt.same(&t) {
                    return Ok((v, t));
                }
                return self.from_claim(n.as_slice(), v, vt, t);
            },
            _ => {},
        }
        let (v, vt) = self.lower(arg, Some(&t), fuel - 1)?;
        if vt.same(&t) {
            return Ok((v, t));
        }
        let sa = self.show(&vt);
        let sb = self.show(&t);
        if matches!(vt, Typ::Str) {
            let mut msg = lit("cannot cast string to ");
            push_all(&mut msg, sb.as_slice());
            return Err(Diagnostic { msg });
        }
        Err(diag4("cannot cast ", sa.as_slice(), " to ", sb.as_slice()))
    }

    /// A conversion through the target's `From` claim.
    pub(crate) fn from_claim(&mut self, owner: &[u8], v: usize, vt: Typ, t: Typ) -> (r: Result<(usize, Typ), Diagnostic>) {
        let m = lit("from");
        match self.find_method(owner, m.as_slice()) {
            Some(f) => {
                if self.sigs[f].params.len() == 1 && self.sigs[f].params[0].0.same(&vt) {
                    let id = self.sigs[f].id;
                    let mut one: Vec<usize> = Vec::new();
                    one.push(v);
                    let out = self.op(Op::Call(id, one));
                    self.temp(out, t.copy());
                    return Ok((out, t));
                }
            },
            None => {},
        }
        let sa = self.show(&vt);
        let sb = self.show(&t);
        Err(diag4("cannot cast ", sa.as_slice(), " to ", sb.as_slice()))
    }

    /// An anonymous function: its body is compiled later, like any other function's.
    pub(crate) fn anon_fn(&mut self, e: &'a Expr, params: Vec<Typ>, ret: Typ) -> (r: Result<(usize, Typ), Diagnostic>) {
        let id = self.funcs.len();
        let mut ps: Vec<(Typ, Access)> = Vec::new();
        let mut i: usize = 0;
        while i < params.len()
            invariant
                i <= params@.len(),
            decreases params@.len() - i,
        {
            ps.push((params[i].copy(), Access::Read));
            i = i + 1;
        }
        self.funcs.push(Func { name: lit("fn"), nparams: params.len(), nslots: 0, body: Vec::new() });
        self.sigs.push(FnSig { name: Vec::new(), params: ps, ret: ret.copy(), id, has_self: false });
        let mut env: Vec<(Vec<u8>, Typ)> = Vec::new();
        let mut k: usize = 0;
        while k < self.type_env.len()
            invariant
                k <= self.type_env@.len(),
            decreases self.type_env@.len() - k,
        {
            env.push((self.type_env[k].0.clone(), self.type_env[k].1.copy()));
            k = k + 1;
        }
        self.pending.push((id, e, Vec::new(), env));
        Ok((self.constant(Val::Fn(id)), Typ::Fn(params, Box::new(ret))))
    }

    /// The zero value of a type; a struct uses its field defaults, and `@nozero` structs have none.
    pub(crate) fn zero(&mut self, t: &Typ, fuel: u64) -> (r: Result<usize, Diagnostic>)
        ensures
            fuel > 0 && (*t is Int || *t is UInt) ==> r == Ok::<usize, Diagnostic>(old(self).nslots) && final(self).code@
                == old(self).code@.push(Instr::Store(old(self).nslots, Op::Const(Val::Int(0)))),
            fuel > 0 && *t is Bool ==> r == Ok::<usize, Diagnostic>(old(self).nslots) && final(self).code@
                == old(self).code@.push(Instr::Store(old(self).nslots, Op::Const(Val::Bool(false)))),
            fuel > 0 && *t is Fn ==> (r matches Err(d) && d.msg@ == "a function has no zero value".spec_bytes()),
            fuel > 0 && *t is Ref ==> (r matches Err(d) && d.msg@ == "a reference has no zero value".spec_bytes()),
            fuel == 0 ==> (r matches Err(d) && d.msg@ == "type nests too deeply".spec_bytes()),
        decreases fuel, 0int,
    {
        if fuel == 0 {
            return Err(diag("type nests too deeply"));
        }
        match t {
            Typ::Int(_) | Typ::UInt(_) => Ok(self.int_const(0)),
            Typ::Bool => Ok(self.bool_const(false)),
            Typ::Str | Typ::Atom | Typ::Error => Ok(self.constant(Val::Str(Vec::new()))),
            Typ::Float(_) => Ok(self.constant(Val::Str(lit("0.0")))),
            Typ::Range => {
                let z = self.int_const(0);
                Ok(self.op(Op::MakeRange(z, Some(z), 1)))
            },
            Typ::Tuple(ts) => {
                if ts.len() == 0 {
                    return Ok(self.constant(Val::Unit));
                }
                let mut slots: Vec<usize> = Vec::new();
                let mut i: usize = 0;
                while i < ts.len()
                    invariant
                        i <= ts@.len(),
                    decreases ts@.len() - i,
                {
                    let z = self.zero(&ts[i], fuel - 1)?;
                    slots.push(z);
                    i = i + 1;
                }
                Ok(self.op(Op::Tuple(slots)))
            },
            Typ::Array(_) => Ok(self.op(Op::Array(Vec::new()))),
            Typ::Dict(_, _) => Ok(self.op(Op::Dict(Vec::new(), Vec::new()))),
            Typ::Sum(ts) => {
                if ts.len() == 0 {
                    return Err(diag("an empty sum type has no zero value"));
                }
                let z = self.zero(&ts[0], fuel - 1)?;
                let mut one: Vec<usize> = Vec::new();
                one.push(z);
                Ok(self.op(Op::Enum(0, one)))
            },
            Typ::Trait(n) => Err(diag3("`", n.as_slice(), "` has no zero value")),
            Typ::Option(_) => Ok(self.op(Op::Enum(0, Vec::new()))),
            Typ::Result(ok, _) => {
                let z = self.zero(&**ok, fuel - 1)?;
                let mut one: Vec<usize> = Vec::new();
                one.push(z);
                Ok(self.op(Op::Enum(0, one)))
            },
            Typ::Enum(id) => {
                if *id >= self.enums.len() || self.enums[*id].variants.len() == 0 {
                    return Err(diag("this enum has no zero value"));
                }
                let payload = copy_all(&self.enums[*id].variants[0].payload);
                let mut slots: Vec<usize> = Vec::new();
                let mut i: usize = 0;
                while i < payload.len()
                    invariant
                        i <= payload@.len(),
                    decreases payload@.len() - i,
                {
                    let z = self.zero(&payload[i], fuel - 1)?;
                    slots.push(z);
                    i = i + 1;
                }
                Ok(self.op(Op::Enum(0, slots)))
            },
            Typ::Struct(n, fs) => {
                let sidx = if n.len() > 0 {
                    self.find_struct(n.as_slice())
                } else {
                    None
                };
                match sidx {
                    Some(s) => {
                        if self.structs[s].nozero {
                            return Err(diag3("`", n.as_slice(), "` has no zero value"));
                        }
                    },
                    None => {},
                }
                let mut slots: Vec<usize> = Vec::new();
                let mut i: usize = 0;
                while i < fs.len()
                    invariant
                        i <= fs@.len(),
                    decreases fs@.len() - i,
                {
                    let default: Option<&'a Expr> = match sidx {
                        Some(s) => if s < self.structs.len() && i < self.structs[s].defaults.len() {
                            self.structs[s].defaults[i]
                        } else {
                            None
                        },
                        None => None,
                    };
                    let ft = fs[i].typ.copy();
                    let z = match default {
                        Some(d) => {
                            let (v, vt) = self.lower(d, Some(&ft), fuel - 1)?;
                            self.take_value(d, v, &vt, fuel - 1)?
                        },
                        None => self.zero(&ft, fuel - 1)?,
                    };
                    slots.push(z);
                    i = i + 1;
                }
                let out = self.op(Op::Tuple(slots));
                self.temp(out, t.copy());
                Ok(out)
            },
            Typ::Fn(_, _) => Err(diag("a function has no zero value")),
            Typ::Ref(_) => Err(diag("a reference has no zero value")),
            Typ::Never => Ok(self.constant(Val::Unit)),
        }
    }
}

/// The type bound to a name.
pub(crate) fn lookup(binds: &Vec<(Vec<u8>, Typ)>, name: &[u8]) -> (r: Option<Typ>)
    ensures
        r is None <==> forall|j: int| 0 <= j < binds@.len() ==> (#[trigger] binds@[j]).0@ != name@,
{
    let mut i: usize = 0;
    while i < binds.len()
        invariant
            i <= binds@.len(),
            forall|j: int| 0 <= j < i ==> (#[trigger] binds@[j]).0@ != name@,
        decreases binds@.len() - i,
    {
        if bytes_eq(binds[i].0.as_slice(), name) {
            return Some(binds[i].1.copy());
        }
        i = i + 1;
    }
    None
}

/// Bind the type parameters that a written type mentions by matching it against a type.
pub(crate) fn unify(te: &TypeExpr, t: &Typ, params: &Vec<Vec<u8>>, binds: &mut Vec<(Vec<u8>, Typ)>, instances: &Vec<(Vec<u8>, Vec<u8>, Vec<Typ>)>, enums: &Vec<crate::types::EnumInfo>, fuel: u64)
    ensures
        final(binds)@.len() >= old(binds)@.len(),
        final(binds)@.take(old(binds)@.len() as int) == old(binds)@,
        forall|j: int| old(binds)@.len() <= j < final(binds)@.len() ==> params@.map_values(|p: Vec<u8>| p@).contains(
            (#[trigger] final(binds)@[j]).0@,
        ),
    decreases fuel,
{
    if fuel == 0 {
        return;
    }
    match te {
        TypeExpr::Name(n) => {
            let mut i: usize = 0;
            while i < params.len()
                invariant
                    i <= params@.len(),
                    binds@.len() >= old(binds)@.len(),
                    binds@.take(old(binds)@.len() as int) == old(binds)@,
                    forall|q: int| old(binds)@.len() <= q < binds@.len() ==> params@.map_values(|p: Vec<u8>| p@).contains(
                        (#[trigger] binds@[q]).0@,
                    ),
                decreases params@.len() - i,
            {
                if bytes_eq(params[i].as_slice(), n.as_slice()) && lookup(binds, n.as_slice()).is_none() {
                    let ghost before = binds@;
                    binds.push((crate::text::owned(n.as_slice()), t.copy()));
                    assert(params@.map_values(|p: Vec<u8>| p@)[i as int] == n@);
                    assert(binds@.take(old(binds)@.len() as int) =~= before.take(old(binds)@.len() as int));
                }
                i = i + 1;
            }
        },
        TypeExpr::Array(e) => {
            if let Typ::Array(et) = t {
                unify(&**e, &**et, params, binds, instances, enums, fuel - 1);
            }
        },
        TypeExpr::Option(e) => {
            if let Typ::Option(et) = t {
                unify(&**e, &**et, params, binds, instances, enums, fuel - 1);
            }
        },
        TypeExpr::Result(e) => {
            if let Typ::Result(ok, _) = t {
                unify(&**e, &**ok, params, binds, instances, enums, fuel - 1);
            }
        },
        TypeExpr::Generic(_, args) => {
            // the instance's own type arguments, found by its name
            let name = match t {
                Typ::Enum(id) => if *id < enums.len() {
                    Some(enums[*id].name.clone())
                } else {
                    None
                },
                Typ::Struct(n, _) => Some(n.clone()),
                _ => None,
            };
            match name {
                Some(name) => {
                    let mut k: usize = 0;
                    while k < instances.len()
                        invariant
                            k <= instances@.len(),
                            binds@.len() >= old(binds)@.len(),
                            binds@.take(old(binds)@.len() as int) == old(binds)@,
                            forall|q: int| old(binds)@.len() <= q < binds@.len() ==> params@.map_values(|p: Vec<u8>| p@).contains(
                                (#[trigger] binds@[q]).0@,
                            ),
                        decreases instances@.len() - k,
                    {
                        if bytes_eq(instances[k].0.as_slice(), name.as_slice()) {
                            let targs = &instances[k].2;
                            let mut j: usize = 0;
                            while j < args.len() && j < targs.len()
                                invariant
                                    k < instances@.len(),
                                    j <= args@.len(),
                                    binds@.len() >= old(binds)@.len(),
                                    binds@.take(old(binds)@.len() as int) == old(binds)@,
                                    forall|q: int| old(binds)@.len() <= q < binds@.len() ==> params@.map_values(|p: Vec<u8>| p@).contains(
                                        (#[trigger] binds@[q]).0@,
                                    ),
                                decreases args@.len() - j,
                            {
                                let ghost before = binds@;
                                unify(&args[j], &targs[j], params, binds, instances, enums, fuel - 1);
                                assert(binds@.take(old(binds)@.len() as int) =~= before.take(old(binds)@.len() as int));
                                assert forall|q: int| old(binds)@.len() <= q < binds@.len() implies params@.map_values(
                                    |p: Vec<u8>| p@,
                                ).contains((#[trigger] binds@[q]).0@) by {
                                    if q < before.len() {
                                        assert(binds@[q] == binds@.take(before.len() as int)[q]);
                                    }
                                }
                                j = j + 1;
                            }
                        }
                        k = k + 1;
                    }
                },
                None => {},
            }
        },
        _ => {},
    }
}

} // verus!
