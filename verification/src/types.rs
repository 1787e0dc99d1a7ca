use vstd::prelude::*;
use vstd::string::StringSliceAdditionalSpecFns;

use crate::text::{lit, push_all, push_str};

verus! {

/// A struct field: its name and type.
#[derive(Debug)]
pub struct FieldDef {
    pub name: Vec<u8>,
    pub typ: Typ,
}

/// The types of values.
#[derive(Debug)]
pub enum Typ {
    /// A signed integer of the given bit width.
    Int(u32),
    /// An unsigned integer of the given bit width.
    UInt(u32),
    /// A float of the given bit width (literals only: no arithmetic).
    Float(u32),
    Bool,
    Str,
    Atom,
    /// The payload of `error(...)`.
    Error,
    Range,
    /// A tuple; the empty tuple is unit.
    Tuple(Vec<Typ>),
    Array(Box<Typ>),
    /// A map from keys of the first type to values of the second.
    Dict(Box<Typ>, Box<Typ>),
    /// A value of one of several types, by the position of its type among them.
    Sum(Vec<Typ>),
    /// A value of some type that claims the named trait, with that type's methods for it.
    Trait(Vec<u8>),
    /// A named struct, or an anonymous record when the name is empty.
    Struct(Vec<u8>, Vec<FieldDef>),
    /// A user enum, by its index in the enum table.
    Enum(usize),
    Option(Box<Typ>),
    Result(Box<Typ>, Box<Typ>),
    Fn(Vec<Typ>, Box<Typ>),
    /// A shared, reference-counted box.
    Ref(Box<Typ>),
    /// The type of an expression that never produces a value.
    Never,
}

/// An enum variant: its name and payload types.
pub struct VariantInfo {
    pub name: Vec<u8>,
    pub payload: Vec<Typ>,
}

/// An enum: its name and variants, in declaration order (a variant's index is its tag).
pub struct EnumInfo {
    pub name: Vec<u8>,
    pub variants: Vec<VariantInfo>,
}

/// Whether two types are the same type, part by part: the same constructors, widths, names,
/// field names and indices all the way down.
pub open spec fn typ_eq(a: Typ, b: Typ) -> bool
    decreases a,
{
    match (a, b) {
        (Typ::Int(x), Typ::Int(y)) => x == y,
        (Typ::UInt(x), Typ::UInt(y)) => x == y,
        (Typ::Float(x), Typ::Float(y)) => x == y,
        (Typ::Bool, Typ::Bool) => true,
        (Typ::Str, Typ::Str) => true,
        (Typ::Atom, Typ::Atom) => true,
        (Typ::Error, Typ::Error) => true,
        (Typ::Range, Typ::Range) => true,
        (Typ::Never, Typ::Never) => true,
        (Typ::Tuple(x), Typ::Tuple(y)) => x@.len() == y@.len() && forall|i: int|
            0 <= i < x@.len() ==> typ_eq(#[trigger] x@[i], y@[i]),
        (Typ::Sum(x), Typ::Sum(y)) => x@.len() == y@.len() && forall|i: int|
            0 <= i < x@.len() ==> typ_eq(#[trigger] x@[i], y@[i]),
        (Typ::Trait(x), Typ::Trait(y)) => x@ == y@,
        (Typ::Array(x), Typ::Array(y)) => typ_eq(*x, *y),
        (Typ::Dict(k, v), Typ::Dict(l, w)) => typ_eq(*k, *l) && typ_eq(*v, *w),
        (Typ::Option(x), Typ::Option(y)) => typ_eq(*x, *y),
        (Typ::Ref(x), Typ::Ref(y)) => typ_eq(*x, *y),
        (Typ::Result(x, e), Typ::Result(y, f)) => typ_eq(*x, *y) && typ_eq(*e, *f),
        (Typ::Fn(x, r), Typ::Fn(y, q)) => x@.len() == y@.len() && (forall|i: int|
            0 <= i < x@.len() ==> typ_eq(#[trigger] x@[i], y@[i])) && typ_eq(*r, *q),
        (Typ::Struct(n, x), Typ::Struct(m, y)) => n@ == m@ && x@.len() == y@.len() && forall|i: int|
            0 <= i < x@.len() ==> (#[trigger] x@[i]).name@ == y@[i].name@ && typ_eq(x@[i].typ, y@[i].typ),
        (Typ::Enum(x), Typ::Enum(y)) => x == y,
        _ => false,
    }
}

impl Typ {
    /// The unit type.
    pub fn unit() -> (r: Typ)
        ensures
            r.is_unit(),
    {
        Typ::Tuple(Vec::new())
    }

    pub open spec fn is_unit(&self) -> bool {
        self matches Typ::Tuple(ts) && ts@.len() == 0
    }

    /// A deep copy.
    #[verifier::loop_isolation(false)]
    pub(crate) fn copy(&self) -> (r: Typ)
        ensures
            match (*self, r) {
                (Typ::Int(a), Typ::Int(b)) => a == b,
                (Typ::UInt(a), Typ::UInt(b)) => a == b,
                (Typ::Float(a), Typ::Float(b)) => a == b,
                (Typ::Bool, Typ::Bool) => true,
                (Typ::Str, Typ::Str) => true,
                (Typ::Atom, Typ::Atom) => true,
                (Typ::Error, Typ::Error) => true,
                (Typ::Range, Typ::Range) => true,
                (Typ::Never, Typ::Never) => true,
                (Typ::Tuple(a), Typ::Tuple(b)) => a@.len() == b@.len(),
                (Typ::Sum(a), Typ::Sum(b)) => a@.len() == b@.len(),
                (Typ::Trait(a), Typ::Trait(b)) => a@ == b@,
                (Typ::Array(_), Typ::Array(_)) => true,
                (Typ::Dict(_, _), Typ::Dict(_, _)) => true,
                (Typ::Option(_), Typ::Option(_)) => true,
                (Typ::Ref(_), Typ::Ref(_)) => true,
                (Typ::Result(_, _), Typ::Result(_, _)) => true,
                (Typ::Fn(a, _), Typ::Fn(b, _)) => a@.len() == b@.len(),
                (Typ::Struct(n, a), Typ::Struct(m, b)) => n@ == m@ && a@.len() == b@.len() && forall|i: int|
                    0 <= i < a@.len() ==> (#[trigger] a@[i]).name@ == b@[i].name@,
                (Typ::Enum(a), Typ::Enum(b)) => a == b,
                _ => false,
            },
            typ_eq(*self, r),
        decreases self,
    {
        match self {
            Typ::Int(w) => Typ::Int(*w),
            Typ::UInt(w) => Typ::UInt(*w),
            Typ::Float(w) => Typ::Float(*w),
            Typ::Bool => Typ::Bool,
            Typ::Str => Typ::Str,
            Typ::Atom => Typ::Atom,
            Typ::Error => Typ::Error,
            Typ::Range => Typ::Range,
            Typ::Never => Typ::Never,
            Typ::Tuple(ts) => Typ::Tuple(copy_all(ts)),
            Typ::Sum(ts) => Typ::Sum(copy_all(ts)),
            Typ::Trait(n) => Typ::Trait(crate::text::owned(n.as_slice())),
            Typ::Array(t) => Typ::Array(Box::new((**t).copy())),
            Typ::Dict(k, v) => Typ::Dict(Box::new((**k).copy()), Box::new((**v).copy())),
            Typ::Option(t) => Typ::Option(Box::new((**t).copy())),
            Typ::Ref(t) => Typ::Ref(Box::new((**t).copy())),
            Typ::Result(a, b) => Typ::Result(Box::new((**a).copy()), Box::new((**b).copy())),
            Typ::Fn(ps, r) => Typ::Fn(copy_all(ps), Box::new((**r).copy())),
            Typ::Struct(n, fs) => {
                let mut out: Vec<FieldDef> = Vec::new();
                let mut i: usize = 0;
                while i < fs.len()
                    invariant
                        i <= fs@.len(),
                        out@.len() == i,
                        forall|j: int| 0 <= j < i ==> (#[trigger] out@[j]).name@ == fs@[j].name@,
                        forall|j: int| 0 <= j < i ==> typ_eq(fs@[j].typ, (#[trigger] out@[j]).typ),
                    decreases fs@.len() - i,
                {
                    proof {
                        vstd::std_specs::vec::axiom_vec_index_decreases(*fs, i as int);
                    }
                    let f = FieldDef { name: crate::text::owned(fs[i].name.as_slice()), typ: fs[i].typ.copy() };
                    out.push(f);
                    i = i + 1;
                }
                Typ::Struct(crate::text::owned(n.as_slice()), out)
            },
            Typ::Enum(n) => Typ::Enum(*n),
        }
    }

    /// Whether the type is an integer type.
    pub fn is_int(&self) -> (r: bool)
        ensures
            r == (self is Int || self is UInt),
    {
        matches!(self, Typ::Int(_)) || matches!(self, Typ::UInt(_))
    }

    /// Whether two types are the same type.
    #[verifier::loop_isolation(false)]
    pub(crate) fn same(&self, other: &Typ) -> (r: bool)
        ensures
            r ==> same_kind(*self, *other),
            match (*self, *other) {
                (Typ::Int(a), Typ::Int(b)) => r == (a == b),
                (Typ::UInt(a), Typ::UInt(b)) => r == (a == b),
                (Typ::Float(a), Typ::Float(b)) => r == (a == b),
                (Typ::Enum(a), Typ::Enum(b)) => r == (a == b),
                (Typ::Bool, Typ::Bool) => r,
                (Typ::Str, Typ::Str) => r,
                (Typ::Atom, Typ::Atom) => r,
                (Typ::Error, Typ::Error) => r,
                (Typ::Range, Typ::Range) => r,
                (Typ::Never, Typ::Never) => r,
                (Typ::Trait(a), Typ::Trait(b)) => r == (a@ == b@),
                (Typ::Struct(a, _), Typ::Struct(b, _)) => a@.len() > 0 ==> r == (a@ == b@),
                (Typ::Tuple(a), Typ::Tuple(b)) => r ==> a@.len() == b@.len(),
                (Typ::Sum(a), Typ::Sum(b)) => r ==> a@.len() == b@.len(),
                (Typ::Fn(a, _), Typ::Fn(b, _)) => r ==> a@.len() == b@.len(),
                _ => true,
            },
        decreases self,
    {
        match (self, other) {
            (Typ::Int(a), Typ::Int(b)) => *a == *b,
            (Typ::UInt(a), Typ::UInt(b)) => *a == *b,
            (Typ::Float(a), Typ::Float(b)) => *a == *b,
            (Typ::Bool, Typ::Bool) => true,
            (Typ::Str, Typ::Str) => true,
            (Typ::Atom, Typ::Atom) => true,
            (Typ::Error, Typ::Error) => true,
            (Typ::Range, Typ::Range) => true,
            (Typ::Never, Typ::Never) => true,
            (Typ::Enum(a), Typ::Enum(b)) => *a == *b,
            (Typ::Array(a), Typ::Array(b)) => (**a).same(&**b),
            (Typ::Dict(a1, a2), Typ::Dict(b1, b2)) => (**a1).same(&**b1) && (**a2).same(&**b2),
            (Typ::Option(a), Typ::Option(b)) => (**a).same(&**b),
            (Typ::Ref(a), Typ::Ref(b)) => (**a).same(&**b),
            (Typ::Result(a1, a2), Typ::Result(b1, b2)) => (**a1).same(&**b1) && (**a2).same(&**b2),
            (Typ::Trait(a), Typ::Trait(b)) => crate::text::bytes_eq(a.as_slice(), b.as_slice()),
            (Typ::Sum(xs), Typ::Sum(ys)) => {
                if xs.len() != ys.len() {
                    return false;
                }
                let mut i: usize = 0;
                while i < xs.len()
                    invariant
                        i <= xs@.len(),
                        xs@.len() == ys@.len(),
                    decreases xs@.len() - i,
                {
                    proof {
                        vstd::std_specs::vec::axiom_vec_index_decreases(*xs, i as int);
                    }
                    if !xs[i].same(&ys[i]) {
                        return false;
                    }
                    i = i + 1;
                }
                true
            },
            (Typ::Tuple(xs), Typ::Tuple(ys)) => {
                if xs.len() != ys.len() {
                    return false;
                }
                let mut i: usize = 0;
                while i < xs.len()
                    invariant
                        i <= xs@.len(),
                        xs@.len() == ys@.len(),
                    decreases xs@.len() - i,
                {
                    proof {
                        vstd::std_specs::vec::axiom_vec_index_decreases(*xs, i as int);
                    }
                    if !xs[i].same(&ys[i]) {
                        return false;
                    }
                    i = i + 1;
                }
                true
            },
            (Typ::Fn(xs, xr), Typ::Fn(ys, yr)) => {
                if xs.len() != ys.len() {
                    return false;
                }
                let mut i: usize = 0;
                while i < xs.len()
                    invariant
                        i <= xs@.len(),
                        xs@.len() == ys@.len(),
                    decreases xs@.len() - i,
                {
                    proof {
                        vstd::std_specs::vec::axiom_vec_index_decreases(*xs, i as int);
                    }
                    if !xs[i].same(&ys[i]) {
                        return false;
                    }
                    i = i + 1;
                }
                (**xr).same(&**yr)
            },
            (Typ::Struct(a, _), Typ::Struct(b, bfs)) => {
                if a.len() > 0 {
                    return crate::text::bytes_eq(a.as_slice(), b.as_slice());
                }
                // anonymous records are the same when their fields are
                match self {
                    Typ::Struct(_, afs) => {
                        if b.len() > 0 || afs.len() != bfs.len() {
                            return false;
                        }
                        let mut i: usize = 0;
                        while i < afs.len()
                            invariant
                                i <= afs@.len(),
                                afs@.len() == bfs@.len(),
                            decreases afs@.len() - i,
                        {
                            proof {
                                vstd::std_specs::vec::axiom_vec_index_decreases(*afs, i as int);
                            }
                            if !crate::text::bytes_eq(afs[i].name.as_slice(), bfs[i].name.as_slice())
                                || !afs[i].typ.same(&bfs[i].typ) {
                                return false;
                            }
                            i = i + 1;
                        }
                        true
                    },
                    _ => false,
                }
            },
            _ => false,
        }
    }
}

/// Whether two types are of the same kind: the same variant of `Typ`.
pub open spec fn same_kind(a: Typ, b: Typ) -> bool {
    match (a, b) {
        (Typ::Int(_), Typ::Int(_)) => true,
        (Typ::UInt(_), Typ::UInt(_)) => true,
        (Typ::Float(_), Typ::Float(_)) => true,
        (Typ::Bool, Typ::Bool) => true,
        (Typ::Str, Typ::Str) => true,
        (Typ::Atom, Typ::Atom) => true,
        (Typ::Error, Typ::Error) => true,
        (Typ::Range, Typ::Range) => true,
        (Typ::Tuple(_), Typ::Tuple(_)) => true,
        (Typ::Array(_), Typ::Array(_)) => true,
        (Typ::Dict(_, _), Typ::Dict(_, _)) => true,
        (Typ::Sum(_), Typ::Sum(_)) => true,
        (Typ::Trait(_), Typ::Trait(_)) => true,
        (Typ::Struct(_, _), Typ::Struct(_, _)) => true,
        (Typ::Enum(_), Typ::Enum(_)) => true,
        (Typ::Option(_), Typ::Option(_)) => true,
        (Typ::Result(_, _), Typ::Result(_, _)) => true,
        (Typ::Fn(_, _), Typ::Fn(_, _)) => true,
        (Typ::Ref(_), Typ::Ref(_)) => true,
        (Typ::Never, Typ::Never) => true,
        _ => false,
    }
}

/// Deep copies of a list of types.
#[verifier::loop_isolation(false)]
pub(crate) fn copy_all(ts: &Vec<Typ>) -> (r: Vec<Typ>)
    ensures
        r@.len() == ts@.len(),
        forall|j: int| 0 <= j < ts@.len() ==> typ_eq(ts@[j], #[trigger] r@[j]),
    decreases ts,
{
    let mut out: Vec<Typ> = Vec::new();
    let mut i: usize = 0;
    while i < ts.len()
        invariant
            i <= ts@.len(),
            out@.len() == i,
            forall|j: int| 0 <= j < i ==> typ_eq(ts@[j], #[trigger] out@[j]),
        decreases ts@.len() - i,
    {
        proof {
            vstd::std_specs::vec::axiom_vec_index_decreases(*ts, i as int);
        }
        out.push(ts[i].copy());
        i = i + 1;
    }
    out
}

/// The text of a type that holds no other type.
pub open spec fn spec_show_leaf(t: Typ, enums: Seq<EnumInfo>) -> Option<Seq<u8>> {
    match t {
        Typ::Int(w) => Some(if w == 64 {
            "int".spec_bytes()
        } else {
            seq![105u8] + crate::text::spec_digits(w as nat)
        }),
        Typ::UInt(w) => Some(seq![117u8] + crate::text::spec_digits(w as nat)),
        Typ::Float(w) => Some(if w == 64 {
            "float".spec_bytes()
        } else {
            seq![102u8] + crate::text::spec_digits(w as nat)
        }),
        Typ::Bool => Some("bool".spec_bytes()),
        Typ::Str => Some("string".spec_bytes()),
        Typ::Atom => Some("atom".spec_bytes()),
        Typ::Error => Some("Error".spec_bytes()),
        Typ::Range => Some("Range".spec_bytes()),
        Typ::Never => Some("never".spec_bytes()),
        Typ::Trait(n) => Some(n@),
        Typ::Struct(n, _) => Some(if n@.len() == 0 {
            "record".spec_bytes()
        } else {
            n@
        }),
        Typ::Enum(i) => Some(if i < enums.len() {
            enums[i as int].name@
        } else {
            "enum".spec_bytes()
        }),
        _ => None,
    }
}

/// The name a type is written with, for messages.
#[verifier::loop_isolation(false)]
pub(crate) fn show(t: &Typ, enums: &Vec<EnumInfo>) -> (r: Vec<u8>)
    ensures
        spec_show_leaf(*t, enums@) matches Some(s) ==> r@ == s,
        *t is Option ==> r@.len() > 0 && r@[0] == 63,
        *t is Result ==> r@.len() > 0 && r@[0] == 33,
        *t is Ref ==> r@.len() > 0 && r@[0] == 38,
    decreases t,
{
    let mut out: Vec<u8> = Vec::new();
    match t {
        Typ::Int(w) => {
            if *w == 64 {
                push_str(&mut out, "int");
            } else {
                out.push(105);
                crate::text::push_u64(&mut out, *w as u64);
            }
        },
        Typ::UInt(w) => {
            out.push(117);
            crate::text::push_u64(&mut out, *w as u64);
        },
        Typ::Float(w) => {
            if *w == 64 {
                push_str(&mut out, "float");
            } else {
                out.push(102);
                crate::text::push_u64(&mut out, *w as u64);
            }
        },
        Typ::Bool => push_str(&mut out, "bool"),
        Typ::Str => push_str(&mut out, "string"),
        Typ::Atom => push_str(&mut out, "atom"),
        Typ::Error => push_str(&mut out, "Error"),
        Typ::Range => push_str(&mut out, "Range"),
        Typ::Never => push_str(&mut out, "never"),
        Typ::Tuple(ts) => {
            out.push(40);
            let mut i: usize = 0;
            while i < ts.len()
                invariant
                    i <= ts@.len(),
                decreases ts@.len() - i,
            {
                proof {
                    vstd::std_specs::vec::axiom_vec_index_decreases(*ts, i as int);
                }
                if i > 0 {
                    push_str(&mut out, ", ");
                }
                let s = show(&ts[i], enums);
                push_all(&mut out, s.as_slice());
                i = i + 1;
            }
            out.push(41);
        },
        Typ::Array(e) => {
            push_str(&mut out, "[]");
            let s = show(&**e, enums);
            push_all(&mut out, s.as_slice());
        },
        Typ::Sum(ts) => {
            let mut i: usize = 0;
            while i < ts.len()
                invariant
                    i <= ts@.len(),
                decreases ts@.len() - i,
            {
                proof {
                    vstd::std_specs::vec::axiom_vec_index_decreases(*ts, i as int);
                }
                if i > 0 {
                    push_str(&mut out, " | ");
                }
                let s = show(&ts[i], enums);
                push_all(&mut out, s.as_slice());
                i = i + 1;
            }
        },
        Typ::Trait(n) => push_all(&mut out, n.as_slice()),
        Typ::Dict(k, v) => {
            out.push(91);
            let s = show(&**k, enums);
            push_all(&mut out, s.as_slice());
            out.push(93);
            let s = show(&**v, enums);
            push_all(&mut out, s.as_slice());
        },
        Typ::Option(e) => {
            out.push(63);
            let s = show(&**e, enums);
            push_all(&mut out, s.as_slice());
        },
        Typ::Ref(e) => {
            out.push(38);
            let s = show(&**e, enums);
            push_all(&mut out, s.as_slice());
        },
        Typ::Result(a, _) => {
            out.push(33);
            let s = show(&**a, enums);
            push_all(&mut out, s.as_slice());
        },
        Typ::Fn(ps, r) => {
            push_str(&mut out, "fn(");
            let mut i: usize = 0;
            while i < ps.len()
                invariant
                    i <= ps@.len(),
                decreases ps@.len() - i,
            {
                proof {
                    vstd::std_specs::vec::axiom_vec_index_decreases(*ps, i as int);
                }
                if i > 0 {
                    push_str(&mut out, ", ");
                }
                let s = show(&ps[i], enums);
                push_all(&mut out, s.as_slice());
                i = i + 1;
            }
            out.push(41);
            if !matches!(&**r, Typ::Tuple(v) if v.len() == 0) {
                out.push(32);
                let s = show(&**r, enums);
                push_all(&mut out, s.as_slice());
            }
        },
        Typ::Struct(n, _) => {
            if n.len() == 0 {
                push_str(&mut out, "record");
            } else {
                push_all(&mut out, n.as_slice());
            }
        },
        Typ::Enum(i) => {
            if *i < enums.len() {
                push_all(&mut out, enums[*i].name.as_slice());
            } else {
                push_str(&mut out, "enum");
            }
        },
    }
    out
}

// ---------------------------------------------------------------- ownership classes
/// Is `t` a `?&T`?
pub open spec fn spec_opt_ref(t: Typ) -> bool {
    match t {
        Typ::Option(i) => match *i {
            Typ::Ref(_) => true,
            _ => false,
        },
        _ => false,
    }
}

/// Whether a type is a shared reference box, or an optional one.
pub open spec fn spec_ref_like(t: Typ) -> bool {
    t is Ref || spec_opt_ref(t)
}

/// The runtime share/release pair of a reference-counted type.
pub open spec fn spec_handle_fns(t: Typ) -> Option<(Seq<char>, Seq<char>)> {
    match t {
        Typ::Array(_) => Some(("array_share"@, "array_release"@)),
        Typ::Dict(_, _) => Some(("map_share"@, "map_release"@)),
        _ => if spec_ref_like(t) {
            Some(("ref_share"@, "ref_release"@))
        } else {
            None
        },
    }
}

/// Is `t` a `?&T`?
pub fn opt_ref(t: &Typ) -> (r: bool)
    ensures
        r == spec_opt_ref(*t),
{
    match t {
        Typ::Option(i) => matches!(&**i, Typ::Ref(_)),
        _ => false,
    }
}

/// Is the type a ref pointer?
pub fn ref_like(t: &Typ) -> (r: bool)
    ensures
        r == spec_ref_like(*t),
{
    matches!(t, Typ::Ref(_)) || opt_ref(t)
}

/// Which runtime share and release functions manage a reference-counted type.
pub fn handle_fns(t: &Typ) -> (r: Option<(&'static str, &'static str)>)
    ensures
        r is Some <==> spec_handle_fns(*t) is Some,
        r matches Some((s, l)) ==> (s@, l@) == spec_handle_fns(*t)->0,
{
    match t {
        Typ::Array(_) => Some(("array_share", "array_release")),
        Typ::Dict(_, _) => Some(("map_share", "map_release")),
        _ => if ref_like(t) {
            Some(("ref_share", "ref_release"))
        } else {
            None
        },
    }
}

/// Whether releasing a value of this type frees something: a handle, or a struct holding one,
/// however deeply.
pub open spec fn spec_releasable(t: Typ) -> bool
    decreases t,
{
    match t {
        Typ::Struct(_, fs) => exists|i: int| 0 <= i < fs@.len() && spec_releasable((#[trigger] fs@[i]).typ),
        _ => spec_handle_fns(t) is Some,
    }
}

/// Whether releasing a value of this type frees something: a handle, or a struct holding one.
#[verifier::loop_isolation(false)]
pub fn releasable(t: &Typ) -> (r: bool)
    ensures
        r == spec_releasable(*t),
    decreases *t,
{
    match t {
        Typ::Struct(_, fs) => {
            let mut i: usize = 0;
            while i < fs.len()
                invariant
                    i <= fs@.len(),
                    forall|j: int| 0 <= j < i ==> !spec_releasable((#[trigger] fs@[j]).typ),
                decreases fs@.len() - i,
            {
                proof {
                    vstd::std_specs::vec::axiom_vec_index_decreases(*fs, i as int);
                }
                if releasable(&fs[i].typ) {
                    assert(0 <= i < fs@.len() && spec_releasable(fs@[i as int].typ));
                    return true;
                }
                i = i + 1;
            }
            false
        },
        _ => handle_fns(t).is_some(),
    }
}

/// A generic instance's base name: `Box[int]` is `Box`.
pub open spec fn spec_base_name(name: Seq<u8>) -> Seq<u8> {
    if exists|i: int| 0 <= i < name.len() && name[i] == 91u8 {
        name.take(choose|i: int| 0 <= i < name.len() && name[i] == 91u8 && forall|j: int| 0 <= j < i ==> name[j] != 91u8)
    } else {
        name
    }
}

/// A generic instance's base name: the text before the first `[`.
pub fn base_name(name: &[u8]) -> (r: Vec<u8>)
    ensures
        r@ == spec_base_name(name@),
{
    let mut out: Vec<u8> = Vec::new();
    let mut i: usize = 0;
    while i < name.len()
        invariant
            i <= name@.len(),
            out@ == name@.take(i as int),
            forall|j: int| 0 <= j < i ==> name@[j] != 91u8,
        decreases name@.len() - i,
    {
        if name[i] == 91 {
            let ghost k = choose|k: int| 0 <= k < name@.len() && name@[k] == 91u8 && forall|j: int| 0 <= j < k ==> name@[j] != 91u8;
            assert(k == i as int) by {
                if k < i {
                    assert(name@[k] != 91u8);
                } else if k > i {
                }
            }
            return out;
        }
        out.push(name[i]);
        assert(name@.take(i + 1) == name@.take(i as int).push(name@[i as int]));
        i = i + 1;
    }
    assert(name@.take(i as int) == name@);
    out
}

} // verus!
