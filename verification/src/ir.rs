use vstd::prelude::*;
use vstd::string::StringSliceAdditionalSpecFns;

use crate::ast::BinOp;
use crate::types::Typ;

verus! {

/// A runtime value.
#[derive(Debug)]
pub enum Val {
    Unit,
    Int(i64),
    Bool(bool),
    Str(Vec<u8>),
    /// Tuples, structs and records: their fields in order.
    Tuple(Vec<Val>),
    Array(Vec<Val>),
    /// An enum value: its variant's tag and payload.
    Enum(u64, Vec<Val>),
    /// A function, by its index in the program.
    Fn(usize),
    /// `start..end` by `step`; `end` is `None` for an open range. `end` is exclusive.
    Range(i64, Option<i64>, i64),
    /// A map: its keys and, at the same positions, their values, in insertion order.
    Dict(Vec<Val>, Vec<Val>),
}

/// Whether `y` is a deep copy of `x`: same variant, same scalars and text, and, element by
/// element, copies of the same values.
pub open spec fn same_value(x: Val, y: Val) -> bool
    decreases x,
{
    match x {
        Val::Unit => y is Unit,
        Val::Int(a) => y == Val::Int(a),
        Val::Bool(a) => y == Val::Bool(a),
        Val::Str(a) => y matches Val::Str(b) && a@ == b@,
        Val::Tuple(a) => y matches Val::Tuple(b) && a@.len() == b@.len() && forall|k: int|
            0 <= k < a@.len() ==> same_value(a@[k], #[trigger] b@[k]),
        Val::Array(a) => y matches Val::Array(b) && a@.len() == b@.len() && forall|k: int|
            0 <= k < a@.len() ==> same_value(a@[k], #[trigger] b@[k]),
        Val::Enum(t, a) => y matches Val::Enum(u, b) && t == u && a@.len() == b@.len() && forall|k: int|
            0 <= k < a@.len() ==> same_value(a@[k], #[trigger] b@[k]),
        Val::Fn(f) => y == Val::Fn(f),
        Val::Range(a, b, c) => y == Val::Range(a, b, c),
        Val::Dict(k, v) => y matches Val::Dict(l, w) && k@.len() == l@.len() && v@.len() == w@.len() && (forall|i: int|
            0 <= i < k@.len() ==> same_value(k@[i], #[trigger] l@[i])) && forall|i: int|
            0 <= i < v@.len() ==> same_value(v@[i], #[trigger] w@[i]),
    }
}

/// A copy of a copy is a copy of the original.
pub proof fn lemma_same_value_trans(x: Val, y: Val, z: Val)
    requires
        same_value(x, y),
        same_value(y, z),
    ensures
        same_value(x, z),
    decreases x,
{
    match x {
        Val::Tuple(a) => {
            let b = y->Tuple_0;
            let c = z->Tuple_0;
            assert forall|k: int| 0 <= k < a@.len() implies same_value(a@[k], #[trigger] c@[k]) by {
                lemma_same_value_trans(a@[k], b@[k], c@[k]);
            }
        },
        Val::Array(a) => {
            let b = y->Array_0;
            let c = z->Array_0;
            assert forall|k: int| 0 <= k < a@.len() implies same_value(a@[k], #[trigger] c@[k]) by {
                lemma_same_value_trans(a@[k], b@[k], c@[k]);
            }
        },
        Val::Enum(_, a) => {
            let b = y->Enum_1;
            let c = z->Enum_1;
            assert forall|k: int| 0 <= k < a@.len() implies same_value(a@[k], #[trigger] c@[k]) by {
                lemma_same_value_trans(a@[k], b@[k], c@[k]);
            }
        },
        Val::Dict(ka, va) => {
            let kb = y->Dict_0;
            let vb = y->Dict_1;
            let kc = z->Dict_0;
            let vc = z->Dict_1;
            assert forall|i: int| 0 <= i < ka@.len() implies same_value(ka@[i], #[trigger] kc@[i]) by {
                lemma_same_value_trans(ka@[i], kb@[i], kc@[i]);
            }
            assert forall|i: int| 0 <= i < va@.len() implies same_value(va@[i], #[trigger] vc@[i]) by {
                lemma_same_value_trans(va@[i], vb@[i], vc@[i]);
            }
        },
        _ => {},
    }
}

impl Val {
    /// A deep copy.
    #[verifier::loop_isolation(false)]
    pub(crate) fn copy(&self) -> (r: Val)
        ensures
            match (*self, r) {
                (Val::Unit, Val::Unit) => true,
                (Val::Int(a), Val::Int(b)) => a == b,
                (Val::Bool(a), Val::Bool(b)) => a == b,
                (Val::Str(a), Val::Str(b)) => a@ == b@,
                (Val::Tuple(a), Val::Tuple(b)) => a@.len() == b@.len(),
                (Val::Array(a), Val::Array(b)) => a@.len() == b@.len(),
                (Val::Enum(t, a), Val::Enum(u, b)) => t == u && a@.len() == b@.len(),
                (Val::Fn(f), Val::Fn(g)) => f == g,
                (Val::Range(a, b, c), Val::Range(x, y, z)) => a == x && b == y && c == z,
                (Val::Dict(k, v), Val::Dict(l, w)) => k@.len() == l@.len() && v@.len() == w@.len(),
                _ => false,
            },
            same_value(*self, r),
        decreases self,
    {
        match self {
            Val::Unit => Val::Unit,
            Val::Int(n) => Val::Int(*n),
            Val::Bool(b) => Val::Bool(*b),
            Val::Str(s) => Val::Str(crate::text::owned(s.as_slice())),
            Val::Tuple(vs) => Val::Tuple(copy_vals(vs)),
            Val::Array(vs) => Val::Array(copy_vals(vs)),
            Val::Enum(t, vs) => Val::Enum(*t, copy_vals(vs)),
            Val::Fn(f) => Val::Fn(*f),
            Val::Range(a, b, s) => Val::Range(*a, *b, *s),
            Val::Dict(ks, vs) => Val::Dict(copy_vals(ks), copy_vals(vs)),
        }
    }
}

/// Deep copies of a list of values.
#[verifier::loop_isolation(false)]
pub(crate) fn copy_vals(vs: &Vec<Val>) -> (r: Vec<Val>)
    ensures
        r@.len() == vs@.len(),
        forall|k: int| 0 <= k < vs@.len() ==> same_value(vs@[k], #[trigger] r@[k]),
    decreases vs,
{
    let mut out: Vec<Val> = Vec::new();
    let mut i: usize = 0;
    while i < vs.len()
        invariant
            i <= vs@.len(),
            out@.len() == i,
            forall|k: int| 0 <= k < i ==> same_value(vs@[k], #[trigger] out@[k]),
        decreases vs@.len() - i,
    {
        proof {
            vstd::std_specs::vec::axiom_vec_index_decreases(*vs, i as int);
        }
        out.push(vs[i].copy());
        i = i + 1;
    }
    out
}

/// The integer class an arithmetic instruction works in: bit width and signedness.
#[derive(Clone, Copy, Debug, PartialEq, Eq, Structural)]
pub struct NumKind {
    pub width: u32,
    pub signed: bool,
}

/// Computations whose result is stored into a slot.
#[derive(Debug)]
pub enum Op {
    Const(Val),
    Copy(usize),
    /// Integer negation, wrapping in the kind.
    Neg(usize, NumKind),
    /// Boolean negation.
    Not(usize),
    /// Bitwise complement in the kind.
    BitNot(usize, NumKind),
    /// Integer arithmetic and bitwise operators in the kind.
    Arith(BinOp, usize, usize, NumKind),
    /// Comparisons; `==`/`!=` compare structurally, the orderings compare integers in the kind.
    Cmp(BinOp, usize, usize, NumKind),
    Concat(usize, usize),
    /// The text a value of the type prints as.
    Show(usize, Typ),
    /// Call the function with the index, passing the slots' values.
    Call(usize, Vec<usize>),
    /// Call the function value in the first slot.
    CallValue(usize, Vec<usize>),
    Tuple(Vec<usize>),
    Array(Vec<usize>),
    Field(usize, usize),
    /// Element of an array or byte of a string; out of bounds aborts.
    Index(usize, usize),
    Len(usize),
    Enum(u64, Vec<usize>),
    Tag(usize),
    Payload(usize, usize),
    /// Wrap an integer into the kind.
    Narrow(usize, NumKind),
    /// `start..end` (exclusive end, or open when absent) by the step.
    MakeRange(usize, Option<usize>, i64),
    /// Whether the integer lies in the range.
    InRange(usize, usize),
    /// The elements of an array or string in a range.
    Slice(usize, usize),
    /// An array with the elements of a range.
    Spread(usize),
    /// The bytes of a string as an array of integers.
    Bytes(usize),
    /// Append the elements of the second array to the first.
    Extend(usize, usize),
    /// The value of a static.
    Global(usize),
    /// Whether a range has a `k`th element: the range, then `k`.
    RangeHas(usize, usize),
    /// The `k`th element of a range: the range, then `k`.
    RangeAt(usize, usize),
    /// A map from the key slots to the value slots at the same positions; a later key wins.
    Dict(Vec<usize>, Vec<usize>),
    /// The value a map holds for a key; a missing key aborts.
    DictGet(usize, usize),
    /// Whether a map holds a key.
    DictHas(usize, usize),
    /// A map's keys, or its values when the flag is set, as an array.
    DictEntries(usize, bool),
}

/// Instructions.
#[derive(Debug)]
pub enum Instr {
    Store(usize, Op),
    If(usize, Vec<Instr>, Vec<Instr>),
    /// Repeat until a `Break` (or a return).
    Loop(Vec<Instr>),
    Break,
    Continue,
    Return(usize),
    /// Print values by their types, to stderr when the flag is set, with a newline when the second is.
    Print(bool, bool, Vec<(usize, Typ)>),
    /// Store into a field path of the value in a slot.
    SetField(usize, Vec<usize>, usize),
    /// Store into an array element of the value in a slot.
    SetIndex(usize, usize, usize),
    /// Append to the array in a slot.
    Push(usize, usize),
    Abort(Vec<u8>),
    /// Store a slot's value into a static.
    SetGlobal(usize, usize),
    /// Set a key of the map in a slot: the map, the key, the value.
    DictSet(usize, usize, usize),
    /// Remove a key from the map in a slot, if it is there.
    DictRemove(usize, usize),
}

/// A compiled function.
#[derive(Debug)]
pub struct Func {
    pub name: Vec<u8>,
    pub nparams: usize,
    pub nslots: usize,
    pub body: Vec<Instr>,
}

} // verus!
