use vstd::prelude::*;
use vstd::string::StringSliceAdditionalSpecFns;

verus! {

/// Binary operators, tightest-binding last in each group.
#[derive(Clone, Copy, Debug, PartialEq, Eq, Structural)]
pub enum BinOp {
    Add,
    Sub,
    Mul,
    Div,
    Mod,
    Pow,
    BitAnd,
    BitOr,
    BitXor,
    Shl,
    Shr,
    Eq,
    Ne,
    Lt,
    Gt,
    Le,
    Ge,
    And,
    Or,
    In,
}

/// How a parameter or argument takes its value.
#[derive(Clone, Copy, Debug, PartialEq, Eq, Structural)]
pub enum Access {
    Read,
    Mut,
    Move,
}

/// A type as written in the source.
#[derive(Debug)]
pub enum TypeExpr {
    Name(Vec<u8>),
    Generic(Vec<u8>, Vec<TypeExpr>),
    Tuple(Vec<TypeExpr>),
    Array(Box<TypeExpr>),
    FixedArray(Box<TypeExpr>, u64),
    Dict(Box<TypeExpr>, Box<TypeExpr>),
    Option(Box<TypeExpr>),
    Result(Box<TypeExpr>),
    Fn(Vec<TypeExpr>, Box<TypeExpr>),
    Atom(Vec<u8>),
    Sum(Vec<TypeExpr>),
    /// A variadic parameter's element type: `..T`.
    Rest(Box<TypeExpr>),
}

/// A type parameter of a generic function: its name, the trait it must claim, and the type it
/// takes when nothing settles it.
#[derive(Debug)]
pub struct TypeParam {
    pub name: Vec<u8>,
    pub bound: Option<Vec<u8>>,
    pub default: Option<TypeExpr>,
}

/// The names of type parameters, in order.
pub fn type_param_names(tps: &Vec<TypeParam>) -> (r: Vec<Vec<u8>>)
    ensures
        r@.len() == tps@.len(),
        forall|i: int| 0 <= i < tps@.len() ==> #[trigger] r@[i]@ == tps@[i].name@,
{
    let mut out: Vec<Vec<u8>> = Vec::new();
    let mut i: usize = 0;
    while i < tps.len()
        invariant
            i <= tps@.len(),
            out@.len() == i,
            forall|j: int| 0 <= j < i ==> #[trigger] out@[j]@ == tps@[j].name@,
        decreases tps@.len() - i,
    {
        out.push(tps[i].name.clone());
        i = i + 1;
    }
    out
}

/// A function parameter or struct field.
#[derive(Debug)]
pub struct Param {
    pub name: Vec<u8>,
    pub typ: Option<TypeExpr>,
    pub access: Access,
    pub mutable: bool,
    pub default: Option<Expr>,
}

/// One arm of a `match`.
#[derive(Debug)]
pub struct MatchArm {
    pub patterns: Vec<Expr>,
    pub body: Vec<Expr>,
}

/// An enum variant: its name and payload types.
#[derive(Debug)]
pub struct Variant {
    pub name: Vec<u8>,
    pub payload: Vec<TypeExpr>,
}

/// A trait method slot: its name, parameters and return type.
#[derive(Debug)]
pub struct Slot {
    pub name: Vec<u8>,
    pub params: Vec<Param>,
    pub ret: Option<TypeExpr>,
}

/// Expressions, statements and items.
#[derive(Debug)]
pub enum Expr {
    Int(i64),
    Float(Vec<u8>),
    Str(Vec<u8>),
    /// A string with `{expr}` holes: its literal pieces and the expressions shown between them.
    Interp(Vec<Expr>),
    Bool(bool),
    Atom(Vec<u8>),
    Dollar,
    Ident(Vec<u8>),
    Negative(Box<Expr>),
    Not(Box<Expr>),
    Binary(BinOp, Box<Expr>, Box<Expr>),
    Call { name: Vec<u8>, type_args: Vec<TypeExpr>, args: Vec<Expr> },
    MethodCall { recv: Box<Expr>, method: Vec<u8>, args: Vec<Expr> },
    Apply { callee: Box<Expr>, args: Vec<Expr> },
    Field { obj: Box<Expr>, field: Vec<u8> },
    Index { coll: Box<Expr>, index: Box<Expr> },
    Slice { coll: Box<Expr>, range: Option<Box<Expr>> },
    Tuple(Vec<(Option<Vec<u8>>, Expr)>),
    Array(Vec<Expr>),
    /// A map literal: `[key = value, ...]`.
    Dict(Vec<(Expr, Expr)>),
    /// A struct literal; an empty name makes an anonymous record.
    StructLit { name: Vec<u8>, type_args: Vec<TypeExpr>, fields: Vec<(Option<Vec<u8>>, Expr)> },
    EnumShorthand { variant: Vec<u8>, args: Vec<Expr> },
    Cast { target: TypeExpr, args: Vec<Expr> },
    If { cond: Box<Expr>, then: Vec<Expr>, els: Option<Vec<Expr>> },
    Loop { cond: Option<Box<Expr>>, body: Vec<Expr> },
    For { var: Vec<u8>, iter: Box<Expr>, body: Vec<Expr> },
    Match { subject: Box<Expr>, arms: Vec<MatchArm>, else_body: Option<Vec<Expr>> },
    Block(Vec<Expr>),
    AnonFn { params: Vec<Param>, ret: Option<TypeExpr>, body: Vec<Expr> },
    Range { start: Box<Expr>, end: Option<Box<Expr>>, inclusive: bool },
    Spread(Box<Expr>),
    OrElse { value: Box<Expr>, body: Vec<Expr> },
    /// `Type is Trait`, or `Type is not Trait`: whether the type claims the trait.
    Is { subject: Box<Expr>, trait_name: Vec<u8>, negated: bool },
    /// `value |> step`: the step sees the value as `$`.
    Pipe { value: Box<Expr>, step: Box<Expr> },
    Propagate(Box<Expr>),
    ArgMod(Access, Box<Expr>),
    Bind { mutable: bool, name: Vec<u8>, typ: Option<TypeExpr>, value: Option<Box<Expr>> },
    /// `pat := value`; `mutable` is `None` for a plain `=` re-assignment.
    PatBind { pat: Box<Expr>, mutable: Option<bool>, value: Box<Expr> },
    /// `name = value`, or `name op= value` when `op` is set.
    Assign { name: Vec<u8>, op: Option<BinOp>, value: Box<Expr> },
    FieldAssign { name: Vec<u8>, field: Vec<u8>, op: Option<BinOp>, value: Box<Expr> },
    IndexAssign { name: Vec<u8>, index: Box<Expr>, op: Option<BinOp>, value: Box<Expr> },
    /// `name.delete[key]`: take a key out of a map.
    DictRemove { name: Vec<u8>, key: Box<Expr> },
    Return(Option<Box<Expr>>),
    Break(Option<Box<Expr>>),
    Continue,
    Defer { body: Box<Expr>, on_err: bool },
    Fn {
        name: Vec<u8>,
        type_params: Vec<TypeParam>,
        params: Vec<Param>,
        ret: Option<TypeExpr>,
        body: Vec<Expr>,
    },
    StructDef { name: Vec<u8>, type_params: Vec<Vec<u8>>, fields: Vec<Param> },
    TupleStructDef { name: Vec<u8>, fields: Vec<TypeExpr> },
    EnumDef { name: Vec<u8>, type_params: Vec<Vec<u8>>, variants: Vec<Variant> },
    /// A trait: the methods a claim must fill, and those with a body a claim may leave out.
    TraitDef { name: Vec<u8>, slots: Vec<Slot>, defaults: Vec<Expr> },
    Claim { typ: Vec<u8>, type_params: Vec<Vec<u8>>, traits: Vec<Vec<u8>>, fills: Vec<Expr> },
    TypeAlias { name: Vec<u8>, typ: TypeExpr },
    /// A macro definition, by name; its calls were expanded where they stood.
    MacroDef(Vec<u8>),
    /// `module name`: the module a file belongs to.
    Module(Vec<u8>),
    /// `use module`, `use module.item`, or `use module.{a, b}` for some of its items, each with
    /// the name it takes here and the item it is (`{here :: item}`); `alias :: use ...` names
    /// the module, or the one item, otherwise.
    Use { alias: Option<Vec<u8>>, path: Vec<Vec<u8>>, group: Option<Vec<(Vec<u8>, Vec<u8>)>> },
    /// `pub item`: a definition other modules may use.
    Pub(Box<Expr>),
    /// A test: the name it reports under, whether it is skipped, and its function.
    TestDef { display: Vec<u8>, skip: bool, item: Box<Expr> },
    Annotated(Vec<Vec<u8>>, Box<Expr>),
}

} // verus!
