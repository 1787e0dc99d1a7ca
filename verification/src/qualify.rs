#![verifier::loop_isolation(false)]

//! Writing each name of a module's items the way its definition is known program-wide: a
//! module's own definitions and imported items by their qualified names, `m.x` for an imported
//! module `m` by the qualified name of `x`, and local bindings as they stand.
use vstd::prelude::*;
use vstd::string::StringSliceAdditionalSpecFns;

use crate::ast::{MatchArm, Param, Slot, TypeExpr, TypeParam, Variant};
use crate::ast::Expr;
use crate::loader::{Module, has_name, lookup_env, qualified};
use crate::text::{bytes_eq, lit, push_all, push_str};
use crate::translator::Diagnostic;

verus! {

/// How deep qualification follows nested expressions.
pub const QUALIFY_FUEL: u64 = 100000;

/// Whether `k` is the first position in a list of pairs whose key is `key`.
pub open spec fn first_at<T>(list: Seq<(Vec<u8>, T)>, key: Seq<u8>, k: int) -> bool {
    0 <= k < list.len() && list[k].0@ == key && forall|j: int| 0 <= j < k ==> (#[trigger] list[j]).0@ != key
}

/// Whether `i` is the first loaded module named `module`.
pub open spec fn first_module(modules: Seq<Module>, module: Seq<u8>, i: int) -> bool {
    0 <= i < modules.len() && modules[i].name@ == module && forall|j: int| 0 <= j < i ==> (#[trigger] modules[j]).name@
        != module
}

/// How a module writes a name of its own once qualified: `main` keeps it bare.
pub open spec fn own_name(module: Seq<u8>, name: Seq<u8>) -> Seq<u8> {
    if module == "main".spec_bytes() {
        name
    } else {
        crate::loader::spec_qualified(module, name)
    }
}

/// Whether a qualified type keeps the form of the written one: the same constructor, with
/// as many arguments, the same fixed length, and the same atom.
pub open spec fn same_type_form(a: TypeExpr, b: TypeExpr) -> bool {
    match (a, b) {
        (TypeExpr::Name(_), TypeExpr::Name(_)) => true,
        (TypeExpr::Generic(_, x), TypeExpr::Generic(_, y)) => x@.len() == y@.len(),
        (TypeExpr::Tuple(x), TypeExpr::Tuple(y)) => x@.len() == y@.len(),
        (TypeExpr::Sum(x), TypeExpr::Sum(y)) => x@.len() == y@.len(),
        (TypeExpr::Array(_), TypeExpr::Array(_)) => true,
        (TypeExpr::FixedArray(_, n), TypeExpr::FixedArray(_, m)) => n == m,
        (TypeExpr::Dict(_, _), TypeExpr::Dict(_, _)) => true,
        (TypeExpr::Option(_), TypeExpr::Option(_)) => true,
        (TypeExpr::Result(_), TypeExpr::Result(_)) => true,
        (TypeExpr::Rest(_), TypeExpr::Rest(_)) => true,
        (TypeExpr::Fn(x, _), TypeExpr::Fn(y, _)) => x@.len() == y@.len(),
        (TypeExpr::Atom(x), TypeExpr::Atom(y)) => x == y,
        _ => false,
    }
}

/// Whether `head` is what a qualified name holds before its first `.`.
pub open spec fn is_head(head: Seq<u8>, q: Seq<u8>) -> bool {
    &&& head.len() <= q.len()
    &&& head == q.take(head.len() as int)
    &&& !head.contains(46u8)
    &&& (head.len() == q.len() || q[head.len() as int] == 46u8)
}

/// Whether a module defines `name` itself: its first binding of the name is the name qualified
/// by the module.
pub open spec fn defines_itself(m: Module, name: Seq<u8>) -> bool {
    exists|k: int|
        first_at(m.scope.env@, name, k) && (#[trigger] m.scope.env@[k]).1@ == crate::loader::spec_qualified(m.name@, name)
}

/// Whether item `name` of module `module` can be named from outside: the first module of that
/// name defines it itself and makes it public, or makes public again an item that is public.
pub open spec fn member_ok(
    modules: Seq<Module>,
    publics: Seq<Vec<u8>>,
    reexports: Seq<(Vec<u8>, Vec<u8>)>,
    module: Seq<u8>,
    name: Seq<u8>,
) -> bool {
    exists|i: int|
        first_module(modules, module, i) && if defines_itself(#[trigger] modules[i], name) {
            publics.map_values(|p: Vec<u8>| p@).contains(crate::loader::spec_qualified(module, name))
        } else {
            exists|k: int|
                first_at(reexports, crate::loader::spec_qualified(module, name), k) && publics.map_values(
                    |p: Vec<u8>| p@,
                ).contains((#[trigger] reexports[k]).1@)
        }
}

/// The qualified name of item `name` of module `module`: the module must be loaded, define the
/// name itself, and make it public.
pub fn member(
    modules: &Vec<Module>,
    publics: &Vec<Vec<u8>>,
    reexports: &Vec<(Vec<u8>, Vec<u8>)>,
    module: &[u8],
    name: &[u8],
) -> (r: Result<Vec<u8>, Diagnostic>)
    ensures
        r matches Ok(q) ==> publics@.map_values(|p: Vec<u8>| p@).contains(q@) && (q@ == crate::loader::spec_qualified(
            module@,
            name@,
        ) || exists|k: int|
            0 <= k < reexports@.len() && (#[trigger] reexports@[k]).0@ == crate::loader::spec_qualified(module@, name@)
                && reexports@[k].1@ == q@),
        (forall|i: int| 0 <= i < modules@.len() ==> (#[trigger] modules@[i]).name@ != module@) ==> r is Err,
        r is Ok <==> member_ok(modules@, publics@, reexports@, module@, name@),
{
    let mut i: usize = 0;
    while i < modules.len() && !bytes_eq(modules[i].name.as_slice(), module)
        invariant
            i <= modules@.len(),
            forall|j: int| 0 <= j < i ==> (#[trigger] modules@[j]).name@ != module@,
        decreases modules@.len() - i,
    {
        i = i + 1;
    }
    if i >= modules.len() {
        let mut msg = lit("cannot find module `");
        push_all(&mut msg, module);
        push_str(&mut msg, "`");
        return Err(Diagnostic { msg });
    }
    let q = qualified(module, name);
    assert(first_module(modules@, module@, i as int));
    let own = match lookup_env(&modules[i].scope.env, name) {
        Some(k) => {
            assert(first_at(modules@[i as int].scope.env@, name@, k as int));
            bytes_eq(modules[i].scope.env[k].1.as_slice(), q.as_slice())
        },
        None => false,
    };
    assert(own == defines_itself(modules@[i as int], name@));
    if !own {
        // an item the module imports and makes public again
        match lookup_env(reexports, q.as_slice()) {
            Some(k) => {
                assert(first_at(reexports@, q@, k as int));
                let target = crate::text::owned(reexports[k].1.as_slice());
                if !has_name(publics, target.as_slice()) {
                    let mut msg = lit("`");
                    push_all(&mut msg, name);
                    push_str(&mut msg, "` is private to module `");
                    push_all(&mut msg, module);
                    push_str(&mut msg, "`");
                    return Err(Diagnostic { msg });
                }
                return Ok(target);
            },
            None => {},
        }
        let mut msg = lit("module `");
        push_all(&mut msg, module);
        push_str(&mut msg, "` has no `");
        push_all(&mut msg, name);
        push_str(&mut msg, "`");
        return Err(Diagnostic { msg });
    }
    if !has_name(publics, q.as_slice()) {
        let mut msg = lit("`");
        push_all(&mut msg, name);
        push_str(&mut msg, "` is private to module `");
        push_all(&mut msg, module);
        push_str(&mut msg, "`");
        return Err(Diagnostic { msg });
    }
    Ok(q)
}

/// Whether an item is a literal, which names nothing and so qualifies to itself.
pub open spec fn literal_item(e: Expr) -> bool {
    e is Int || e is Bool || e is Str || e is Atom
}

/// The items of module `at` of `modules`, qualified.
pub fn qualify_module(
    modules: &Vec<Module>,
    publics: &Vec<Vec<u8>>,
    reexports: &Vec<(Vec<u8>, Vec<u8>)>,
    at: usize,
    items: Vec<Expr>,
) -> (r: Result<Vec<Expr>, Diagnostic>)
    ensures
        at >= modules@.len() ==> r == Ok::<Vec<Expr>, Diagnostic>(items),
        r matches Ok(v) ==> v@.len() == items@.len(),
        (forall|i: int| 0 <= i < items@.len() ==> literal_item(#[trigger] items@[i])) ==> (r matches Ok(v) && v@ == items@),
{
    let ghost given = items@;
    if at >= modules.len() {
        return Ok(items);
    }
    let q = Qualifier { modules, publics, reexports, at };
    let ghost n = items@.len();
    let mut out: Vec<Expr> = Vec::new();
    let mut items = items;
    let mut rev: Vec<Expr> = Vec::new();
    while items.len() > 0
        invariant
            items@.len() + rev@.len() == n,
            n == given.len(),
            items@ == given.take(items@.len() as int),
            rev@ == given.skip(items@.len() as int).reverse(),
        decreases items@.len(),
    {
        match items.pop() {
            Some(e) => rev.push(e),
            None => {},
        }
        assert(items@ =~= given.take(items@.len() as int));
        assert(rev@ =~= given.skip(items@.len() as int).reverse());
    }
    assert(rev@ =~= given.reverse());
    while rev.len() > 0
        invariant
            q.at < q.modules@.len(),
            out@.len() + rev@.len() == n,
            n == given.len(),
            rev@ == given.skip(out@.len() as int).reverse(),
            (forall|i: int| 0 <= i < given.len() ==> literal_item(#[trigger] given[i])) ==> out@ == given.take(out@.len() as int),
        decreases rev@.len(),
    {
        let ghost k = out@.len();
        match rev.pop() {
            Some(e) => {
                proof {
                    assert(e == given[k as int]);
                }
                let e = q.top(e, QUALIFY_FUEL)?;
                out.push(e);
                proof {
                    assert(rev@ =~= given.skip(out@.len() as int).reverse());
                    if forall|i: int| 0 <= i < given.len() ==> literal_item(#[trigger] given[i]) {
                        assert(literal_item(given[k as int]));
                        assert(out@ =~= given.take(out@.len() as int));
                    }
                }
            },
            None => {},
        }
    }
    assert(given.take(n as int) =~= given);
    Ok(out)
}

/// The names of a pattern's bindings: the bare names in it.
fn pattern_names(p: &Expr, out: &mut Vec<Vec<u8>>, fuel: u64)
    ensures
        final(out)@.len() >= old(out)@.len(),
        final(out)@.take(old(out)@.len() as int) == old(out)@,
        fuel > 0 && *p is Ident ==> final(out)@.len() == old(out)@.len() + 1 && final(out)@.last()@ == p->Ident_0@,
        !(*p is Ident) && !(*p is Tuple) && !(*p is StructLit) && !(*p is EnumShorthand) && !(*p is MethodCall) && !(
        *p is Call) ==> final(out)@ == old(out)@,
    decreases fuel,
{
    if fuel == 0 {
        return;
    }
    match p {
        Expr::Ident(n) => out.push(crate::text::owned(n.as_slice())),
        Expr::Tuple(fs) | Expr::StructLit { fields: fs, .. } => {
            let mut i: usize = 0;
            while i < fs.len()
                invariant
                    i <= fs@.len(),
                    out@.len() >= old(out)@.len(),
                    out@.take(old(out)@.len() as int) == old(out)@,
                decreases fs@.len() - i,
            {
                let ghost before = out@;
                pattern_names(&fs[i].1, out, fuel - 1);
                assert(out@.take(old(out)@.len() as int) =~= before.take(old(out)@.len() as int));
                i = i + 1;
            }
        },
        Expr::EnumShorthand { args, .. } | Expr::MethodCall { args, .. } | Expr::Call { args, .. } => {
            let mut i: usize = 0;
            while i < args.len()
                invariant
                    i <= args@.len(),
                    out@.len() >= old(out)@.len(),
                    out@.take(old(out)@.len() as int) == old(out)@,
                decreases args@.len() - i,
            {
                let ghost before = out@;
                pattern_names(&args[i], out, fuel - 1);
                assert(out@.take(old(out)@.len() as int) =~= before.take(old(out)@.len() as int));
                i = i + 1;
            }
        },
        _ => {},
    }
}

/// Drop the local names bound after position `mark`.
fn forget_after(locals: &mut Vec<Vec<u8>>, mark: usize)
    ensures
        final(locals)@.len() <= old(locals)@.len(),
        final(locals)@ == old(locals)@.take(if mark < old(locals)@.len() {
            mark as int
        } else {
            old(locals)@.len() as int
        }),
{
    while locals.len() > mark
        invariant
            locals@.len() <= old(locals)@.len(),
            locals@ == old(locals)@.take(locals@.len() as int),
            locals@.len() >= mark || locals@.len() == old(locals)@.len(),
        decreases locals@.len(),
    {
        locals.pop();
    }
}

/// Take the elements of a list out, first one last.
fn reversed<T>(v: Vec<T>) -> (r: Vec<T>)
    ensures
        r@ == v@.reverse(),
{
    let ghost given = v@;
    let mut v = v;
    let mut out: Vec<T> = Vec::new();
    assert(v@ =~= given.take(v@.len() as int));
    assert(out@ =~= given.skip(v@.len() as int).reverse());
    while v.len() > 0
        invariant
            v@ == given.take(v@.len() as int),
            out@ == given.skip(v@.len() as int).reverse(),
            v@.len() <= given.len(),
        decreases v@.len(),
    {
        match v.pop() {
            Some(e) => out.push(e),
            None => {},
        }
        assert(v@ =~= given.take(v@.len() as int));
        assert(out@ =~= given.skip(v@.len() as int).reverse());
    }
    out
}

/// The modules of a program, and which one's items are being qualified.
pub struct Qualifier<'m> {
    pub modules: &'m Vec<Module>,
    pub publics: &'m Vec<Vec<u8>>,
    pub reexports: &'m Vec<(Vec<u8>, Vec<u8>)>,
    pub at: usize,
}

impl<'m> Qualifier<'m> {
    /// The modules the module being qualified imports whole, by the names it calls them.
    pub open spec fn visible(&self) -> Seq<(Vec<u8>, crate::loader::Visible)> {
        self.modules@[self.at as int].scope.visible@
    }

    /// How the module being qualified sees names.
    pub open spec fn env(&self) -> Seq<(Vec<u8>, Vec<u8>)> {
        self.modules@[self.at as int].scope.env@
    }

    /// How this module writes a name that is not a local binding.
    fn name(&self, n: Vec<u8>, locals: &Vec<Vec<u8>>) -> (r: Vec<u8>)
        ensures
            self.at >= self.modules@.len() || locals@.map_values(|p: Vec<u8>| p@).contains(n@) ==> r == n,
            self.at < self.modules@.len() && !locals@.map_values(|p: Vec<u8>| p@).contains(n@) ==> (r@ == n@
                && forall|j: int| 0 <= j < self.env().len() ==> (#[trigger] self.env()[j]).0@ != n@) || exists|j: int|
                0 <= j < self.env().len() && (#[trigger] self.env()[j]).0@ == n@ && r@ == self.env()[j].1@ && forall|
                q: int,
            | 0 <= q < j ==> (#[trigger] self.env()[q]).0@ != n@,
    {
        if self.at >= self.modules.len() || has_name(locals, n.as_slice()) {
            return n;
        }
        match lookup_env(&self.modules[self.at].scope.env, n.as_slice()) {
            Some(k) => {
                let r = crate::text::owned(self.modules[self.at].scope.env[k].1.as_slice());
                assert(0 <= k < self.env().len() && self.env()[k as int].0@ == n@ && r@ == self.env()[k as int].1@);
                r
            },
            None => n,
        }
    }

    /// A type name, which may be `module.Name` for a type of an imported module.
    fn type_path(&self, n: Vec<u8>, locals: &Vec<Vec<u8>>) -> (r: Result<Vec<u8>, Diagnostic>)
        ensures
            r is Err ==> n@.contains(46u8),
            !n@.contains(46u8) && (self.at >= self.modules@.len() || locals@.map_values(|p: Vec<u8>| p@).contains(
                n@,
            )) ==> r == Ok::<Vec<u8>, Diagnostic>(n),
            !n@.contains(46u8) && self.at < self.modules@.len() && !locals@.map_values(|p: Vec<u8>| p@).contains(n@)
                ==> (r matches Ok(x) && ((x@ == n@ && forall|k: int|
                0 <= k < self.env().len() ==> (#[trigger] self.env()[k]).0@ != n@) || exists|k: int|
                first_at(self.env(), n@, k) && x@ == self.env()[k].1@)),
    {
        let mut head: Vec<u8> = Vec::new();
        let mut j: usize = 0;
        while j < n.len() && n[j] != 46
            invariant
                j <= n@.len(),
                forall|i: int| 0 <= i < j ==> n@[i] != 46u8,
            decreases n@.len() - j,
        {
            head.push(n[j]);
            j = j + 1;
        }
        if j >= n.len() {
            let ghost nv = n@;
            let r = self.name(n, locals);
            proof {
                if self.at < self.modules@.len() && !locals@.map_values(|p: Vec<u8>| p@).contains(nv) && !(r@
                    == nv && forall|k: int| 0 <= k < self.env().len() ==> (#[trigger] self.env()[k]).0@ != nv) {
                    let w = choose|w: int|
                        0 <= w < self.env().len() && (#[trigger] self.env()[w]).0@ == nv && r@ == self.env()[w].1@
                            && forall|q: int| 0 <= q < w ==> (#[trigger] self.env()[q]).0@ != nv;
                    assert(first_at(self.env(), nv, w));
                }
            }
            return Ok(r);
        }
        assert(n@[j as int] == 46u8);
        let mut tail: Vec<u8> = Vec::new();
        let mut k = j + 1;
        while k < n.len()
            invariant
                j < k,
            decreases n@.len() - k,
        {
            tail.push(n[k]);
            k = k + 1;
        }
        let whole = Expr::Ident(head);
        match self.module_named(&whole, locals) {
            Some(m) => {
                let tail = self.narrowed(&whole, tail)?;
                member(self.modules, self.publics, self.reexports, m.as_slice(), tail.as_slice())
            },
            None => Ok(n),
        }
    }

    /// The item that `field` names through the name `e` gives an imported module: the field
    /// itself, or, where the import narrows that name to some items, the item it stands for
    /// among them.
    fn narrowed(&self, e: &Expr, field: Vec<u8>) -> (r: Result<Vec<u8>, Diagnostic>)
        ensures
            self.at >= self.modules@.len() || !(*e is Ident) ==> r == Ok::<Vec<u8>, Diagnostic>(field),
            self.at < self.modules@.len() && *e is Ident && (forall|k: int|
                0 <= k < self.visible().len() ==> (#[trigger] self.visible()[k]).0@ != e->Ident_0@) ==> r == Ok::<
                Vec<u8>,
                Diagnostic,
            >(field),
            r matches Err(d) ==> d.msg@ == "`".spec_bytes() + field@ + "` is not part of `".spec_bytes() + e->Ident_0@
                + "`".spec_bytes(),
    {
        if self.at >= self.modules.len() {
            return Ok(field);
        }
        match e {
            Expr::Ident(n) => match lookup_env(&self.modules[self.at].scope.visible, n.as_slice()) {
                Some(k) => match {
                    assert(self.visible()[k as int].0@ == n@);
                    &self.modules[self.at].scope.visible[k].1.only
                } {
                    Some(only) => match lookup_env(only, field.as_slice()) {
                        Some(j) => Ok(only[j].1.clone()),
                        None => {
                            let mut msg = lit("`");
                            push_all(&mut msg, field.as_slice());
                            push_str(&mut msg, "` is not part of `");
                            push_all(&mut msg, n.as_slice());
                            push_str(&mut msg, "`");
                            Err(Diagnostic { msg })
                        },
                    },
                    None => Ok(field),
                },
                None => Ok(field),
            },
            _ => Ok(field),
        }
    }

    /// The module an expression names, when it is a bare name for an imported module.
    fn module_named(&self, e: &Expr, locals: &Vec<Vec<u8>>) -> (r: Option<Vec<u8>>)
        ensures
            r is Some ==> self.at < self.modules@.len() && *e is Ident && !locals@.map_values(|p: Vec<u8>| p@).contains(
                e->Ident_0@,
            ),
            r matches Some(m) ==> exists|k: int|
                0 <= k < self.visible().len() && (#[trigger] self.visible()[k]).0@ == e->Ident_0@ && self.visible()[k].1.module@
                    == m@,
            self.at < self.modules@.len() && *e is Ident && !locals@.map_values(|p: Vec<u8>| p@).contains(e->Ident_0@)
                && (exists|k: int| 0 <= k < self.visible().len() && (#[trigger] self.visible()[k]).0@ == e->Ident_0@)
                ==> r is Some,
    {
        if self.at >= self.modules.len() {
            return None;
        }
        match e {
            Expr::Ident(n) => {
                if has_name(locals, n.as_slice()) {
                    return None;
                }
                match lookup_env(&self.modules[self.at].scope.visible, n.as_slice()) {
                    Some(k) => {
                        let m = crate::text::owned(self.modules[self.at].scope.visible[k].1.module.as_slice());
                        assert(self.visible()[k as int].0@ == n@ && self.visible()[k as int].1.module@ == m@);
                        Some(m)
                    },
                    None => None,
                }
            },
            _ => None,
        }
    }

    /// The module a name imported as an item comes from, when it is not this module.
    fn foreign_owner(&self, n: &[u8], locals: &Vec<Vec<u8>>) -> (r: Option<Vec<u8>>)
        ensures
            r is Some <==> (self.at < self.modules@.len() && !locals@.map_values(|p: Vec<u8>| p@).contains(n@)
                && exists|k: int| first_at(self.env(), n@, k) && self.env()[k].1@ != own_name(
                self.modules@[self.at as int].name@,
                n@,
            )),
            r matches Some(o) ==> exists|k: int| first_at(self.env(), n@, k) && is_head(o@, self.env()[k].1@),
    {
        if self.at >= self.modules.len() || has_name(locals, n) {
            return None;
        }
        match lookup_env(&self.modules[self.at].scope.env, n) {
            Some(k) => {
                assert(first_at(self.env(), n@, k as int));
                assert forall|k2: int| first_at(self.env(), n@, k2) implies k2 == k by {
                    if k2 < k {
                        assert(self.env()[k2].0@ == n@);
                    } else if k2 > k {
                        assert(self.env()[k as int].0@ == n@);
                    }
                }
                let q = &self.modules[self.at].scope.env[k].1;
                let own = if crate::text::is(self.modules[self.at].name.as_slice(), "main") {
                    bytes_eq(q.as_slice(), n)
                } else {
                    let mine = qualified(self.modules[self.at].name.as_slice(), n);
                    bytes_eq(q.as_slice(), mine.as_slice())
                };
                if own {
                    None
                } else {
                    let mut owner: Vec<u8> = Vec::new();
                    let mut j: usize = 0;
                    while j < q.len() && q[j] != 46
                        invariant
                            j <= q@.len(),
                            owner@ == q@.take(j as int),
                            forall|i: int| 0 <= i < j ==> q@[i] != 46u8,
                        decreases q@.len() - j,
                    {
                        owner.push(q[j]);
                        j = j + 1;
                        assert(owner@ =~= q@.take(j as int));
                    }
                    assert(is_head(owner@, q@));
                    Some(owner)
                }
            },
            None => None,
        }
    }

    /// A top-level item: the name it defines takes its qualified form.
    fn top(&self, e: Expr, fuel: u64) -> (r: Result<Expr, Diagnostic>)
        ensures
            fuel == 0 ==> r is Err,
            fuel > 1 && literal_item(e) ==> r == Ok::<Expr, Diagnostic>(e),
            r matches Ok(q) ==> {
                &&& e is Annotated ==> q is Annotated
                &&& e is TestDef ==> q is TestDef
                &&& e is Fn ==> q is Fn
                &&& e is StructDef ==> q is StructDef
                &&& e is TupleStructDef ==> q is TupleStructDef
                &&& e is EnumDef ==> q is EnumDef
                &&& e is TraitDef ==> q is TraitDef
                &&& e is TypeAlias ==> q is TypeAlias
                &&& e matches Expr::Bind { mutable: m, .. } ==> (q matches Expr::Bind { mutable: n, .. } && n == m)
            },
        decreases fuel,
    {
        if fuel == 0 {
            return Err(Diagnostic { msg: lit("expression nests too deeply") });
        }
        let mut locals: Vec<Vec<u8>> = Vec::new();
        match e {
            Expr::Annotated(anns, inner) => {
                let inner = self.top(*inner, fuel - 1)?;
                Ok(Expr::Annotated(anns, Box::new(inner)))
            },
            Expr::TestDef { display, skip, item } => {
                let item = self.top(*item, fuel - 1)?;
                Ok(Expr::TestDef { display, skip, item: Box::new(item) })
            },
            Expr::Bind { mutable, name, typ, value } => {
                let name = self.name(name, &locals);
                let typ = self.opt_type(typ, &locals, fuel - 1)?;
                let value = self.opt_box(value, &mut locals, fuel - 1)?;
                Ok(Expr::Bind { mutable, name, typ, value })
            },
            Expr::Fn { name, type_params, params, ret, body } => {
                let name = self.name(name, &locals);
                self.func(name, type_params, params, ret, body, &mut locals, fuel - 1)
            },
            Expr::StructDef { name, type_params, fields } => {
                let name = self.name(name, &locals);
                let mut tl = type_params.clone();
                let fields = self.params(fields, &mut tl, fuel - 1)?;
                Ok(Expr::StructDef { name, type_params, fields })
            },
            Expr::TupleStructDef { name, fields } => {
                let name = self.name(name, &locals);
                let fields = self.types(fields, &locals, fuel - 1)?;
                Ok(Expr::TupleStructDef { name, fields })
            },
            Expr::EnumDef { name, type_params, variants } => {
                let name = self.name(name, &locals);
                let tl = type_params.clone();
                let variants = self.variants(variants, &tl, fuel - 1)?;
                Ok(Expr::EnumDef { name, type_params, variants })
            },
            Expr::TraitDef { name, slots, defaults } => {
                let name = self.name(name, &locals);
                let slots = self.slots(slots, fuel - 1)?;
                let defaults = self.fills(defaults, fuel - 1)?;
                Ok(Expr::TraitDef { name, slots, defaults })
            },
            Expr::TypeAlias { name, typ } => {
                let name = self.name(name, &locals);
                let typ = self.typ(typ, &locals, fuel - 1)?;
                Ok(Expr::TypeAlias { name, typ })
            },
            other => self.expr(other, &mut locals, fuel - 1),
        }
    }

    /// A function: its type parameters and parameters are local names in its body.
    fn func(&self, name: Vec<u8>, type_params: Vec<TypeParam>, params: Vec<Param>, ret: Option<TypeExpr>, body: Vec<Expr>, locals: &mut Vec<Vec<u8>>, fuel: u64) -> (r:
        Result<Expr, Diagnostic>)
        ensures
            fuel == 0 ==> r is Err,
            r matches Ok(e) ==> (e matches Expr::Fn { name: n, params: ps, ret: rt, .. } && n == name && ps@.len()
                == params@.len() && (forall|i: int| 0 <= i < ps@.len() ==> (#[trigger] ps@[i]).name == params@[i].name)
                && (rt is Some <==> ret is Some)),
        decreases fuel,
    {
        if fuel == 0 {
            return Err(Diagnostic { msg: lit("expression nests too deeply") });
        }
        let mark = locals.len();
        let mut tps: Vec<TypeParam> = Vec::new();
        let mut rest = reversed(type_params);
        while rest.len() > 0
            invariant
                true,
            decreases rest@.len(),
        {
            match rest.pop() {
                Some(tp) => {
                    locals.push(tp.name.clone());
                    let bound = match tp.bound {
                        Some(b) => Some(self.name(b, locals)),
                        None => None,
                    };
                    let default = self.opt_type(tp.default, locals, fuel - 1)?;
                    tps.push(TypeParam { name: tp.name, bound, default });
                },
                None => {},
            }
        }
        let params = self.params(params, locals, fuel - 1)?;
        let ret = self.opt_type(ret, locals, fuel - 1)?;
        let body = self.block(body, locals, fuel - 1)?;
        forget_after(locals, mark);
        Ok(Expr::Fn { name, type_params: tps, params, ret, body })
    }

    /// Parameters: their types and defaults, each name then local.
    fn params(&self, ps: Vec<Param>, locals: &mut Vec<Vec<u8>>, fuel: u64) -> (r: Result<Vec<Param>, Diagnostic>)
        ensures
            r matches Ok(v) ==> v@.len() == ps@.len(),
            r matches Ok(v) ==> forall|i: int| 0 <= i < v@.len() ==> (#[trigger] v@[i]).name == ps@[i].name && v@[i].access == ps@[i].access,
        decreases fuel,
    {
        if fuel == 0 {
            return Err(Diagnostic { msg: lit("expression nests too deeply") });
        }
        let mut out: Vec<Param> = Vec::new();
        let mut rest = reversed(ps);
        let ghost given = ps@;
        while rest.len() > 0
            invariant
                rest@ == given.skip(out@.len() as int).reverse(),
                out@.len() <= given.len(),
                forall|i: int| 0 <= i < out@.len() ==> (#[trigger] out@[i]).name == given[i].name && out@[i].access == given[i].access,

            decreases rest@.len(),
        {
            match rest.pop() {
                Some(p) => {
                    let typ = self.opt_type(p.typ, locals, fuel - 1)?;
                    let default = match p.default {
                        Some(d) => Some(self.expr(d, locals, fuel - 1)?),
                        None => None,
                    };
                    locals.push(p.name.clone());
                    out.push(Param { name: p.name, typ, access: p.access, mutable: p.mutable, default });
                },
                None => {},
            }
        }
        Ok(out)
    }

    /// Enum variants: their payload types.
    fn variants(&self, vs: Vec<Variant>, locals: &Vec<Vec<u8>>, fuel: u64) -> (r: Result<Vec<Variant>, Diagnostic>)
        ensures
            r matches Ok(v) ==> v@.len() == vs@.len(),
            r matches Ok(v) ==> forall|i: int| 0 <= i < v@.len() ==> (#[trigger] v@[i]).name == vs@[i].name,
        decreases fuel,
    {
        if fuel == 0 {
            return Err(Diagnostic { msg: lit("expression nests too deeply") });
        }
        let mut out: Vec<Variant> = Vec::new();
        let mut rest = reversed(vs);
        let ghost given = vs@;
        while rest.len() > 0
            invariant
                rest@ == given.skip(out@.len() as int).reverse(),
                out@.len() <= given.len(),
                forall|i: int| 0 <= i < out@.len() ==> (#[trigger] out@[i]).name == given[i].name,

            decreases rest@.len(),
        {
            match rest.pop() {
                Some(v) => {
                    let payload = self.types(v.payload, locals, fuel - 1)?;
                    out.push(Variant { name: v.name, payload });
                },
                None => {},
            }
        }
        Ok(out)
    }

    /// Trait slots: their parameters and return types.
    fn slots(&self, ss: Vec<Slot>, fuel: u64) -> (r: Result<Vec<Slot>, Diagnostic>)
        ensures
            r matches Ok(v) ==> v@.len() == ss@.len(),
            r matches Ok(v) ==> forall|i: int| 0 <= i < v@.len() ==> (#[trigger] v@[i]).name == ss@[i].name,
        decreases fuel,
    {
        if fuel == 0 {
            return Err(Diagnostic { msg: lit("expression nests too deeply") });
        }
        let mut out: Vec<Slot> = Vec::new();
        let mut rest = reversed(ss);
        let ghost given = ss@;
        while rest.len() > 0
            invariant
                rest@ == given.skip(out@.len() as int).reverse(),
                out@.len() <= given.len(),
                forall|i: int| 0 <= i < out@.len() ==> (#[trigger] out@[i]).name == given[i].name,

            decreases rest@.len(),
        {
            match rest.pop() {
                Some(s) => {
                    let mut locals: Vec<Vec<u8>> = Vec::new();
                    let params = self.params(s.params, &mut locals, fuel - 1)?;
                    let ret = self.opt_type(s.ret, &locals, fuel - 1)?;
                    out.push(Slot { name: s.name, params, ret });
                },
                None => {},
            }
        }
        Ok(out)
    }

    /// The functions of a claim or a trait: their names stay, their bodies are qualified.
    fn fills(&self, fs: Vec<Expr>, fuel: u64) -> (r: Result<Vec<Expr>, Diagnostic>)
        ensures
            r matches Ok(v) ==> v@.len() == fs@.len(),
        decreases fuel,
    {
        if fuel == 0 {
            return Err(Diagnostic { msg: lit("expression nests too deeply") });
        }
        let mut out: Vec<Expr> = Vec::new();
        let mut rest = reversed(fs);
        let ghost given = fs@;
        while rest.len() > 0
            invariant
                rest@ == given.skip(out@.len() as int).reverse(),
                out@.len() <= given.len(),

            decreases rest@.len(),
        {
            match rest.pop() {
                Some(f) => {
                    let mut locals: Vec<Vec<u8>> = Vec::new();
                    let f = match f {
                        Expr::Fn { name, type_params, params, ret, body } => self.func(
                            name,
                            type_params,
                            params,
                            ret,
                            body,
                            &mut locals,
                            fuel - 1,
                        )?,
                        other => self.expr(other, &mut locals, fuel - 1)?,
                    };
                    out.push(f);
                },
                None => {},
            }
        }
        Ok(out)
    }

    /// A type: the names of defined types take their qualified form.
    fn typ(&self, t: TypeExpr, locals: &Vec<Vec<u8>>, fuel: u64) -> (r: Result<TypeExpr, Diagnostic>)
        ensures
            fuel == 0 ==> r is Err,
            fuel > 0 && t is Name ==> (r matches Ok(u) && u is Name),
            fuel > 0 && t is Atom ==> r == Ok::<TypeExpr, Diagnostic>(t),
            r matches Ok(u) ==> same_type_form(t, u),
        decreases fuel,
    {
        if fuel == 0 {
            return Err(Diagnostic { msg: lit("type nests too deeply") });
        }
        match t {
            TypeExpr::Name(n) => Ok(TypeExpr::Name(self.name(n, locals))),
            TypeExpr::Generic(n, args) => {
                let n = self.name(n, locals);
                let args = self.types(args, locals, fuel - 1)?;
                Ok(TypeExpr::Generic(n, args))
            },
            TypeExpr::Tuple(ts) => Ok(TypeExpr::Tuple(self.types(ts, locals, fuel - 1)?)),
            TypeExpr::Sum(ts) => Ok(TypeExpr::Sum(self.types(ts, locals, fuel - 1)?)),
            TypeExpr::Array(e) => Ok(TypeExpr::Array(Box::new(self.typ(*e, locals, fuel - 1)?))),
            TypeExpr::FixedArray(e, n) => Ok(TypeExpr::FixedArray(Box::new(self.typ(*e, locals, fuel - 1)?), n)),
            TypeExpr::Dict(k, v) => {
                let k = self.typ(*k, locals, fuel - 1)?;
                let v = self.typ(*v, locals, fuel - 1)?;
                Ok(TypeExpr::Dict(Box::new(k), Box::new(v)))
            },
            TypeExpr::Option(e) => Ok(TypeExpr::Option(Box::new(self.typ(*e, locals, fuel - 1)?))),
            TypeExpr::Result(e) => Ok(TypeExpr::Result(Box::new(self.typ(*e, locals, fuel - 1)?))),
            TypeExpr::Rest(e) => Ok(TypeExpr::Rest(Box::new(self.typ(*e, locals, fuel - 1)?))),
            TypeExpr::Fn(ps, r) => {
                let ps = self.types(ps, locals, fuel - 1)?;
                let r = self.typ(*r, locals, fuel - 1)?;
                Ok(TypeExpr::Fn(ps, Box::new(r)))
            },
            TypeExpr::Atom(a) => Ok(TypeExpr::Atom(a)),
        }
    }

    fn types(&self, ts: Vec<TypeExpr>, locals: &Vec<Vec<u8>>, fuel: u64) -> (r: Result<Vec<TypeExpr>, Diagnostic>)
        ensures
            r matches Ok(v) ==> v@.len() == ts@.len(),
        decreases fuel,
    {
        if fuel == 0 {
            return Err(Diagnostic { msg: lit("type nests too deeply") });
        }
        let mut out: Vec<TypeExpr> = Vec::new();
        let mut rest = reversed(ts);
        let ghost given = ts@;
        while rest.len() > 0
            invariant
                rest@ == given.skip(out@.len() as int).reverse(),
                out@.len() <= given.len(),

            decreases rest@.len(),
        {
            match rest.pop() {
                Some(t) => out.push(self.typ(t, locals, fuel - 1)?),
                None => {},
            }
        }
        Ok(out)
    }

    fn opt_type(&self, t: Option<TypeExpr>, locals: &Vec<Vec<u8>>, fuel: u64) -> (r: Result<Option<TypeExpr>, Diagnostic>)
        ensures
            fuel > 0 && t is None ==> (r matches Ok(o) && o is None),
            r matches Ok(o) ==> (o is Some <==> t is Some),
        decreases fuel,
    {
        if fuel == 0 {
            return Err(Diagnostic { msg: lit("type nests too deeply") });
        }
        match t {
            Some(t) => Ok(Some(self.typ(t, locals, fuel - 1)?)),
            None => Ok(None),
        }
    }

    fn boxed(&self, e: Box<Expr>, locals: &mut Vec<Vec<u8>>, fuel: u64) -> (r: Result<Box<Expr>, Diagnostic>)
        decreases fuel,
    {
        if fuel == 0 {
            return Err(Diagnostic { msg: lit("expression nests too deeply") });
        }
        Ok(Box::new(self.expr(*e, locals, fuel - 1)?))
    }

    fn opt_box(&self, e: Option<Box<Expr>>, locals: &mut Vec<Vec<u8>>, fuel: u64) -> (r: Result<Option<Box<Expr>>, Diagnostic>)
        ensures
            fuel > 0 && e is None ==> (r matches Ok(o) && o is None),
            r matches Ok(o) ==> (o is Some <==> e is Some),
        decreases fuel,
    {
        if fuel == 0 {
            return Err(Diagnostic { msg: lit("expression nests too deeply") });
        }
        match e {
            Some(b) => Ok(Some(self.boxed(b, locals, fuel - 1)?)),
            None => Ok(None),
        }
    }

    /// A list of expressions.
    fn list(&self, es: Vec<Expr>, locals: &mut Vec<Vec<u8>>, fuel: u64) -> (r: Result<Vec<Expr>, Diagnostic>)
        ensures
            r matches Ok(v) ==> v@.len() == es@.len(),
        decreases fuel,
    {
        if fuel == 0 {
            return Err(Diagnostic { msg: lit("expression nests too deeply") });
        }
        let mut out: Vec<Expr> = Vec::new();
        let mut rest = reversed(es);
        let ghost given = es@;
        while rest.len() > 0
            invariant
                rest@ == given.skip(out@.len() as int).reverse(),
                out@.len() <= given.len(),

            decreases rest@.len(),
        {
            match rest.pop() {
                Some(e) => out.push(self.expr(e, locals, fuel - 1)?),
                None => {},
            }
        }
        Ok(out)
    }

    /// Statements in a scope: each binding is local to the statements after it.
    fn block(&self, es: Vec<Expr>, locals: &mut Vec<Vec<u8>>, fuel: u64) -> (r: Result<Vec<Expr>, Diagnostic>)
        ensures
            r matches Ok(v) ==> v@.len() == es@.len(),
        decreases fuel,
    {
        if fuel == 0 {
            return Err(Diagnostic { msg: lit("expression nests too deeply") });
        }
        let mark = locals.len();
        let mut out: Vec<Expr> = Vec::new();
        let mut rest = reversed(es);
        let ghost given = es@;
        while rest.len() > 0
            invariant
                rest@ == given.skip(out@.len() as int).reverse(),
                out@.len() <= given.len(),

            decreases rest@.len(),
        {
            match rest.pop() {
                Some(e) => {
                    let bound: Vec<Vec<u8>> = match &e {
                        Expr::Bind { name, .. } => {
                            let mut v: Vec<Vec<u8>> = Vec::new();
                            v.push(name.clone());
                            v
                        },
                        Expr::Fn { name, .. } => {
                            let mut v: Vec<Vec<u8>> = Vec::new();
                            v.push(name.clone());
                            v
                        },
                        Expr::PatBind { pat, mutable: Some(_), .. } => {
                            let mut v: Vec<Vec<u8>> = Vec::new();
                            pattern_names(&**pat, &mut v, 64);
                            v
                        },
                        _ => Vec::new(),
                    };
                    out.push(self.expr(e, locals, fuel - 1)?);
                    let mut k: usize = 0;
                    while k < bound.len()
                        invariant
                            k <= bound@.len(),
                        decreases bound@.len() - k,
                    {
                        locals.push(bound[k].clone());
                        k = k + 1;
                    }
                },
                None => {},
            }
        }
        forget_after(locals, mark);
        Ok(out)
    }

    fn opt_block(&self, es: Option<Vec<Expr>>, locals: &mut Vec<Vec<u8>>, fuel: u64) -> (r: Result<Option<Vec<Expr>>, Diagnostic>)
        ensures
            fuel > 0 && es is None ==> (r matches Ok(o) && o is None),
            r matches Ok(o) ==> (o is Some <==> es is Some),
        decreases fuel,
    {
        if fuel == 0 {
            return Err(Diagnostic { msg: lit("expression nests too deeply") });
        }
        match es {
            Some(b) => Ok(Some(self.block(b, locals, fuel - 1)?)),
            None => Ok(None),
        }
    }

    /// Named or positional fields of a tuple or struct literal.
    fn fields(&self, fs: Vec<(Option<Vec<u8>>, Expr)>, locals: &mut Vec<Vec<u8>>, fuel: u64) -> (r: Result<
        Vec<(Option<Vec<u8>>, Expr)>,
        Diagnostic,
    >)
        ensures
            r matches Ok(v) ==> v@.len() == fs@.len(),
            r matches Ok(v) ==> forall|i: int| 0 <= i < v@.len() ==> (#[trigger] v@[i]).0 == fs@[i].0,
        decreases fuel,
    {
        if fuel == 0 {
            return Err(Diagnostic { msg: lit("expression nests too deeply") });
        }
        let mut out: Vec<(Option<Vec<u8>>, Expr)> = Vec::new();
        let mut rest = reversed(fs);
        let ghost given = fs@;
        while rest.len() > 0
            invariant
                rest@ == given.skip(out@.len() as int).reverse(),
                out@.len() <= given.len(),
                forall|i: int| 0 <= i < out@.len() ==> (#[trigger] out@[i]).0 == given[i].0,

            decreases rest@.len(),
        {
            match rest.pop() {
                Some((n, e)) => {
                    let e = self.expr(e, locals, fuel - 1)?;
                    out.push((n, e));
                },
                None => {},
            }
        }
        Ok(out)
    }

    /// Match arms: what a pattern binds is local to the arm's body.
    fn arms(&self, arms: Vec<MatchArm>, locals: &mut Vec<Vec<u8>>, fuel: u64) -> (r: Result<Vec<MatchArm>, Diagnostic>)
        ensures
            r matches Ok(v) ==> v@.len() == arms@.len(),
        decreases fuel,
    {
        if fuel == 0 {
            return Err(Diagnostic { msg: lit("expression nests too deeply") });
        }
        let mut out: Vec<MatchArm> = Vec::new();
        let mut rest = reversed(arms);
        let ghost given = arms@;
        while rest.len() > 0
            invariant
                rest@ == given.skip(out@.len() as int).reverse(),
                out@.len() <= given.len(),

            decreases rest@.len(),
        {
            match rest.pop() {
                Some(arm) => {
                    let mark = locals.len();
                    let mut bound: Vec<Vec<u8>> = Vec::new();
                    let mut k: usize = 0;
                    while k < arm.patterns.len()
                        invariant
                            k <= arm.patterns@.len(),
                        decreases arm.patterns@.len() - k,
                    {
                        pattern_names(&arm.patterns[k], &mut bound, 64);
                        k = k + 1;
                    }
                    let patterns = self.patterns(arm.patterns, locals, fuel - 1)?;
                    let mut k: usize = 0;
                    while k < bound.len()
                        invariant
                            k <= bound@.len(),
                        decreases bound@.len() - k,
                    {
                        locals.push(bound[k].clone());
                        k = k + 1;
                    }
                    let body = self.block(arm.body, locals, fuel - 1)?;
                    forget_after(locals, mark);
                    out.push(MatchArm { patterns, body });
                },
                None => {},
            }
        }
        Ok(out)
    }

    /// Patterns: a bare name binds and stays; the paths and types in a pattern are qualified.
    fn patterns(&self, ps: Vec<Expr>, locals: &mut Vec<Vec<u8>>, fuel: u64) -> (r: Result<Vec<Expr>, Diagnostic>)
        ensures
            r matches Ok(v) ==> v@.len() == ps@.len(),
        decreases fuel,
    {
        if fuel == 0 {
            return Err(Diagnostic { msg: lit("expression nests too deeply") });
        }
        let mut out: Vec<Expr> = Vec::new();
        let mut rest = reversed(ps);
        let ghost given = ps@;
        while rest.len() > 0
            invariant
                rest@ == given.skip(out@.len() as int).reverse(),
                out@.len() <= given.len(),

            decreases rest@.len(),
        {
            match rest.pop() {
                Some(p) => out.push(self.pattern(p, locals, fuel - 1)?),
                None => {},
            }
        }
        Ok(out)
    }

    fn pattern(&self, p: Expr, locals: &mut Vec<Vec<u8>>, fuel: u64) -> (r: Result<Expr, Diagnostic>)
        ensures
            fuel == 0 ==> r is Err,
            fuel > 0 && p is Ident ==> r == Ok::<Expr, Diagnostic>(p),
            p is Tuple ==> (r matches Ok(q) ==> q is Tuple),
            p matches Expr::EnumShorthand { variant: v, args: a } ==> (r matches Ok(q) ==> (q matches Expr::EnumShorthand {
                variant: w,
                args: b,
            } && w == v && b@.len() == a@.len())),
        decreases fuel,
    {
        if fuel == 0 {
            return Err(Diagnostic { msg: lit("expression nests too deeply") });
        }
        match p {
            Expr::Ident(n) => Ok(Expr::Ident(n)),
            Expr::Tuple(fs) => {
                let mut out: Vec<(Option<Vec<u8>>, Expr)> = Vec::new();
                let mut rest = reversed(fs);
                while rest.len() > 0
                    invariant
                        true,
                    decreases rest@.len(),
                {
                    match rest.pop() {
                        Some((n, e)) => {
                            let e = self.pattern(e, locals, fuel - 1)?;
                            out.push((n, e));
                        },
                        None => {},
                    }
                }
                Ok(Expr::Tuple(out))
            },
            Expr::EnumShorthand { variant, args } => {
                let args = self.patterns(args, locals, fuel - 1)?;
                Ok(Expr::EnumShorthand { variant, args })
            },
            Expr::MethodCall { recv, method, args } => {
                let recv = self.boxed(recv, locals, fuel - 1)?;
                let args = self.patterns(args, locals, fuel - 1)?;
                Ok(Expr::MethodCall { recv, method, args })
            },
            other => self.expr(other, locals, fuel - 1),
        }
    }

    /// An expression.
    fn expr(&self, e: Expr, locals: &mut Vec<Vec<u8>>, fuel: u64) -> (r: Result<Expr, Diagnostic>)
        ensures
            fuel == 0 ==> r is Err,
            fuel > 0 && e is Ident ==> (r matches Ok(q) && q is Ident),
            fuel > 0 && literal_item(e) ==> r == Ok::<Expr, Diagnostic>(e),
            e is Interp ==> (r matches Ok(q) ==> q is Interp),
            e is Negative ==> (r matches Ok(q) ==> q is Negative),
            e is Not ==> (r matches Ok(q) ==> q is Not),
            e matches Expr::Binary(op, _, _) ==> (r matches Ok(q) ==> (q matches Expr::Binary(op2, _, _) && op2 == op)),
            e is Call ==> (r matches Ok(q) ==> q is Call),
        decreases fuel,
    {
        if fuel == 0 {
            return Err(Diagnostic { msg: lit("expression nests too deeply") });
        }
        match e {
            Expr::Ident(n) => Ok(Expr::Ident(self.name(n, locals))),
            Expr::Interp(ps) => Ok(Expr::Interp(self.list(ps, locals, fuel - 1)?)),
            Expr::Negative(b) => Ok(Expr::Negative(self.boxed(b, locals, fuel - 1)?)),
            Expr::Not(b) => Ok(Expr::Not(self.boxed(b, locals, fuel - 1)?)),
            Expr::Binary(op, a, b) => {
                let a = self.boxed(a, locals, fuel - 1)?;
                let b = self.boxed(b, locals, fuel - 1)?;
                Ok(Expr::Binary(op, a, b))
            },
            Expr::Call { name, type_args, args } => {
                let name = self.name(name, locals);
                let type_args = self.types(type_args, locals, fuel - 1)?;
                let args = self.list(args, locals, fuel - 1)?;
                Ok(Expr::Call { name, type_args, args })
            },
            Expr::MethodCall { recv, method, args } => {
                // `m.f(args)` calls item `f` of an imported module `m`
                match self.module_named(&*recv, locals) {
                    Some(m) => {
                        let method = self.narrowed(&*recv, method)?;
                        let name = member(self.modules, self.publics, self.reexports, m.as_slice(), method.as_slice())?;
                        let args = self.list(args, locals, fuel - 1)?;
                        Ok(Expr::Call { name, type_args: Vec::new(), args })
                    },
                    None => {
                        let recv = self.boxed(recv, locals, fuel - 1)?;
                        let args = self.list(args, locals, fuel - 1)?;
                        Ok(Expr::MethodCall { recv, method, args })
                    },
                }
            },
            Expr::Apply { callee, args } => {
                let callee = self.boxed(callee, locals, fuel - 1)?;
                let args = self.list(args, locals, fuel - 1)?;
                Ok(Expr::Apply { callee, args })
            },
            Expr::Field { obj, field } => {
                // `m.x` names item `x` of an imported module `m`
                match self.module_named(&*obj, locals) {
                    Some(m) => {
                        let field = self.narrowed(&*obj, field)?;
                        Ok(Expr::Ident(member(self.modules, self.publics, self.reexports, m.as_slice(), field.as_slice())?))
                    },
                    None => {
                        let obj = self.boxed(obj, locals, fuel - 1)?;
                        Ok(Expr::Field { obj, field })
                    },
                }
            },
            Expr::Index { coll, index } => {
                let coll = self.boxed(coll, locals, fuel - 1)?;
                let index = self.boxed(index, locals, fuel - 1)?;
                Ok(Expr::Index { coll, index })
            },
            Expr::Slice { coll, range } => {
                let coll = self.boxed(coll, locals, fuel - 1)?;
                let range = self.opt_box(range, locals, fuel - 1)?;
                Ok(Expr::Slice { coll, range })
            },
            Expr::Tuple(fs) => Ok(Expr::Tuple(self.fields(fs, locals, fuel - 1)?)),
            Expr::Array(es) => Ok(Expr::Array(self.list(es, locals, fuel - 1)?)),
            Expr::Dict(pairs) => {
                let mut out: Vec<(Expr, Expr)> = Vec::new();
                let mut rest = reversed(pairs);
                while rest.len() > 0
                    invariant
                        true,
                    decreases rest@.len(),
                {
                    match rest.pop() {
                        Some((k, v)) => {
                            let k = self.expr(k, locals, fuel - 1)?;
                            let v = self.expr(v, locals, fuel - 1)?;
                            out.push((k, v));
                        },
                        None => {},
                    }
                }
                Ok(Expr::Dict(out))
            },
            Expr::StructLit { name, type_args, fields } => {
                let name = if name.len() > 0 {
                    self.type_path(name, locals)?
                } else {
                    name
                };
                let type_args = self.types(type_args, locals, fuel - 1)?;
                let fields = self.fields(fields, locals, fuel - 1)?;
                Ok(Expr::StructLit { name, type_args, fields })
            },
            Expr::EnumShorthand { variant, args } => {
                Ok(Expr::EnumShorthand { variant, args: self.list(args, locals, fuel - 1)? })
            },
            Expr::Cast { target, args } => {
                let target = self.typ(target, locals, fuel - 1)?;
                let args = self.list(args, locals, fuel - 1)?;
                Ok(Expr::Cast { target, args })
            },
            Expr::If { cond, then, els } => {
                let cond = self.boxed(cond, locals, fuel - 1)?;
                let then = self.block(then, locals, fuel - 1)?;
                let els = self.opt_block(els, locals, fuel - 1)?;
                Ok(Expr::If { cond, then, els })
            },
            Expr::Loop { cond, body } => {
                let cond = self.opt_box(cond, locals, fuel - 1)?;
                let body = self.block(body, locals, fuel - 1)?;
                Ok(Expr::Loop { cond, body })
            },
            Expr::For { var, iter, body } => {
                let iter = self.boxed(iter, locals, fuel - 1)?;
                let mark = locals.len();
                locals.push(var.clone());
                let body = self.block(body, locals, fuel - 1)?;
                forget_after(locals, mark);
                Ok(Expr::For { var, iter, body })
            },
            Expr::Match { subject, arms, else_body } => {
                let subject = self.boxed(subject, locals, fuel - 1)?;
                let arms = self.arms(arms, locals, fuel - 1)?;
                let else_body = self.opt_block(else_body, locals, fuel - 1)?;
                Ok(Expr::Match { subject, arms, else_body })
            },
            Expr::Block(es) => Ok(Expr::Block(self.block(es, locals, fuel - 1)?)),
            Expr::AnonFn { params, ret, body } => {
                let mark = locals.len();
                let params = self.params(params, locals, fuel - 1)?;
                let ret = self.opt_type(ret, locals, fuel - 1)?;
                let body = self.block(body, locals, fuel - 1)?;
                forget_after(locals, mark);
                Ok(Expr::AnonFn { params, ret, body })
            },
            Expr::Range { start, end, inclusive } => {
                let start = self.boxed(start, locals, fuel - 1)?;
                let end = self.opt_box(end, locals, fuel - 1)?;
                Ok(Expr::Range { start, end, inclusive })
            },
            Expr::Spread(b) => Ok(Expr::Spread(self.boxed(b, locals, fuel - 1)?)),
            Expr::OrElse { value, body } => {
                let value = self.boxed(value, locals, fuel - 1)?;
                let body = self.block(body, locals, fuel - 1)?;
                Ok(Expr::OrElse { value, body })
            },
            Expr::Propagate(b) => Ok(Expr::Propagate(self.boxed(b, locals, fuel - 1)?)),
            Expr::Is { subject, trait_name, negated } => {
                let subject = match *subject {
                    Expr::Ident(n) => Expr::Ident(self.type_path(n, locals)?),
                    other => self.expr(other, locals, fuel - 1)?,
                };
                let trait_name = self.name(trait_name, locals);
                Ok(Expr::Is { subject: Box::new(subject), trait_name, negated })
            },
            Expr::Pipe { value, step } => {
                let value = self.boxed(value, locals, fuel - 1)?;
                let step = self.boxed(step, locals, fuel - 1)?;
                Ok(Expr::Pipe { value, step })
            },
            Expr::ArgMod(a, b) => Ok(Expr::ArgMod(a, self.boxed(b, locals, fuel - 1)?)),
            Expr::Bind { mutable, name, typ, value } => {
                let typ = self.opt_type(typ, locals, fuel - 1)?;
                let value = self.opt_box(value, locals, fuel - 1)?;
                Ok(Expr::Bind { mutable, name, typ, value })
            },
            Expr::PatBind { pat, mutable, value } => {
                let value = self.boxed(value, locals, fuel - 1)?;
                let pat = match mutable {
                    Some(_) => Box::new(self.pattern(*pat, locals, fuel - 1)?),
                    None => self.boxed(pat, locals, fuel - 1)?,
                };
                Ok(Expr::PatBind { pat, mutable, value })
            },
            Expr::Assign { name, op, value } => {
                match self.foreign_owner(name.as_slice(), locals) {
                    Some(m) => {
                        return Err(outside(name.as_slice(), m.as_slice()));
                    },
                    None => {},
                }
                let name = self.name(name, locals);
                let value = self.boxed(value, locals, fuel - 1)?;
                Ok(Expr::Assign { name, op, value })
            },
            Expr::FieldAssign { name, field, op, value } => {
                // a module's statics change only inside the module
                let whole = Expr::Ident(name.clone());
                match self.module_named(&whole, locals) {
                    Some(m) => {
                        let mut shown = name.clone();
                        shown.push(46);
                        push_all(&mut shown, field.as_slice());
                        return Err(outside(shown.as_slice(), m.as_slice()));
                    },
                    None => {},
                }
                match self.foreign_owner(name.as_slice(), locals) {
                    Some(m) => {
                        return Err(outside(name.as_slice(), m.as_slice()));
                    },
                    None => {},
                }
                let name = self.name(name, locals);
                let value = self.boxed(value, locals, fuel - 1)?;
                Ok(Expr::FieldAssign { name, field, op, value })
            },
            Expr::IndexAssign { name, index, op, value } => {
                match self.foreign_owner(name.as_slice(), locals) {
                    Some(m) => {
                        return Err(outside(name.as_slice(), m.as_slice()));
                    },
                    None => {},
                }
                let name = self.name(name, locals);
                let index = self.boxed(index, locals, fuel - 1)?;
                let value = self.boxed(value, locals, fuel - 1)?;
                Ok(Expr::IndexAssign { name, index, op, value })
            },
            Expr::DictRemove { name, key } => {
                let name = self.name(name, locals);
                let key = self.boxed(key, locals, fuel - 1)?;
                Ok(Expr::DictRemove { name, key })
            },
            Expr::Return(v) => Ok(Expr::Return(self.opt_box(v, locals, fuel - 1)?)),
            Expr::Break(v) => Ok(Expr::Break(self.opt_box(v, locals, fuel - 1)?)),
            Expr::Defer { body, on_err } => Ok(Expr::Defer { body: self.boxed(body, locals, fuel - 1)?, on_err }),
            Expr::Fn { name, type_params, params, ret, body } => self.func(
                name,
                type_params,
                params,
                ret,
                body,
                locals,
                fuel - 1,
            ),
            Expr::Claim { typ, type_params, traits, fills } => {
                let typ = self.name(typ, locals);
                let mut ts: Vec<Vec<u8>> = Vec::new();
                let mut rest = reversed(traits);
                while rest.len() > 0
                    invariant
                        true,
                    decreases rest@.len(),
                {
                    match rest.pop() {
                        Some(t) => ts.push(self.name(t, locals)),
                        None => {},
                    }
                }
                let fills = self.fills(fills, fuel - 1)?;
                Ok(Expr::Claim { typ, type_params, traits: ts, fills })
            },
            Expr::Annotated(anns, inner) => Ok(Expr::Annotated(anns, self.boxed(inner, locals, fuel - 1)?)),
            Expr::Pub(inner) => Ok(Expr::Pub(self.boxed(inner, locals, fuel - 1)?)),
            other => Ok(other),
        }
    }
}

/// The error for changing a module's static from outside the module.
fn outside(name: &[u8], module: &[u8]) -> (r: Diagnostic)
    ensures
        r.msg@ == "cannot assign to `".spec_bytes() + name@ + "` outside module `".spec_bytes() + module@ + "`".spec_bytes(),
{
    let mut msg = lit("cannot assign to `");
    push_all(&mut msg, name);
    push_str(&mut msg, "` outside module `");
    push_all(&mut msg, module);
    push_str(&mut msg, "`");
    Diagnostic { msg }
}

} // verus!
