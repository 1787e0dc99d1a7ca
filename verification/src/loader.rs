#![verifier::loop_isolation(false)]

//! Folding a file's items into its module: the rules on `module` declarations and annotations,
//! and the names the module defines.
use vstd::prelude::*;
use vstd::string::StringSliceAdditionalSpecFns;

use crate::ast::Expr;
use crate::text::{bytes_eq, is, lit, push_all, push_str};
use crate::translator::Diagnostic;

verus! {

/// A module imported whole under some name: which module it is, and, where the import names
/// some of its items, each item's name here and the item it is.
pub struct Visible {
    pub module: Vec<u8>,
    pub only: Option<Vec<(Vec<u8>, Vec<u8>)>>,
}

/// How a module sees names.
pub struct Scope {
    /// Bare names and what they stand for: the module's own definitions, qualified by the
    /// module's name outside `main`, and the items it imports.
    pub env: Vec<(Vec<u8>, Vec<u8>)>,
    /// The modules it imports whole, by the name it calls them.
    pub visible: Vec<(Vec<u8>, Visible)>,
}

/// A module: its name, the items its files hold, in order, how it sees names, and the modules
/// it imports, in order.
pub struct Module {
    pub name: Vec<u8>,
    pub items: Vec<Expr>,
    pub scope: Scope,
    pub imports: Vec<Vec<u8>>,
}

impl Module {
    /// A module with nothing in it yet.
    pub fn new(name: &[u8]) -> (r: Module)
        ensures
            r.name@ == name@,
            r.items@.len() == 0,
            r.imports@.len() == 0,
            r.scope.env@.len() == 0,
    {
        Module {
            name: crate::text::owned(name),
            items: Vec::new(),
            scope: Scope { env: Vec::new(), visible: Vec::new() },
            imports: Vec::new(),
        }
    }
}

/// A module in which each name is defined once and no `module` declaration is left among the
/// items.
pub open spec fn sound_module(m: Module) -> bool {
    distinct_defs(m.items@) && no_declarations(m.items@)
}

/// Each module of a list is sound.
pub open spec fn sound_modules(ms: Seq<Module>) -> bool {
    forall|i: int| 0 <= i < ms.len() ==> sound_module(#[trigger] ms[i])
}

/// The modules of a program as they load, and the names they make public.
pub struct Loader {
    pub modules: Vec<Module>,
    /// Qualified names of the public definitions.
    pub publics: Vec<Vec<u8>>,
    /// Imported items, to check once every module is in: the module, the item.
    pub selected: Vec<(Vec<u8>, Vec<u8>)>,
    /// Items a module imports and makes public again: the name they take there, qualified,
    /// and the name of what they stand for.
    pub reexports: Vec<(Vec<u8>, Vec<u8>)>,
}

/// What a name stands for in an environment, if anything.
pub(crate) fn lookup_env<T>(env: &Vec<(Vec<u8>, T)>, name: &[u8]) -> (r: Option<usize>)
    ensures
        r matches Some(i) ==> i < env@.len() && env@[i as int].0@ == name@,
        r matches Some(i) ==> forall|j: int| 0 <= j < i ==> (#[trigger] env@[j]).0@ != name@,
        r is None ==> forall|j: int| 0 <= j < env@.len() ==> (#[trigger] env@[j]).0@ != name@,
{
    let mut i: usize = 0;
    while i < env.len()
        invariant
            i <= env@.len(),
            forall|j: int| 0 <= j < i ==> (#[trigger] env@[j]).0@ != name@,
        decreases env@.len() - i,
    {
        if bytes_eq(env[i].0.as_slice(), name) {
            return Some(i);
        }
        i = i + 1;
    }
    None
}

/// Whether a list of names holds a name.
pub(crate) fn has_name(names: &Vec<Vec<u8>>, name: &[u8]) -> (r: bool)
    ensures
        r == names@.map_values(|p: Vec<u8>| p@).contains(name@),
{
    let ghost view = names@.map_values(|p: Vec<u8>| p@);
    let mut i: usize = 0;
    while i < names.len()
        invariant
            i <= names@.len(),
            view == names@.map_values(|p: Vec<u8>| p@),
            forall|j: int| 0 <= j < i ==> view[j] != name@,
        decreases names@.len() - i,
    {
        if bytes_eq(names[i].as_slice(), name) {
            assert(view[i as int] == name@);
            return true;
        }
        i = i + 1;
    }
    false
}

/// `module.name`: how a name of a module other than `main` is known program-wide.
pub open spec fn spec_qualified(module: Seq<u8>, name: Seq<u8>) -> Seq<u8> {
    module + seq![46u8] + name
}

/// `module.name`.
pub fn qualified(module: &[u8], name: &[u8]) -> (r: Vec<u8>)
    ensures
        r@ == spec_qualified(module@, name@),
{
    let mut q = crate::text::owned(module);
    q.push(46);
    push_all(&mut q, name);
    q
}

/// Whether a module-level initializer is known before the program runs, looking `fuel` levels
/// deep: a literal, a negated literal, an operator on such values, a variant path, or a literal
/// of known parts.
pub open spec fn spec_const_value(e: Expr, fuel: nat) -> bool
    decreases fuel,
{
    if fuel == 0 {
        false
    } else {
        match e {
            Expr::Int(_) | Expr::Float(_) | Expr::Str(_) | Expr::Bool(_) | Expr::Atom(_) => true,
            Expr::Negative(inner) | Expr::Not(inner) => spec_const_value(*inner, (fuel - 1) as nat),
            Expr::Binary(_, a, b) => spec_const_value(*a, (fuel - 1) as nat) && spec_const_value(*b, (fuel - 1) as nat),
            Expr::Field { obj, .. } => *obj is Ident,
            Expr::EnumShorthand { args, .. } => args@.len() == 0,
            Expr::Array(es) => forall|i: int| 0 <= i < es@.len() ==> spec_const_value(#[trigger] es@[i], (fuel - 1) as nat),
            Expr::StructLit { fields, .. } => forall|i: int|
                0 <= i < fields@.len() ==> spec_const_value(#[trigger] fields@[i].1, (fuel - 1) as nat),
            Expr::Tuple(fields) => forall|i: int|
                0 <= i < fields@.len() ==> spec_const_value(#[trigger] fields@[i].1, (fuel - 1) as nat),
            _ => false,
        }
    }
}

/// Whether a module-level initializer is known before the program runs: a literal, a negated
/// literal, an operator on such values, a variant path, or a literal of known parts.
pub(crate) fn is_const_value(e: &Expr, fuel: u64) -> (r: bool)
    ensures
        r == spec_const_value(*e, fuel as nat),
    decreases fuel,
{
    if fuel == 0 {
        return false;
    }
    match e {
        Expr::Int(_) | Expr::Float(_) | Expr::Str(_) | Expr::Bool(_) | Expr::Atom(_) => true,
        Expr::Negative(inner) | Expr::Not(inner) => is_const_value(&**inner, fuel - 1),
        Expr::Binary(_, a, b) => is_const_value(&**a, fuel - 1) && is_const_value(&**b, fuel - 1),
        Expr::Field { obj, .. } => matches!(&**obj, Expr::Ident(_)),
        Expr::EnumShorthand { args, .. } => args.len() == 0,
        Expr::Array(es) => {
            let mut i: usize = 0;
            while i < es.len()
                invariant
                    i <= es@.len(),
                    forall|j: int| 0 <= j < i ==> spec_const_value(#[trigger] es@[j], (fuel - 1) as nat),
                decreases es@.len() - i,
            {
                if !is_const_value(&es[i], fuel - 1) {
                    assert(!spec_const_value(es@[i as int], (fuel - 1) as nat));
                    return false;
                }
                i = i + 1;
            }
            true
        },
        Expr::StructLit { fields, .. } | Expr::Tuple(fields) => {
            let mut i: usize = 0;
            while i < fields.len()
                invariant
                    i <= fields@.len(),
                    forall|j: int| 0 <= j < i ==> spec_const_value(#[trigger] fields@[j].1, (fuel - 1) as nat),
                decreases fields@.len() - i,
            {
                if !is_const_value(&fields[i].1, fuel - 1) {
                    assert(!spec_const_value(fields@[i as int].1, (fuel - 1) as nat));
                    return false;
                }
                i = i + 1;
            }
            true
        },
        _ => false,
    }
}

/// The name a definition (not under annotations) gives.
pub open spec fn spec_plain_def_name(e: Expr) -> Option<Seq<u8>> {
    match e {
        Expr::Fn { name, .. } => Some(name@),
        Expr::StructDef { name, .. } => Some(name@),
        Expr::TupleStructDef { name, .. } => Some(name@),
        Expr::EnumDef { name, .. } => Some(name@),
        Expr::TraitDef { name, .. } => Some(name@),
        Expr::TypeAlias { name, .. } => Some(name@),
        _ => None,
    }
}

/// Whether an item is a plain statement: no definition, import, annotation or module line.
pub open spec fn plain_statement(e: Expr) -> bool {
    &&& spec_def_name(e) is None
    &&& !(e is Module)
    &&& !(e is Pub)
    &&& !(e is Use)
    &&& !(e is Annotated)
}

/// Whether an item defines a name and is not a function, an import, an annotated item, a
/// `pub` item or a module line.
pub open spec fn plain_def(e: Expr) -> bool {
    &&& spec_def_name(e) is Some
    &&& !spec_is_fn(e)
    &&& !(e is Module)
    &&& !(e is Pub)
    &&& !(e is Use)
    &&& !(e is Annotated)
}

/// Whether a file of module `name` is its `module` line, then definitions of distinct names
/// that are not functions, imports, annotated or `pub`.
pub open spec fn fresh_module_file(name: Seq<u8>, file: Seq<Expr>) -> bool {
    &&& file.len() > 0
    &&& file[0] matches Expr::Module(n) && n@ == name
    &&& forall|j: int| 1 <= j < file.len() ==> #[trigger] plain_def(file[j])
    &&& forall|i: int, j: int| 1 <= i < j < file.len() ==> spec_def_name(#[trigger] file[i]) != spec_def_name(#[trigger] file[j])
}

/// Whether every item of a file is a plain statement.
pub open spec fn all_plain(file: Seq<Expr>) -> bool {
    forall|i: int| 0 <= i < file.len() ==> #[trigger] plain_statement(file[i])
}

/// The name an item defines, looking through its annotations; `None` for what defines nothing.
pub open spec fn spec_def_name(e: Expr) -> Option<Seq<u8>> {
    match e {
        Expr::Annotated(_, inner) => spec_plain_def_name(*inner),
        _ => spec_plain_def_name(e),
    }
}

/// Whether an item is a function definition, looking through its annotations.
pub open spec fn spec_is_fn(e: Expr) -> bool {
    match e {
        Expr::Annotated(_, inner) => *inner is Fn,
        _ => e is Fn,
    }
}

/// No two items define the same name.
pub open spec fn distinct_defs(items: Seq<Expr>) -> bool {
    forall|i: int, j: int|
        0 <= i < items.len() && 0 <= j < items.len() && i != j && (#[trigger] spec_def_name(items[i])) is Some
            ==> spec_def_name(items[i]) != #[trigger] spec_def_name(items[j])
}

/// Whether no item is a `module` declaration.
pub open spec fn no_declarations(items: Seq<Expr>) -> bool {
    forall|i: int| 0 <= i < items.len() ==> !(#[trigger] items[i] is Module)
}

/// The name a definition gives.
fn plain_def_name(e: &Expr) -> (r: Option<&Vec<u8>>)
    ensures
        r is None <==> spec_plain_def_name(*e) is None,
        r matches Some(n) ==> spec_plain_def_name(*e) == Some(n@),
{
    match e {
        Expr::Fn { name, .. } => Some(name),
        Expr::StructDef { name, .. } => Some(name),
        Expr::TupleStructDef { name, .. } => Some(name),
        Expr::EnumDef { name, .. } => Some(name),
        Expr::TraitDef { name, .. } => Some(name),
        Expr::TypeAlias { name, .. } => Some(name),
        _ => None,
    }
}

/// The name an item defines, looking through its annotations.
pub fn def_name(e: &Expr) -> (r: Option<&Vec<u8>>)
    ensures
        r is None <==> spec_def_name(*e) is None,
        r matches Some(n) ==> spec_def_name(*e) == Some(n@),
{
    match e {
        Expr::Annotated(_, inner) => plain_def_name(&**inner),
        _ => plain_def_name(e),
    }
}

/// Whether an item is a function definition.
fn is_fn(e: &Expr) -> (r: bool)
    ensures
        r == spec_is_fn(*e),
{
    match e {
        Expr::Annotated(_, inner) => matches!(&**inner, Expr::Fn { .. }),
        _ => matches!(e, Expr::Fn { .. }),
    }
}

/// The position of the item that defines `name`, if one does.
fn find_def(items: &Vec<Expr>, name: &Vec<u8>) -> (r: Option<usize>)
    ensures
        r matches Some(i) ==> i < items@.len() && spec_def_name(items@[i as int]) == Some(name@),
        r is None ==> forall|i: int| 0 <= i < items@.len() ==> spec_def_name(#[trigger] items@[i]) != Some(name@),
{
    let mut i: usize = 0;
    while i < items.len()
        invariant
            i <= items@.len(),
            forall|j: int| 0 <= j < i ==> spec_def_name(#[trigger] items@[j]) != Some(name@),
        decreases items@.len() - i,
    {
        match def_name(&items[i]) {
            Some(n) => {
                if bytes_eq(n.as_slice(), name.as_slice()) {
                    return Some(i);
                }
            },
            None => {},
        }
        i = i + 1;
    }
    None
}

/// Removing an item keeps the others' names distinct.
proof fn lemma_remove_keeps_distinct(items: Seq<Expr>, k: int)
    requires
        distinct_defs(items),
        0 <= k < items.len(),
    ensures
        distinct_defs(items.remove(k)),
{
    let r = items.remove(k);
    assert forall|i: int, j: int|
        0 <= i < r.len() && 0 <= j < r.len() && i != j && (#[trigger] spec_def_name(r[i])) is Some implies spec_def_name(
        r[i],
    ) != #[trigger] spec_def_name(r[j]) by {
        let oi = if i < k {
            i
        } else {
            i + 1
        };
        let oj = if j < k {
            j
        } else {
            j + 1
        };
        assert(r[i] == items[oi]);
        assert(r[j] == items[oj]);
        assert(spec_def_name(items[oi]) is Some);
    }
}

/// Adding an item whose name no item defines keeps the names distinct.
proof fn lemma_push_keeps_distinct(items: Seq<Expr>, e: Expr)
    requires
        distinct_defs(items),
        spec_def_name(e) is Some ==> forall|i: int| 0 <= i < items.len() ==> spec_def_name(#[trigger] items[i]) != spec_def_name(e),
    ensures
        distinct_defs(items.push(e)),
{
    let r = items.push(e);
    assert forall|i: int, j: int|
        0 <= i < r.len() && 0 <= j < r.len() && i != j && (#[trigger] spec_def_name(r[i])) is Some implies spec_def_name(
        r[i],
    ) != #[trigger] spec_def_name(r[j]) by {
        if i < items.len() && j < items.len() {
            assert(r[i] == items[i]);
            assert(r[j] == items[j]);
        } else if i == items.len() {
            assert(r[i] == e);
            assert(r[j] == items[j]);
        } else {
            assert(r[j] == e);
            assert(r[i] == items[i]);
        }
    }
}

/// The error for a file that does not open with its module's declaration.
fn must_declare(module: &[u8]) -> (r: Diagnostic)
    ensures
        r.msg@ == "this file must declare `module ".spec_bytes() + module@ + "`".spec_bytes(),
{
    let mut msg = lit("this file must declare `module ");
    push_all(&mut msg, module);
    push_str(&mut msg, "`");
    Diagnostic { msg }
}

impl Loader {
    /// A loader with no modules yet.
    pub fn new() -> (r: Loader)
        ensures
            r.modules@.len() == 0,
            sound_modules(r.modules@),
    {
        Loader { modules: Vec::new(), publics: Vec::new(), selected: Vec::new(), reexports: Vec::new() }
    }

    /// Record a name the module defines: under its qualified name outside `main`, public when
    /// marked so. A name defined twice in a module is refused.
    fn define(&mut self, m: &mut Module, bare: &Vec<u8>, public: bool) -> (r: Result<(), Diagnostic>)
        ensures
            final(self).modules == old(self).modules,
            final(m).name == old(m).name,
            final(m).items == old(m).items,
            final(m).imports == old(m).imports,
            r is Err <==> exists|j: int| 0 <= j < old(m).scope.env@.len() && (#[trigger] old(m).scope.env@[j]).0@ == bare@,
            r matches Err(d) ==> d.msg@ == "`".spec_bytes() + bare@ + "` is defined twice in module `".spec_bytes()
                + old(m).name@ + "`".spec_bytes() && final(m).scope.env == old(m).scope.env && final(self).publics
                == old(self).publics,
            r is Ok ==> final(m).scope.env@.len() == old(m).scope.env@.len() + 1 && final(m).scope.env@.drop_last()
                == old(m).scope.env@ && final(m).scope.env@.last().0@ == bare@ && final(m).scope.env@.last().1@ == (
            if old(m).name@ == "main".spec_bytes() {
                bare@
            } else {
                spec_qualified(old(m).name@, bare@)
            }),
            r is Ok && public ==> final(self).publics@.drop_last() == old(self).publics@ && final(self).publics@.len()
                == old(self).publics@.len() + 1 && final(self).publics@.last()@ == final(m).scope.env@.last().1@,
            r is Ok && !public ==> final(self).publics == old(self).publics,
    {
        if lookup_env(&m.scope.env, bare.as_slice()).is_some() {
            let mut msg = lit("`");
            push_all(&mut msg, bare.as_slice());
            push_str(&mut msg, "` is defined twice in module `");
            push_all(&mut msg, m.name.as_slice());
            push_str(&mut msg, "`");
            return Err(Diagnostic { msg });
        }
        let q = if is(m.name.as_slice(), "main") {
            crate::text::owned(bare.as_slice())
        } else {
            qualified(m.name.as_slice(), bare.as_slice())
        };
        if public {
            self.publics.push(crate::text::owned(q.as_slice()));
        }
        m.scope.env.push((crate::text::owned(bare.as_slice()), q));
        Ok(())
    }

    /// Bind the items of a `use`: the module itself, under its name or the alias, when no items
    /// are named, or narrowed to the named items when an alias names them; else each item by
    /// its name here, and, for a `pub use`, as an item of this module too. Only a module, or a
    /// module and one item, can be named, and only item imports can be made public again.
    fn import(
        &mut self,
        m: &mut Module,
        alias: Option<Vec<u8>>,
        path: Vec<Vec<u8>>,
        group: Option<Vec<(Vec<u8>, Vec<u8>)>>,
        public: bool,
    ) -> (r: Result<(), Diagnostic>)
        ensures
            final(self).modules == old(self).modules,
            final(m).name == old(m).name,
            final(m).items == old(m).items,
            path@.len() > 2 || (path@.len() == 2 && group is Some) ==> (r matches Err(d) && d.msg@
                == "nested module paths aren't supported yet".spec_bytes()),
            path@.len() == 1 && public && (alias is Some && group is Some || group is None || group->0@.len() == 0)
                ==> (r matches Err(d) && d.msg@ == "only item imports can be re-exported yet".spec_bytes()),
            r is Ok && 0 < path@.len() ==> final(m).imports@.map_values(|v: Vec<u8>| v@).contains(path@[0]@),
            path@.len() == 0 ==> r is Ok && *final(m) == *old(m),
    {
        let grouped = group.is_some();
        if path.len() > 2 || (path.len() == 2 && grouped) {
            return Err(Diagnostic { msg: lit("nested module paths aren't supported yet") });
        }
        if path.len() == 0 {
            return Ok(());
        }
        let module = crate::text::owned(path[0].as_slice());
        let narrows = alias.is_some() && grouped;
        let items: Vec<(Vec<u8>, Vec<u8>)> = if path.len() == 2 {
            let here = match &alias {
                Some(a) => a.clone(),
                None => path[1].clone(),
            };
            vec![(here, path[1].clone())]
        } else {
            match group {
                Some(g) => g,
                None => Vec::new(),
            }
        };
        let mut i: usize = 0;
        while i < items.len()
            invariant
                i <= items@.len(),
                m.name == old(m).name,
                m.items == old(m).items,
                self.modules == old(self).modules,
            decreases items@.len() - i,
        {
            self.selected.push((module.clone(), items[i].1.clone()));
            i = i + 1;
        }
        if public && (items.len() == 0 || narrows) {
            return Err(Diagnostic { msg: lit("only item imports can be re-exported yet") });
        }
        if narrows || items.len() == 0 {
            // the module itself, or narrowed to the items
            let here = match alias {
                Some(a) => a,
                None => module.clone(),
            };
            match lookup_env(&m.scope.visible, here.as_slice()) {
                Some(k) => {
                    let prev = &m.scope.visible[k].1;
                    if narrows || prev.only.is_some() || !bytes_eq(prev.module.as_slice(), module.as_slice()) {
                        let mut msg = lit("`");
                        push_all(&mut msg, here.as_slice());
                        push_str(&mut msg, "` already names module `");
                        push_all(&mut msg, prev.module.as_slice());
                        push_str(&mut msg, "`");
                        return Err(Diagnostic { msg });
                    }
                },
                None => {
                    let only = if narrows {
                        Some(items)
                    } else {
                        None
                    };
                    m.scope.visible.push((here, Visible { module: module.clone(), only }));
                },
            }
        } else {
            let mut i: usize = 0;
            while i < items.len()
                invariant
                    i <= items@.len(),
                    m.name == old(m).name,
                    m.items == old(m).items,
                    self.modules == old(self).modules,
                decreases items@.len() - i,
            {
                let here = &items[i].0;
                if lookup_env(&m.scope.env, here.as_slice()).is_some() {
                    let mut msg = lit("`");
                    push_all(&mut msg, here.as_slice());
                    push_str(&mut msg, "` is already defined in module `");
                    push_all(&mut msg, m.name.as_slice());
                    push_str(&mut msg, "`");
                    return Err(Diagnostic { msg });
                }
                let target = qualified(module.as_slice(), items[i].1.as_slice());
                if public {
                    self.reexports.push((qualified(m.name.as_slice(), here.as_slice()), target.clone()));
                }
                m.scope.env.push((here.clone(), target));
                i = i + 1;
            }
        }
        if !has_name(&m.imports, module.as_slice()) {
            let ghost before = m.imports@;
            m.imports.push(module);
            assert(m.imports@.map_values(|v: Vec<u8>| v@)[before.len() as int] == path@[0]@);
        }
        Ok(())
    }

/// Whether a file's first item breaks the rule on `module` declarations: a module other than
/// `main` must open with its own `module` declaration, and the entry file may only declare
/// `module main`.
pub open spec fn first_item_refused(module: Seq<u8>, file: Seq<Expr>) -> bool {
    file.len() > 0 && if module == "main".spec_bytes() {
        file[0] matches Expr::Module(n) && n@ != "main".spec_bytes()
    } else {
        !(file[0] matches Expr::Module(n) && n@ == module)
    }
}

/// Fold a file's items into its module. The entry module is `main`: its file may open with
/// `module main`, and may hold statements; any other module's file must open with its `module`
/// declaration and hold only definitions, imports, and bindings whose values are known before
/// the program runs. A `module` declaration anywhere else, or annotations on something other
/// than a definition, are refused. A function replaces an earlier function of its name from
/// the same file; any other name defined twice is refused. `pub` marks what other modules may
/// use, and `use` makes a module, or some of its items, visible.
pub fn add_file(&mut self, m: &mut Module, file: Vec<Expr>) -> (r: Result<(), Diagnostic>)
    requires
        distinct_defs(old(m).items@),
        no_declarations(old(m).items@),
    ensures
        final(self).modules == old(self).modules,
        final(m).name == old(m).name,
        distinct_defs(final(m).items@),
        no_declarations(final(m).items@),
        Self::first_item_refused(old(m).name@, file@) ==> r is Err,
        file@.len() == 0 ==> (r is Ok && *final(m) == *old(m)),
        old(m).name@ == "main".spec_bytes() && all_plain(file@) ==> (r is Ok && final(m).items@ == old(m).items@ + file@
            && final(m).imports == old(m).imports),
        old(m).name@ != "main".spec_bytes() && old(m).items@.len() == 0 && old(m).scope.env@.len() == 0 && fresh_module_file(
            old(m).name@,
            file@,
        ) ==> (r is Ok && final(m).items@ == file@.drop_first()),
{
    let ghost fresh = old(m).name@ != "main".spec_bytes() && old(m).items@.len() == 0 && old(m).scope.env@.len() == 0
        && fresh_module_file(old(m).name@, file@);
    let main = is(m.name.as_slice(), "main");
    let start = m.items.len();
    let ghost given = file@;
    // take the items out in order
    let mut file = file;
    let mut rest: Vec<Expr> = Vec::new();
    while file.len() > 0
        invariant
            file@ == given.take(file@.len() as int),
            rest@ == given.skip(file@.len() as int).reverse(),
            file@.len() <= given.len(),
        decreases file@.len(),
    {
        match file.pop() {
            Some(e) => rest.push(e),
            None => {},
        }
        assert(file@ =~= given.take(file@.len() as int));
        assert(rest@ =~= given.skip(file@.len() as int).reverse());
    }
    assert(rest@ =~= given.reverse());
    // `rest` holds the file backwards: its last element is the first item
    let mut first = true;
    while rest.len() > 0
        invariant
            first ==> rest@ == given.reverse(),
            !first ==> !Self::first_item_refused(old(m).name@, given),
            main == (old(m).name@ == "main".spec_bytes()),
            m.name == old(m).name,
            self.modules == old(self).modules,
            distinct_defs(m.items@),
            no_declarations(m.items@),
            start <= m.items@.len(),
            given.len() == 0 ==> rest@.len() == 0 && *m == *old(m),
            rest@.len() <= given.len(),
            rest@ == given.skip(given.len() - rest@.len()).reverse(),
            main && all_plain(given) ==> m.items@ == old(m).items@ + given.take(given.len() - rest@.len()),
            main && all_plain(given) ==> m.imports == old(m).imports,
            fresh == (old(m).name@ != "main".spec_bytes() && old(m).items@.len() == 0 && old(m).scope.env@.len() == 0
                && fresh_module_file(old(m).name@, given)),
            fresh && first ==> m.items@.len() == 0 && m.scope.env@.len() == 0,
            fresh && !first ==> rest@.len() < given.len() && m.items@ == given.subrange(1, given.len() - rest@.len())
                && m.scope.env@.len() == m.items@.len() && forall|q: int| 0 <= q < m.scope.env@.len() ==> Some(
                (#[trigger] m.scope.env@[q]).0@,
            ) == spec_def_name(m.items@[q]),
        decreases rest@.len(),
    {
        let ghost before_rest = rest@;
        let ghost k = given.len() - before_rest.len();
        let ghost env0 = m.scope.env@;
        let item = rest.pop().unwrap();
        proof {
            assert(item == given[k]);
            assert(rest@ =~= given.skip(k + 1).reverse());
            if all_plain(given) {
                assert(plain_statement(given[k]));
            }
            if fresh && k >= 1 {
                assert(plain_def(given[k]));
                assert forall|q: int| 0 <= q < m.items@.len() implies spec_def_name(#[trigger] m.items@[q]) != spec_def_name(given[k]) by {
                    assert(m.items@[q] == given[q + 1]);
                }
            }
            if fresh && k == 0 {
                assert(first);
                assert(given.subrange(1, 1) =~= Seq::<Expr>::empty());
            }
        }
        let was_first = first;
        first = false;
        if let Expr::Module(n) = &item {
            if !was_first {
                return Err(Diagnostic { msg: lit("`module` must come first") });
            }
            let says_main = is(n.as_slice(), "main");
            if main && !says_main {
                return Err(Diagnostic { msg: lit("the entry file is module `main`") });
            }
            if !main && !bytes_eq(n.as_slice(), m.name.as_slice()) {
                return Err(must_declare(m.name.as_slice()));
            }
            continue;
        }
        if was_first && !main {
            return Err(must_declare(m.name.as_slice()));
        }
        let (public, item) = match item {
            Expr::Pub(inner) => (true, *inner),
            other => (false, other),
        };
        if let Expr::Module(_) = &item {
            return Err(Diagnostic { msg: lit("`module` must come first") });
        }
        let item = match item {
            Expr::Use { alias, path, group } => {
                self.import(m, alias, path, group, public)?;
                continue;
            },
            other => other,
        };
        if let Expr::Annotated(_, inner) = &item {
            if plain_def_name(&**inner).is_none() {
                return Err(Diagnostic { msg: lit("annotations only attach to definitions") });
            }
        }
        match def_name(&item) {
            Some(n) => {
                let n = crate::text::owned(n.as_slice());
                // a function shadows an earlier one of this file
                if is_fn(&item) {
                    match find_def(&m.items, &n) {
                        Some(k) => {
                            if k >= start && is_fn(&m.items[k]) {
                                proof {
                                    lemma_remove_keeps_distinct(m.items@, k as int);
                                }
                                let ghost before = m.items@;
                                m.items.remove(k);
                                assert(m.items@ =~= before.remove(k as int));
                                assert forall|i: int| 0 <= i < m.items@.len() implies !(#[trigger] m.items@[i] is Module) by {
                                    if i < k {
                                        assert(m.items@[i] == before[i]);
                                    } else {
                                        assert(m.items@[i] == before[i + 1]);
                                    }
                                }
                                match lookup_env(&m.scope.env, n.as_slice()) {
                                    Some(e) => {
                                        m.scope.env.remove(e);
                                    },
                                    None => {},
                                }
                            }
                        },
                        None => {},
                    }
                }
                match find_def(&m.items, &n) {
                    Some(_) => {
                        let mut msg = lit("`");
                        push_all(&mut msg, n.as_slice());
                        push_str(&mut msg, "` is defined twice in module `");
                        push_all(&mut msg, m.name.as_slice());
                        push_str(&mut msg, "`");
                        return Err(Diagnostic { msg });
                    },
                    None => {},
                }
                let ghost env_before = m.scope.env@;
                self.define(m, &n, public)?;
                proof {
                    if fresh {
                        assert(spec_def_name(item) == Some(n@));
                        assert(m.scope.env@.last().0@ == n@);
                        assert(m.scope.env@.drop_last() == env_before);
                        assert(env_before == env0);
                    }
                }
            },
            None => {
                match &item {
                    Expr::Claim { .. } | Expr::MacroDef(_) | Expr::TestDef { .. } => {},
                    Expr::Bind { mutable, name, typ, value } => {
                        if !main {
                            // a module's bindings are its statics and constants
                            let known = match value {
                                Some(v) => is_const_value(&**v, 64),
                                None => typ.is_some(),
                            };
                            if !known {
                                if *mutable {
                                    return Err(Diagnostic { msg: lit("a static needs a comptime initializer") });
                                }
                                return Err(Diagnostic { msg: lit("cannot evaluate this at compile time") });
                            }
                            let name = name.clone();
                            self.define(m, &name, public)?;
                        }
                    },
                    _ => {
                        if !main {
                            return Err(Diagnostic { msg: lit("top-level statements aren't allowed in a module") });
                        }
                    },
                }
            },
        }
        proof {
            lemma_push_keeps_distinct(m.items@, item);
        }
        let ghost items_before = m.items@;
        m.items.push(item);
        proof {
            if fresh {
                assert(m.items@ =~= given.subrange(1, k + 1));
                assert(m.items@.last() == given[k]);
                assert forall|q: int| 0 <= q < m.scope.env@.len() implies Some((#[trigger] m.scope.env@[q]).0@) == spec_def_name(
                    m.items@[q],
                ) by {
                    if q < m.scope.env@.len() - 1 {
                        assert(m.items@[q] == items_before[q]);
                        assert(m.scope.env@[q] == m.scope.env@.drop_last()[q]);
                        assert(m.scope.env@[q] == env0[q]);
                    }
                }
            }
            if main && all_plain(given) {
                assert(given.take(k + 1) =~= given.take(k).push(given[k]));
                assert(m.items@ =~= old(m).items@ + given.take(k + 1));
            }
        }
    }
    proof {
        assert(given.take(given.len() as int) =~= given);
    }
    Ok(())
}

    /// Whether a module of this name is loaded.
    pub fn has_module(&self, name: &[u8]) -> (r: bool)
        ensures
            r == self.loaded(name@),
    {
        let mut i: usize = 0;
        while i < self.modules.len()
            invariant
                i <= self.modules@.len(),
                forall|j: int| 0 <= j < i ==> (#[trigger] self.modules@[j]).name@ != name@,
            decreases self.modules@.len() - i,
        {
            if bytes_eq(self.modules[i].name.as_slice(), name) {
                return true;
            }
            i = i + 1;
        }
        false
    }

    /// Load a module from its files' items, in order; a module already loaded is left as it is.
    pub fn add_module(&mut self, name: &[u8], files: Vec<Vec<Expr>>) -> (r: Result<(), Diagnostic>)
        requires
            sound_modules(old(self).modules@),
        ensures
            sound_modules(final(self).modules@),
            old(self).loaded(name@) ==> r is Ok && final(self).modules == old(self).modules,
            !old(self).loaded(name@) && r is Ok ==> final(self).modules@.len() == old(self).modules@.len() + 1
                && final(self).modules@.drop_last() == old(self).modules@ && final(self).modules@.last().name@ == name@,
            !old(self).loaded(name@) && r is Err ==> final(self).modules == old(self).modules,
            !old(self).loaded(name@) && files@.len() > 0 && Self::first_item_refused(name@, files@[0]@) ==> r is Err,
            name@ == "main".spec_bytes() && (forall|i: int| 0 <= i < files@.len() ==> all_plain(#[trigger] files@[i]@)) ==> r is Ok,
    {
        if self.has_module(name) {
            return Ok(());
        }
        let mut m = Module::new(name);
        assert(m.items@ =~= Seq::<Expr>::empty());
        let ghost given = files@;
        let mut files = files;
        let mut rest: Vec<Vec<Expr>> = Vec::new();
        while files.len() > 0
            invariant
                sound_modules(self.modules@),
                files@ == given.take(files@.len() as int),
                rest@ == given.skip(files@.len() as int).reverse(),
                files@.len() <= given.len(),
            decreases files@.len(),
        {
            match files.pop() {
                Some(f) => rest.push(f),
                None => {},
            }
            assert(files@ =~= given.take(files@.len() as int));
            assert(rest@ =~= given.skip(files@.len() as int).reverse());
        }
        assert(rest@ =~= given.reverse());
        let mut first = true;
        while rest.len() > 0
            invariant
                distinct_defs(m.items@),
                no_declarations(m.items@),
                sound_modules(self.modules@),
                self.modules == old(self).modules,
                m.name@ == name@,
                first ==> rest@ == given.reverse(),
                !first ==> !(given.len() > 0 && Self::first_item_refused(name@, given[0]@)),
                name@ == "main".spec_bytes() && (forall|i: int| 0 <= i < given.len() ==> all_plain(#[trigger] given[i]@))
                    ==> forall|j: int| 0 <= j < rest@.len() ==> all_plain(#[trigger] rest@[j]@),
            decreases rest@.len(),
        {
            let ghost before_rest = rest@;
            match rest.pop() {
                Some(f) => {
                    proof {
                        if name@ == "main".spec_bytes() && (forall|i: int| 0 <= i < given.len() ==> all_plain(#[trigger] given[i]@)) {
                            assert(all_plain(before_rest[before_rest.len() - 1]@));
                        }
                    }
                    self.add_file(&mut m, f)?;
                },
                None => {},
            }
            proof {
                if name@ == "main".spec_bytes() && (forall|i: int| 0 <= i < given.len() ==> all_plain(#[trigger] given[i]@)) {
                    assert forall|j: int| 0 <= j < rest@.len() implies all_plain(#[trigger] rest@[j]@) by {
                        assert(rest@[j] == before_rest[j]);
                    }
                }
            }
            first = false;
        }
        self.modules.push(m);
        Ok(())
    }

    /// A module that a loaded module imports and that is not loaded yet.
    pub fn missing_import(&self) -> (r: Option<Vec<u8>>)
        ensures
            r matches Some(n) ==> self.imported(n@) && !self.loaded(n@),
            r is None ==> forall|i: int, k: int|
                0 <= i < self.modules@.len() && 0 <= k < self.modules@[i].imports@.len() ==> self.loaded(
                    #[trigger] self.modules@[i].imports@[k]@,
                ),
    {
        let mut i: usize = 0;
        while i < self.modules.len()
            invariant
                i <= self.modules@.len(),
                forall|a: int, k: int|
                    0 <= a < i && 0 <= k < self.modules@[a].imports@.len() ==> self.loaded(
                        #[trigger] self.modules@[a].imports@[k]@,
                    ),
            decreases self.modules@.len() - i,
        {
            let mut k: usize = 0;
            while k < self.modules[i].imports.len()
                invariant
                    i < self.modules@.len(),
                    k <= self.modules@[i as int].imports@.len(),
                    forall|a: int, q: int|
                        0 <= a < i && 0 <= q < self.modules@[a].imports@.len() ==> self.loaded(
                            #[trigger] self.modules@[a].imports@[q]@,
                        ),
                    forall|q: int| 0 <= q < k ==> self.loaded(#[trigger] self.modules@[i as int].imports@[q]@),
                decreases self.modules@[i as int].imports@.len() - k,
            {
                if !self.has_module(self.modules[i].imports[k].as_slice()) {
                    let n = crate::text::owned(self.modules[i].imports[k].as_slice());
                    assert(self.modules@[i as int].imports@[k as int]@ == n@);
                    return Some(n);
                }
                k = k + 1;
            }
            i = i + 1;
        }
        None
    }

    /// Whether a module of this name is loaded.
    pub open spec fn loaded(&self, name: Seq<u8>) -> bool {
        exists|j: int| 0 <= j < self.modules@.len() && (#[trigger] self.modules@[j]).name@ == name
    }

    /// Whether a loaded module imports a module of this name.
    pub open spec fn imported(&self, name: Seq<u8>) -> bool {
        exists|i: int, k: int|
            0 <= i < self.modules@.len() && 0 <= k < self.modules@[i].imports@.len() && (
            #[trigger] self.modules@[i].imports@[k])@ == name
    }

    /// The index of the loaded module of this name, if any.
    fn module_index(&self, name: &[u8]) -> (r: Option<usize>)
        ensures
            r matches Some(i) ==> i < self.modules@.len() && self.modules@[i as int].name@ == name@,
            r matches Some(i) ==> forall|j: int| 0 <= j < i ==> (#[trigger] self.modules@[j]).name@ != name@,
            r is None ==> forall|j: int| 0 <= j < self.modules@.len() ==> (#[trigger] self.modules@[j]).name@ != name@,
    {
        let mut i: usize = 0;
        while i < self.modules.len()
            invariant
                i <= self.modules@.len(),
                forall|j: int| 0 <= j < i ==> (#[trigger] self.modules@[j]).name@ != name@,
            decreases self.modules@.len() - i,
        {
            if bytes_eq(self.modules[i].name.as_slice(), name) {
                return Some(i);
            }
            i = i + 1;
        }
        None
    }

    /// Walk the imports of module `at` depth-first, in the order it imports them, with `path` the
    /// modules being walked; the first import of a module on the path closes a cycle, reported as
    /// the path and the module it returns to.
    fn walk_imports(&self, at: usize, path: &mut Vec<usize>, seen: &mut Vec<bool>, fuel: usize) -> (r: Option<Vec<u8>>)
        requires
            at < self.modules@.len(),
            old(seen)@.len() == self.modules@.len(),
            forall|k: int| 0 <= k < old(path)@.len() ==> old(path)@[k] < self.modules@.len(),
        ensures
            final(seen)@.len() == self.modules@.len(),
            forall|k: int| 0 <= k < final(path)@.len() ==> final(path)@[k] < self.modules@.len(),
            r matches Some(m) ==> m@.len() >= 14 && m@.take(14) == "import cycle: ".spec_bytes(),
            fuel == 0 ==> r is None,
        decreases fuel,
    {
        if fuel == 0 {
            return None;
        }
        seen.set(at, true);
        path.push(at);
        let mut k: usize = 0;
        while k < self.modules[at].imports.len()
            invariant
                seen@.len() == self.modules@.len(),
                forall|j: int| 0 <= j < path@.len() ==> path@[j] < self.modules@.len(),
            decreases self.modules@[at as int].imports@.len() - k,
        {
            let name = self.modules[at].imports[k].as_slice();
            let mut j: usize = 0;
            while j < path.len()
                invariant
                    forall|q: int| 0 <= q < path@.len() ==> path@[q] < self.modules@.len(),
                decreases path@.len() - j,
            {
                if bytes_eq(self.modules[path[j]].name.as_slice(), name) {
                    let mut msg = lit("import cycle: ");
                    proof {
                        reveal_strlit("import cycle: ");
                        assert(vstd::string::is_ascii("import cycle: "));
                        assert(msg@.len() == 14);
                        assert(msg@.take(14) =~= msg@);
                    }
                    let mut q: usize = 0;
                    while q < path.len()
                        invariant
                            forall|x: int| 0 <= x < path@.len() ==> path@[x] < self.modules@.len(),
                            msg@.len() >= 14 && msg@.take(14) == "import cycle: ".spec_bytes(),
                        decreases path@.len() - q,
                    {
                        let ghost before = msg@;
                        push_all(&mut msg, self.modules[path[q]].name.as_slice());
                        push_str(&mut msg, " -> ");
                        assert(msg@.take(14) =~= before.take(14));
                        q = q + 1;
                    }
                    let ghost before = msg@;
                    push_all(&mut msg, name);
                    assert(msg@.take(14) =~= before.take(14));
                    return Some(msg);
                }
                j = j + 1;
            }
            match self.module_index(name) {
                Some(t) => {
                    if !seen[t] {
                        let found = self.walk_imports(t, path, seen, fuel - 1);
                        if found.is_some() {
                            return found;
                        }
                    }
                },
                None => {},
            }
            k = k + 1;
        }
        path.pop();
        None
    }

    /// The first import cycle met when the imports are followed depth-first from `main`, in the
    /// order each module imports the others: `import cycle: ` and the modules that close it.
    pub fn import_cycle(&self) -> (r: Option<Vec<u8>>)
        ensures
            r matches Some(m) ==> m@.len() >= 14 && m@.take(14) == "import cycle: ".spec_bytes(),
            !self.loaded("main".spec_bytes()) ==> r is None,
    {
        match self.module_index(lit("main").as_slice()) {
            Some(m) => {
                let mut seen: Vec<bool> = Vec::new();
                let mut i: usize = 0;
                while i < self.modules.len()
                    invariant
                        seen@.len() == i,
                        i <= self.modules@.len(),
                    decreases self.modules@.len() - i,
                {
                    seen.push(false);
                    i = i + 1;
                }
                let mut path: Vec<usize> = Vec::new();
                self.walk_imports(m, &mut path, &mut seen, self.modules.len())
            },
            None => None,
        }
    }

    /// The program the modules make, once every module is in: each re-export stands for the
    /// item it names in the end, and each imported item is checked to be defined and public
    /// in its module.
    pub fn finish(self) -> (r: Result<Program, Diagnostic>)
        requires
            sound_modules(self.modules@),
        ensures
            r matches Ok(p) ==> sound_modules(p.modules@),
            r matches Ok(p) ==> p.publics == self.publics && p.reexports@.len() == self.reexports@.len()
                && p.modules@.len() == self.modules@.len() && forall|i: int|
                0 <= i < p.modules@.len() ==> (#[trigger] p.modules@[i]).name == self.modules@[i].name
                    && p.modules@[i].items == self.modules@[i].items && p.modules@[i].imports
                    == self.modules@[i].imports,
            r matches Ok(p) ==> forall|j: int|
                0 <= j < self.selected@.len() ==> crate::qualify::member_ok(
                    p.modules@,
                    p.publics@,
                    p.reexports@,
                    (#[trigger] self.selected@[j]).0@,
                    self.selected@[j].1@,
                ),
    {
        let ghost given = self.modules@;
        let Loader { modules, publics, selected, reexports } = self;
        let reexports = resolve_reexports(&reexports);
        // point each module's names at what the re-exports stand for
        let mut mods = modules;
        let mut rev: Vec<Module> = Vec::new();
        while mods.len() > 0
            invariant
                sound_modules(mods@),
                sound_modules(rev@),
                mods@ == given.take(mods@.len() as int),
                rev@ == given.skip(mods@.len() as int).reverse(),
                mods@.len() <= given.len(),
            decreases mods@.len(),
        {
            match mods.pop() {
                Some(m) => rev.push(m),
                None => {},
            }
            assert(mods@ =~= given.take(mods@.len() as int));
            assert(rev@ =~= given.skip(mods@.len() as int).reverse());
        }
        assert(rev@ =~= given.reverse());
        let mut modules: Vec<Module> = Vec::new();
        while rev.len() > 0
            invariant
                sound_modules(rev@),
                sound_modules(modules@),
                modules@.len() + rev@.len() == given.len(),
                forall|q: int| 0 <= q < rev@.len() ==> rev@[q] == given[given.len() - 1 - q],
                forall|q: int|
                    0 <= q < modules@.len() ==> (#[trigger] modules@[q]).name == given[q].name && modules@[q].items
                        == given[q].items && modules@[q].imports == given[q].imports,
            decreases rev@.len(),
        {
            match rev.pop() {
                Some(m) => {
                    let Module { name, items, scope, imports } = m;
                    let Scope { env, visible } = scope;
                    let env = redirect(env, &reexports);
                    modules.push(Module { name, items, scope: Scope { env, visible }, imports });
                },
                None => {},
            }
        }
        let program = Program { modules, publics, reexports };
        program.check_selected(&selected)?;
        Ok(program)
    }
}

/// A loaded program: its modules, the qualified names of their public definitions, and what
/// each re-export stands for.
pub struct Program {
    pub modules: Vec<Module>,
    pub publics: Vec<Vec<u8>>,
    pub reexports: Vec<(Vec<u8>, Vec<u8>)>,
}

impl Program {
    /// Check each imported item, a module and an item: the module defines the item, or makes
    /// it public again, and the item is public.
    fn check_selected(&self, selected: &Vec<(Vec<u8>, Vec<u8>)>) -> (r: Result<(), Diagnostic>)
        ensures
            r is Ok <==> forall|j: int|
                0 <= j < selected@.len() ==> crate::qualify::member_ok(
                    self.modules@,
                    self.publics@,
                    self.reexports@,
                    (#[trigger] selected@[j]).0@,
                    selected@[j].1@,
                ),
    {
        let mut i: usize = 0;
        while i < selected.len()
            invariant
                i <= selected@.len(),
                forall|j: int|
                    0 <= j < i ==> crate::qualify::member_ok(
                        self.modules@,
                        self.publics@,
                        self.reexports@,
                        (#[trigger] selected@[j]).0@,
                        selected@[j].1@,
                    ),
            decreases selected@.len() - i,
        {
            let (module, name) = (&selected[i].0, &selected[i].1);
            crate::qualify::member(&self.modules, &self.publics, &self.reexports, module.as_slice(), name.as_slice())?;
            i = i + 1;
        }
        Ok(())
    }

    /// The items of the imported modules and those of `main`, each name written the way the
    /// module that defines it qualifies it.
    pub fn items(self) -> (r: Result<(Vec<Expr>, Vec<Expr>), Diagnostic>)
        ensures
            r matches Ok((deps, main)) ==> deps@.len() + main@.len() == module_items_total(self.modules@),
    {
        let ghost total = module_items_total(self.modules@);
        let Program { modules, publics, reexports } = self;
        // split the modules into how they see names and what they hold
        let mut mods = modules;
        let mut rev: Vec<Module> = Vec::new();
        while mods.len() > 0
            invariant
                module_items_total(mods@) + module_items_total(rev@) == total,
            decreases mods@.len(),
        {
            let ghost (before_m, before_r) = (mods@, rev@);
            match mods.pop() {
                Some(m) => {
                    rev.push(m);
                    assert(rev@.drop_last() =~= before_r);
                    assert(mods@ =~= before_m.drop_last());
                },
                None => {},
            }
        }
        let mut scopes: Vec<Module> = Vec::new();
        let mut bodies: Vec<Vec<Expr>> = Vec::new();
        while rev.len() > 0
            invariant
                scopes@.len() == bodies@.len(),
                module_items_total(rev@) + bodies_total(bodies@) == total,
            decreases rev@.len(),
        {
            let ghost (before_r, before_b) = (rev@, bodies@);
            match rev.pop() {
                Some(m) => {
                    let Module { name, items, scope, imports } = m;
                    scopes.push(Module { name, items: Vec::new(), scope, imports });
                    bodies.push(items);
                    assert(bodies@.drop_last() =~= before_b);
                    assert(rev@ =~= before_r.drop_last());
                },
                None => {},
            }
        }
        let mut deps: Vec<Expr> = Vec::new();
        let mut main_items: Vec<Expr> = Vec::new();
        let mut rev_bodies: Vec<Vec<Expr>> = Vec::new();
        while bodies.len() > 0
            invariant
                bodies_total(bodies@) + bodies_total(rev_bodies@) == total,
                bodies@.len() + rev_bodies@.len() == scopes@.len(),
            decreases bodies@.len(),
        {
            let ghost (before_b, before_r) = (bodies@, rev_bodies@);
            match bodies.pop() {
                Some(b) => {
                    rev_bodies.push(b);
                    assert(rev_bodies@.drop_last() =~= before_r);
                    assert(bodies@ =~= before_b.drop_last());
                },
                None => {},
            }
        }
        let mut i: usize = 0;
        while rev_bodies.len() > 0 && i < scopes.len()
            invariant
                i <= scopes@.len(),
                i + rev_bodies@.len() == scopes@.len(),
                deps@.len() + main_items@.len() + bodies_total(rev_bodies@) == total,
            decreases rev_bodies@.len(),
        {
            let ghost before = rev_bodies@;
            let body = match rev_bodies.pop() {
                Some(b) => b,
                None => Vec::new(),
            };
            assert(rev_bodies@ =~= before.drop_last());
            let mut done = crate::qualify::qualify_module(&scopes, &publics, &reexports, i, body)?;
            if is(scopes[i].name.as_slice(), "main") {
                main_items.append(&mut done);
            } else {
                deps.append(&mut done);
            }
            i = i + 1;
        }
        Ok((deps, main_items))
    }
}

/// The number of items the modules hold, all together.
pub open spec fn module_items_total(ms: Seq<Module>) -> int
    decreases ms.len(),
{
    if ms.len() == 0 {
        0
    } else {
        module_items_total(ms.drop_last()) + ms.last().items@.len()
    }
}

/// The number of items in some lists of items, all together.
pub open spec fn bodies_total(bs: Seq<Vec<Expr>>) -> int
    decreases bs.len(),
{
    if bs.len() == 0 {
        0
    } else {
        bodies_total(bs.drop_last()) + bs.last()@.len()
    }
}

/// Each re-export with what it stands for in the end: a re-export of a re-export is followed
/// to the item it names.
fn resolve_reexports(reexports: &Vec<(Vec<u8>, Vec<u8>)>) -> (r: Vec<(Vec<u8>, Vec<u8>)>)
    ensures
        r@.len() == reexports@.len(),
        forall|i: int| 0 <= i < r@.len() ==> (#[trigger] r@[i]).0@ == reexports@[i].0@,
{
    let mut out: Vec<(Vec<u8>, Vec<u8>)> = Vec::new();
    let mut i: usize = 0;
    while i < reexports.len()
        invariant
            i <= reexports@.len(),
            out@.len() == i,
            forall|j: int| 0 <= j < i ==> (#[trigger] out@[j]).0@ == reexports@[j].0@,
        decreases reexports@.len() - i,
    {
        let mut target = reexports[i].1.clone();
        // a chain has no more links than there are re-exports
        let mut steps: usize = reexports.len();
        while steps > 0
            invariant
                true,
            decreases steps,
        {
            match lookup_env(reexports, target.as_slice()) {
                Some(k) => {
                    target = reexports[k].1.clone();
                },
                None => {
                    break ;
                },
            }
            steps = steps - 1;
        }
        out.push((reexports[i].0.clone(), target));
        i = i + 1;
    }
    out
}

/// A module's names, each pointing at the item a re-export stands for where it names one.
fn redirect(env: Vec<(Vec<u8>, Vec<u8>)>, reexports: &Vec<(Vec<u8>, Vec<u8>)>) -> (r: Vec<(Vec<u8>, Vec<u8>)>)
    ensures
        r@.len() == env@.len(),
        forall|i: int| 0 <= i < r@.len() ==> (#[trigger] r@[i]).0@ == env@[i].0@,
        forall|i: int| 0 <= i < r@.len() ==> (exists|k: int| 0 <= k < reexports@.len() && reexports@[k].0@ == env@[i].1@
            && (#[trigger] r@[i]).1@ == reexports@[k].1@) || ((forall|k: int| 0 <= k < reexports@.len() ==> (#[trigger] reexports@[k]).0@ != env@[i].1@) && r@[i].1@ == env@[i].1@),
{
    let mut out: Vec<(Vec<u8>, Vec<u8>)> = Vec::new();
    let mut i: usize = 0;
    while i < env.len()
        invariant
            i <= env@.len(),
            out@.len() == i,
            forall|j: int| 0 <= j < i ==> (#[trigger] out@[j]).0@ == env@[j].0@,
            forall|j: int| 0 <= j < i ==> (exists|k: int| 0 <= k < reexports@.len() && reexports@[k].0@ == env@[j].1@
                && (#[trigger] out@[j]).1@ == reexports@[k].1@) || ((forall|k: int| 0 <= k < reexports@.len() ==> (#[trigger] reexports@[k]).0@ != env@[j].1@) && out@[j].1@ == env@[j].1@),
        decreases env@.len() - i,
    {
        let target = match lookup_env(reexports, env[i].1.as_slice()) {
            Some(k) => reexports[k].1.clone(),
            None => env[i].1.clone(),
        };
        out.push((env[i].0.clone(), target));
        i = i + 1;
    }
    out
}

/// Lex and parse one source file into its items; or the message of the first error.
pub fn parse_file(src: &[u8]) -> (r: Result<Vec<Expr>, Vec<u8>>)
    ensures
        crate::lexer::blank(src@) ==> (r matches Ok(v) && v@.len() == 0),
{
    let toks = match crate::lexer::lex(src) {
        Ok(t) => t,
        Err(e) => {
            return Err(e.msg);
        },
    };
    match crate::parser::parser(toks) {
        Ok(items) => Ok(items),
        Err(e) => Err(e.msg),
    }
}

/// The entry module holding one file's items; a lone file imports nothing.
pub fn entry_module(file: Vec<Expr>) -> (r: Result<Module, Diagnostic>)
    ensures
        r matches Ok(m) ==> m.name@ == "main".spec_bytes() && distinct_defs(m.items@) && no_declarations(m.items@),
        r matches Ok(m) ==> m.imports@.len() == 0,
        Loader::first_item_refused("main".spec_bytes(), file@) ==> r is Err,
        file@.len() == 0 ==> (r matches Ok(m) && m.items@.len() == 0),
        all_plain(file@) ==> (r matches Ok(m) && m.items@ == file@),
{
    let mut loader = Loader::new();
    let main_name = lit("main");
    let mut m = Module::new(main_name.as_slice());
    assert(m.items@ =~= Seq::<Expr>::empty());
    loader.add_file(&mut m, file)?;
    if m.imports.len() > 0 {
        let mut msg = lit("cannot find module `");
        push_all(&mut msg, m.imports[0].as_slice());
        push_str(&mut msg, "`");
        return Err(Diagnostic { msg });
    }
    Ok(m)
}

} // verus!
