#![verifier::loop_isolation(false)]

//! Ownership bookkeeping.
//! Every resource has one owner: a named binding, a container slot, or the scope that produced it.
//! Owned values register in the innermost scope and release when it exits.
use vstd::prelude::*;
use vstd::string::StringSliceAdditionalSpecFns;

use crate::ast::{BinOp, Expr};
use crate::ir::{Instr, NumKind, Op, Val};
use crate::translator::{Diagnostic, Local, Translator, diag, diag3};
use crate::types::{Typ, releasable, spec_releasable};

verus! {

/// How many enums a visited mask has not marked yet.
pub open spec fn unseen(seen: Seq<bool>) -> nat
    decreases seen.len(),
{
    if seen.len() == 0 {
        0
    } else {
        unseen(seen.drop_last()) + if seen.last() {
            0nat
        } else {
            1nat
        }
    }
}

/// Marking an enum that was not marked leaves one fewer unmarked.
pub proof fn lemma_unseen_mark(seen: Seq<bool>, i: int)
    requires
        0 <= i < seen.len(),
        !seen[i],
    ensures
        unseen(seen.update(i, true)) + 1 == unseen(seen),
    decreases seen.len(),
{
    if i == seen.len() - 1 {
        assert(seen.update(i, true).drop_last() =~= seen.drop_last());
    } else {
        assert(seen.update(i, true).drop_last() =~= seen.drop_last().update(i, true));
        lemma_unseen_mark(seen.drop_last(), i);
    }
}

/// Clearing a mark that was just set gives the mask back.
proof fn lemma_mark_undone(seen: Seq<bool>, i: int)
    requires
        0 <= i < seen.len(),
        !seen[i],
    ensures
        seen.update(i, true).update(i, false) == seen,
{
    assert(seen.update(i, true).update(i, false) =~= seen);
}

/// The mask with no enum marked.
pub open spec fn none_seen(n: nat) -> Seq<bool> {
    Seq::new(n, |i: int| false)
}

/// A type wrapped in `n` arrays.
pub open spec fn nest_arrays(t: Typ, n: nat) -> Typ
    decreases n,
{
    if n == 0 {
        t
    } else {
        Typ::Array(Box::new(nest_arrays(t, (n - 1) as nat)))
    }
}

/// Ownership does not fade with depth: however many arrays wrap a type, the whole owns a
/// `Drop` value exactly when the type does.
pub proof fn lemma_nesting_keeps_resources<'a>(tr: Translator<'a>, t: Typ, n: nat)
    ensures
        tr.spec_is_resource(nest_arrays(t, n)) == tr.spec_is_resource(t),
    decreases n,
{
    if n > 0 {
        lemma_nesting_keeps_resources(tr, t, (n - 1) as nat);
    }
}

/// The code `release_payload` appends for a resource payload: read the tag, the wanted tag,
/// compare them, and a conditional on that comparison with an empty else.
pub open spec fn release_payload_code(before: Translator, after: Translator, slot: usize, tag: u64) -> bool {
    let n = before.code@.len() as int;
    let c = after.code@;
    &&& c.len() == n + 4
    &&& c.take(n) == before.code@
    &&& c[n] == Instr::Store(before.nslots, Op::Tag(slot))
    &&& c[n + 1] matches Instr::Store(w, Op::Const(Val::Int(v)))
    &&& v == tag as i64
    &&& c[n + 2] matches Instr::Store(h, Op::Cmp(BinOp::Eq, a, b, _))
    &&& a == before.nslots
    &&& b == w
    &&& c[n + 3] matches Instr::If(g, _, e)
    &&& g == h
    &&& e@.len() == 0
}

impl<'a> Translator<'a> {
    /// Whether a type owns a value with a `Drop` hook, not looking again into the enums that
    /// `seen` marks: a struct that claims `Drop` or has such a field, an array, map or option
    /// of one, a tuple, sum or result with such a member, or an enum not yet looked into with
    /// such a payload.
    pub open spec fn spec_resource_seen(&self, t: Typ, seen: Seq<bool>) -> bool
        decreases unseen(seen), t,
    {
        match t {
            Typ::Struct(_, fs) => self.spec_claims(t, "Drop".spec_bytes()) || exists|i: int|
                0 <= i < fs@.len() && self.spec_resource_seen((#[trigger] fs@[i]).typ, seen),
            Typ::Tuple(ts) => exists|i: int| 0 <= i < ts@.len() && self.spec_resource_seen(#[trigger] ts@[i], seen),
            Typ::Sum(ts) => exists|i: int| 0 <= i < ts@.len() && self.spec_resource_seen(#[trigger] ts@[i], seen),
            Typ::Array(e) => self.spec_resource_seen(*e, seen),
            Typ::Dict(_, e) => self.spec_resource_seen(*e, seen),
            Typ::Option(e) => self.spec_resource_seen(*e, seen),
            Typ::Result(a, b) => self.spec_resource_seen(*a, seen) || self.spec_resource_seen(*b, seen),
            Typ::Enum(id) => {
                if id < self.enums@.len() && seen.len() == self.enums@.len() && !seen[id as int] {
                    proof {
                        lemma_unseen_mark(seen, id as int);
                    }
                    exists|v: int, k: int|
                        0 <= v < self.enums@[id as int].variants@.len() && 0 <= k
                            < self.enums@[id as int].variants@[v].payload@.len() && self.spec_resource_seen(
                            #[trigger] self.enums@[id as int].variants@[v].payload@[k],
                            seen.update(id as int, true),
                        )
                } else {
                    false
                }
            },
            _ => false,
        }
    }

    /// Whether a type has `Drop`, or owns something that does, however deeply.
    pub open spec fn spec_is_resource(&self, t: Typ) -> bool {
        self.spec_resource_seen(t, none_seen(self.enums@.len()))
    }

    /// Whether a resource copies through its `Copy` hook instead of moving: a struct that claims
    /// `Copy`, or that has a copying field and no move-only one; an array or map of such.
    pub open spec fn spec_is_copy(&self, t: Typ) -> bool
        decreases t,
    {
        match t {
            Typ::Struct(_, fs) => self.spec_claims(t, "Copy".spec_bytes()) || ((exists|i: int|
                0 <= i < fs@.len() && self.spec_is_copy((#[trigger] fs@[i]).typ)) && (forall|i: int|
                0 <= i < fs@.len() ==> !self.spec_is_resource((#[trigger] fs@[i]).typ) || self.spec_is_copy(
                    fs@[i].typ,
                ))),
            Typ::Array(e) => self.spec_is_copy(*e),
            Typ::Dict(_, e) => self.spec_is_copy(*e),
            _ => false,
        }
    }

    /// Whether a value of the type is move-only: a resource that does not copy.
    pub open spec fn spec_is_affine(&self, t: Typ) -> bool {
        self.spec_is_resource(t) && !self.spec_is_copy(t)
    }

    /// Whether a scope that holds a value of the type must release it.
    pub open spec fn spec_owns(&self, t: Typ) -> bool {
        spec_releasable(t) || self.spec_is_resource(t)
    }

    /// The slots each scope must release, with their types, innermost scope last.
    pub open spec fn owned_view(&self) -> Seq<Seq<(usize, Typ)>> {
        self.scopes@.map_values(|s: Vec<(usize, Typ)>| s@)
    }

    /// Whether some scope releases the slot.
    pub open spec fn spec_held(&self, slot: usize) -> bool {
        exists|s: int, k: int|
            0 <= s < self.scopes@.len() && 0 <= k < self.scopes@[s]@.len() && (#[trigger] self.scopes@[s]@[k]).0
                == slot
    }

    /// Whether a type owns a `Drop` value, skipping the enums `seen` marks; the mask is given back
    /// as it was.
    fn resource_seen(&self, t: &Typ, seen: &mut Vec<bool>) -> (r: bool)
        requires
            old(seen)@.len() == self.enums@.len(),
        ensures
            final(seen)@ == old(seen)@,
            r == self.spec_resource_seen(*t, old(seen)@),
        decreases unseen(old(seen)@), *t,
    {
        match t {
            Typ::Struct(_, fs) => {
                if self.claims(t, "Drop") {
                    return true;
                }
                let mut i: usize = 0;
                while i < fs.len()
                    invariant
                        i <= fs@.len(),
                        seen@ == old(seen)@,
                        old(seen)@.len() == self.enums@.len(),
                        forall|j: int| 0 <= j < i ==> !self.spec_resource_seen((#[trigger] fs@[j]).typ, seen@),
                    decreases fs@.len() - i,
                {
                    proof {
                        vstd::std_specs::vec::axiom_vec_index_decreases(*fs, i as int);
                    }
                    if self.resource_seen(&fs[i].typ, seen) {
                        return true;
                    }
                    i = i + 1;
                }
                false
            },
            Typ::Tuple(ts) | Typ::Sum(ts) => {
                let mut i: usize = 0;
                while i < ts.len()
                    invariant
                        i <= ts@.len(),
                        seen@ == old(seen)@,
                        old(seen)@.len() == self.enums@.len(),
                        forall|j: int| 0 <= j < i ==> !self.spec_resource_seen(#[trigger] ts@[j], seen@),
                    decreases ts@.len() - i,
                {
                    proof {
                        vstd::std_specs::vec::axiom_vec_index_decreases(*ts, i as int);
                    }
                    if self.resource_seen(&ts[i], seen) {
                        return true;
                    }
                    i = i + 1;
                }
                false
            },
            Typ::Array(e) => self.resource_seen(&**e, seen),
            Typ::Dict(_, e) => self.resource_seen(&**e, seen),
            Typ::Option(e) => self.resource_seen(&**e, seen),
            Typ::Result(a, b) => self.resource_seen(&**a, seen) || self.resource_seen(&**b, seen),
            Typ::Enum(id) => {
                let id = *id;
                if id >= self.enums.len() || seen[id] {
                    return false;
                }
                let ghost before = seen@;
                proof {
                    lemma_unseen_mark(before, id as int);
                    lemma_mark_undone(before, id as int);
                }
                seen.set(id, true);
                let vs = &self.enums[id].variants;
                let mut found = false;
                let mut v: usize = 0;
                while v < vs.len() && !found
                    invariant
                        v <= vs@.len(),
                        seen@ == before.update(id as int, true),
                        before == old(seen)@,
                        before.len() == self.enums@.len(),
                        id < self.enums@.len(),
                        vs == self.enums@[id as int].variants,
                        unseen(seen@) < unseen(before),
                        found ==> exists|x: int, y: int|
                            0 <= x < vs@.len() && 0 <= y < vs@[x].payload@.len() && self.spec_resource_seen(
                                #[trigger] vs@[x].payload@[y],
                                seen@,
                            ),
                        !found ==> forall|x: int, y: int|
                            0 <= x < v && 0 <= y < vs@[x].payload@.len() ==> !self.spec_resource_seen(
                                #[trigger] vs@[x].payload@[y],
                                seen@,
                            ),
                    decreases vs@.len() - v,
                {
                    let ps = &vs[v].payload;
                    let mut k: usize = 0;
                    while k < ps.len() && !found
                        invariant
                            v < vs@.len(),
                            ps == vs@[v as int].payload,
                            k <= ps@.len(),
                            seen@ == before.update(id as int, true),
                            before == old(seen)@,
                            before.len() == self.enums@.len(),
                            id < self.enums@.len(),
                            vs == self.enums@[id as int].variants,
                            unseen(seen@) < unseen(before),
                            found ==> exists|x: int, y: int|
                                0 <= x < vs@.len() && 0 <= y < vs@[x].payload@.len() && self.spec_resource_seen(
                                    #[trigger] vs@[x].payload@[y],
                                    seen@,
                                ),
                            !found ==> forall|x: int, y: int|
                                0 <= x < v && 0 <= y < vs@[x].payload@.len() ==> !self.spec_resource_seen(
                                    #[trigger] vs@[x].payload@[y],
                                    seen@,
                                ),
                            !found ==> forall|y: int| 0 <= y < k ==> !self.spec_resource_seen(#[trigger] ps@[y], seen@),
                        decreases ps@.len() - k,
                    {
                        if self.resource_seen(&ps[k], seen) {
                            found = true;
                        }
                        k = k + 1;
                    }
                    v = v + 1;
                }
                seen.set(id, false);
                found
            },
            _ => false,
        }
    }

    /// Check whether a type has `Drop`, or owns something that does.
    pub fn is_resource(&self, t: &Typ) -> (r: bool)
        ensures
            r == self.spec_is_resource(*t),
    {
        let mut seen: Vec<bool> = Vec::new();
        let mut i: usize = 0;
        while i < self.enums.len()
            invariant
                i <= self.enums@.len(),
                seen@ == none_seen(i as nat),
            decreases self.enums@.len() - i,
        {
            seen.push(false);
            i = i + 1;
            assert(seen@ =~= none_seen(i as nat));
        }
        self.resource_seen(t, &mut seen)
    }

    /// Check whether a resource copies through its hook instead of moving.
    pub fn is_copy(&self, t: &Typ) -> (r: bool)
        ensures
            r == self.spec_is_copy(*t),
        decreases *t,
    {
        match t {
            Typ::Struct(_, fs) => {
                if self.claims(t, "Copy") {
                    return true;
                }
                let mut any = false;
                let mut i: usize = 0;
                while i < fs.len()
                    invariant
                        i <= fs@.len(),
                        any == exists|j: int| 0 <= j < i && self.spec_is_copy((#[trigger] fs@[j]).typ),
                        forall|j: int|
                            0 <= j < i ==> !self.spec_is_resource((#[trigger] fs@[j]).typ) || self.spec_is_copy(
                                fs@[j].typ,
                            ),
                    decreases fs@.len() - i,
                {
                    proof {
                        vstd::std_specs::vec::axiom_vec_index_decreases(*fs, i as int);
                    }
                    let c = self.is_copy(&fs[i].typ);
                    if self.is_resource(&fs[i].typ) && !c {
                        return false;
                    }
                    any = any || c;
                    i = i + 1;
                }
                any
            },
            Typ::Array(e) => self.is_copy(&**e),
            Typ::Dict(_, e) => self.is_copy(&**e),
            _ => false,
        }
    }

    /// Whether a value of the type is move-only.
    pub fn is_affine(&self, t: &Typ) -> (r: bool)
        ensures
            r == self.spec_is_affine(*t),
    {
        self.is_resource(t) && !self.is_copy(t)
    }

    /// Whether a scope holding a value of the type releases it.
    pub fn owns(&self, t: &Typ) -> (r: bool)
        ensures
            r == self.spec_owns(*t),
    {
        releasable(t) || self.is_resource(t)
    }

    /// Make the innermost scope responsible for releasing a slot.
    pub fn own_local(&mut self, slot: usize, typ: Typ)
        ensures
            *final(self) == (Translator { scopes: final(self).scopes, ..*old(self) }),
            final(self).scopes@.len() == old(self).scopes@.len(),
            final(self).vars == old(self).vars,
            final(self).temps == old(self).temps,
            final(self).claims == old(self).claims,
            final(self).enums == old(self).enums,
            final(self).deferring == old(self).deferring,
            final(self).loops == old(self).loops,
            final(self).code == old(self).code,
            final(self).nslots == old(self).nslots,
            old(self).spec_owns(typ) && old(self).scopes@.len() > 0 ==> final(self).owned_view()
                == old(self).owned_view().update(
                old(self).scopes@.len() - 1,
                old(self).owned_view().last().push((slot, typ)),
            ),
            !old(self).spec_owns(typ) || old(self).scopes@.len() == 0 ==> final(self).owned_view()
                == old(self).owned_view(),
    {
        if self.owns(&typ) && self.scopes.len() > 0 {
            let last = self.scopes.len() - 1;
            let mut scope: Vec<(usize, Typ)> = Vec::new();
            std::mem::swap(&mut scope, &mut self.scopes[last]);
            scope.push((slot, typ));
            self.scopes.set(last, scope);
            proof {
                assert(self.owned_view() =~= old(self).owned_view().update(
                    old(self).scopes@.len() - 1,
                    old(self).owned_view().last().push((slot, typ)),
                ));
            }
        }
    }

    /// Declare a named binding that owns its value.
    pub fn bind_local(&mut self, name: &[u8], slot: usize, typ: Typ, mutable: bool)
        ensures
            final(self).vars@.len() == old(self).vars@.len() + 1,
            final(self).vars@.drop_last() == old(self).vars@,
            final(self).vars@.last().0@ == name@,
            final(self).vars@.last().1.slot == slot,
            final(self).vars@.last().1.mutable == mutable,
            crate::types::typ_eq(typ, final(self).vars@.last().1.typ),
            final(self).temps == old(self).temps,
            final(self).scopes@.len() == old(self).scopes@.len(),
            old(self).spec_owns(typ) && old(self).scopes@.len() > 0 ==> final(self).owned_view()
                == old(self).owned_view().update(
                old(self).scopes@.len() - 1,
                old(self).owned_view().last().push((slot, typ)),
            ),
            !old(self).spec_owns(typ) || old(self).scopes@.len() == 0 ==> final(self).owned_view()
                == old(self).owned_view(),
    {
        let kept = typ.copy();
        self.own_local(slot, typ);
        self.vars.push((crate::text::owned(name), Local { slot, typ: kept, mutable }));
        proof {
            assert(self.vars@.drop_last() =~= old(self).vars@);
        }
    }

    /// Whether moving a slot would take it out of a scope outside the innermost loop.
    pub open spec fn spec_loop_escape(&self, slot: usize) -> bool {
        self.loops@.len() > 0 && exists|s: int, k: int|
            0 <= s < self.loops@.last().depth && 0 <= s < self.scopes@.len() && 0 <= k
                < self.scopes@[s]@.len() && (#[trigger] self.scopes@[s]@[k]).0 == slot
    }

    /// Register a producer's fresh value with the innermost scope, until an owner takes it.
    pub fn temp(&mut self, slot: usize, typ: Typ)
        ensures
            final(self).vars == old(self).vars,
            final(self).code == old(self).code,
            final(self).nslots == old(self).nslots,
            final(self).scopes@.len() == old(self).scopes@.len(),
            old(self).spec_owns(typ) && old(self).scopes@.len() > 0 ==> final(self).owned_view()
                == old(self).owned_view().update(
                old(self).scopes@.len() - 1,
                old(self).owned_view().last().push((slot, typ)),
            ) && final(self).temps@ == old(self).temps@.push(slot),
            !old(self).spec_owns(typ) || old(self).scopes@.len() == 0 ==> final(self).owned_view()
                == old(self).owned_view() && final(self).temps == old(self).temps,
    {
        if self.owns(&typ) && self.scopes.len() > 0 {
            self.own_local(slot, typ);
            self.temps.push(slot);
        }
    }

    /// Hand a fresh value to a new owner: no scope releases it any more.
    pub fn untemp(&mut self, slot: usize)
        ensures
            final(self).vars == old(self).vars,
            final(self).released == old(self).released,
            final(self).defers == old(self).defers,
            final(self).scopes@.len() == old(self).scopes@.len(),
            old(self).temps@.contains(slot) ==> !final(self).temps@.contains(slot) && final(self).owned_view() == old(self).owned_view().without(slot),
            !old(self).temps@.contains(slot) ==> final(self).temps == old(self).temps
                && final(self).owned_view() == old(self).owned_view(),
    {
        let mut kept: Vec<usize> = Vec::new();
        let mut i: usize = 0;
        while i < self.temps.len()
            invariant
                i <= self.temps@.len(),
                self.temps == old(self).temps,
                forall|j: int| 0 <= j < kept@.len() ==> kept@[j] != slot,
            decreases self.temps@.len() - i,
        {
            if self.temps[i] != slot {
                kept.push(self.temps[i]);
            }
            i = i + 1;
        }
        let found = vec_has(&self.temps, slot);
        assert(!kept@.contains(slot));
        if found {
            self.temps = kept;
            self.drop_everywhere(slot);
        }
    }

    /// Remove a slot from every scope.
    pub fn drop_everywhere(&mut self, slot: usize)
        ensures
            final(self).vars == old(self).vars,
            final(self).temps == old(self).temps,
            final(self).loops == old(self).loops,
            final(self).deferring == old(self).deferring,
            final(self).released == old(self).released,
            final(self).defers == old(self).defers,
            final(self).scopes@.len() == old(self).scopes@.len(),
            final(self).owned_view() == old(self).owned_view().without(slot),
            !final(self).spec_held(slot),
    {
        let ghost keep = other_than(slot);
        let mut s: usize = 0;
        while s < self.scopes.len()
            invariant
                s <= self.scopes@.len() == old(self).scopes@.len(),
                self.vars == old(self).vars,
                self.temps == old(self).temps,
                self.loops == old(self).loops,
                self.deferring == old(self).deferring,
                self.released == old(self).released,
                self.defers == old(self).defers,
                forall|x: int| 0 <= x < s ==> #[trigger] self.scopes@[x]@ == old(self).scopes@[x]@.filter(keep),
                forall|x: int| s <= x < self.scopes@.len() ==> #[trigger] self.scopes@[x]@ == old(self).scopes@[x]@,
            decreases self.scopes@.len() - s,
        {
            let mut scope: Vec<(usize, Typ)> = Vec::new();
            std::mem::swap(&mut scope, &mut self.scopes[s]);
            let filtered = without_slot(scope, slot);
            self.scopes.set(s, filtered);
            s = s + 1;
        }
        proof {
            assert(self.owned_view() =~= old(self).owned_view().without(slot));
            assert forall|x: int, k: int|
                0 <= x < self.scopes@.len() && 0 <= k < self.scopes@[x]@.len() implies (
                #[trigger] self.scopes@[x]@[k]).0 != slot by {
                old(self).scopes@[x]@.lemma_filter_pred(keep, k);
            }
        }
    }

    /// Take a slot out of the releases of one scope, keeping its other entries and the other scopes.
    pub fn drop_in_scope(&mut self, depth: usize, slot: usize)
        requires
            depth < old(self).scopes@.len(),
        ensures
            final(self).vars == old(self).vars,
            final(self).temps == old(self).temps,
            final(self).loops == old(self).loops,
            final(self).deferring == old(self).deferring,
            final(self).scopes@.len() == old(self).scopes@.len(),
            final(self).owned_view() == old(self).owned_view().update(
                depth as int,
                old(self).owned_view()[depth as int].filter(other_than(slot)),
            ),
    {
        let mut scope: Vec<(usize, Typ)> = Vec::new();
        std::mem::swap(&mut scope, &mut self.scopes[depth]);
        let filtered = without_slot(scope, slot);
        self.scopes.set(depth, filtered);
        proof {
            assert(self.owned_view() =~= old(self).owned_view().update(
                depth as int,
                old(self).owned_view()[depth as int].filter(other_than(slot)),
            ));
        }
    }

    /// Whether `d` is the outermost scope that releases the slot.
    pub open spec fn first_holder(&self, slot: usize, d: int) -> bool {
        &&& 0 <= d < self.scopes@.len()
        &&& exists|k: int| 0 <= k < self.scopes@[d]@.len() && (#[trigger] self.scopes@[d]@[k]).0 == slot
        &&& forall|x: int, k: int| 0 <= x < d && 0 <= k < self.scopes@[x]@.len() ==> (
            #[trigger] self.scopes@[x]@[k]).0 != slot
    }

    /// Transfer ownership of a local binding: the name is gone, and the outermost scope that
    /// releases its slot no longer does.
    pub fn move_local(&mut self, name: &[u8], local: &Local) -> (r: Result<usize, Diagnostic>)
        ensures
            r is Ok <==> !old(self).deferring && (!old(self).spec_owns(local.typ) || (old(self).spec_held(
                local.slot,
            ) && !old(self).spec_loop_escape(local.slot))),
            r matches Ok(s) ==> s == local.slot && forall|i: int|
                0 <= i < final(self).vars@.len() ==> (#[trigger] final(self).vars@[i]).0@ != name@,
            r is Ok && !old(self).spec_owns(local.typ) ==> final(self).scopes == old(self).scopes,
            r is Ok && old(self).spec_owns(local.typ) ==> exists|d: int|
                old(self).first_holder(local.slot, d) && final(self).owned_view() == old(self).owned_view().update(
                    d,
                    old(self).owned_view()[d].filter(other_than(local.slot)),
                ),
            r is Ok ==> final(self).temps == old(self).temps && final(self).loops == old(self).loops,
            r is Err ==> final(self).vars == old(self).vars && final(self).scopes == old(self).scopes,
            final(self).deferring == old(self).deferring,
            old(self).deferring ==> (r matches Err(d) && d.msg@ == "cannot move a local out of a defer body".spec_bytes()),
            !old(self).deferring && old(self).spec_owns(local.typ) && !old(self).spec_held(local.slot) ==> (r matches Err(d) && d.msg@
                == "cannot move `".spec_bytes() + name@ + "`, it is borrowed here".spec_bytes()),
            !old(self).deferring && old(self).spec_owns(local.typ) && old(self).spec_held(local.slot) && old(self).spec_loop_escape(
                local.slot,
            ) ==> (r matches Err(d) && d.msg@ == "cannot move `".spec_bytes() + name@ + "` out of the enclosing loop".spec_bytes()),
    {
        if self.deferring {
            return Err(diag("cannot move a local out of a defer body"));
        }
        if self.owns(&local.typ) {
            // the outermost scope that holds the slot
            let mut depth: usize = 0;
            let mut found = false;
            while depth < self.scopes.len() && !found
                invariant
                    depth <= self.scopes@.len(),
                    found ==> depth < self.scopes@.len() && exists|k: int|
                        0 <= k < self.scopes@[depth as int]@.len() && (#[trigger] self.scopes@[depth as int]@[k]).0
                            == local.slot,
                    !found ==> forall|x: int, k: int|
                        0 <= x < depth && 0 <= k < self.scopes@[x]@.len() ==> (
                        #[trigger] self.scopes@[x]@[k]).0 != local.slot,
                    found ==> forall|x: int, k: int|
                        0 <= x < depth && 0 <= k < self.scopes@[x]@.len() ==> (
                        #[trigger] self.scopes@[x]@[k]).0 != local.slot,
                decreases self.scopes@.len() - depth, if found { 0int } else { 1int },
            {
                let mut k: usize = 0;
                while k < self.scopes[depth].len()
                    invariant
                        depth < self.scopes@.len(),
                        !found,
                        k <= self.scopes@[depth as int]@.len(),
                        forall|y: int| 0 <= y < k ==> (#[trigger] self.scopes@[depth as int]@[y]).0 != local.slot,
                    decreases self.scopes@[depth as int]@.len() - k,
                {
                    if self.scopes[depth][k].0 == local.slot {
                        found = true;
                        break;
                    }
                    k = k + 1;
                }
                if !found {
                    depth = depth + 1;
                }
            }
            if !found {
                return Err(diag3("cannot move `", name, "`, it is borrowed here"));
            }
            if self.loops.len() > 0 {
                let frame = self.loops[self.loops.len() - 1].depth;
                if depth < frame {
                    return Err(diag3("cannot move `", name, "` out of the enclosing loop"));
                }
            }
            proof {
                assert(old(self).first_holder(local.slot, depth as int));
            }
            self.drop_in_scope(depth, local.slot);
        }
        self.forget(name);
        Ok(local.slot)
    }

    /// Transfer ownership out of an expression; a projection only borrows, so it cannot be moved.
    pub fn move_out(&mut self, e: &Expr, typ: &Typ) -> (r: Result<(), Diagnostic>)
        ensures
            e is Index || e is Slice || e is Field ==> r is Err,
            !(e is Ident || e is Index || e is Slice || e is Field) ==> r is Ok && final(self).vars == old(self).vars && final(self).scopes == old(self).scopes,
            e matches Expr::Ident(n) ==> (r is Ok ==> forall|i: int|
                0 <= i < final(self).vars@.len() ==> (#[trigger] final(self).vars@[i]).0@ != n@),
            e matches Expr::Ident(n) ==> ((forall|i: int| 0 <= i < old(self).vars@.len() ==> (#[trigger] old(self).vars@[i]).0@ != n@)
                ==> (r matches Err(d) && d.msg@ == "undefined variable `".spec_bytes() + n@ + "`".spec_bytes())),
            e matches Expr::Ident(n) ==> ((exists|i: int| 0 <= i < old(self).vars@.len() && (#[trigger] old(self).vars@[i]).0@ == n@)
                && old(self).deferring ==> (r matches Err(d) && d.msg@ == "cannot move a local out of a defer body".spec_bytes())),
    {
        match e {
            Expr::Ident(n) => match self.find_var(n.as_slice()) {
                Some(i) => {
                    let local = self.vars[i].1.copy();
                    self.move_local(n.as_slice(), &local)?;
                    Ok(())
                },
                None => Err(diag3("undefined variable `", n.as_slice(), "`")),
            },
            Expr::Index { .. } | Expr::Slice { .. } | Expr::Field { .. } => {
                let shown = self.show(typ);
                Err(diag3("cannot move ", shown.as_slice(), " out of its container"))
            },
            _ => Ok(()),
        }
    }

    /// Transfer ownership of a resource, if its type moves.
    pub fn move_resource(&mut self, e: &Expr, typ: &Typ) -> (r: Result<(), Diagnostic>)
        ensures
            !old(self).spec_is_affine(*typ) ==> r is Ok && *final(self) == *old(self),
            old(self).spec_is_affine(*typ) && (e is Index || e is Slice || e is Field) ==> r is Err,
            old(self).spec_is_affine(*typ) ==> (e matches Expr::Ident(n) ==> (r is Ok ==> forall|i: int|
                0 <= i < final(self).vars@.len() ==> (#[trigger] final(self).vars@[i]).0@ != n@)),
            old(self).spec_is_affine(*typ) ==> (e matches Expr::Ident(n) ==> ((forall|i: int| 0 <= i < old(self).vars@.len()
                ==> (#[trigger] old(self).vars@[i]).0@ != n@) ==> (r matches Err(d) && d.msg@ == "undefined variable `".spec_bytes() + n@
                + "`".spec_bytes()))),
            old(self).spec_is_affine(*typ) && !(e is Ident || e is Index || e is Slice || e is Field) ==> r is Ok
                && final(self).vars == old(self).vars && final(self).scopes == old(self).scopes,
    {
        if self.is_affine(typ) {
            self.move_out(e, typ)
        } else {
            Ok(())
        }
    }

    /// Run a type's `drop` or `copy` hook on the value in a slot, if the type has it.
    pub(crate) fn run_hook(&mut self, slot: usize, t: &Typ, hook: &str)
        ensures
            final(self).vars == old(self).vars,
            final(self).scopes == old(self).scopes,
            final(self).temps == old(self).temps,
            !(t is Struct) ==> *final(self) == *old(self),
            t matches Typ::Struct(o, _) ==> ((forall|i: int|
                0 <= i < old(self).sigs@.len() ==> (#[trigger] old(self).sigs@[i]).name@ != o@ + seq![46u8]
                    + hook.spec_bytes()) ==> *final(self) == *old(self)),
            t matches Typ::Struct(o, _) ==> ((exists|i: int|
                0 <= i < old(self).sigs@.len() && (#[trigger] old(self).sigs@[i]).name@ == o@ + seq![46u8]
                    + hook.spec_bytes()) ==> {
                &&& final(self).code@.len() == old(self).code@.len() + 1
                &&& final(self).code@.take(old(self).code@.len() as int) == old(self).code@
                &&& final(self).code@.last() matches Instr::Store(s, Op::Call(id, args))
                &&& s == old(self).nslots
                &&& args@ == seq![slot]
                &&& exists|i: int|
                    0 <= i < old(self).sigs@.len() && (#[trigger] old(self).sigs@[i]).name@ == o@ + seq![
                        46u8,
                    ] + hook.spec_bytes() && old(self).sigs@[i].id == id
            }),
    {
        let owner = match t {
            Typ::Struct(n, _) => crate::text::owned(n.as_slice()),
            _ => {
                return;
            },
        };
        let h = crate::text::lit(hook);
        match self.find_method(owner.as_slice(), h.as_slice()) {
            Some(f) => {
                let id = self.sigs[f].id;
                let mut args: Vec<usize> = Vec::new();
                args.push(slot);
                let _ = self.op(Op::Call(id, args));
            },
            None => {},
        }
    }

    /// Emit the release of an owned value: its `drop` hook, then the release of what it owns,
    /// however deeply it is nested.
    pub(crate) fn release_value(&mut self, slot: usize, t: &Typ)
        ensures
            final(self).released@ == old(self).released@.push(slot),
            final(self).vars == old(self).vars,
            final(self).scopes == old(self).scopes,
            final(self).temps == old(self).temps,
    {
        let mut seen: Vec<bool> = Vec::new();
        let mut i: usize = 0;
        while i < self.enums.len()
            invariant
                i <= self.enums@.len(),
            decreases self.enums@.len() - i,
        {
            seen.push(false);
            i = i + 1;
        }
        let ghost before = self.released@;
        self.release_seen(slot, t, &mut seen);
        proof {
            self.released@ = before.push(slot);
        }
    }

    /// The release of an owned value, not unfolding again an enum that `seen` marks; the mask is
    /// given back as it was.
    fn release_seen(&mut self, slot: usize, t: &Typ, seen: &mut Vec<bool>)
        ensures
            final(seen)@ == old(seen)@,
            final(self).vars == old(self).vars,
            final(self).scopes == old(self).scopes,
            final(self).temps == old(self).temps,
        decreases unseen(old(seen)@), *t, 0nat,
    {
        if !self.is_resource(t) {
            return;
        }
        match t {
            Typ::Struct(_, fs) => {
                if self.claims(t, "Drop") {
                    self.run_hook(slot, t, "drop");
                }
                let mut i: usize = 0;
                while i < fs.len()
                    invariant
                        i <= fs@.len(),
                        seen@ == old(seen)@,
                        self.vars == old(self).vars,
                        self.scopes == old(self).scopes,
                        self.temps == old(self).temps,
                    decreases fs@.len() - i,
                {
                    proof {
                        vstd::std_specs::vec::axiom_vec_index_decreases(*fs, i as int);
                    }
                    if self.is_resource(&fs[i].typ) {
                        let f = self.op(Op::Field(slot, i));
                        self.release_seen(f, &fs[i].typ, seen);
                    }
                    i = i + 1;
                }
            },
            Typ::Tuple(ts) => {
                let mut i: usize = 0;
                while i < ts.len()
                    invariant
                        i <= ts@.len(),
                        seen@ == old(seen)@,
                        self.vars == old(self).vars,
                        self.scopes == old(self).scopes,
                        self.temps == old(self).temps,
                    decreases ts@.len() - i,
                {
                    proof {
                        vstd::std_specs::vec::axiom_vec_index_decreases(*ts, i as int);
                    }
                    if self.is_resource(&ts[i]) {
                        let f = self.op(Op::Field(slot, i));
                        self.release_seen(f, &ts[i], seen);
                    }
                    i = i + 1;
                }
            },
            Typ::Array(et) => {
                self.release_elements(slot, &**et, seen);
            },
            Typ::Sum(ts) => {
                let mut k: usize = 0;
                while k < ts.len()
                    invariant
                        k <= ts@.len(),
                        seen@ == old(seen)@,
                        self.vars == old(self).vars,
                        self.scopes == old(self).scopes,
                        self.temps == old(self).temps,
                    decreases ts@.len() - k,
                {
                    proof {
                        vstd::std_specs::vec::axiom_vec_index_decreases(*ts, k as int);
                    }
                    self.release_payload(slot, k as u64, 0, &ts[k], seen);
                    k = k + 1;
                }
            },
            Typ::Dict(_, vt) => {
                // the values, in the map's order
                let vals = self.op(Op::DictEntries(slot, true));
                self.release_elements(vals, &**vt, seen);
            },
            Typ::Option(inner) => {
                self.release_payload(slot, 1, 0, &**inner, seen);
            },
            Typ::Result(ok, err) => {
                self.release_payload(slot, 0, 0, &**ok, seen);
                self.release_payload(slot, 1, 0, &**err, seen);
            },
            Typ::Enum(id) => {
                let id = *id;
                if id < self.enums.len() && id < seen.len() && !seen[id] {
                    let variants = &self.enums[id].variants;
                    let mut plan: Vec<(u64, usize, Typ)> = Vec::new();
                    let mut v: usize = 0;
                    while v < variants.len()
                        invariant
                            v <= variants@.len(),
                        decreases variants@.len() - v,
                    {
                        let mut k: usize = 0;
                        while k < variants[v].payload.len()
                            invariant
                                v < variants@.len(),
                                k <= variants@[v as int].payload@.len(),
                            decreases variants@[v as int].payload@.len() - k,
                        {
                            plan.push((v as u64, k, variants[v].payload[k].copy()));
                            k = k + 1;
                        }
                        v = v + 1;
                    }
                    let ghost before = seen@;
                    proof {
                        lemma_unseen_mark(before, id as int);
                        lemma_mark_undone(before, id as int);
                    }
                    seen.set(id, true);
                    let mut p: usize = 0;
                    while p < plan.len()
                        invariant
                            p <= plan@.len(),
                            before == old(seen)@,
                            0 <= id < before.len(),
                            !before[id as int],
                            seen@ == before.update(id as int, true),
                            unseen(seen@) < unseen(before),
                            self.vars == old(self).vars,
                            self.scopes == old(self).scopes,
                            self.temps == old(self).temps,
                        decreases plan@.len() - p,
                    {
                        let (tag, k, pt) = (plan[p].0, plan[p].1, plan[p].2.copy());
                        self.release_payload(slot, tag, k, &pt, seen);
                        p = p + 1;
                    }
                    seen.set(id, false);
                }
            },
            _ => {},
        }
    }

    /// Release every element of an array in a slot, first to last.
    fn release_elements(&mut self, slot: usize, et: &Typ, seen: &mut Vec<bool>)
        ensures
            final(seen)@ == old(seen)@,
            final(self).vars == old(self).vars,
            final(self).scopes == old(self).scopes,
            final(self).temps == old(self).temps,
        decreases unseen(old(seen)@), *et, 1nat,
    {
        let idx = self.op(Op::Const(Val::Int(0)));
        let len = self.op(Op::Len(slot));
        let one = self.op(Op::Const(Val::Int(1)));
        let saved = self.open_block();
        let more = self.op(Op::Cmp(BinOp::Lt, idx, len, NumKind { width: 64, signed: true }));
        let mut stop: Vec<Instr> = Vec::new();
        stop.push(Instr::Break);
        self.emit(Instr::If(more, Vec::new(), stop));
        let item = self.op(Op::Index(slot, idx));
        self.emit(Instr::Store(idx, Op::Arith(BinOp::Add, idx, one, NumKind { width: 64, signed: true })));
        self.release_seen(item, et, seen);
        let body = self.close_block(saved);
        self.emit(Instr::Loop(body));
    }

    /// Release the `k`th payload value of a variant, when the value has that variant's tag, not
    /// unfolding again an enum that `seen` marks; the mask is given back as it was.
    pub(crate) fn release_payload(&mut self, slot: usize, tag: u64, k: usize, t: &Typ, seen: &mut Vec<bool>)
        ensures
            final(seen)@ == old(seen)@,
            final(self).vars == old(self).vars,
            final(self).scopes == old(self).scopes,
            final(self).temps == old(self).temps,
            !old(self).spec_is_resource(*t) ==> *final(self) == *old(self),
            old(self).spec_is_resource(*t) ==> release_payload_code(*old(self), *final(self), slot, tag),
        decreases unseen(old(seen)@), *t, 1nat,
    {
        if !self.is_resource(t) {
            return;
        }
        let tg = self.op(Op::Tag(slot));
        let want = self.op(Op::Const(Val::Int(tag as i64)));
        let hit = self.op(Op::Cmp(BinOp::Eq, tg, want, NumKind { width: 64, signed: true }));
        let saved = self.open_block();
        let p = self.op(Op::Payload(slot, k));
        self.release_seen(p, t, seen);
        let body = self.close_block(saved);
        self.emit(Instr::If(hit, body, Vec::new()));
        proof {
            let n = old(self).code@.len() as int;
            assert(self.code@[n] == Instr::Store(old(self).nslots, Op::Tag(slot)));
            assert(self.code@.take(n) =~= old(self).code@);
        }
    }

    /// Emit the `copy` hooks a duplicate runs: those of the copying resources it holds, then its
    /// own, however deeply they are nested.
    pub(crate) fn copy_hooks(&mut self, slot: usize, t: &Typ)
        ensures
            final(self).vars == old(self).vars,
            final(self).scopes == old(self).scopes,
            final(self).temps == old(self).temps,
        decreases *t, 0nat,
    {
        if !self.is_copy(t) {
            return;
        }
        match t {
            Typ::Struct(_, fs) => {
                let mut i: usize = 0;
                while i < fs.len()
                    invariant
                        i <= fs@.len(),
                        self.vars == old(self).vars,
                        self.scopes == old(self).scopes,
                        self.temps == old(self).temps,
                    decreases fs@.len() - i,
                {
                    proof {
                        vstd::std_specs::vec::axiom_vec_index_decreases(*fs, i as int);
                    }
                    if self.is_copy(&fs[i].typ) {
                        let f = self.op(Op::Field(slot, i));
                        self.copy_hooks(f, &fs[i].typ);
                    }
                    i = i + 1;
                }
                if self.claims(t, "Copy") {
                    self.run_hook(slot, t, "copy");
                }
            },
            Typ::Array(et) => {
                self.copy_elements(slot, &**et);
            },
            Typ::Dict(_, vt) => {
                let vals = self.op(Op::DictEntries(slot, true));
                self.copy_elements(vals, &**vt);
            },
            _ => {},
        }
    }

    /// Run the `copy` hooks of every element of an array in a slot, first to last.
    fn copy_elements(&mut self, slot: usize, et: &Typ)
        ensures
            final(self).vars == old(self).vars,
            final(self).scopes == old(self).scopes,
            final(self).temps == old(self).temps,
        decreases *et, 1nat,
    {
        let idx = self.op(Op::Const(Val::Int(0)));
        let len = self.op(Op::Len(slot));
        let one = self.op(Op::Const(Val::Int(1)));
        let saved = self.open_block();
        let more = self.op(Op::Cmp(BinOp::Lt, idx, len, NumKind { width: 64, signed: true }));
        let mut stop: Vec<Instr> = Vec::new();
        stop.push(Instr::Break);
        self.emit(Instr::If(more, Vec::new(), stop));
        let item = self.op(Op::Index(slot, idx));
        self.emit(Instr::Store(idx, Op::Arith(BinOp::Add, idx, one, NumKind { width: 64, signed: true })));
        self.copy_hooks(item, et);
        let body = self.close_block(saved);
        self.emit(Instr::Loop(body));
    }
}

/// The order a scope releases its values in: the last one it came to own goes first.
pub open spec fn spec_release_order(scope: Seq<(usize, Typ)>) -> Seq<usize> {
    scope.map_values(|e: (usize, Typ)| e.0).reverse()
}

/// The positions of a scope's entries, in the order the scope releases them.
pub fn release_order(scope: &Vec<(usize, Typ)>) -> (r: Vec<usize>)
    ensures
        r@.len() == scope@.len(),
        forall|k: int| 0 <= k < r@.len() ==> #[trigger] r@[k] == scope@.len() - 1 - k,
{
    let mut out: Vec<usize> = Vec::new();
    let mut j = scope.len();
    while j > 0
        invariant
            j <= scope@.len(),
            out@.len() == scope@.len() - j,
            forall|k: int| 0 <= k < out@.len() ==> #[trigger] out@[k] == scope@.len() - 1 - k,
        decreases j,
    {
        j = j - 1;
        out.push(j);
    }
    out
}

/// Values leave a scope last-in, first-out: of two values a scope owns, the one it came to own
/// later is released earlier.
pub proof fn lemma_release_is_lifo(scope: Seq<(usize, Typ)>, i: int, j: int)
    requires
        0 <= i < j < scope.len(),
    ensures
        spec_release_order(scope)[scope.len() - 1 - j] == scope[j].0,
        spec_release_order(scope)[scope.len() - 1 - i] == scope[i].0,
        scope.len() - 1 - j < scope.len() - 1 - i,
{
}

/// Whether a list of slots holds one.
pub fn vec_has(v: &Vec<usize>, x: usize) -> (r: bool)
    ensures
        r == v@.contains(x),
{
    let mut i: usize = 0;
    while i < v.len()
        invariant
            i <= v@.len(),
            forall|j: int| 0 <= j < i ==> v@[j] != x,
        decreases v@.len() - i,
    {
        if v[i] == x {
            assert(v@[i as int] == x);
            return true;
        }
        i = i + 1;
    }
    false
}

/// Whether an ownership entry is for another slot.
pub open spec fn other_than(slot: usize) -> spec_fn((usize, Typ)) -> bool {
    |e: (usize, Typ)| e.0 != slot
}

/// Ownership tables without a slot.
pub trait WithoutSlot {
    spec fn without(self, slot: usize) -> Self;
}

impl WithoutSlot for Seq<Seq<(usize, Typ)>> {
    open spec fn without(self, slot: usize) -> Self {
        self.map_values(|sc: Seq<(usize, Typ)>| sc.filter(other_than(slot)))
    }
}

/// The entries of a scope that are not the slot.
pub fn without_slot(scope: Vec<(usize, Typ)>, slot: usize) -> (r: Vec<(usize, Typ)>)
    ensures
        r@ == scope@.filter(other_than(slot)),
{
    let ghost keep = other_than(slot);
    let ghost whole = scope@;
    let mut rest = scope;
    let mut taken: Vec<(usize, Typ)> = Vec::new();
    // pop everything into `taken`, last first, then pop `taken` to walk in order
    while rest.len() > 0
        invariant
            rest@.len() <= whole.len(),
            rest@ == whole.take(rest@.len() as int),
            taken@.len() == whole.len() - rest@.len(),
            forall|j: int| 0 <= j < taken@.len() ==> #[trigger] taken@[j] == whole[whole.len() - 1 - j],
        decreases rest@.len(),
    {
        let ghost before = rest@;
        let e = rest.pop().unwrap();
        proof {
            assert(e == whole[before.len() - 1]);
            assert(rest@ =~= whole.take(rest@.len() as int));
        }
        taken.push(e);
    }
    let mut out: Vec<(usize, Typ)> = Vec::new();
    while taken.len() > 0
        invariant
            taken@.len() <= whole.len(),
            forall|j: int| 0 <= j < taken@.len() ==> #[trigger] taken@[j] == whole[whole.len() - 1 - j],
            out@ == whole.take(whole.len() - taken@.len()).filter(keep),
        decreases taken@.len(),
    {
        let ghost d = whole.len() - taken@.len();
        let e = taken.pop().unwrap();
        proof {
            assert(e == whole[d]);
            assert(whole.take(d + 1) =~= whole.take(d).push(whole[d]));
            whole.take(d).lemma_filter_push(whole[d], keep);
        }
        if e.0 != slot {
            out.push(e);
        }
    }
    assert(whole.take(whole.len() as int) =~= whole);
    out
}

} // verus!
