//! Cycle-safe equality and hashing of terms that embed free-variable
//! cells.
//!
//! A term may reach its own cell through a sandwich bound, so both
//! walks carry a recursion budget: when it runs out, equality answers
//! `false` and the hash mixes nothing further.  Two occurrences of the
//! same cell compare equal at once, without descending through it.

use vstd::prelude::*;

use crate::constraint::Constraint;
use crate::free::FreeKind;
use crate::free::FreeStore;
use crate::free::FreeTyParamVar;
use crate::free::FreeTyVar;
use crate::free::is_unbound_kind;
use crate::level::tp_height;
use crate::level::tps_height;
use crate::level::ty_height;
use crate::strutil::string_eq;

verus! {

/// Bounded equality of two type terms in a store, the specification
/// mirror of [`Type::eq_limited`]: structural equality that compares
/// same-cell variables equal immediately, compares unbound cells by
/// name, id, level and constraint, reads through resolved cells, and
/// answers `false` once the budget is spent.
pub open spec fn spec_ty_eq(s: FreeStore, a: Type, b: Type, limit: nat) -> bool
    decreases limit, ty_height(a) + ty_height(b),
{
    match (a, b) {
        (Type::FreeVar(v1), Type::FreeVar(v2)) => if v1 == v2 {
            true
        } else {
            spec_cell_eq_ty(s, v1, v2, limit)
        },
        (Type::FreeVar(v1), _) => spec_deref_eq_ty(s, v1, b, limit),
        (_, Type::FreeVar(v2)) => spec_deref_eq_ty(s, v2, a, limit),
        (Type::Never, Type::Never) => true,
        (Type::Obj, Type::Obj) => true,
        (Type::Type, Type::Type) => true,
        (Type::Mono(n1), Type::Mono(n2)) => n1@ == n2@,
        (Type::Poly { name: n1, params: p1 }, Type::Poly { name: n2, params: p2 }) => n1@ == n2@
            && spec_tps_eq(s, p1@, p2@, limit),
        _ => false,
    }
}

/// Bounded equality of a dereferenced variable against a term that is
/// itself no variable.
pub open spec fn spec_deref_eq_ty(s: FreeStore, v: FreeTyVar, b: Type, limit: nat) -> bool
    decreases limit, 0nat,
{
    if limit == 0 || !v.valid_in(s) {
        false
    } else {
        match v.cell(s) {
            FreeKind::Linked(t) => spec_ty_eq(s, t, b, (limit - 1) as nat),
            FreeKind::UndoableLinked { t, .. } => spec_ty_eq(s, t, b, (limit - 1) as nat),
            _ => false,
        }
    }
}

/// Bounded pairwise equality of two sequences of type parameters.
pub open spec fn spec_tps_eq(s: FreeStore, a: Seq<TyParam>, b: Seq<TyParam>, limit: nat) -> bool
    decreases limit, tps_height(a) + tps_height(b),
{
    if a.len() != b.len() {
        false
    } else if a.len() == 0 {
        true
    } else {
        spec_tp_eq(s, a[0], b[0], limit) && spec_tps_eq(s, a.drop_first(), b.drop_first(), limit)
    }
}

/// Bounded equality of two type-parameter terms.
pub open spec fn spec_tp_eq(s: FreeStore, a: TyParam, b: TyParam, limit: nat) -> bool
    decreases limit, tp_height(a) + tp_height(b),
{
    match (a, b) {
        (TyParam::FreeVar(v1), TyParam::FreeVar(v2)) => if v1 == v2 {
            true
        } else {
            spec_cell_eq_tp(s, v1, v2, limit)
        },
        (TyParam::FreeVar(v1), _) => spec_deref_eq_tp(s, v1, b, limit),
        (_, TyParam::FreeVar(v2)) => spec_deref_eq_tp(s, v2, a, limit),
        (TyParam::Value(x), TyParam::Value(y)) => x == y,
        (TyParam::Ty(t1), TyParam::Ty(t2)) => spec_ty_eq(s, *t1, *t2, limit),
        _ => false,
    }
}

/// Bounded equality of a dereferenced type-parameter variable against
/// a term that is no variable.
pub open spec fn spec_deref_eq_tp(s: FreeStore, v: FreeTyParamVar, b: TyParam, limit: nat) -> bool
    decreases limit, 0nat,
{
    if limit == 0 || !v.valid_in(s) {
        false
    } else {
        match v.cell(s) {
            FreeKind::Linked(t) => spec_tp_eq(s, t, b, (limit - 1) as nat),
            FreeKind::UndoableLinked { t, .. } => spec_tp_eq(s, t, b, (limit - 1) as nat),
            _ => false,
        }
    }
}

/// Bounded equality of two distinct type-variable cells: unbound cells
/// agree on name or id, level and constraint; resolved cells agree on
/// their terms.
pub open spec fn spec_cell_eq_ty(s: FreeStore, v1: FreeTyVar, v2: FreeTyVar, limit: nat) -> bool
    decreases limit, 0nat,
{
    if limit == 0 || !v1.valid_in(s) || !v2.valid_in(s) {
        false
    } else {
        match (v1.cell(s), v2.cell(s)) {
            (
                FreeKind::Unbound { id: i1, lev: l1, constraint: c1 },
                FreeKind::Unbound { id: i2, lev: l2, constraint: c2 },
            ) => i1 == i2 && l1 == l2 && spec_constraint_eq(s, c1, c2, (limit - 1) as nat),
            (
                FreeKind::NamedUnbound { name: n1, lev: l1, constraint: c1 },
                FreeKind::NamedUnbound { name: n2, lev: l2, constraint: c2 },
            ) => n1@ == n2@ && l1 == l2 && spec_constraint_eq(s, c1, c2, (limit - 1) as nat),
            (FreeKind::Linked(t1), FreeKind::Linked(t2)) => spec_ty_eq(
                s,
                t1,
                t2,
                (limit - 1) as nat,
            ),
            (FreeKind::Linked(t1), FreeKind::UndoableLinked { t: t2, .. }) => spec_ty_eq(
                s,
                t1,
                t2,
                (limit - 1) as nat,
            ),
            (FreeKind::UndoableLinked { t: t1, .. }, FreeKind::Linked(t2)) => spec_ty_eq(
                s,
                t1,
                t2,
                (limit - 1) as nat,
            ),
            (FreeKind::UndoableLinked { t: t1, .. }, FreeKind::UndoableLinked { t: t2, .. }) => spec_ty_eq(
                s,
                t1,
                t2,
                (limit - 1) as nat,
            ),
            _ => false,
        }
    }
}

/// Bounded equality of two distinct type-parameter-variable cells.
pub open spec fn spec_cell_eq_tp(
    s: FreeStore,
    v1: FreeTyParamVar,
    v2: FreeTyParamVar,
    limit: nat,
) -> bool
    decreases limit, 0nat,
{
    if limit == 0 || !v1.valid_in(s) || !v2.valid_in(s) {
        false
    } else {
        match (v1.cell(s), v2.cell(s)) {
            (
                FreeKind::Unbound { id: i1, lev: l1, constraint: c1 },
                FreeKind::Unbound { id: i2, lev: l2, constraint: c2 },
            ) => i1 == i2 && l1 == l2 && spec_constraint_eq(s, c1, c2, (limit - 1) as nat),
            (
                FreeKind::NamedUnbound { name: n1, lev: l1, constraint: c1 },
                FreeKind::NamedUnbound { name: n2, lev: l2, constraint: c2 },
            ) => n1@ == n2@ && l1 == l2 && spec_constraint_eq(s, c1, c2, (limit - 1) as nat),
            (FreeKind::Linked(t1), FreeKind::Linked(t2)) => spec_tp_eq(
                s,
                t1,
                t2,
                (limit - 1) as nat,
            ),
            (FreeKind::Linked(t1), FreeKind::UndoableLinked { t: t2, .. }) => spec_tp_eq(
                s,
                t1,
                t2,
                (limit - 1) as nat,
            ),
            (FreeKind::UndoableLinked { t: t1, .. }, FreeKind::Linked(t2)) => spec_tp_eq(
                s,
                t1,
                t2,
                (limit - 1) as nat,
            ),
            (FreeKind::UndoableLinked { t: t1, .. }, FreeKind::UndoableLinked { t: t2, .. }) => spec_tp_eq(
                s,
                t1,
                t2,
                (limit - 1) as nat,
            ),
            _ => false,
        }
    }
}

/// Summed structural height of the terms a constraint carries.
pub open spec fn constraint_height(c: Constraint) -> nat {
    match c {
        Constraint::Sandwiched { sub, sup } => ty_height(sub) + ty_height(sup),
        Constraint::TypeOf(t) => ty_height(t),
        Constraint::Uninited => 0,
    }
}

/// Bounded equality of two constraints in a store.
pub open spec fn spec_constraint_eq(s: FreeStore, a: Constraint, b: Constraint, limit: nat) -> bool
    decreases limit, 1 + constraint_height(a) + constraint_height(b),
{
    match (a, b) {
        (
            Constraint::Sandwiched { sub: s1, sup: p1 },
            Constraint::Sandwiched { sub: s2, sup: p2 },
        ) => spec_ty_eq(s, s1, s2, limit) && spec_ty_eq(s, p1, p2, limit),
        (Constraint::TypeOf(t1), Constraint::TypeOf(t2)) => spec_ty_eq(s, t1, t2, limit),
        (Constraint::Uninited, Constraint::Uninited) => true,
        _ => false,
    }
}

use crate::ty::TyParam;
use crate::ty::Type;

impl Type {
    /// Structural equality with a bounded recursion budget; terms
    /// containing the same cell compare equal without descending
    /// through a cycle.  Decides [`spec_ty_eq`].
    pub fn eq_limited(&self, other: &Type, s: &FreeStore, limit: usize) -> (r: bool)
        ensures
            r == spec_ty_eq(*s, *self, *other, limit as nat),
        decreases limit as nat, ty_height(*self) + ty_height(*other),
    {
        match (self, other) {
            (Type::FreeVar(v1), Type::FreeVar(v2)) => {
                if v1.idx == v2.idx {
                    true
                } else {
                    cell_eq_ty(s, *v1, *v2, limit)
                }
            },
            (Type::FreeVar(v1), _) => deref_eq_ty(s, *v1, other, limit),
            (_, Type::FreeVar(v2)) => deref_eq_ty(s, *v2, self, limit),
            (Type::Never, Type::Never) => true,
            (Type::Obj, Type::Obj) => true,
            (Type::Type, Type::Type) => true,
            (Type::Mono(n1), Type::Mono(n2)) => string_eq(n1, n2),
            (Type::Poly { name: n1, params: p1 }, Type::Poly { name: n2, params: p2 }) => {
                if !string_eq(n1, n2) {
                    return false;
                }
                if p1.len() != p2.len() {
                    return false;
                }
                let ghost ps1 = p1@;
                let ghost ps2 = p2@;
                proof {
                    assert(ps1.skip(0) =~= ps1);
                    assert(ps2.skip(0) =~= ps2);
                }
                let mut i: usize = 0;
                while i < p1.len()
                    invariant
                        i <= p1.len(),
                        p1@ == ps1,
                        p2@ == ps2,
                        ps1.len() == ps2.len(),
                        *self is Poly,
                        p1 == self->Poly_params,
                        *other is Poly,
                        p2 == other->Poly_params,
                        n1@ == n2@,
                        n1 == self->Poly_name,
                        n2 == other->Poly_name,
                        spec_tps_eq(*s, ps1, ps2, limit as nat) == spec_tps_eq(
                            *s,
                            ps1.skip(i as int),
                            ps2.skip(i as int),
                            limit as nat,
                        ),
                    decreases p1.len() - i,
                {
                    proof {
                        lemma_tps_height_elem_pair(ps1, ps2, i as int);
                        assert(ty_height(*self) == 1 + tps_height(ps1));
                        assert(ty_height(*other) == 1 + tps_height(ps2));
                        assert(ps1.skip(i as int).drop_first() =~= ps1.skip(i as int + 1));
                        assert(ps2.skip(i as int).drop_first() =~= ps2.skip(i as int + 1));
                        assert(ps1.skip(i as int)[0] == ps1[i as int]);
                        assert(ps2.skip(i as int)[0] == ps2[i as int]);
                    }
                    if !p1[i].eq_limited(&p2[i], s, limit) {
                        return false;
                    }
                    i += 1;
                }
                proof {
                    assert(ps1.skip(ps1.len() as int) =~= Seq::<TyParam>::empty());
                    assert(ps2.skip(ps2.len() as int) =~= Seq::<TyParam>::empty());
                }
                true
            },
            _ => false,
        }
    }
}

impl TyParam {
    /// Structural equality with a bounded recursion budget; decides
    /// [`spec_tp_eq`].
    pub fn eq_limited(&self, other: &TyParam, s: &FreeStore, limit: usize) -> (r: bool)
        ensures
            r == spec_tp_eq(*s, *self, *other, limit as nat),
        decreases limit as nat, tp_height(*self) + tp_height(*other),
    {
        match (self, other) {
            (TyParam::FreeVar(v1), TyParam::FreeVar(v2)) => {
                if v1.idx == v2.idx {
                    true
                } else {
                    cell_eq_tp(s, *v1, *v2, limit)
                }
            },
            (TyParam::FreeVar(v1), _) => deref_eq_tp(s, *v1, other, limit),
            (_, TyParam::FreeVar(v2)) => deref_eq_tp(s, *v2, self, limit),
            (TyParam::Value(x), TyParam::Value(y)) => x == y,
            (TyParam::Ty(t1), TyParam::Ty(t2)) => t1.eq_limited(t2, s, limit),
            _ => false,
        }
    }
}

/// Compares a dereferenced variable with a term that is no variable.
fn deref_eq_ty(s: &FreeStore, v: FreeTyVar, b: &Type, limit: usize) -> (r: bool)
    ensures
        r == spec_deref_eq_ty(*s, v, *b, limit as nat),
    decreases limit as nat, 0nat,
{
    if limit == 0 || v.idx >= s.ty_cells.len() {
        return false;
    }
    match &s.ty_cells[v.idx] {
        FreeKind::Linked(t) => t.eq_limited(b, s, limit - 1),
        FreeKind::UndoableLinked { t, .. } => t.eq_limited(b, s, limit - 1),
        _ => false,
    }
}

/// Compares a dereferenced type-parameter variable with a term that is
/// no variable.
fn deref_eq_tp(s: &FreeStore, v: FreeTyParamVar, b: &TyParam, limit: usize) -> (r: bool)
    ensures
        r == spec_deref_eq_tp(*s, v, *b, limit as nat),
    decreases limit as nat, 0nat,
{
    if limit == 0 || v.idx >= s.tp_cells.len() {
        return false;
    }
    match &s.tp_cells[v.idx] {
        FreeKind::Linked(t) => t.eq_limited(b, s, limit - 1),
        FreeKind::UndoableLinked { t, .. } => t.eq_limited(b, s, limit - 1),
        _ => false,
    }
}

/// Compares two distinct type-variable cells; decides
/// [`spec_cell_eq_ty`].
pub fn cell_eq_ty(s: &FreeStore, v1: FreeTyVar, v2: FreeTyVar, limit: usize) -> (r: bool)
    ensures
        r == spec_cell_eq_ty(*s, v1, v2, limit as nat),
    decreases limit as nat, 0nat,
{
    if limit == 0 || v1.idx >= s.ty_cells.len() || v2.idx >= s.ty_cells.len() {
        return false;
    }
    match (&s.ty_cells[v1.idx], &s.ty_cells[v2.idx]) {
        (
            FreeKind::Unbound { id: i1, lev: l1, constraint: c1 },
            FreeKind::Unbound { id: i2, lev: l2, constraint: c2 },
        ) => *i1 == *i2 && *l1 == *l2 && constraint_eq_limited(s, c1, c2, limit - 1),
        (
            FreeKind::NamedUnbound { name: n1, lev: l1, constraint: c1 },
            FreeKind::NamedUnbound { name: n2, lev: l2, constraint: c2 },
        ) => string_eq(n1, n2) && *l1 == *l2 && constraint_eq_limited(s, c1, c2, limit - 1),
        (FreeKind::Linked(t1), FreeKind::Linked(t2)) => t1.eq_limited(t2, s, limit - 1),
        (FreeKind::Linked(t1), FreeKind::UndoableLinked { t: t2, .. }) => t1.eq_limited(
            t2,
            s,
            limit - 1,
        ),
        (FreeKind::UndoableLinked { t: t1, .. }, FreeKind::Linked(t2)) => t1.eq_limited(
            t2,
            s,
            limit - 1,
        ),
        (FreeKind::UndoableLinked { t: t1, .. }, FreeKind::UndoableLinked { t: t2, .. }) => t1
            .eq_limited(t2, s, limit - 1),
        _ => false,
    }
}

/// Compares two distinct type-parameter-variable cells; decides
/// [`spec_cell_eq_tp`].
pub fn cell_eq_tp(s: &FreeStore, v1: FreeTyParamVar, v2: FreeTyParamVar, limit: usize) -> (r: bool)
    ensures
        r == spec_cell_eq_tp(*s, v1, v2, limit as nat),
    decreases limit as nat, 0nat,
{
    if limit == 0 || v1.idx >= s.tp_cells.len() || v2.idx >= s.tp_cells.len() {
        return false;
    }
    match (&s.tp_cells[v1.idx], &s.tp_cells[v2.idx]) {
        (
            FreeKind::Unbound { id: i1, lev: l1, constraint: c1 },
            FreeKind::Unbound { id: i2, lev: l2, constraint: c2 },
        ) => *i1 == *i2 && *l1 == *l2 && constraint_eq_limited(s, c1, c2, limit - 1),
        (
            FreeKind::NamedUnbound { name: n1, lev: l1, constraint: c1 },
            FreeKind::NamedUnbound { name: n2, lev: l2, constraint: c2 },
        ) => string_eq(n1, n2) && *l1 == *l2 && constraint_eq_limited(s, c1, c2, limit - 1),
        (FreeKind::Linked(t1), FreeKind::Linked(t2)) => t1.eq_limited(t2, s, limit - 1),
        (FreeKind::Linked(t1), FreeKind::UndoableLinked { t: t2, .. }) => t1.eq_limited(
            t2,
            s,
            limit - 1,
        ),
        (FreeKind::UndoableLinked { t: t1, .. }, FreeKind::Linked(t2)) => t1.eq_limited(
            t2,
            s,
            limit - 1,
        ),
        (FreeKind::UndoableLinked { t: t1, .. }, FreeKind::UndoableLinked { t: t2, .. }) => t1
            .eq_limited(t2, s, limit - 1),
        _ => false,
    }
}

/// Compares two constraints in a store; decides [`spec_constraint_eq`].
pub fn constraint_eq_limited(s: &FreeStore, a: &Constraint, b: &Constraint, limit: usize) -> (r:
    bool)
    ensures
        r == spec_constraint_eq(*s, *a, *b, limit as nat),
    decreases limit as nat, 1 + constraint_height(*a) + constraint_height(*b),
{
    match (a, b) {
        (
            Constraint::Sandwiched { sub: s1, sup: p1 },
            Constraint::Sandwiched { sub: s2, sup: p2 },
        ) => s1.eq_limited(s2, s, limit) && p1.eq_limited(p2, s, limit),
        (Constraint::TypeOf(t1), Constraint::TypeOf(t2)) => t1.eq_limited(t2, s, limit),
        (Constraint::Uninited, Constraint::Uninited) => true,
        _ => false,
    }
}

/// Both elements of a pair of sequences sit strictly below the summed
/// heights.
proof fn lemma_tps_height_elem_pair(a: Seq<TyParam>, b: Seq<TyParam>, i: int)
    requires
        0 <= i < a.len(),
        0 <= i < b.len(),
    ensures
        tp_height(a[i]) + tp_height(b[i]) < tps_height(a) + tps_height(b),
{
    crate::level::lemma_tps_height_elem(a, i);
    crate::level::lemma_tps_height_elem(b, i);
}


/// Two occurrences of the same cell compare equal at once, whatever
/// the budget: equality never descends through a cycle to decide them.
pub proof fn lemma_eq_same_cell(s: FreeStore, v: FreeTyVar, limit: nat)
    ensures
        spec_ty_eq(s, Type::FreeVar(v), Type::FreeVar(v), limit),
{
}

/// One mixing step of the structural hash.
pub open spec fn mix(h: u64, x: u64) -> u64 {
    ((h << 7) ^ (h >> 57)) ^ x
}

/// Folds a string's characters into a hash.
pub open spec fn spec_hash_chars(h: u64, cs: Seq<char>) -> u64
    decreases cs.len(),
{
    if cs.len() == 0 {
        h
    } else {
        spec_hash_chars(mix(h, cs[0] as u64), cs.drop_first())
    }
}

/// Structural hash of a type term, reading through cells for at most
/// `limit` dereference steps; the specification mirror of
/// [`Type::hash_limited`].
pub open spec fn spec_ty_hash(s: FreeStore, t: Type, limit: nat) -> u64
    decreases limit, ty_height(t),
{
    match t {
        Type::Never => 2,
        Type::Obj => 3,
        Type::Type => 5,
        Type::Mono(n) => spec_hash_chars(7, n@),
        Type::Poly { name, params } => spec_tps_hash(s, spec_hash_chars(11, name@), params@, limit),
        Type::FreeVar(v) => spec_cell_hash_ty(s, v, limit),
    }
}

/// Folds a sequence of type-parameter hashes into `h`.
pub open spec fn spec_tps_hash(s: FreeStore, h: u64, ps: Seq<TyParam>, limit: nat) -> u64
    decreases limit, tps_height(ps),
{
    if ps.len() == 0 {
        h
    } else {
        spec_tps_hash(s, mix(h, spec_tp_hash(s, ps[0], limit)), ps.drop_first(), limit)
    }
}

/// Structural hash of a type-parameter term.
pub open spec fn spec_tp_hash(s: FreeStore, p: TyParam, limit: nat) -> u64
    decreases limit, tp_height(p),
{
    match p {
        TyParam::Value(x) => mix(13, x as u64),
        TyParam::Ty(t) => mix(17, spec_ty_hash(s, *t, limit)),
        TyParam::FreeVar(v) => spec_cell_hash_tp(s, v, limit),
    }
}

/// Structural hash of a type-variable cell: name or id, level and
/// constraint for unbound cells, the term's hash through links.
pub open spec fn spec_cell_hash_ty(s: FreeStore, v: FreeTyVar, limit: nat) -> u64
    decreases limit, 0nat,
{
    if !v.valid_in(s) {
        0
    } else if limit == 0 {
        19
    } else {
        match v.cell(s) {
            FreeKind::Unbound { id, lev, constraint } => mix(
                mix(mix(19, id as u64), lev as u64),
                spec_constraint_hash(s, constraint, (limit - 1) as nat),
            ),
            FreeKind::NamedUnbound { name, lev, constraint } => mix(
                mix(spec_hash_chars(23, name@), lev as u64),
                spec_constraint_hash(s, constraint, (limit - 1) as nat),
            ),
            FreeKind::Linked(t) => spec_ty_hash(s, t, (limit - 1) as nat),
            FreeKind::UndoableLinked { t, .. } => spec_ty_hash(s, t, (limit - 1) as nat),
        }
    }
}

/// Structural hash of a type-parameter-variable cell.
pub open spec fn spec_cell_hash_tp(s: FreeStore, v: FreeTyParamVar, limit: nat) -> u64
    decreases limit, 0nat,
{
    if !v.valid_in(s) {
        0
    } else if limit == 0 {
        29
    } else {
        match v.cell(s) {
            FreeKind::Unbound { id, lev, constraint } => mix(
                mix(mix(29, id as u64), lev as u64),
                spec_constraint_hash(s, constraint, (limit - 1) as nat),
            ),
            FreeKind::NamedUnbound { name, lev, constraint } => mix(
                mix(spec_hash_chars(31, name@), lev as u64),
                spec_constraint_hash(s, constraint, (limit - 1) as nat),
            ),
            FreeKind::Linked(t) => spec_tp_hash(s, t, (limit - 1) as nat),
            FreeKind::UndoableLinked { t, .. } => spec_tp_hash(s, t, (limit - 1) as nat),
        }
    }
}

/// Structural hash of a constraint.
pub open spec fn spec_constraint_hash(s: FreeStore, c: Constraint, limit: nat) -> u64
    decreases limit, 1 + constraint_height(c),
{
    match c {
        Constraint::Sandwiched { sub, sup } => mix(
            mix(37, spec_ty_hash(s, sub, limit)),
            spec_ty_hash(s, sup, limit),
        ),
        Constraint::TypeOf(t) => mix(41, spec_ty_hash(s, t, limit)),
        Constraint::Uninited => 43,
    }
}

/// One mixing step of the structural hash.
fn mix_exec(h: u64, x: u64) -> (r: u64)
    ensures
        r == mix(h, x),
{
    ((h << 7u64) ^ (h >> 57u64)) ^ x
}

/// Folds a string's characters into a hash; decides
/// [`spec_hash_chars`].
fn hash_chars(h0: u64, cs: &str) -> (r: u64)
    ensures
        r == spec_hash_chars(h0, cs@),
{
    let n = cs.unicode_len();
    let ghost full = cs@;
    let mut h = h0;
    let mut i: usize = 0;
    proof {
        assert(full.skip(0) =~= full);
    }
    while i < n
        invariant
            i <= n,
            n == full.len(),
            cs@ == full,
            spec_hash_chars(h, full.skip(i as int)) == spec_hash_chars(h0, full),
        decreases n - i,
    {
        proof {
            assert(full.skip(i as int)[0] == full[i as int]);
            assert(full.skip(i as int).drop_first() =~= full.skip(i as int + 1));
        }
        let c = cs.get_char(i);
        h = mix_exec(h, c as u64);
        i += 1;
    }
    proof {
        assert(full.skip(n as int) =~= Seq::<char>::empty());
    }
    h
}

impl Type {
    /// Structural hash with a bounded recursion budget, so that terms
    /// with cyclic bounds hash in bounded time; decides
    /// [`spec_ty_hash`].
    pub fn hash_limited(&self, s: &FreeStore, limit: usize) -> (r: u64)
        ensures
            r == spec_ty_hash(*s, *self, limit as nat),
        decreases limit as nat, ty_height(*self),
    {
        match self {
            Type::Never => 2,
            Type::Obj => 3,
            Type::Type => 5,
            Type::Mono(n) => hash_chars(7, n.as_str()),
            Type::Poly { name, params } => {
                let ghost ps = params@;
                let mut h = hash_chars(11, name.as_str());
                let ghost h0 = h;
                let mut i: usize = 0;
                proof {
                    assert(ps.skip(0) =~= ps);
                }
                while i < params.len()
                    invariant
                        i <= params.len(),
                        params@ == ps,
                        *self is Poly,
                        params == self->Poly_params,
                        spec_tps_hash(*s, h, ps.skip(i as int), limit as nat) == spec_tps_hash(
                            *s,
                            h0,
                            ps,
                            limit as nat,
                        ),
                    decreases params.len() - i,
                {
                    proof {
                        crate::level::lemma_tps_height_elem(ps, i as int);
                        assert(ty_height(*self) == 1 + tps_height(ps));
                        assert(ps.skip(i as int)[0] == ps[i as int]);
                        assert(ps.skip(i as int).drop_first() =~= ps.skip(i as int + 1));
                    }
                    let hp = params[i].hash_limited(s, limit);
                    h = mix_exec(h, hp);
                    i += 1;
                }
                proof {
                    assert(ps.skip(ps.len() as int) =~= Seq::<TyParam>::empty());
                }
                h
            },
            Type::FreeVar(v) => cell_hash_ty(s, *v, limit),
        }
    }
}

impl TyParam {
    /// Structural hash with a bounded recursion budget; decides
    /// [`spec_tp_hash`].
    pub fn hash_limited(&self, s: &FreeStore, limit: usize) -> (r: u64)
        ensures
            r == spec_tp_hash(*s, *self, limit as nat),
        decreases limit as nat, tp_height(*self),
    {
        match self {
            TyParam::Value(x) => mix_exec(13, *x as u64),
            TyParam::Ty(t) => mix_exec(17, t.hash_limited(s, limit)),
            TyParam::FreeVar(v) => cell_hash_tp(s, *v, limit),
        }
    }
}

/// Hashes a type-variable cell; decides [`spec_cell_hash_ty`].
pub fn cell_hash_ty(s: &FreeStore, v: FreeTyVar, limit: usize) -> (r: u64)
    ensures
        r == spec_cell_hash_ty(*s, v, limit as nat),
    decreases limit as nat, 0nat,
{
    if v.idx >= s.ty_cells.len() {
        return 0;
    }
    if limit == 0 {
        return 19;
    }
    match &s.ty_cells[v.idx] {
        FreeKind::Unbound { id, lev, constraint } => {
            let hc = constraint_hash(s, constraint, limit - 1);
            mix_exec(mix_exec(mix_exec(19, *id as u64), *lev as u64), hc)
        },
        FreeKind::NamedUnbound { name, lev, constraint } => {
            let hn = hash_chars(23, name.as_str());
            let hc = constraint_hash(s, constraint, limit - 1);
            mix_exec(mix_exec(hn, *lev as u64), hc)
        },
        FreeKind::Linked(t) => t.hash_limited(s, limit - 1),
        FreeKind::UndoableLinked { t, .. } => t.hash_limited(s, limit - 1),
    }
}

/// Hashes a type-parameter-variable cell; decides
/// [`spec_cell_hash_tp`].
pub fn cell_hash_tp(s: &FreeStore, v: FreeTyParamVar, limit: usize) -> (r: u64)
    ensures
        r == spec_cell_hash_tp(*s, v, limit as nat),
    decreases limit as nat, 0nat,
{
    if v.idx >= s.tp_cells.len() {
        return 0;
    }
    if limit == 0 {
        return 29;
    }
    match &s.tp_cells[v.idx] {
        FreeKind::Unbound { id, lev, constraint } => {
            let hc = constraint_hash(s, constraint, limit - 1);
            mix_exec(mix_exec(mix_exec(29, *id as u64), *lev as u64), hc)
        },
        FreeKind::NamedUnbound { name, lev, constraint } => {
            let hn = hash_chars(31, name.as_str());
            let hc = constraint_hash(s, constraint, limit - 1);
            mix_exec(mix_exec(hn, *lev as u64), hc)
        },
        FreeKind::Linked(t) => t.hash_limited(s, limit - 1),
        FreeKind::UndoableLinked { t, .. } => t.hash_limited(s, limit - 1),
    }
}

/// Hashes a constraint; decides [`spec_constraint_hash`].
pub fn constraint_hash(s: &FreeStore, c: &Constraint, limit: usize) -> (r: u64)
    ensures
        r == spec_constraint_hash(*s, *c, limit as nat),
    decreases limit as nat, 1 + constraint_height(*c),
{
    match c {
        Constraint::Sandwiched { sub, sup } => {
            let h1 = sub.hash_limited(s, limit);
            let h2 = sup.hash_limited(s, limit);
            mix_exec(mix_exec(37, h1), h2)
        },
        Constraint::TypeOf(t) => mix_exec(41, t.hash_limited(s, limit)),
        Constraint::Uninited => 43,
    }
}


/// Structural equality of two variables by their constraints alone:
/// sandwiched variables agree on both bounds, carrier variables agree
/// on the carried type, and otherwise both must still be
/// uninitialized; names, ids and levels are not compared.
pub open spec fn spec_structural_eq(s: FreeStore, i: int, j: int, limit: nat) -> bool {
    let c1 = crate::free::resolved_constraint(s, i);
    let c2 = crate::free::resolved_constraint(s, j);
    if c1 is Some && c2 is Some {
        let a = c1.unwrap();
        let b = c2.unwrap();
        if a is Sandwiched && b is Sandwiched {
            spec_ty_eq(s, a->Sandwiched_sub, b->Sandwiched_sub, limit) && spec_ty_eq(
                s,
                a->Sandwiched_sup,
                b->Sandwiched_sup,
                limit,
            )
        } else if a.spec_get_type() is Some && b.spec_get_type() is Some {
            spec_ty_eq(s, a.spec_get_type().unwrap(), b.spec_get_type().unwrap(), limit)
        } else {
            a is Uninited && b is Uninited
        }
    } else {
        false
    }
}

impl FreeTyVar {
    /// Decides [`spec_structural_eq`] with a bounded recursion budget.
    pub fn structural_eq(self, other: FreeTyVar, s: &FreeStore, limit: usize) -> (r: bool)
        requires
            self.valid_in(*s),
            other.valid_in(*s),
            s.n_ty() < usize::MAX,
        ensures
            r == spec_structural_eq(*s, self.pos(), other.pos(), limit as nat),
    {
        let ta = self.resolve(s);
        let tb = other.resolve(s);
        match (ta, tb) {
            (Some(i), Some(j)) => {
                let ca = cell_constraint(s, i);
                let cb = cell_constraint(s, j);
                match (ca, cb) {
                    (
                        Constraint::Sandwiched { sub: s1, sup: p1 },
                        Constraint::Sandwiched { sub: s2, sup: p2 },
                    ) => s1.eq_limited(s2, s, limit) && p1.eq_limited(p2, s, limit),
                    (Constraint::Sandwiched { sub: s1, sup: p1 }, Constraint::TypeOf(t2)) => {
                        if matches!(s1, Type::Never) && matches!(p1, Type::Obj) {
                            Type::Type.eq_limited(t2, s, limit)
                        } else {
                            false
                        }
                    },
                    (Constraint::TypeOf(t1), Constraint::Sandwiched { sub: s2, sup: p2 }) => {
                        if matches!(s2, Type::Never) && matches!(p2, Type::Obj) {
                            t1.eq_limited(&Type::Type, s, limit)
                        } else {
                            false
                        }
                    },
                    (Constraint::TypeOf(t1), Constraint::TypeOf(t2)) => t1.eq_limited(
                        t2,
                        s,
                        limit,
                    ),
                    (Constraint::Uninited, Constraint::Uninited) => true,
                    _ => false,
                }
            },
            _ => false,
        }
    }
}

/// Borrows the constraint of an unbound cell by index.
fn cell_constraint(s: &FreeStore, i: usize) -> (r: &Constraint)
    requires
        i < s.n_ty(),
        crate::free::is_unbound_kind(s.ty_at(i as int)),
    ensures
        *r == crate::free::kind_constraint(s.ty_at(i as int)),
{
    match &s.ty_cells[i] {
        FreeKind::Unbound { constraint, .. } => constraint,
        FreeKind::NamedUnbound { constraint, .. } => constraint,
        _ => vstd::pervasive::unreached(),
    }
}


/// No cell of the store is resolved: every variable is still unbound,
/// as during unification before any link is installed.
pub open spec fn store_unresolved(s: FreeStore) -> bool {
    &&& forall|j: int| 0 <= j < s.n_ty() ==> is_unbound_kind(#[trigger] s.ty_at(j))
    &&& forall|j: int| 0 <= j < s.n_tp() ==> is_unbound_kind(#[trigger] s.tp_at(j))
}

/// Hashing is consistent with equality while no cell is resolved:
/// terms that compare equal at a budget hash equally at that budget.
/// A link lets equality spend the shared budget on one side of the
/// pair where the two independent hash walks cannot follow, so the
/// guarantee is stated for stores without links.
pub proof fn lemma_eq_hash_ty(s: FreeStore, a: Type, b: Type, limit: nat)
    requires
        store_unresolved(s),
        spec_ty_eq(s, a, b, limit),
    ensures
        spec_ty_hash(s, a, limit) == spec_ty_hash(s, b, limit),
    decreases limit, ty_height(a) + ty_height(b),
{
    match (a, b) {
        (Type::FreeVar(v1), Type::FreeVar(v2)) => {
            if v1 == v2 {
            } else {
                lemma_eq_hash_cell_ty(s, v1, v2, limit);
            }
        },
        (Type::FreeVar(v1), _) => {
            if 0 <= v1.pos() < s.n_ty() {
                assert(is_unbound_kind(s.ty_at(v1.pos())));
            }
            assert(false);
        },
        (_, Type::FreeVar(v2)) => {
            if 0 <= v2.pos() < s.n_ty() {
                assert(is_unbound_kind(s.ty_at(v2.pos())));
            }
            assert(false);
        },
        (Type::Poly { name: n1, params: p1 }, Type::Poly { name: n2, params: p2 }) => {
            assert(n1@ == n2@);
            lemma_eq_hash_tps(s, spec_hash_chars(11, n1@), p1@, p2@, limit);
        },
        _ => {},
    }
}

/// As [`lemma_eq_hash_ty`], folding a parameter sequence from any
/// shared accumulator.
proof fn lemma_eq_hash_tps(s: FreeStore, h: u64, ps1: Seq<TyParam>, ps2: Seq<TyParam>, limit: nat)
    requires
        store_unresolved(s),
        spec_tps_eq(s, ps1, ps2, limit),
    ensures
        spec_tps_hash(s, h, ps1, limit) == spec_tps_hash(s, h, ps2, limit),
    decreases limit, tps_height(ps1) + tps_height(ps2),
{
    if ps1.len() > 0 {
        lemma_eq_hash_tp(s, ps1[0], ps2[0], limit);
        lemma_eq_hash_tps(
            s,
            mix(h, spec_tp_hash(s, ps1[0], limit)),
            ps1.drop_first(),
            ps2.drop_first(),
            limit,
        );
    }
}

/// As [`lemma_eq_hash_ty`], for type-parameter terms.
proof fn lemma_eq_hash_tp(s: FreeStore, a: TyParam, b: TyParam, limit: nat)
    requires
        store_unresolved(s),
        spec_tp_eq(s, a, b, limit),
    ensures
        spec_tp_hash(s, a, limit) == spec_tp_hash(s, b, limit),
    decreases limit, tp_height(a) + tp_height(b),
{
    match (a, b) {
        (TyParam::FreeVar(v1), TyParam::FreeVar(v2)) => {
            if v1 == v2 {
            } else {
                lemma_eq_hash_cell_tp(s, v1, v2, limit);
            }
        },
        (TyParam::FreeVar(v1), _) => {
            if 0 <= v1.pos() < s.n_tp() {
                assert(is_unbound_kind(s.tp_at(v1.pos())));
            }
            assert(false);
        },
        (_, TyParam::FreeVar(v2)) => {
            if 0 <= v2.pos() < s.n_tp() {
                assert(is_unbound_kind(s.tp_at(v2.pos())));
            }
            assert(false);
        },
        (TyParam::Ty(t1), TyParam::Ty(t2)) => {
            lemma_eq_hash_ty(s, *t1, *t2, limit);
        },
        _ => {},
    }
}

/// As [`lemma_eq_hash_ty`], for two distinct unbound cells.
proof fn lemma_eq_hash_cell_ty(s: FreeStore, v1: FreeTyVar, v2: FreeTyVar, limit: nat)
    requires
        store_unresolved(s),
        spec_cell_eq_ty(s, v1, v2, limit),
    ensures
        spec_cell_hash_ty(s, v1, limit) == spec_cell_hash_ty(s, v2, limit),
    decreases limit, 0nat,
{
    match (v1.cell(s), v2.cell(s)) {
        (
            FreeKind::Unbound { constraint: c1, .. },
            FreeKind::Unbound { constraint: c2, .. },
        ) => {
            lemma_eq_hash_constraint(s, c1, c2, (limit - 1) as nat);
        },
        (
            FreeKind::NamedUnbound { constraint: c1, .. },
            FreeKind::NamedUnbound { constraint: c2, .. },
        ) => {
            lemma_eq_hash_constraint(s, c1, c2, (limit - 1) as nat);
        },
        _ => {},
    }
}

/// As [`lemma_eq_hash_ty`], for two distinct unbound type-parameter
/// cells.
proof fn lemma_eq_hash_cell_tp(s: FreeStore, v1: FreeTyParamVar, v2: FreeTyParamVar, limit: nat)
    requires
        store_unresolved(s),
        spec_cell_eq_tp(s, v1, v2, limit),
    ensures
        spec_cell_hash_tp(s, v1, limit) == spec_cell_hash_tp(s, v2, limit),
    decreases limit, 0nat,
{
    match (v1.cell(s), v2.cell(s)) {
        (
            FreeKind::Unbound { constraint: c1, .. },
            FreeKind::Unbound { constraint: c2, .. },
        ) => {
            lemma_eq_hash_constraint(s, c1, c2, (limit - 1) as nat);
        },
        (
            FreeKind::NamedUnbound { constraint: c1, .. },
            FreeKind::NamedUnbound { constraint: c2, .. },
        ) => {
            lemma_eq_hash_constraint(s, c1, c2, (limit - 1) as nat);
        },
        _ => {},
    }
}

/// As [`lemma_eq_hash_ty`], for constraints.
proof fn lemma_eq_hash_constraint(s: FreeStore, a: Constraint, b: Constraint, limit: nat)
    requires
        store_unresolved(s),
        spec_constraint_eq(s, a, b, limit),
    ensures
        spec_constraint_hash(s, a, limit) == spec_constraint_hash(s, b, limit),
    decreases limit, 1 + constraint_height(a) + constraint_height(b),
{
    match (a, b) {
        (
            Constraint::Sandwiched { sub: s1, sup: p1 },
            Constraint::Sandwiched { sub: s2, sup: p2 },
        ) => {
            lemma_eq_hash_ty(s, s1, s2, limit);
            lemma_eq_hash_ty(s, p1, p2, limit);
        },
        (Constraint::TypeOf(t1), Constraint::TypeOf(t2)) => {
            lemma_eq_hash_ty(s, t1, t2, limit);
        },
        _ => {},
    }
}

} // verus!
