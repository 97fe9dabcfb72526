//! Free-variable cells and the store that owns them.
//!
//! A cell is a shared mutable node of the type graph; sharing is
//! expressed by handles ([`FreeTyVar`], [`FreeTyParamVar`]) that index
//! into one [`FreeStore`].  Every mutation threads the store by `&mut`,
//! so the interior-mutability and forced-borrow machinery that a
//! pointer-based cell would need collapses into ordinary ownership;
//! cycle-breaking traversals use visited sets or depth limits instead.

use vstd::prelude::*;

use crate::GENERIC_LEVEL;
use crate::constraint::Constraint;
use crate::constraint::constraint_eqv;
use crate::strutil::string_eq;
use crate::ty::TyParam;
use crate::ty::Type;
use crate::ty::tp_eqv;
use crate::ty::ty_eqv;

verus! {

/// Handle of a free type-variable cell in a [`FreeStore`].
#[derive(Clone, Copy, PartialEq, Eq, Structural)]
pub struct FreeTyVar {
    /// Index of the cell in the store's type-variable cells.
    pub idx: usize,
}

/// Handle of a free type-parameter-variable cell in a [`FreeStore`].
#[derive(Clone, Copy, PartialEq, Eq, Structural)]
pub struct FreeTyParamVar {
    /// Index of the cell in the store's type-parameter-variable cells.
    pub idx: usize,
}

/// The state of one free-variable cell.  `T` is the kind of term the
/// cell can resolve to: [`Type`] or [`TyParam`].
pub enum FreeKind<T> {
    /// Definitively resolved to a term.
    Linked(T),
    /// Speculatively resolved; `previous` holds the full prior state so
    /// one [`FreeTyVar::undo`] restores it.
    UndoableLinked { t: T, previous: Box<FreeKind<T>> },
    /// A fresh anonymous variable; `id` is unique per store.
    Unbound { id: usize, lev: usize, constraint: Constraint },
    /// A user-written variable with a printable name.
    NamedUnbound { name: String, lev: usize, constraint: Constraint },
}

impl<T> FreeKind<T> {
    /// An anonymous unbound cell state with the given id.
    pub fn unbound(id: usize, lev: usize, constraint: Constraint) -> (r: Self)
        ensures
            r == (FreeKind::Unbound::<T> { id, lev, constraint }),
    {
        FreeKind::Unbound { id, lev, constraint }
    }

    /// A named unbound cell state.
    pub fn named_unbound(name: String, lev: usize, constraint: Constraint) -> (r: Self)
        ensures
            r == (FreeKind::NamedUnbound::<T> { name, lev, constraint }),
    {
        FreeKind::NamedUnbound { name, lev, constraint }
    }

    /// An anonymous unbound cell state with a fresh id drawn from the store.
    pub fn new_unbound(store: &mut FreeStore, lev: usize, constraint: Constraint) -> (r: Self)
        requires
            old(store).next_id < usize::MAX,
        ensures
            r == (FreeKind::Unbound::<T> {
                id: old(store).next_id,
                lev,
                constraint,
            }),
            final(store).ty_cells == old(store).ty_cells,
            final(store).tp_cells == old(store).tp_cells,
            final(store).next_id == old(store).next_id + 1,
    {
        let id = store.mint_id();
        FreeKind::Unbound { id, lev, constraint }
    }

    /// The definitively linked term, `None` for any other state.
    pub fn linked(&self) -> (r: Option<&T>)
        ensures
            r is Some <==> *self is Linked,
            r is Some ==> *r.unwrap() == self->Linked_0,
    {
        match self {
            FreeKind::Linked(t) => Some(t),
            _ => None,
        }
    }

    /// Mutable access to the definitively linked term.
    pub fn linked_mut(&mut self) -> (r: Option<&mut T>)
        ensures
            r is Some <==> *old(self) is Linked,
            r is Some ==> *r.unwrap() == old(self)->Linked_0 && *final(self) == FreeKind::Linked(
                *final(r.unwrap()),
            ),
            r is None ==> *final(self) == *old(self),
    {
        match self {
            FreeKind::Linked(t) => Some(t),
            _ => None,
        }
    }
}

/// Whether the cell state is resolved (definitively or speculatively).
pub open spec fn is_linked_kind<T>(k: FreeKind<T>) -> bool {
    k is Linked || k is UndoableLinked
}

/// Whether the cell state is an (anonymous or named) unbound variable.
pub open spec fn is_unbound_kind<T>(k: FreeKind<T>) -> bool {
    k is Unbound || k is NamedUnbound
}

/// The term a resolved cell state points to.
pub open spec fn linked_term<T>(k: FreeKind<T>) -> T
    recommends
        is_linked_kind(k),
{
    match k {
        FreeKind::Linked(t) => t,
        FreeKind::UndoableLinked { t, .. } => t,
        FreeKind::Unbound { .. } => arbitrary(),
        FreeKind::NamedUnbound { .. } => arbitrary(),
    }
}

/// The level of an unbound cell state.
pub open spec fn kind_level<T>(k: FreeKind<T>) -> usize
    recommends
        is_unbound_kind(k),
{
    match k {
        FreeKind::Unbound { lev, .. } => lev,
        FreeKind::NamedUnbound { lev, .. } => lev,
        _ => arbitrary(),
    }
}

/// The constraint of an unbound cell state.
pub open spec fn kind_constraint<T>(k: FreeKind<T>) -> Constraint
    recommends
        is_unbound_kind(k),
{
    match k {
        FreeKind::Unbound { constraint, .. } => constraint,
        FreeKind::NamedUnbound { constraint, .. } => constraint,
        _ => arbitrary(),
    }
}

/// Whether the anonymous id `id` occurs in this cell state, including
/// the states saved in an undoable link's history.
pub open spec fn kind_has_id<T>(k: FreeKind<T>, id: int) -> bool
    decreases k,
{
    match k {
        FreeKind::Unbound { id: i, .. } => i == id,
        FreeKind::UndoableLinked { previous, .. } => kind_has_id(*previous, id),
        _ => false,
    }
}

/// Equality of two type-variable cell states up to string contents:
/// resolved states (definitive or speculative) are compared by their
/// current term alone, the undo history playing no part; unbound
/// states agree on id or name, level and constraint.
pub open spec fn kind_eqv_ty(a: FreeKind<Type>, b: FreeKind<Type>) -> bool {
    if is_linked_kind(a) && is_linked_kind(b) {
        ty_eqv(linked_term(a), linked_term(b))
    } else {
        match (a, b) {
            (
                FreeKind::Unbound { id: i1, lev: l1, constraint: c1 },
                FreeKind::Unbound { id: i2, lev: l2, constraint: c2 },
            ) => i1 == i2 && l1 == l2 && constraint_eqv(c1, c2),
            (
                FreeKind::NamedUnbound { name: n1, lev: l1, constraint: c1 },
                FreeKind::NamedUnbound { name: n2, lev: l2, constraint: c2 },
            ) => n1@ == n2@ && l1 == l2 && constraint_eqv(c1, c2),
            _ => false,
        }
    }
}

/// Equality of two type-parameter-variable cell states, as
/// [`kind_eqv_ty`].
pub open spec fn kind_eqv_tp(a: FreeKind<TyParam>, b: FreeKind<TyParam>) -> bool {
    if is_linked_kind(a) && is_linked_kind(b) {
        tp_eqv(linked_term(a), linked_term(b))
    } else {
        match (a, b) {
            (
                FreeKind::Unbound { id: i1, lev: l1, constraint: c1 },
                FreeKind::Unbound { id: i2, lev: l2, constraint: c2 },
            ) => i1 == i2 && l1 == l2 && constraint_eqv(c1, c2),
            (
                FreeKind::NamedUnbound { name: n1, lev: l1, constraint: c1 },
                FreeKind::NamedUnbound { name: n2, lev: l2, constraint: c2 },
            ) => n1@ == n2@ && l1 == l2 && constraint_eqv(c1, c2),
            _ => false,
        }
    }
}

/// Full-state equality of two type-variable cell states up to string
/// contents: the variants must match exactly and a speculative link's
/// saved history is compared too.  Restoration checks use this; for
/// the equality the cells themselves expose, see [`kind_eqv_ty`].
pub open spec fn kind_state_eqv_ty(a: FreeKind<Type>, b: FreeKind<Type>) -> bool
    decreases a,
{
    match (a, b) {
        (FreeKind::Linked(t1), FreeKind::Linked(t2)) => ty_eqv(t1, t2),
        (
            FreeKind::UndoableLinked { t: t1, previous: p1 },
            FreeKind::UndoableLinked { t: t2, previous: p2 },
        ) => ty_eqv(t1, t2) && kind_state_eqv_ty(*p1, *p2),
        (
            FreeKind::Unbound { id: i1, lev: l1, constraint: c1 },
            FreeKind::Unbound { id: i2, lev: l2, constraint: c2 },
        ) => i1 == i2 && l1 == l2 && constraint_eqv(c1, c2),
        (
            FreeKind::NamedUnbound { name: n1, lev: l1, constraint: c1 },
            FreeKind::NamedUnbound { name: n2, lev: l2, constraint: c2 },
        ) => n1@ == n2@ && l1 == l2 && constraint_eqv(c1, c2),
        _ => false,
    }
}

/// Full-state equality of two type-parameter-variable cell states, as
/// [`kind_state_eqv_ty`].
pub open spec fn kind_state_eqv_tp(a: FreeKind<TyParam>, b: FreeKind<TyParam>) -> bool
    decreases a,
{
    match (a, b) {
        (FreeKind::Linked(t1), FreeKind::Linked(t2)) => tp_eqv(t1, t2),
        (
            FreeKind::UndoableLinked { t: t1, previous: p1 },
            FreeKind::UndoableLinked { t: t2, previous: p2 },
        ) => tp_eqv(t1, t2) && kind_state_eqv_tp(*p1, *p2),
        (
            FreeKind::Unbound { id: i1, lev: l1, constraint: c1 },
            FreeKind::Unbound { id: i2, lev: l2, constraint: c2 },
        ) => i1 == i2 && l1 == l2 && constraint_eqv(c1, c2),
        (
            FreeKind::NamedUnbound { name: n1, lev: l1, constraint: c1 },
            FreeKind::NamedUnbound { name: n2, lev: l2, constraint: c2 },
        ) => n1@ == n2@ && l1 == l2 && constraint_eqv(c1, c2),
        _ => false,
    }
}

/// The store owning every free-variable cell of one inference run,
/// together with the monotonic counter that mints anonymous ids.
pub struct FreeStore {
    /// Cells of free type variables.
    pub ty_cells: Vec<FreeKind<Type>>,
    /// Cells of free type-parameter variables.
    pub tp_cells: Vec<FreeKind<TyParam>>,
    /// The next anonymous id; ids already minted are strictly below it.
    pub next_id: usize,
}

impl FreeStore {
    /// Number of type-variable cells.
    pub open spec fn n_ty(self) -> nat {
        self.ty_cells@.len()
    }

    /// Number of type-parameter-variable cells.
    pub open spec fn n_tp(self) -> nat {
        self.tp_cells@.len()
    }

    /// The type-variable cell at index `i`.
    pub open spec fn ty_at(self, i: int) -> FreeKind<Type> {
        self.ty_cells@[i]
    }

    /// The type-parameter-variable cell at index `i`.
    pub open spec fn tp_at(self, i: int) -> FreeKind<TyParam> {
        self.tp_cells@[i]
    }

    /// Every id occurring in a cell was minted: it lies below `next_id`.
    pub open spec fn ids_bounded(self) -> bool {
        &&& forall|i: int, id: int|
            0 <= i < self.n_ty() && #[trigger] kind_has_id(self.ty_at(i), id) ==> 0 <= id
                < self.next_id
        &&& forall|i: int, id: int|
            0 <= i < self.n_tp() && #[trigger] kind_has_id(self.tp_at(i), id) ==> 0 <= id
                < self.next_id
    }

    /// No id occurs in two different cells, histories included.
    pub open spec fn ids_disjoint(self) -> bool {
        &&& forall|i: int, j: int, id: int|
            0 <= i < self.n_ty() && 0 <= j < self.n_ty() && i != j && #[trigger] kind_has_id(
                self.ty_at(i),
                id,
            ) ==> !#[trigger] kind_has_id(self.ty_at(j), id)
        &&& forall|i: int, j: int, id: int|
            0 <= i < self.n_ty() && 0 <= j < self.n_tp() && #[trigger] kind_has_id(
                self.ty_at(i),
                id,
            ) ==> !#[trigger] kind_has_id(self.tp_at(j), id)
        &&& forall|i: int, j: int, id: int|
            0 <= i < self.n_tp() && 0 <= j < self.n_tp() && i != j && #[trigger] kind_has_id(
                self.tp_at(i),
                id,
            ) ==> !#[trigger] kind_has_id(self.tp_at(j), id)
    }

    /// Well-formedness: minted ids are in range and pairwise distinct.
    pub open spec fn wf(self) -> bool {
        self.ids_bounded() && self.ids_disjoint()
    }

    /// An empty store.  Ids start at 1.
    pub fn new() -> (s: Self)
        ensures
            s.n_ty() == 0,
            s.n_tp() == 0,
            s.next_id == 1,
            s.wf(),
    {
        FreeStore { ty_cells: Vec::new(), tp_cells: Vec::new(), next_id: 1 }
    }

    /// Draws the next anonymous id; ids are never reused.
    fn mint_id(&mut self) -> (id: usize)
        requires
            old(self).next_id < usize::MAX,
        ensures
            id == old(self).next_id,
            final(self).next_id == old(self).next_id + 1,
            final(self).ty_cells == old(self).ty_cells,
            final(self).tp_cells == old(self).tp_cells,
    {
        let id = self.next_id;
        self.next_id = self.next_id + 1;
        id
    }
}

/// No cell of the store contains the id `id`.
pub open spec fn id_unused(s: FreeStore, id: int) -> bool {
    &&& forall|j: int| 0 <= j < s.n_ty() ==> !#[trigger] kind_has_id(s.ty_at(j), id)
    &&& forall|j: int| 0 <= j < s.n_tp() ==> !#[trigger] kind_has_id(s.tp_at(j), id)
}

/// Every id of the cell state `k` is below `bound` and unused in `s`.
pub open spec fn kind_ids_fresh<T>(s: FreeStore, k: FreeKind<T>, bound: int) -> bool {
    forall|id: int| #[trigger] kind_has_id(k, id) ==> 0 <= id < bound && id_unused(s, id)
}

/// Everything but the type-variable cell `i` is kept between two stores.
pub open spec fn ty_frame(s0: FreeStore, s1: FreeStore, i: int) -> bool {
    &&& s1.n_ty() == s0.n_ty()
    &&& s1.n_tp() == s0.n_tp()
    &&& s1.next_id == s0.next_id
    &&& forall|j: int| 0 <= j < s0.n_ty() && j != i ==> s1.ty_at(j) == s0.ty_at(j)
    &&& forall|j: int| 0 <= j < s0.n_tp() ==> s1.tp_at(j) == s0.tp_at(j)
}

/// Everything but the type-parameter-variable cell `i` is kept.
pub open spec fn tp_frame(s0: FreeStore, s1: FreeStore, i: int) -> bool {
    &&& s1.n_ty() == s0.n_ty()
    &&& s1.n_tp() == s0.n_tp()
    &&& s1.next_id == s0.next_id
    &&& forall|j: int| 0 <= j < s0.n_ty() ==> s1.ty_at(j) == s0.ty_at(j)
    &&& forall|j: int| 0 <= j < s0.n_tp() && j != i ==> s1.tp_at(j) == s0.tp_at(j)
}

/// Appending a type-variable cell whose ids are fresh keeps the store
/// well-formed.
proof fn lemma_wf_after_push_ty(s0: FreeStore, s1: FreeStore, k: FreeKind<Type>)
    requires
        s0.wf(),
        s1.ty_cells@ == s0.ty_cells@.push(k),
        s1.tp_cells@ == s0.tp_cells@,
        s0.next_id <= s1.next_id,
        kind_ids_fresh(s0, k, s1.next_id as int),
    ensures
        s1.wf(),
{
    let n = s0.n_ty() as int;
    assert forall|i: int, id: int|
        0 <= i < s1.n_ty() && #[trigger] kind_has_id(s1.ty_at(i), id) implies 0 <= id
        < s1.next_id by {
        if i < n {
            assert(kind_has_id(s0.ty_at(i), id));
        }
    }
    assert forall|i: int, j: int, id: int|
        0 <= i < s1.n_ty() && 0 <= j < s1.n_ty() && i != j && #[trigger] kind_has_id(
            s1.ty_at(i),
            id,
        ) implies !#[trigger] kind_has_id(s1.ty_at(j), id) by {
        if kind_has_id(s1.ty_at(j), id) {
            if i < n {
                assert(kind_has_id(s0.ty_at(i), id));
            } else {
                assert(id_unused(s0, id));
            }
            if j < n {
                assert(kind_has_id(s0.ty_at(j), id));
            } else {
                assert(id_unused(s0, id));
            }
            assert(false);
        }
    }
    assert forall|i: int, j: int, id: int|
        0 <= i < s1.n_ty() && 0 <= j < s1.n_tp() && #[trigger] kind_has_id(
            s1.ty_at(i),
            id,
        ) implies !#[trigger] kind_has_id(s1.tp_at(j), id) by {
        if kind_has_id(s1.tp_at(j), id) {
            assert(kind_has_id(s0.tp_at(j), id));
            if i < n {
                assert(kind_has_id(s0.ty_at(i), id));
            } else {
                assert(id_unused(s0, id));
            }
            assert(false);
        }
    }
    assert forall|i: int, id: int|
        0 <= i < s1.n_tp() && #[trigger] kind_has_id(s1.tp_at(i), id) implies 0 <= id
        < s1.next_id by {
        assert(kind_has_id(s0.tp_at(i), id));
    }
    assert forall|i: int, j: int, id: int|
        0 <= i < s1.n_tp() && 0 <= j < s1.n_tp() && i != j && #[trigger] kind_has_id(
            s1.tp_at(i),
            id,
        ) implies !#[trigger] kind_has_id(s1.tp_at(j), id) by {
        if kind_has_id(s1.tp_at(j), id) {
            assert(kind_has_id(s0.tp_at(i), id));
            assert(kind_has_id(s0.tp_at(j), id));
            assert(false);
        }
    }
}

/// Appending a type-parameter-variable cell whose ids are fresh keeps
/// the store well-formed.
proof fn lemma_wf_after_push_tp(s0: FreeStore, s1: FreeStore, k: FreeKind<TyParam>)
    requires
        s0.wf(),
        s1.tp_cells@ == s0.tp_cells@.push(k),
        s1.ty_cells@ == s0.ty_cells@,
        s0.next_id <= s1.next_id,
        kind_ids_fresh(s0, k, s1.next_id as int),
    ensures
        s1.wf(),
{
    let n = s0.n_tp() as int;
    assert forall|i: int, id: int|
        0 <= i < s1.n_tp() && #[trigger] kind_has_id(s1.tp_at(i), id) implies 0 <= id
        < s1.next_id by {
        if i < n {
            assert(kind_has_id(s0.tp_at(i), id));
        }
    }
    assert forall|i: int, j: int, id: int|
        0 <= i < s1.n_tp() && 0 <= j < s1.n_tp() && i != j && #[trigger] kind_has_id(
            s1.tp_at(i),
            id,
        ) implies !#[trigger] kind_has_id(s1.tp_at(j), id) by {
        if kind_has_id(s1.tp_at(j), id) {
            if i < n {
                assert(kind_has_id(s0.tp_at(i), id));
            } else {
                assert(id_unused(s0, id));
            }
            if j < n {
                assert(kind_has_id(s0.tp_at(j), id));
            } else {
                assert(id_unused(s0, id));
            }
            assert(false);
        }
    }
    assert forall|i: int, j: int, id: int|
        0 <= i < s1.n_ty() && 0 <= j < s1.n_tp() && #[trigger] kind_has_id(
            s1.ty_at(i),
            id,
        ) implies !#[trigger] kind_has_id(s1.tp_at(j), id) by {
        if kind_has_id(s1.tp_at(j), id) {
            assert(kind_has_id(s0.ty_at(i), id));
            if j < n {
                assert(kind_has_id(s0.tp_at(j), id));
            } else {
                assert(id_unused(s0, id));
            }
            assert(false);
        }
    }
    assert forall|i: int, id: int|
        0 <= i < s1.n_ty() && #[trigger] kind_has_id(s1.ty_at(i), id) implies 0 <= id
        < s1.next_id by {
        assert(kind_has_id(s0.ty_at(i), id));
    }
    assert forall|i: int, j: int, id: int|
        0 <= i < s1.n_ty() && 0 <= j < s1.n_ty() && i != j && #[trigger] kind_has_id(
            s1.ty_at(i),
            id,
        ) implies !#[trigger] kind_has_id(s1.ty_at(j), id) by {
        if kind_has_id(s1.ty_at(j), id) {
            assert(kind_has_id(s0.ty_at(i), id));
            assert(kind_has_id(s0.ty_at(j), id));
            assert(false);
        }
    }
}

/// Overwriting the type-variable cell `i` with a state whose ids come
/// from the old state of that same cell, or are fresh, keeps the store
/// well-formed.
proof fn lemma_wf_after_set_ty(s0: FreeStore, s1: FreeStore, i: int, k: FreeKind<Type>)
    requires
        s0.wf(),
        0 <= i < s0.n_ty(),
        s1.ty_cells@ == s0.ty_cells@.update(i, k),
        s1.tp_cells@ == s0.tp_cells@,
        s0.next_id <= s1.next_id,
        forall|id: int| #[trigger]
            kind_has_id(k, id) ==> kind_has_id(s0.ty_at(i), id) || (0 <= id < s1.next_id
                && id_unused(s0, id)),
    ensures
        s1.wf(),
{
    assert forall|a: int, id: int|
        0 <= a < s1.n_ty() && #[trigger] kind_has_id(s1.ty_at(a), id) implies 0 <= id
        < s1.next_id by {
        if a != i {
            assert(kind_has_id(s0.ty_at(a), id));
        } else {
            if kind_has_id(s0.ty_at(i), id) {
            }
        }
    }
    assert forall|a: int, b: int, id: int|
        0 <= a < s1.n_ty() && 0 <= b < s1.n_ty() && a != b && #[trigger] kind_has_id(
            s1.ty_at(a),
            id,
        ) implies !#[trigger] kind_has_id(s1.ty_at(b), id) by {
        if kind_has_id(s1.ty_at(b), id) {
            if a != i {
                assert(kind_has_id(s0.ty_at(a), id));
            } else {
                if kind_has_id(s0.ty_at(i), id) {
                } else {
                    assert(id_unused(s0, id));
                }
            }
            if b != i {
                assert(kind_has_id(s0.ty_at(b), id));
            } else {
                if kind_has_id(s0.ty_at(i), id) {
                } else {
                    assert(id_unused(s0, id));
                }
            }
            assert(false);
        }
    }
    assert forall|a: int, b: int, id: int|
        0 <= a < s1.n_ty() && 0 <= b < s1.n_tp() && #[trigger] kind_has_id(
            s1.ty_at(a),
            id,
        ) implies !#[trigger] kind_has_id(s1.tp_at(b), id) by {
        if kind_has_id(s1.tp_at(b), id) {
            assert(kind_has_id(s0.tp_at(b), id));
            if a != i {
                assert(kind_has_id(s0.ty_at(a), id));
            } else {
                if kind_has_id(s0.ty_at(i), id) {
                } else {
                    assert(id_unused(s0, id));
                }
            }
            assert(false);
        }
    }
    assert forall|a: int, id: int|
        0 <= a < s1.n_tp() && #[trigger] kind_has_id(s1.tp_at(a), id) implies 0 <= id
        < s1.next_id by {
        assert(kind_has_id(s0.tp_at(a), id));
    }
    assert forall|a: int, b: int, id: int|
        0 <= a < s1.n_tp() && 0 <= b < s1.n_tp() && a != b && #[trigger] kind_has_id(
            s1.tp_at(a),
            id,
        ) implies !#[trigger] kind_has_id(s1.tp_at(b), id) by {
        if kind_has_id(s1.tp_at(b), id) {
            assert(kind_has_id(s0.tp_at(a), id));
            assert(kind_has_id(s0.tp_at(b), id));
            assert(false);
        }
    }
}

/// Overwriting the type-parameter-variable cell `i` with a state whose
/// ids come from the old state of that same cell, or are fresh, keeps
/// the store well-formed.
proof fn lemma_wf_after_set_tp(s0: FreeStore, s1: FreeStore, i: int, k: FreeKind<TyParam>)
    requires
        s0.wf(),
        0 <= i < s0.n_tp(),
        s1.tp_cells@ == s0.tp_cells@.update(i, k),
        s1.ty_cells@ == s0.ty_cells@,
        s0.next_id <= s1.next_id,
        forall|id: int| #[trigger]
            kind_has_id(k, id) ==> kind_has_id(s0.tp_at(i), id) || (0 <= id < s1.next_id
                && id_unused(s0, id)),
    ensures
        s1.wf(),
{
    assert forall|a: int, id: int|
        0 <= a < s1.n_tp() && #[trigger] kind_has_id(s1.tp_at(a), id) implies 0 <= id
        < s1.next_id by {
        if a != i {
            assert(kind_has_id(s0.tp_at(a), id));
        } else {
            if kind_has_id(s0.tp_at(i), id) {
            }
        }
    }
    assert forall|a: int, id: int|
        0 <= a < s1.n_ty() && #[trigger] kind_has_id(s1.ty_at(a), id) implies 0 <= id
        < s1.next_id by {
        assert(kind_has_id(s0.ty_at(a), id));
    }
    assert forall|a: int, b: int, id: int|
        0 <= a < s1.n_tp() && 0 <= b < s1.n_tp() && a != b && #[trigger] kind_has_id(
            s1.tp_at(a),
            id,
        ) implies !#[trigger] kind_has_id(s1.tp_at(b), id) by {
        if kind_has_id(s1.tp_at(b), id) {
            if a != i {
                assert(kind_has_id(s0.tp_at(a), id));
            } else {
                if kind_has_id(s0.tp_at(i), id) {
                } else {
                    assert(id_unused(s0, id));
                }
            }
            if b != i {
                assert(kind_has_id(s0.tp_at(b), id));
            } else {
                if kind_has_id(s0.tp_at(i), id) {
                } else {
                    assert(id_unused(s0, id));
                }
            }
            assert(false);
        }
    }
    assert forall|a: int, b: int, id: int|
        0 <= a < s1.n_ty() && 0 <= b < s1.n_tp() && #[trigger] kind_has_id(
            s1.ty_at(a),
            id,
        ) implies !#[trigger] kind_has_id(s1.tp_at(b), id) by {
        if kind_has_id(s1.tp_at(b), id) {
            assert(kind_has_id(s0.ty_at(a), id));
            if b != i {
                assert(kind_has_id(s0.tp_at(b), id));
            } else {
                if kind_has_id(s0.tp_at(i), id) {
                } else {
                    assert(id_unused(s0, id));
                }
            }
            assert(false);
        }
    }
    assert forall|a: int, b: int, id: int|
        0 <= a < s1.n_ty() && 0 <= b < s1.n_ty() && a != b && #[trigger] kind_has_id(
            s1.ty_at(a),
            id,
        ) implies !#[trigger] kind_has_id(s1.ty_at(b), id) by {
        if kind_has_id(s1.ty_at(b), id) {
            assert(kind_has_id(s0.ty_at(a), id));
            assert(kind_has_id(s0.ty_at(b), id));
            assert(false);
        }
    }
}

/// Fresh-id uniqueness: in a well-formed store no two unbound cells
/// carry the same id, however they were produced; every store operation
/// of this module preserves well-formedness, and `new_unbound` always
/// mints an id no existing cell contains.
pub proof fn lemma_fresh_ids_unique(s: FreeStore, i: int, j: int)
    requires
        s.wf(),
        0 <= i < s.n_ty(),
        0 <= j < s.n_ty(),
        i != j,
        s.ty_at(i) is Unbound,
        s.ty_at(j) is Unbound,
    ensures
        s.ty_at(i)->Unbound_id != s.ty_at(j)->Unbound_id,
{
    assert(kind_has_id(s.ty_at(i), s.ty_at(i)->Unbound_id as int));
    assert(kind_has_id(s.ty_at(j), s.ty_at(j)->Unbound_id as int));
}


impl FreeTyVar {
    /// The index of the cell this handle names.
    pub open spec fn pos(self) -> int {
        self.idx as int
    }

    /// Whether the handle names a cell of the store.
    pub open spec fn valid_in(self, s: FreeStore) -> bool {
        0 <= self.pos() < s.n_ty()
    }

    /// The state of the cell this handle names.
    pub open spec fn cell(self, s: FreeStore) -> FreeKind<Type> {
        s.ty_at(self.pos())
    }
}

impl FreeTyParamVar {
    /// The index of the cell this handle names.
    pub open spec fn pos(self) -> int {
        self.idx as int
    }

    /// Whether the handle names a cell of the store.
    pub open spec fn valid_in(self, s: FreeStore) -> bool {
        0 <= self.pos() < s.n_tp()
    }

    /// The state of the cell this handle names.
    pub open spec fn cell(self, s: FreeStore) -> FreeKind<TyParam> {
        s.tp_at(self.pos())
    }
}

impl FreeStore {
    /// A fresh anonymous type variable at the given level.
    pub fn new_unbound(&mut self, level: usize, constraint: Constraint) -> (v: FreeTyVar)
        requires
            old(self).next_id < usize::MAX,
        ensures
            v.pos() == old(self).n_ty(),
            v.valid_in(*final(self)),
            final(self).n_ty() == old(self).n_ty() + 1,
            final(self).n_tp() == old(self).n_tp(),
            final(self).next_id == old(self).next_id + 1,
            forall|j: int| 0 <= j < old(self).n_ty() ==> final(self).ty_at(j) == old(self).ty_at(j),
            forall|j: int| 0 <= j < old(self).n_tp() ==> final(self).tp_at(j) == old(self).tp_at(j),
            v.cell(*final(self)) == (FreeKind::Unbound::<Type> {
                id: old(self).next_id,
                lev: level,
                constraint,
            }),
            old(self).wf() ==> final(self).wf(),
    {
        let ghost s0 = *self;
        let id = self.mint_id();
        let v = FreeTyVar { idx: self.ty_cells.len() };
        let k = FreeKind::Unbound { id, lev: level, constraint };
        self.ty_cells.push(k);
        proof {
            if s0.wf() {
                assert forall|x: int| #[trigger] kind_has_id(v.cell(*self), x) implies s0.next_id
                    <= x < self.next_id && id_unused(s0, x) by {
                    assert forall|j: int| 0 <= j < s0.n_ty() implies !#[trigger] kind_has_id(
                        s0.ty_at(j),
                        x,
                    ) by {
                        if kind_has_id(s0.ty_at(j), x) {
                            assert(false);
                        }
                    }
                    assert forall|j: int| 0 <= j < s0.n_tp() implies !#[trigger] kind_has_id(
                        s0.tp_at(j),
                        x,
                    ) by {
                        if kind_has_id(s0.tp_at(j), x) {
                            assert(false);
                        }
                    }
                }
                lemma_wf_after_push_ty(s0, *self, v.cell(*self));
            }
        }
        v
    }

    /// A fresh named type variable at the given level.
    pub fn new_named_unbound(&mut self, name: String, level: usize, constraint: Constraint) -> (v:
        FreeTyVar)
        ensures
            v.pos() == old(self).n_ty(),
            v.valid_in(*final(self)),
            final(self).n_ty() == old(self).n_ty() + 1,
            final(self).n_tp() == old(self).n_tp(),
            final(self).next_id == old(self).next_id,
            forall|j: int| 0 <= j < old(self).n_ty() ==> final(self).ty_at(j) == old(self).ty_at(j),
            forall|j: int| 0 <= j < old(self).n_tp() ==> final(self).tp_at(j) == old(self).tp_at(j),
            v.cell(*final(self)) == (FreeKind::NamedUnbound::<Type> { name, lev: level, constraint }),
            old(self).wf() ==> final(self).wf(),
    {
        let ghost s0 = *self;
        let v = FreeTyVar { idx: self.ty_cells.len() };
        let k = FreeKind::NamedUnbound { name, lev: level, constraint };
        self.ty_cells.push(k);
        proof {
            if s0.wf() {
                lemma_wf_after_push_ty(s0, *self, v.cell(*self));
            }
        }
        v
    }

    /// A cell born already resolved to `t`.
    pub fn new_linked(&mut self, t: Type) -> (v: FreeTyVar)
        ensures
            v.pos() == old(self).n_ty(),
            v.valid_in(*final(self)),
            final(self).n_ty() == old(self).n_ty() + 1,
            final(self).n_tp() == old(self).n_tp(),
            final(self).next_id == old(self).next_id,
            forall|j: int| 0 <= j < old(self).n_ty() ==> final(self).ty_at(j) == old(self).ty_at(j),
            forall|j: int| 0 <= j < old(self).n_tp() ==> final(self).tp_at(j) == old(self).tp_at(j),
            v.cell(*final(self)) == FreeKind::Linked(t),
            old(self).wf() ==> final(self).wf(),
    {
        let ghost s0 = *self;
        let v = FreeTyVar { idx: self.ty_cells.len() };
        self.ty_cells.push(FreeKind::Linked(t));
        proof {
            if s0.wf() {
                lemma_wf_after_push_ty(s0, *self, v.cell(*self));
            }
        }
        v
    }

    /// A cell in an arbitrary starting state.
    pub fn new_cell(&mut self, k: FreeKind<Type>) -> (v: FreeTyVar)
        ensures
            v.pos() == old(self).n_ty(),
            v.valid_in(*final(self)),
            final(self).n_ty() == old(self).n_ty() + 1,
            final(self).n_tp() == old(self).n_tp(),
            final(self).next_id == old(self).next_id,
            forall|j: int| 0 <= j < old(self).n_ty() ==> final(self).ty_at(j) == old(self).ty_at(j),
            forall|j: int| 0 <= j < old(self).n_tp() ==> final(self).tp_at(j) == old(self).tp_at(j),
            v.cell(*final(self)) == k,
            old(self).wf() && kind_ids_fresh(*old(self), k, old(self).next_id as int)
                ==> final(self).wf(),
    {
        let ghost s0 = *self;
        let v = FreeTyVar { idx: self.ty_cells.len() };
        self.ty_cells.push(k);
        proof {
            if s0.wf() && kind_ids_fresh(s0, v.cell(*self), s0.next_id as int) {
                lemma_wf_after_push_ty(s0, *self, v.cell(*self));
            }
        }
        v
    }

    /// A fresh anonymous type-parameter variable at the given level.
    pub fn new_unbound_tp(&mut self, level: usize, constraint: Constraint) -> (v: FreeTyParamVar)
        requires
            old(self).next_id < usize::MAX,
        ensures
            v.pos() == old(self).n_tp(),
            v.valid_in(*final(self)),
            final(self).n_tp() == old(self).n_tp() + 1,
            final(self).n_ty() == old(self).n_ty(),
            final(self).next_id == old(self).next_id + 1,
            forall|j: int| 0 <= j < old(self).n_ty() ==> final(self).ty_at(j) == old(self).ty_at(j),
            forall|j: int| 0 <= j < old(self).n_tp() ==> final(self).tp_at(j) == old(self).tp_at(j),
            v.cell(*final(self)) == (FreeKind::Unbound::<TyParam> {
                id: old(self).next_id,
                lev: level,
                constraint,
            }),
            old(self).wf() ==> final(self).wf(),
    {
        let ghost s0 = *self;
        let id = self.mint_id();
        let v = FreeTyParamVar { idx: self.tp_cells.len() };
        let k = FreeKind::Unbound { id, lev: level, constraint };
        self.tp_cells.push(k);
        proof {
            if s0.wf() {
                assert forall|x: int| #[trigger] kind_has_id(v.cell(*self), x) implies s0.next_id
                    <= x < self.next_id && id_unused(s0, x) by {
                    assert forall|j: int| 0 <= j < s0.n_ty() implies !#[trigger] kind_has_id(
                        s0.ty_at(j),
                        x,
                    ) by {
                        if kind_has_id(s0.ty_at(j), x) {
                            assert(false);
                        }
                    }
                    assert forall|j: int| 0 <= j < s0.n_tp() implies !#[trigger] kind_has_id(
                        s0.tp_at(j),
                        x,
                    ) by {
                        if kind_has_id(s0.tp_at(j), x) {
                            assert(false);
                        }
                    }
                }
                lemma_wf_after_push_tp(s0, *self, v.cell(*self));
            }
        }
        v
    }

    /// A fresh named type-parameter variable at the given level.
    pub fn new_named_unbound_tp(
        &mut self,
        name: String,
        level: usize,
        constraint: Constraint,
    ) -> (v: FreeTyParamVar)
        ensures
            v.pos() == old(self).n_tp(),
            v.valid_in(*final(self)),
            final(self).n_tp() == old(self).n_tp() + 1,
            final(self).n_ty() == old(self).n_ty(),
            final(self).next_id == old(self).next_id,
            forall|j: int| 0 <= j < old(self).n_ty() ==> final(self).ty_at(j) == old(self).ty_at(j),
            forall|j: int| 0 <= j < old(self).n_tp() ==> final(self).tp_at(j) == old(self).tp_at(j),
            v.cell(*final(self)) == (FreeKind::NamedUnbound::<TyParam> { name, lev: level, constraint }),
            old(self).wf() ==> final(self).wf(),
    {
        let ghost s0 = *self;
        let v = FreeTyParamVar { idx: self.tp_cells.len() };
        self.tp_cells.push(FreeKind::NamedUnbound { name, lev: level, constraint });
        proof {
            if s0.wf() {
                lemma_wf_after_push_tp(s0, *self, v.cell(*self));
            }
        }
        v
    }

    /// A type-parameter cell born already resolved to `t`.
    pub fn new_linked_tp(&mut self, t: TyParam) -> (v: FreeTyParamVar)
        ensures
            v.pos() == old(self).n_tp(),
            v.valid_in(*final(self)),
            final(self).n_tp() == old(self).n_tp() + 1,
            final(self).n_ty() == old(self).n_ty(),
            final(self).next_id == old(self).next_id,
            forall|j: int| 0 <= j < old(self).n_ty() ==> final(self).ty_at(j) == old(self).ty_at(j),
            forall|j: int| 0 <= j < old(self).n_tp() ==> final(self).tp_at(j) == old(self).tp_at(j),
            v.cell(*final(self)) == FreeKind::Linked(t),
            old(self).wf() ==> final(self).wf(),
    {
        let ghost s0 = *self;
        let v = FreeTyParamVar { idx: self.tp_cells.len() };
        self.tp_cells.push(FreeKind::Linked(t));
        proof {
            if s0.wf() {
                lemma_wf_after_push_tp(s0, *self, v.cell(*self));
            }
        }
        v
    }
}


impl Clone for FreeKind<Type> {
    /// Cloning rebuilds the state, undo history included; the copy is
    /// [`kind_state_eqv_ty`]-equal to the original.
    fn clone(&self) -> (res: Self)
        ensures
            kind_state_eqv_ty(res, *self),
        decreases self,
    {
        match self {
            FreeKind::Linked(t) => FreeKind::Linked(t.clone()),
            FreeKind::UndoableLinked { t, previous } => FreeKind::UndoableLinked {
                t: t.clone(),
                previous: Box::new((**previous).clone()),
            },
            FreeKind::Unbound { id, lev, constraint } => FreeKind::Unbound {
                id: *id,
                lev: *lev,
                constraint: constraint.clone(),
            },
            FreeKind::NamedUnbound { name, lev, constraint } => FreeKind::NamedUnbound {
                name: name.clone(),
                lev: *lev,
                constraint: constraint.clone(),
            },
        }
    }
}

impl Clone for FreeKind<TyParam> {
    /// Cloning rebuilds the state, undo history included; the copy is
    /// [`kind_state_eqv_tp`]-equal to the original.
    fn clone(&self) -> (res: Self)
        ensures
            kind_state_eqv_tp(res, *self),
        decreases self,
    {
        match self {
            FreeKind::Linked(t) => FreeKind::Linked(t.clone()),
            FreeKind::UndoableLinked { t, previous } => FreeKind::UndoableLinked {
                t: t.clone(),
                previous: Box::new((**previous).clone()),
            },
            FreeKind::Unbound { id, lev, constraint } => FreeKind::Unbound {
                id: *id,
                lev: *lev,
                constraint: constraint.clone(),
            },
            FreeKind::NamedUnbound { name, lev, constraint } => FreeKind::NamedUnbound {
                name: name.clone(),
                lev: *lev,
                constraint: constraint.clone(),
            },
        }
    }
}

impl FreeKind<Type> {
    /// Decides [`kind_eqv_ty`]: resolved states compare by their
    /// current term, whichever link variant holds it.
    pub fn deep_eq(&self, other: &Self) -> (r: bool)
        ensures
            r == kind_eqv_ty(*self, *other),
    {
        match (self, other) {
            (
                FreeKind::Linked(t1) | FreeKind::UndoableLinked { t: t1, .. },
                FreeKind::Linked(t2) | FreeKind::UndoableLinked { t: t2, .. },
            ) => t1.deep_eq(t2),
            (
                FreeKind::Unbound { id: i1, lev: l1, constraint: c1 },
                FreeKind::Unbound { id: i2, lev: l2, constraint: c2 },
            ) => *i1 == *i2 && *l1 == *l2 && c1.deep_eq(c2),
            (
                FreeKind::NamedUnbound { name: n1, lev: l1, constraint: c1 },
                FreeKind::NamedUnbound { name: n2, lev: l2, constraint: c2 },
            ) => string_eq(n1, n2) && *l1 == *l2 && c1.deep_eq(c2),
            _ => false,
        }
    }

    /// Decides [`kind_state_eqv_ty`], the full-state equality that
    /// also compares a speculative link's saved history.
    pub fn state_eq(&self, other: &Self) -> (r: bool)
        ensures
            r == kind_state_eqv_ty(*self, *other),
        decreases self,
    {
        match (self, other) {
            (FreeKind::Linked(t1), FreeKind::Linked(t2)) => t1.deep_eq(t2),
            (
                FreeKind::UndoableLinked { t: t1, previous: p1 },
                FreeKind::UndoableLinked { t: t2, previous: p2 },
            ) => t1.deep_eq(t2) && (**p1).state_eq(&**p2),
            (
                FreeKind::Unbound { id: i1, lev: l1, constraint: c1 },
                FreeKind::Unbound { id: i2, lev: l2, constraint: c2 },
            ) => *i1 == *i2 && *l1 == *l2 && c1.deep_eq(c2),
            (
                FreeKind::NamedUnbound { name: n1, lev: l1, constraint: c1 },
                FreeKind::NamedUnbound { name: n2, lev: l2, constraint: c2 },
            ) => string_eq(n1, n2) && *l1 == *l2 && c1.deep_eq(c2),
            _ => false,
        }
    }
}

impl FreeKind<TyParam> {
    /// Decides [`kind_eqv_tp`]: resolved states compare by their
    /// current term, whichever link variant holds it.
    pub fn deep_eq(&self, other: &Self) -> (r: bool)
        ensures
            r == kind_eqv_tp(*self, *other),
    {
        match (self, other) {
            (
                FreeKind::Linked(t1) | FreeKind::UndoableLinked { t: t1, .. },
                FreeKind::Linked(t2) | FreeKind::UndoableLinked { t: t2, .. },
            ) => t1.deep_eq(t2),
            (
                FreeKind::Unbound { id: i1, lev: l1, constraint: c1 },
                FreeKind::Unbound { id: i2, lev: l2, constraint: c2 },
            ) => *i1 == *i2 && *l1 == *l2 && c1.deep_eq(c2),
            (
                FreeKind::NamedUnbound { name: n1, lev: l1, constraint: c1 },
                FreeKind::NamedUnbound { name: n2, lev: l2, constraint: c2 },
            ) => string_eq(n1, n2) && *l1 == *l2 && c1.deep_eq(c2),
            _ => false,
        }
    }

    /// Decides [`kind_state_eqv_tp`], the full-state equality that
    /// also compares a speculative link's saved history.
    pub fn state_eq(&self, other: &Self) -> (r: bool)
        ensures
            r == kind_state_eqv_tp(*self, *other),
        decreases self,
    {
        match (self, other) {
            (FreeKind::Linked(t1), FreeKind::Linked(t2)) => t1.deep_eq(t2),
            (
                FreeKind::UndoableLinked { t: t1, previous: p1 },
                FreeKind::UndoableLinked { t: t2, previous: p2 },
            ) => t1.deep_eq(t2) && (**p1).state_eq(&**p2),
            (
                FreeKind::Unbound { id: i1, lev: l1, constraint: c1 },
                FreeKind::Unbound { id: i2, lev: l2, constraint: c2 },
            ) => *i1 == *i2 && *l1 == *l2 && c1.deep_eq(c2),
            (
                FreeKind::NamedUnbound { name: n1, lev: l1, constraint: c1 },
                FreeKind::NamedUnbound { name: n2, lev: l2, constraint: c2 },
            ) => string_eq(n1, n2) && *l1 == *l2 && c1.deep_eq(c2),
            _ => false,
        }
    }
}

/// Ids of the new state of cell `i` either survive from its old state
/// or are fresh for the whole store: the condition under which an
/// in-place overwrite keeps the store well-formed.
pub open spec fn replace_ids_ok(s: FreeStore, i: int, k: FreeKind<Type>) -> bool {
    forall|id: int| #[trigger]
        kind_has_id(k, id) ==> kind_has_id(s.ty_at(i), id) || (0 <= id < s.next_id && id_unused(
            s,
            id,
        ))
}

impl FreeTyVar {
    /// Whether the cell is resolved, definitively or speculatively.
    pub fn is_linked(self, s: &FreeStore) -> (r: bool)
        requires
            self.valid_in(*s),
        ensures
            r == is_linked_kind(self.cell(*s)),
    {
        matches!(&s.ty_cells[self.idx], FreeKind::Linked(_) | FreeKind::UndoableLinked { .. })
    }

    /// Whether the cell is speculatively resolved.
    pub fn is_undoable_linked(self, s: &FreeStore) -> (r: bool)
        requires
            self.valid_in(*s),
        ensures
            r == (self.cell(*s) is UndoableLinked),
    {
        matches!(&s.ty_cells[self.idx], FreeKind::UndoableLinked { .. })
    }

    /// Whether the cell is an (anonymous or named) unbound variable.
    pub fn is_unbound(self, s: &FreeStore) -> (r: bool)
        requires
            self.valid_in(*s),
        ensures
            r == is_unbound_kind(self.cell(*s)),
    {
        matches!(&s.ty_cells[self.idx], FreeKind::Unbound { .. } | FreeKind::NamedUnbound { .. })
    }

    /// Borrows the term behind a resolved cell.
    pub fn crack<'a>(self, s: &'a FreeStore) -> (r: &'a Type)
        requires
            self.valid_in(*s),
            is_linked_kind(self.cell(*s)),
        ensures
            *r == linked_term(self.cell(*s)),
    {
        match &s.ty_cells[self.idx] {
            FreeKind::Linked(t) => t,
            FreeKind::UndoableLinked { t, .. } => t,
            _ => vstd::pervasive::unreached(),
        }
    }

    /// Borrows the constraint of an unbound cell.
    pub fn crack_constraint<'a>(self, s: &'a FreeStore) -> (r: &'a Constraint)
        requires
            self.valid_in(*s),
            is_unbound_kind(self.cell(*s)),
        ensures
            *r == kind_constraint(self.cell(*s)),
    {
        match &s.ty_cells[self.idx] {
            FreeKind::Unbound { constraint, .. } => constraint,
            FreeKind::NamedUnbound { constraint, .. } => constraint,
            _ => vstd::pervasive::unreached(),
        }
    }

    /// A copy of the cell state.
    pub fn clone_inner(self, s: &FreeStore) -> (r: FreeKind<Type>)
        requires
            self.valid_in(*s),
        ensures
            kind_state_eqv_ty(r, self.cell(*s)),
    {
        s.ty_cells[self.idx].clone()
    }

    /// Resolves a cell definitively.  Linking a cell that is already
    /// resolved to an equal term is a no-op (the self-link guard);
    /// anything else overwrites the state, dropping any undo history.
    pub fn link(self, s: &mut FreeStore, to: Type)
        requires
            self.valid_in(*old(s)),
        ensures
            is_linked_kind(self.cell(*old(s))) && ty_eqv(linked_term(self.cell(*old(s))), to)
                ==> *final(s) == *old(s),
            !(is_linked_kind(self.cell(*old(s))) && ty_eqv(linked_term(self.cell(*old(s))), to))
                ==> ty_frame(*old(s), *final(s), self.pos()) && self.cell(*final(s))
                == FreeKind::Linked(to),
            old(s).wf() ==> final(s).wf(),
    {
        let ghost s0 = *s;
        let same = match &s.ty_cells[self.idx] {
            FreeKind::Linked(t) => t.deep_eq(&to),
            FreeKind::UndoableLinked { t, .. } => t.deep_eq(&to),
            _ => false,
        };
        if same {
            return ;
        }
        let slot = &mut s.ty_cells[self.idx];
        *slot = FreeKind::Linked(to);
        proof {
            if s0.wf() {
                lemma_wf_after_set_ty(s0, *s, self.pos(), self.cell(*s));
            }
        }
    }

    /// As [`FreeTyVar::link`]; the variant reserved for rewrites inside
    /// cycle-breaking traversals, which with a store threaded by `&mut`
    /// needs no separate borrow discipline.
    pub fn forced_link(self, s: &mut FreeStore, to: Type)
        requires
            self.valid_in(*old(s)),
        ensures
            is_linked_kind(self.cell(*old(s))) && ty_eqv(linked_term(self.cell(*old(s))), to)
                ==> *final(s) == *old(s),
            !(is_linked_kind(self.cell(*old(s))) && ty_eqv(linked_term(self.cell(*old(s))), to))
                ==> ty_frame(*old(s), *final(s), self.pos()) && self.cell(*final(s))
                == FreeKind::Linked(to),
            old(s).wf() ==> final(s).wf(),
    {
        self.link(s, to)
    }

    /// Resolves a cell speculatively, saving the full prior state so
    /// one [`FreeTyVar::undo`] restores it.  Linking a resolved cell to
    /// an equal term is refused (the callers' self-link guard), hence
    /// the precondition.
    pub fn undoable_link(self, s: &mut FreeStore, to: Type)
        requires
            self.valid_in(*old(s)),
            !(is_linked_kind(self.cell(*old(s))) && ty_eqv(linked_term(self.cell(*old(s))), to)),
        ensures
            ty_frame(*old(s), *final(s), self.pos()),
            self.cell(*final(s)) is UndoableLinked,
            self.cell(*final(s))->UndoableLinked_t == to,
            *self.cell(*final(s))->UndoableLinked_previous == self.cell(*old(s)),
            old(s).wf() ==> final(s).wf(),
    {
        let ghost s0 = *s;
        let mut tmp: FreeKind<Type> = FreeKind::Unbound {
            id: 0,
            lev: 0,
            constraint: Constraint::Uninited,
        };
        let slot = &mut s.ty_cells[self.idx];
        core::mem::swap(slot, &mut tmp);
        *slot = FreeKind::UndoableLinked { t: to, previous: Box::new(tmp) };
        proof {
            if s0.wf() {
                lemma_wf_after_set_ty(s0, *s, self.pos(), self.cell(*s));
            }
        }
    }

    /// As [`FreeTyVar::undoable_link`]; the variant reserved for
    /// rewrites inside cycle-breaking traversals.
    pub fn forced_undoable_link(self, s: &mut FreeStore, to: Type)
        requires
            self.valid_in(*old(s)),
            !(is_linked_kind(self.cell(*old(s))) && ty_eqv(linked_term(self.cell(*old(s))), to)),
        ensures
            ty_frame(*old(s), *final(s), self.pos()),
            self.cell(*final(s)) is UndoableLinked,
            self.cell(*final(s))->UndoableLinked_t == to,
            *self.cell(*final(s))->UndoableLinked_previous == self.cell(*old(s)),
            old(s).wf() ==> final(s).wf(),
    {
        self.undoable_link(s, to)
    }

    /// Restores the state saved by the matching
    /// [`FreeTyVar::undoable_link`]; one undo per undoable link.
    pub fn undo(self, s: &mut FreeStore)
        requires
            self.valid_in(*old(s)),
            self.cell(*old(s)) is UndoableLinked,
        ensures
            ty_frame(*old(s), *final(s), self.pos()),
            self.cell(*final(s)) == *self.cell(*old(s))->UndoableLinked_previous,
            old(s).wf() ==> final(s).wf(),
    {
        let ghost s0 = *s;
        let mut tmp: FreeKind<Type> = FreeKind::Unbound {
            id: 0,
            lev: 0,
            constraint: Constraint::Uninited,
        };
        let slot = &mut s.ty_cells[self.idx];
        core::mem::swap(slot, &mut tmp);
        match tmp {
            FreeKind::UndoableLinked { previous, .. } => {
                *slot = *previous;
            },
            _ => {
                proof {
                    assert(false);
                }
            },
        }
        proof {
            if s0.wf() {
                lemma_wf_after_set_ty(s0, *s, self.pos(), self.cell(*s));
            }
        }
    }

    /// Overwrites the cell state.  Overwriting a resolved cell with an
    /// equal state is a no-op (the self-link guard).
    pub fn replace(self, s: &mut FreeStore, to: FreeKind<Type>)
        requires
            self.valid_in(*old(s)),
        ensures
            is_linked_kind(self.cell(*old(s))) && kind_state_eqv_ty(self.cell(*old(s)), to)
                ==> *final(s) == *old(s),
            !(is_linked_kind(self.cell(*old(s))) && kind_state_eqv_ty(self.cell(*old(s)), to)) ==> ty_frame(
                *old(s),
                *final(s),
                self.pos(),
            ) && self.cell(*final(s)) == to,
            old(s).wf() && replace_ids_ok(*old(s), self.pos(), to) ==> final(s).wf(),
    {
        let ghost s0 = *s;
        let same = {
            let cur = &s.ty_cells[self.idx];
            match cur {
                FreeKind::Linked(_) | FreeKind::UndoableLinked { .. } => cur.state_eq(&to),
                _ => false,
            }
        };
        if same {
            return ;
        }
        let slot = &mut s.ty_cells[self.idx];
        *slot = to;
        proof {
            if s0.wf() && replace_ids_ok(s0, self.pos(), self.cell(*s)) {
                lemma_wf_after_set_ty(s0, *s, self.pos(), self.cell(*s));
            }
        }
    }

    /// Overwrites the cell state unconditionally, except that an equal
    /// state is left in place.
    pub fn force_replace(self, s: &mut FreeStore, to: FreeKind<Type>)
        requires
            self.valid_in(*old(s)),
        ensures
            kind_state_eqv_ty(self.cell(*old(s)), to) ==> *final(s) == *old(s),
            !kind_state_eqv_ty(self.cell(*old(s)), to) ==> ty_frame(*old(s), *final(s), self.pos())
                && self.cell(*final(s)) == to,
            old(s).wf() && replace_ids_ok(*old(s), self.pos(), to) ==> final(s).wf(),
    {
        let ghost s0 = *s;
        let same = s.ty_cells[self.idx].state_eq(&to);
        if same {
            return ;
        }
        let slot = &mut s.ty_cells[self.idx];
        *slot = to;
        proof {
            if s0.wf() && replace_ids_ok(s0, self.pos(), self.cell(*s)) {
                lemma_wf_after_set_ty(s0, *s, self.pos(), self.cell(*s));
            }
        }
    }

    /// The name, level and constraint of an unbound cell; anonymous
    /// cells have no name.
    pub fn unwrap_unbound(self, s: &FreeStore) -> (r: (Option<String>, usize, Constraint))
        requires
            self.valid_in(*s),
            is_unbound_kind(self.cell(*s)),
        ensures
            self.cell(*s) is Unbound ==> r.0 is None && r.1 == self.cell(*s)->Unbound_lev
                && constraint_eqv(r.2, self.cell(*s)->Unbound_constraint),
            self.cell(*s) is NamedUnbound ==> r.0 is Some && r.0.unwrap()@ == self.cell(
                *s,
            )->NamedUnbound_name@ && r.1 == self.cell(*s)->NamedUnbound_lev && constraint_eqv(
                r.2,
                self.cell(*s)->NamedUnbound_constraint,
            ),
    {
        match &s.ty_cells[self.idx] {
            FreeKind::Unbound { lev, constraint, .. } => (None, *lev, constraint.clone()),
            FreeKind::NamedUnbound { name, lev, constraint } => (
                Some(name.clone()),
                *lev,
                constraint.clone(),
            ),
            _ => vstd::pervasive::unreached(),
        }
    }

    /// A copy of the term behind a resolved cell.
    pub fn unwrap_linked(self, s: &FreeStore) -> (r: Type)
        requires
            self.valid_in(*s),
            is_linked_kind(self.cell(*s)),
        ensures
            ty_eqv(r, linked_term(self.cell(*s))),
    {
        match &s.ty_cells[self.idx] {
            FreeKind::Linked(t) => t.clone(),
            FreeKind::UndoableLinked { t, .. } => t.clone(),
            _ => vstd::pervasive::unreached(),
        }
    }

    /// A fresh cell with the same name, level and constraint, sharing
    /// nothing with this one; an anonymous cell draws a fresh id.
    pub fn detach(self, s: &mut FreeStore) -> (v: FreeTyVar)
        requires
            self.valid_in(*old(s)),
            is_unbound_kind(self.cell(*old(s))),
            self.cell(*old(s)) is Unbound ==> old(s).next_id < usize::MAX,
        ensures
            v.pos() == old(s).n_ty(),
            v.valid_in(*final(s)),
            final(s).n_ty() == old(s).n_ty() + 1,
            final(s).n_tp() == old(s).n_tp(),
            forall|j: int| 0 <= j < old(s).n_ty() ==> final(s).ty_at(j) == old(s).ty_at(j),
            forall|j: int| 0 <= j < old(s).n_tp() ==> final(s).tp_at(j) == old(s).tp_at(j),
            self.cell(*old(s)) is Unbound ==> final(s).next_id == old(s).next_id + 1 && v.cell(
                *final(s),
            ) is Unbound && v.cell(*final(s))->Unbound_id == old(s).next_id && v.cell(
                *final(s),
            )->Unbound_lev == self.cell(*old(s))->Unbound_lev && constraint_eqv(
                v.cell(*final(s))->Unbound_constraint,
                self.cell(*old(s))->Unbound_constraint,
            ),
            self.cell(*old(s)) is NamedUnbound ==> final(s).next_id == old(s).next_id && v.cell(
                *final(s),
            ) is NamedUnbound && v.cell(*final(s))->NamedUnbound_name@ == self.cell(
                *old(s),
            )->NamedUnbound_name@ && v.cell(*final(s))->NamedUnbound_lev == self.cell(
                *old(s),
            )->NamedUnbound_lev && constraint_eqv(
                v.cell(*final(s))->NamedUnbound_constraint,
                self.cell(*old(s))->NamedUnbound_constraint,
            ),
            old(s).wf() ==> final(s).wf(),
    {
        let (name, lev, constraint) = self.unwrap_unbound(s);
        match name {
            Some(n) => s.new_named_unbound(n, lev, constraint),
            None => s.new_unbound(lev, constraint),
        }
    }
}


/// Undo inverts undoable link: if `s1` comes from `s0` by an undoable
/// link of cell `v` (which saved `v`'s state) and `s2` comes from `s1`
/// by the matching undo (which restored it), then every cell of `s2`,
/// ids, levels and constraints included, is exactly its `s0` state.
pub proof fn lemma_undo_inverts_undoable_link(
    s0: FreeStore,
    s1: FreeStore,
    s2: FreeStore,
    v: FreeTyVar,
)
    requires
        v.valid_in(s0),
        ty_frame(s0, s1, v.pos()),
        v.cell(s1) is UndoableLinked,
        *v.cell(s1)->UndoableLinked_previous == v.cell(s0),
        ty_frame(s1, s2, v.pos()),
        v.cell(s2) == *v.cell(s1)->UndoableLinked_previous,
    ensures
        s2.n_ty() == s0.n_ty(),
        s2.n_tp() == s0.n_tp(),
        s2.next_id == s0.next_id,
        forall|j: int| 0 <= j < s0.n_ty() ==> s2.ty_at(j) == s0.ty_at(j),
        forall|j: int| 0 <= j < s0.n_tp() ==> s2.tp_at(j) == s0.tp_at(j),
{
}

/// The unbound cell reached from the type-variable cell `i` by
/// following resolved cells whose term is itself a free type variable,
/// for at most `fuel` link steps.  `None` when the chain leaves the
/// store, ends in a term that is not a variable, or runs out of fuel.
pub open spec fn resolve_ty(s: FreeStore, i: int, fuel: nat) -> Option<int>
    decreases fuel,
{
    if !(0 <= i < s.n_ty()) {
        None
    } else {
        match s.ty_at(i) {
            FreeKind::Unbound { .. } => Some(i),
            FreeKind::NamedUnbound { .. } => Some(i),
            FreeKind::Linked(t) => match t {
                Type::FreeVar(v) => if fuel == 0 {
                    None
                } else {
                    resolve_ty(s, v.pos(), (fuel - 1) as nat)
                },
                _ => None,
            },
            FreeKind::UndoableLinked { t, .. } => match t {
                Type::FreeVar(v) => if fuel == 0 {
                    None
                } else {
                    resolve_ty(s, v.pos(), (fuel - 1) as nat)
                },
                _ => None,
            },
        }
    }
}

/// Fuel that lets [`resolve_ty`] follow any link chain that does not
/// revisit a cell.
pub open spec fn resolve_fuel(s: FreeStore) -> nat {
    s.n_ty() + 1
}

/// The unbound cell a read of cell `i` reaches, if any.
pub open spec fn resolved_ty(s: FreeStore, i: int) -> Option<int> {
    resolve_ty(s, i, resolve_fuel(s))
}

/// The constraint a read of cell `i` reaches, if any.
pub open spec fn resolved_constraint(s: FreeStore, i: int) -> Option<Constraint> {
    match resolved_ty(s, i) {
        Some(j) => Some(kind_constraint(s.ty_at(j))),
        None => None,
    }
}

/// The printable name of an unbound cell state: the written name, or
/// `%id` for an anonymous variable.
pub open spec fn kind_name<T>(k: FreeKind<T>) -> Seq<char>
    recommends
        is_unbound_kind(k),
{
    match k {
        FreeKind::Unbound { id, .. } => seq!['%'] + crate::strutil::spec_udec(id as nat),
        FreeKind::NamedUnbound { name, .. } => name@,
        _ => arbitrary(),
    }
}

impl FreeTyVar {
    /// Follows links to the unbound cell this one reads as, if any.
    pub(crate) fn resolve(self, s: &FreeStore) -> (r: Option<usize>)
        requires
            self.valid_in(*s),
            s.n_ty() < usize::MAX,
        ensures
            r is Some <==> resolved_ty(*s, self.pos()) is Some,
            r is Some ==> r.unwrap() as int == resolved_ty(*s, self.pos()).unwrap() && 0 <= r.unwrap()
                < s.n_ty() && is_unbound_kind(s.ty_at(r.unwrap() as int)),
    {
        let mut i: usize = self.idx;
        let mut fuel: usize = s.ty_cells.len() + 1;
        loop
            invariant
                0 <= i < s.n_ty(),
                s.n_ty() < usize::MAX,
                resolve_ty(*s, i as int, fuel as nat) == resolved_ty(*s, self.pos()),
            decreases fuel,
        {
            match &s.ty_cells[i] {
                FreeKind::Unbound { .. } | FreeKind::NamedUnbound { .. } => {
                    return Some(i);
                },
                FreeKind::Linked(t) | FreeKind::UndoableLinked { t, .. } => {
                    match t {
                        Type::FreeVar(v) => {
                            proof {
                                assert(s.ty_at(i as int) is Linked || s.ty_at(i as int) is UndoableLinked);
                                assert(linked_term(s.ty_at(i as int)) == Type::FreeVar(*v));
                            }
                            if fuel == 0 {
                                proof {
                                    assert(resolve_ty(*s, i as int, fuel as nat) is None);
                                }
                                return None;
                            }
                            fuel = fuel - 1;
                            if v.idx >= s.ty_cells.len() {
                                proof {
                                    assert(resolve_ty(*s, v.pos(), fuel as nat) is None);
                                }
                                return None;
                            }
                            i = v.idx;
                        },
                        _ => {
                            return None;
                        },
                    }
                },
            }
        }
    }

    /// The constraint this cell reads as: its own for an unbound cell,
    /// the resolved variable's through links, `None` when the cell is
    /// resolved to a term that is no variable.
    pub fn constraint(self, s: &FreeStore) -> (r: Option<Constraint>)
        requires
            self.valid_in(*s),
            s.n_ty() < usize::MAX,
        ensures
            r is Some <==> resolved_constraint(*s, self.pos()) is Some,
            r is Some ==> constraint_eqv(r.unwrap(), resolved_constraint(*s, self.pos()).unwrap()),
    {
        match self.resolve(s) {
            Some(j) => {
                match &s.ty_cells[j] {
                    FreeKind::Unbound { constraint, .. } => Some(constraint.clone()),
                    FreeKind::NamedUnbound { constraint, .. } => Some(constraint.clone()),
                    _ => vstd::pervasive::unreached(),
                }
            },
            None => None,
        }
    }

    /// The printable name this cell reads as, `%id` for anonymous
    /// variables; `None` when it resolves to a term that is no variable.
    pub fn unbound_name(self, s: &FreeStore) -> (r: Option<String>)
        requires
            self.valid_in(*s),
            s.n_ty() < usize::MAX,
        ensures
            r is Some <==> resolved_ty(*s, self.pos()) is Some,
            r is Some ==> r.unwrap()@ == kind_name(s.ty_at(resolved_ty(*s, self.pos()).unwrap())),
    {
        match self.resolve(s) {
            Some(j) => {
                match &s.ty_cells[j] {
                    FreeKind::Unbound { id, .. } => {
                        let digits = crate::strutil::usize_to_string(*id);
                        let r = crate::strutil::concat_str(String::from_str("%"), digits.as_str());
                        proof {
                            reveal_strlit("%");
                            assert(r@ =~= kind_name(s.ty_at(resolved_ty(*s, self.pos()).unwrap())));
                        }
                        Some(r)
                    },
                    FreeKind::NamedUnbound { name, .. } => Some(name.clone()),
                    _ => vstd::pervasive::unreached(),
                }
            },
            None => None,
        }
    }

    /// The type this cell is a term of, if its constraint pins one down.
    pub fn get_type(self, s: &FreeStore) -> (r: Option<Type>)
        requires
            self.valid_in(*s),
            s.n_ty() < usize::MAX,
        ensures
            r is Some <==> resolved_constraint(*s, self.pos()) is Some && resolved_constraint(
                *s,
                self.pos(),
            ).unwrap().spec_get_type() is Some,
            r is Some ==> ty_eqv(
                r.unwrap(),
                resolved_constraint(*s, self.pos()).unwrap().spec_get_type().unwrap(),
            ),
    {
        match self.resolve(s) {
            Some(j) => {
                match &s.ty_cells[j] {
                    FreeKind::Unbound { constraint, .. } => constraint.get_type(),
                    FreeKind::NamedUnbound { constraint, .. } => constraint.get_type(),
                    _ => vstd::pervasive::unreached(),
                }
            },
            None => None,
        }
    }

    /// The upper bound of this cell's sandwich constraint, if any.
    pub fn get_super(self, s: &FreeStore) -> (r: Option<Type>)
        requires
            self.valid_in(*s),
            s.n_ty() < usize::MAX,
        ensures
            r is Some <==> resolved_constraint(*s, self.pos()) is Some && resolved_constraint(
                *s,
                self.pos(),
            ).unwrap() is Sandwiched,
            r is Some ==> ty_eqv(
                r.unwrap(),
                resolved_constraint(*s, self.pos()).unwrap()->Sandwiched_sup,
            ),
    {
        match self.resolve(s) {
            Some(j) => {
                match &s.ty_cells[j] {
                    FreeKind::Unbound { constraint, .. } => constraint.get_super(),
                    FreeKind::NamedUnbound { constraint, .. } => constraint.get_super(),
                    _ => vstd::pervasive::unreached(),
                }
            },
            None => None,
        }
    }

    /// The lower bound of this cell's sandwich constraint, if any.
    pub fn get_sub(self, s: &FreeStore) -> (r: Option<Type>)
        requires
            self.valid_in(*s),
            s.n_ty() < usize::MAX,
        ensures
            r is Some <==> resolved_constraint(*s, self.pos()) is Some && resolved_constraint(
                *s,
                self.pos(),
            ).unwrap() is Sandwiched,
            r is Some ==> ty_eqv(
                r.unwrap(),
                resolved_constraint(*s, self.pos()).unwrap()->Sandwiched_sub,
            ),
    {
        match self.resolve(s) {
            Some(j) => {
                match &s.ty_cells[j] {
                    FreeKind::Unbound { constraint, .. } => constraint.get_sub(),
                    FreeKind::NamedUnbound { constraint, .. } => constraint.get_sub(),
                    _ => vstd::pervasive::unreached(),
                }
            },
            None => None,
        }
    }

    /// Both bounds of this cell's sandwich constraint, if any.
    pub fn get_subsup(self, s: &FreeStore) -> (r: Option<(Type, Type)>)
        requires
            self.valid_in(*s),
            s.n_ty() < usize::MAX,
        ensures
            r is Some <==> resolved_constraint(*s, self.pos()) is Some && resolved_constraint(
                *s,
                self.pos(),
            ).unwrap() is Sandwiched,
            r is Some ==> ty_eqv(
                r.unwrap().0,
                resolved_constraint(*s, self.pos()).unwrap()->Sandwiched_sub,
            ) && ty_eqv(r.unwrap().1, resolved_constraint(*s, self.pos()).unwrap()->Sandwiched_sup),
    {
        match self.resolve(s) {
            Some(j) => {
                match &s.ty_cells[j] {
                    FreeKind::Unbound { constraint, .. } => constraint.get_sub_sup(),
                    FreeKind::NamedUnbound { constraint, .. } => constraint.get_sub_sup(),
                    _ => vstd::pervasive::unreached(),
                }
            },
            None => None,
        }
    }

    /// Whether the constraint this cell reads as pins down a type.
    pub fn constraint_is_typeof(self, s: &FreeStore) -> (r: bool)
        requires
            self.valid_in(*s),
            s.n_ty() < usize::MAX,
        ensures
            r == (resolved_constraint(*s, self.pos()) is Some && resolved_constraint(
                *s,
                self.pos(),
            ).unwrap().spec_get_type() is Some),
    {
        self.get_type(s).is_some()
    }

    /// Whether the constraint this cell reads as is a sandwich.
    pub fn constraint_is_sandwiched(self, s: &FreeStore) -> (r: bool)
        requires
            self.valid_in(*s),
            s.n_ty() < usize::MAX,
        ensures
            r == (resolved_constraint(*s, self.pos()) is Some && resolved_constraint(
                *s,
                self.pos(),
            ).unwrap() is Sandwiched),
    {
        self.get_subsup(s).is_some()
    }

    /// Whether the constraint this cell reads as is the placeholder.
    pub fn constraint_is_uninited(self, s: &FreeStore) -> (r: bool)
        requires
            self.valid_in(*s),
            s.n_ty() < usize::MAX,
        ensures
            r == (resolved_constraint(*s, self.pos()) is Some && resolved_constraint(
                *s,
                self.pos(),
            ).unwrap() is Uninited),
    {
        match self.resolve(s) {
            Some(j) => {
                match &s.ty_cells[j] {
                    FreeKind::Unbound { constraint, .. } => constraint.is_uninited(),
                    FreeKind::NamedUnbound { constraint, .. } => constraint.is_uninited(),
                    _ => vstd::pervasive::unreached(),
                }
            },
            None => false,
        }
    }
}


/// An unbound cell resolves to itself.
pub proof fn lemma_unbound_resolves_to_self(s: FreeStore, v: FreeTyVar)
    requires
        v.valid_in(s),
        is_unbound_kind(v.cell(s)),
    ensures
        resolved_ty(s, v.pos()) == Some(v.pos()),
{
}

impl FreeTyVar {
    /// Installs a new constraint on the variable this cell reads as.
    /// A generalized variable (level [`GENERIC_LEVEL`]) is immutable
    /// unless the caller is inside an instantiation or generalization
    /// pass and says so with `in_inst_or_gen`; an update to an equal
    /// constraint is a no-op; a cell resolved to a term that is no
    /// variable is left alone.
    pub fn update_constraint(self, s: &mut FreeStore, new_constraint: Constraint, in_inst_or_gen: bool)
        requires
            self.valid_in(*old(s)),
            old(s).n_ty() < usize::MAX,
        ensures
            resolved_ty(*old(s), self.pos()) is None ==> *final(s) == *old(s),
            resolved_ty(*old(s), self.pos()) is Some ==> ({
                let j = resolved_ty(*old(s), self.pos()).unwrap();
                let c = old(s).ty_at(j);
                &&& (kind_level(c) == GENERIC_LEVEL && !in_inst_or_gen) ==> *final(s) == *old(s)
                &&& !(kind_level(c) == GENERIC_LEVEL && !in_inst_or_gen) && constraint_eqv(
                    kind_constraint(c),
                    new_constraint,
                ) ==> *final(s) == *old(s)
                &&& !(kind_level(c) == GENERIC_LEVEL && !in_inst_or_gen) && !constraint_eqv(
                    kind_constraint(c),
                    new_constraint,
                ) ==> {
                    &&& ty_frame(*old(s), *final(s), j)
                    &&& c is Unbound ==> final(s).ty_at(j) == (FreeKind::Unbound::<Type> {
                        id: c->Unbound_id,
                        lev: c->Unbound_lev,
                        constraint: new_constraint,
                    })
                    &&& c is NamedUnbound ==> final(s).ty_at(j) == (FreeKind::NamedUnbound::<Type> {
                        name: c->NamedUnbound_name,
                        lev: c->NamedUnbound_lev,
                        constraint: new_constraint,
                    })
                }
            }),
            old(s).wf() ==> final(s).wf(),
    {
        let ghost s0 = *s;
        let tgt = self.resolve(s);
        match tgt {
            None => {},
            Some(j) => {
                let lev = match &s.ty_cells[j] {
                    FreeKind::Unbound { lev, .. } => *lev,
                    FreeKind::NamedUnbound { lev, .. } => *lev,
                    _ => vstd::pervasive::unreached(),
                };
                if lev == GENERIC_LEVEL && !in_inst_or_gen {
                    return ;
                }
                let same = match &s.ty_cells[j] {
                    FreeKind::Unbound { constraint, .. } => constraint.deep_eq(&new_constraint),
                    FreeKind::NamedUnbound { constraint, .. } => constraint.deep_eq(
                        &new_constraint,
                    ),
                    _ => vstd::pervasive::unreached(),
                };
                if same {
                    return ;
                }
                let mut tmp: FreeKind<Type> = FreeKind::Unbound {
                    id: 0,
                    lev: 0,
                    constraint: Constraint::Uninited,
                };
                {
                    let slot = &mut s.ty_cells[j];
                    core::mem::swap(slot, &mut tmp);
                }
                match tmp {
                    FreeKind::Unbound { id, lev, .. } => {
                        let slot = &mut s.ty_cells[j];
                        *slot = FreeKind::Unbound { id, lev, constraint: new_constraint };
                    },
                    FreeKind::NamedUnbound { name, lev, .. } => {
                        let slot = &mut s.ty_cells[j];
                        *slot = FreeKind::NamedUnbound { name, lev, constraint: new_constraint };
                    },
                    _ => {
                        proof {
                            assert(false);
                        }
                    },
                }
                proof {
                    assert(s.ty_cells@ =~= s0.ty_cells@.update(j as int, s.ty_at(j as int)));
                    if s0.wf() {
                        lemma_wf_after_set_ty(s0, *s, j as int, s.ty_at(j as int));
                    }
                }
            },
        }
    }
}


impl FreeTyParamVar {
    /// Whether the cell is resolved, definitively or speculatively.
    pub fn is_linked(self, s: &FreeStore) -> (r: bool)
        requires
            self.valid_in(*s),
        ensures
            r == is_linked_kind(self.cell(*s)),
    {
        matches!(&s.tp_cells[self.idx], FreeKind::Linked(_) | FreeKind::UndoableLinked { .. })
    }

    /// Whether the cell is speculatively resolved.
    pub fn is_undoable_linked(self, s: &FreeStore) -> (r: bool)
        requires
            self.valid_in(*s),
        ensures
            r == (self.cell(*s) is UndoableLinked),
    {
        matches!(&s.tp_cells[self.idx], FreeKind::UndoableLinked { .. })
    }

    /// Whether the cell is an (anonymous or named) unbound variable.
    pub fn is_unbound(self, s: &FreeStore) -> (r: bool)
        requires
            self.valid_in(*s),
        ensures
            r == is_unbound_kind(self.cell(*s)),
    {
        matches!(&s.tp_cells[self.idx], FreeKind::Unbound { .. } | FreeKind::NamedUnbound { .. })
    }

    /// Borrows the term behind a resolved cell.
    pub fn crack<'a>(self, s: &'a FreeStore) -> (r: &'a TyParam)
        requires
            self.valid_in(*s),
            is_linked_kind(self.cell(*s)),
        ensures
            *r == linked_term(self.cell(*s)),
    {
        match &s.tp_cells[self.idx] {
            FreeKind::Linked(t) => t,
            FreeKind::UndoableLinked { t, .. } => t,
            _ => vstd::pervasive::unreached(),
        }
    }

    /// Borrows the constraint of an unbound cell.
    pub fn crack_constraint<'a>(self, s: &'a FreeStore) -> (r: &'a Constraint)
        requires
            self.valid_in(*s),
            is_unbound_kind(self.cell(*s)),
        ensures
            *r == kind_constraint(self.cell(*s)),
    {
        match &s.tp_cells[self.idx] {
            FreeKind::Unbound { constraint, .. } => constraint,
            FreeKind::NamedUnbound { constraint, .. } => constraint,
            _ => vstd::pervasive::unreached(),
        }
    }

    /// A copy of the cell state.
    pub fn clone_inner(self, s: &FreeStore) -> (r: FreeKind<TyParam>)
        requires
            self.valid_in(*s),
        ensures
            kind_state_eqv_tp(r, self.cell(*s)),
    {
        s.tp_cells[self.idx].clone()
    }

    /// Resolves a cell definitively; linking a cell already resolved
    /// to an equal term is a no-op.
    pub fn link(self, s: &mut FreeStore, to: TyParam)
        requires
            self.valid_in(*old(s)),
        ensures
            is_linked_kind(self.cell(*old(s))) && tp_eqv(linked_term(self.cell(*old(s))), to)
                ==> *final(s) == *old(s),
            !(is_linked_kind(self.cell(*old(s))) && tp_eqv(linked_term(self.cell(*old(s))), to))
                ==> tp_frame(*old(s), *final(s), self.pos()) && self.cell(*final(s))
                == FreeKind::Linked(to),
            old(s).wf() ==> final(s).wf(),
    {
        let ghost s0 = *s;
        let same = match &s.tp_cells[self.idx] {
            FreeKind::Linked(t) => t.deep_eq(&to),
            FreeKind::UndoableLinked { t, .. } => t.deep_eq(&to),
            _ => false,
        };
        if same {
            return ;
        }
        let slot = &mut s.tp_cells[self.idx];
        *slot = FreeKind::Linked(to);
        proof {
            if s0.wf() {
                lemma_wf_after_set_tp(s0, *s, self.pos(), self.cell(*s));
            }
        }
    }

    /// Resolves a cell speculatively, saving the full prior state so
    /// one [`FreeTyParamVar::undo`] restores it.
    pub fn undoable_link(self, s: &mut FreeStore, to: TyParam)
        requires
            self.valid_in(*old(s)),
            !(is_linked_kind(self.cell(*old(s))) && tp_eqv(linked_term(self.cell(*old(s))), to)),
        ensures
            tp_frame(*old(s), *final(s), self.pos()),
            self.cell(*final(s)) is UndoableLinked,
            self.cell(*final(s))->UndoableLinked_t == to,
            *self.cell(*final(s))->UndoableLinked_previous == self.cell(*old(s)),
            old(s).wf() ==> final(s).wf(),
    {
        let ghost s0 = *s;
        let mut tmp: FreeKind<TyParam> = FreeKind::Unbound {
            id: 0,
            lev: 0,
            constraint: Constraint::Uninited,
        };
        let slot = &mut s.tp_cells[self.idx];
        core::mem::swap(slot, &mut tmp);
        *slot = FreeKind::UndoableLinked { t: to, previous: Box::new(tmp) };
        proof {
            if s0.wf() {
                lemma_wf_after_set_tp(s0, *s, self.pos(), self.cell(*s));
            }
        }
    }

    /// Restores the state saved by the matching
    /// [`FreeTyParamVar::undoable_link`].
    pub fn undo(self, s: &mut FreeStore)
        requires
            self.valid_in(*old(s)),
            self.cell(*old(s)) is UndoableLinked,
        ensures
            tp_frame(*old(s), *final(s), self.pos()),
            self.cell(*final(s)) == *self.cell(*old(s))->UndoableLinked_previous,
            old(s).wf() ==> final(s).wf(),
    {
        let ghost s0 = *s;
        let mut tmp: FreeKind<TyParam> = FreeKind::Unbound {
            id: 0,
            lev: 0,
            constraint: Constraint::Uninited,
        };
        let slot = &mut s.tp_cells[self.idx];
        core::mem::swap(slot, &mut tmp);
        match tmp {
            FreeKind::UndoableLinked { previous, .. } => {
                *slot = *previous;
            },
            _ => {
                proof {
                    assert(false);
                }
            },
        }
        proof {
            if s0.wf() {
                lemma_wf_after_set_tp(s0, *s, self.pos(), self.cell(*s));
            }
        }
    }

    /// A copy of the term behind a resolved cell.
    pub fn unwrap_linked(self, s: &FreeStore) -> (r: TyParam)
        requires
            self.valid_in(*s),
            is_linked_kind(self.cell(*s)),
        ensures
            tp_eqv(r, linked_term(self.cell(*s))),
    {
        match &s.tp_cells[self.idx] {
            FreeKind::Linked(t) => t.clone(),
            FreeKind::UndoableLinked { t, .. } => t.clone(),
            _ => vstd::pervasive::unreached(),
        }
    }

    /// The name, level and constraint of an unbound cell.
    pub fn unwrap_unbound(self, s: &FreeStore) -> (r: (Option<String>, usize, Constraint))
        requires
            self.valid_in(*s),
            is_unbound_kind(self.cell(*s)),
        ensures
            self.cell(*s) is Unbound ==> r.0 is None && r.1 == self.cell(*s)->Unbound_lev
                && constraint_eqv(r.2, self.cell(*s)->Unbound_constraint),
            self.cell(*s) is NamedUnbound ==> r.0 is Some && r.0.unwrap()@ == self.cell(
                *s,
            )->NamedUnbound_name@ && r.1 == self.cell(*s)->NamedUnbound_lev && constraint_eqv(
                r.2,
                self.cell(*s)->NamedUnbound_constraint,
            ),
    {
        match &s.tp_cells[self.idx] {
            FreeKind::Unbound { lev, constraint, .. } => (None, *lev, constraint.clone()),
            FreeKind::NamedUnbound { name, lev, constraint } => (
                Some(name.clone()),
                *lev,
                constraint.clone(),
            ),
            _ => vstd::pervasive::unreached(),
        }
    }
}


impl FreeTyParamVar {
    /// Rewrites the term behind a resolved cell in place with `f`; an
    /// undoable link keeps its saved history.
    pub fn map<F: FnOnce(TyParam) -> TyParam>(self, s: &mut FreeStore, f: F)
        requires
            self.valid_in(*old(s)),
            is_linked_kind(self.cell(*old(s))),
            f.requires((linked_term(self.cell(*old(s))),)),
        ensures
            tp_frame(*old(s), *final(s), self.pos()),
            is_linked_kind(self.cell(*final(s))),
            self.cell(*old(s)) is Linked <==> self.cell(*final(s)) is Linked,
            self.cell(*old(s)) is UndoableLinked ==> *self.cell(
                *final(s),
            )->UndoableLinked_previous == *self.cell(*old(s))->UndoableLinked_previous,
            f.ensures(
                (linked_term(self.cell(*old(s))),),
                linked_term(self.cell(*final(s))),
            ),
            old(s).wf() ==> final(s).wf(),
    {
        let ghost s0 = *s;
        let mut tmp: FreeKind<TyParam> = FreeKind::Unbound {
            id: 0,
            lev: 0,
            constraint: Constraint::Uninited,
        };
        let slot = &mut s.tp_cells[self.idx];
        core::mem::swap(slot, &mut tmp);
        match tmp {
            FreeKind::Linked(t) => {
                *slot = FreeKind::Linked(f(t));
            },
            FreeKind::UndoableLinked { t, previous } => {
                *slot = FreeKind::UndoableLinked { t: f(t), previous };
            },
            _ => {
                proof {
                    assert(false);
                }
            },
        }
        proof {
            if s0.wf() {
                lemma_wf_after_set_tp(s0, *s, self.pos(), self.cell(*s));
            }
        }
    }
}


/// The unbound cell reached from the type-parameter-variable cell `i`
/// by following resolved cells whose term is itself a free
/// type-parameter variable, for at most `fuel` link steps.
pub open spec fn resolve_tp(s: FreeStore, i: int, fuel: nat) -> Option<int>
    decreases fuel,
{
    if !(0 <= i < s.n_tp()) {
        None
    } else {
        match s.tp_at(i) {
            FreeKind::Unbound { .. } => Some(i),
            FreeKind::NamedUnbound { .. } => Some(i),
            FreeKind::Linked(t) => match t {
                TyParam::FreeVar(v) => if fuel == 0 {
                    None
                } else {
                    resolve_tp(s, v.pos(), (fuel - 1) as nat)
                },
                _ => None,
            },
            FreeKind::UndoableLinked { t, .. } => match t {
                TyParam::FreeVar(v) => if fuel == 0 {
                    None
                } else {
                    resolve_tp(s, v.pos(), (fuel - 1) as nat)
                },
                _ => None,
            },
        }
    }
}

/// Fuel that lets [`resolve_tp`] follow any link chain that does not
/// revisit a cell.
pub open spec fn resolve_fuel_tp(s: FreeStore) -> nat {
    s.n_tp() + 1
}

/// The unbound cell a read of type-parameter cell `i` reaches, if any.
pub open spec fn resolved_tp(s: FreeStore, i: int) -> Option<int> {
    resolve_tp(s, i, resolve_fuel_tp(s))
}

/// The constraint a read of type-parameter cell `i` reaches, if any.
pub open spec fn resolved_constraint_tp(s: FreeStore, i: int) -> Option<Constraint> {
    match resolved_tp(s, i) {
        Some(j) => Some(kind_constraint(s.tp_at(j))),
        None => None,
    }
}

/// Ids of the new state of type-parameter cell `i` either survive
/// from its old state or are fresh for the whole store.
pub open spec fn replace_ids_ok_tp(s: FreeStore, i: int, k: FreeKind<TyParam>) -> bool {
    forall|id: int| #[trigger]
        kind_has_id(k, id) ==> kind_has_id(s.tp_at(i), id) || (0 <= id < s.next_id && id_unused(
            s,
            id,
        ))
}

impl FreeTyParamVar {
    /// Follows links to the unbound cell this one reads as, if any.
    pub(crate) fn resolve(self, s: &FreeStore) -> (r: Option<usize>)
        requires
            self.valid_in(*s),
            s.n_tp() < usize::MAX,
        ensures
            r is Some <==> resolved_tp(*s, self.pos()) is Some,
            r is Some ==> r.unwrap() as int == resolved_tp(*s, self.pos()).unwrap() && 0
                <= r.unwrap() < s.n_tp() && is_unbound_kind(s.tp_at(r.unwrap() as int)),
    {
        let mut i: usize = self.idx;
        let mut fuel: usize = s.tp_cells.len() + 1;
        loop
            invariant
                0 <= i < s.n_tp(),
                s.n_tp() < usize::MAX,
                resolve_tp(*s, i as int, fuel as nat) == resolved_tp(*s, self.pos()),
            decreases fuel,
        {
            match &s.tp_cells[i] {
                FreeKind::Unbound { .. } | FreeKind::NamedUnbound { .. } => {
                    return Some(i);
                },
                FreeKind::Linked(t) | FreeKind::UndoableLinked { t, .. } => {
                    match t {
                        TyParam::FreeVar(v) => {
                            if fuel == 0 {
                                proof {
                                    assert(resolve_tp(*s, i as int, fuel as nat) is None);
                                }
                                return None;
                            }
                            fuel = fuel - 1;
                            if v.idx >= s.tp_cells.len() {
                                proof {
                                    assert(resolve_tp(*s, v.pos(), fuel as nat) is None);
                                }
                                return None;
                            }
                            i = v.idx;
                        },
                        _ => {
                            return None;
                        },
                    }
                },
            }
        }
    }

    /// The constraint this cell reads as: its own for an unbound cell,
    /// the resolved variable's through links, `None` when the cell is
    /// resolved to a term that is no variable.
    pub fn constraint(self, s: &FreeStore) -> (r: Option<Constraint>)
        requires
            self.valid_in(*s),
            s.n_tp() < usize::MAX,
        ensures
            r is Some <==> resolved_constraint_tp(*s, self.pos()) is Some,
            r is Some ==> constraint_eqv(
                r.unwrap(),
                resolved_constraint_tp(*s, self.pos()).unwrap(),
            ),
    {
        match self.resolve(s) {
            Some(j) => {
                match &s.tp_cells[j] {
                    FreeKind::Unbound { constraint, .. } => Some(constraint.clone()),
                    FreeKind::NamedUnbound { constraint, .. } => Some(constraint.clone()),
                    _ => vstd::pervasive::unreached(),
                }
            },
            None => None,
        }
    }

    /// The printable name this cell reads as, `%id` for anonymous
    /// variables; `None` when it resolves to a term that is no
    /// variable.
    pub fn unbound_name(self, s: &FreeStore) -> (r: Option<String>)
        requires
            self.valid_in(*s),
            s.n_tp() < usize::MAX,
        ensures
            r is Some <==> resolved_tp(*s, self.pos()) is Some,
            r is Some ==> r.unwrap()@ == kind_name(s.tp_at(resolved_tp(*s, self.pos()).unwrap())),
    {
        match self.resolve(s) {
            Some(j) => {
                match &s.tp_cells[j] {
                    FreeKind::Unbound { id, .. } => {
                        let digits = crate::strutil::usize_to_string(*id);
                        let r = crate::strutil::concat_str(String::from_str("%"), digits.as_str());
                        proof {
                            reveal_strlit("%");
                            assert(r@ =~= kind_name(s.tp_at(resolved_tp(*s, self.pos()).unwrap())));
                        }
                        Some(r)
                    },
                    FreeKind::NamedUnbound { name, .. } => Some(name.clone()),
                    _ => vstd::pervasive::unreached(),
                }
            },
            None => None,
        }
    }

    /// The type this cell is a term of, if its constraint pins one
    /// down.
    pub fn get_type(self, s: &FreeStore) -> (r: Option<Type>)
        requires
            self.valid_in(*s),
            s.n_tp() < usize::MAX,
        ensures
            r is Some <==> resolved_constraint_tp(*s, self.pos()) is Some
                && resolved_constraint_tp(*s, self.pos()).unwrap().spec_get_type() is Some,
            r is Some ==> ty_eqv(
                r.unwrap(),
                resolved_constraint_tp(*s, self.pos()).unwrap().spec_get_type().unwrap(),
            ),
    {
        match self.resolve(s) {
            Some(j) => {
                match &s.tp_cells[j] {
                    FreeKind::Unbound { constraint, .. } => constraint.get_type(),
                    FreeKind::NamedUnbound { constraint, .. } => constraint.get_type(),
                    _ => vstd::pervasive::unreached(),
                }
            },
            None => None,
        }
    }

    /// The upper bound of this cell's sandwich constraint, if any.
    pub fn get_super(self, s: &FreeStore) -> (r: Option<Type>)
        requires
            self.valid_in(*s),
            s.n_tp() < usize::MAX,
        ensures
            r is Some <==> resolved_constraint_tp(*s, self.pos()) is Some
                && resolved_constraint_tp(*s, self.pos()).unwrap() is Sandwiched,
            r is Some ==> ty_eqv(
                r.unwrap(),
                resolved_constraint_tp(*s, self.pos()).unwrap()->Sandwiched_sup,
            ),
    {
        match self.resolve(s) {
            Some(j) => {
                match &s.tp_cells[j] {
                    FreeKind::Unbound { constraint, .. } => constraint.get_super(),
                    FreeKind::NamedUnbound { constraint, .. } => constraint.get_super(),
                    _ => vstd::pervasive::unreached(),
                }
            },
            None => None,
        }
    }

    /// The lower bound of this cell's sandwich constraint, if any.
    pub fn get_sub(self, s: &FreeStore) -> (r: Option<Type>)
        requires
            self.valid_in(*s),
            s.n_tp() < usize::MAX,
        ensures
            r is Some <==> resolved_constraint_tp(*s, self.pos()) is Some
                && resolved_constraint_tp(*s, self.pos()).unwrap() is Sandwiched,
            r is Some ==> ty_eqv(
                r.unwrap(),
                resolved_constraint_tp(*s, self.pos()).unwrap()->Sandwiched_sub,
            ),
    {
        match self.resolve(s) {
            Some(j) => {
                match &s.tp_cells[j] {
                    FreeKind::Unbound { constraint, .. } => constraint.get_sub(),
                    FreeKind::NamedUnbound { constraint, .. } => constraint.get_sub(),
                    _ => vstd::pervasive::unreached(),
                }
            },
            None => None,
        }
    }

    /// Both bounds of this cell's sandwich constraint, if any.
    pub fn get_subsup(self, s: &FreeStore) -> (r: Option<(Type, Type)>)
        requires
            self.valid_in(*s),
            s.n_tp() < usize::MAX,
        ensures
            r is Some <==> resolved_constraint_tp(*s, self.pos()) is Some
                && resolved_constraint_tp(*s, self.pos()).unwrap() is Sandwiched,
            r is Some ==> ty_eqv(
                r.unwrap().0,
                resolved_constraint_tp(*s, self.pos()).unwrap()->Sandwiched_sub,
            ) && ty_eqv(
                r.unwrap().1,
                resolved_constraint_tp(*s, self.pos()).unwrap()->Sandwiched_sup,
            ),
    {
        match self.resolve(s) {
            Some(j) => {
                match &s.tp_cells[j] {
                    FreeKind::Unbound { constraint, .. } => constraint.get_sub_sup(),
                    FreeKind::NamedUnbound { constraint, .. } => constraint.get_sub_sup(),
                    _ => vstd::pervasive::unreached(),
                }
            },
            None => None,
        }
    }

    /// Whether the constraint this cell reads as pins down a type.
    pub fn constraint_is_typeof(self, s: &FreeStore) -> (r: bool)
        requires
            self.valid_in(*s),
            s.n_tp() < usize::MAX,
        ensures
            r == (resolved_constraint_tp(*s, self.pos()) is Some && resolved_constraint_tp(
                *s,
                self.pos(),
            ).unwrap().spec_get_type() is Some),
    {
        self.get_type(s).is_some()
    }

    /// Whether the constraint this cell reads as is a sandwich.
    pub fn constraint_is_sandwiched(self, s: &FreeStore) -> (r: bool)
        requires
            self.valid_in(*s),
            s.n_tp() < usize::MAX,
        ensures
            r == (resolved_constraint_tp(*s, self.pos()) is Some && resolved_constraint_tp(
                *s,
                self.pos(),
            ).unwrap() is Sandwiched),
    {
        self.get_subsup(s).is_some()
    }

    /// Whether the constraint this cell reads as is the placeholder.
    pub fn constraint_is_uninited(self, s: &FreeStore) -> (r: bool)
        requires
            self.valid_in(*s),
            s.n_tp() < usize::MAX,
        ensures
            r == (resolved_constraint_tp(*s, self.pos()) is Some && resolved_constraint_tp(
                *s,
                self.pos(),
            ).unwrap() is Uninited),
    {
        match self.resolve(s) {
            Some(j) => {
                match &s.tp_cells[j] {
                    FreeKind::Unbound { constraint, .. } => constraint.is_uninited(),
                    FreeKind::NamedUnbound { constraint, .. } => constraint.is_uninited(),
                    _ => vstd::pervasive::unreached(),
                }
            },
            None => false,
        }
    }

    /// Installs a new constraint on the variable this cell reads as,
    /// under the same rules as [`FreeTyVar::update_constraint`].
    pub fn update_constraint(self, s: &mut FreeStore, new_constraint: Constraint, in_inst_or_gen: bool)
        requires
            self.valid_in(*old(s)),
            old(s).n_tp() < usize::MAX,
        ensures
            resolved_tp(*old(s), self.pos()) is None ==> *final(s) == *old(s),
            resolved_tp(*old(s), self.pos()) is Some ==> ({
                let j = resolved_tp(*old(s), self.pos()).unwrap();
                let c = old(s).tp_at(j);
                &&& (kind_level(c) == GENERIC_LEVEL && !in_inst_or_gen) ==> *final(s) == *old(s)
                &&& !(kind_level(c) == GENERIC_LEVEL && !in_inst_or_gen) && constraint_eqv(
                    kind_constraint(c),
                    new_constraint,
                ) ==> *final(s) == *old(s)
                &&& !(kind_level(c) == GENERIC_LEVEL && !in_inst_or_gen) && !constraint_eqv(
                    kind_constraint(c),
                    new_constraint,
                ) ==> {
                    &&& tp_frame(*old(s), *final(s), j)
                    &&& c is Unbound ==> final(s).tp_at(j) == (FreeKind::Unbound::<TyParam> {
                        id: c->Unbound_id,
                        lev: c->Unbound_lev,
                        constraint: new_constraint,
                    })
                    &&& c is NamedUnbound ==> final(s).tp_at(j) == (
                    FreeKind::NamedUnbound::<TyParam> {
                        name: c->NamedUnbound_name,
                        lev: c->NamedUnbound_lev,
                        constraint: new_constraint,
                    })
                }
            }),
            old(s).wf() ==> final(s).wf(),
    {
        let ghost s0 = *s;
        let tgt = self.resolve(s);
        match tgt {
            None => {},
            Some(j) => {
                let lev = match &s.tp_cells[j] {
                    FreeKind::Unbound { lev, .. } => *lev,
                    FreeKind::NamedUnbound { lev, .. } => *lev,
                    _ => vstd::pervasive::unreached(),
                };
                if lev == GENERIC_LEVEL && !in_inst_or_gen {
                    return ;
                }
                let same = match &s.tp_cells[j] {
                    FreeKind::Unbound { constraint, .. } => constraint.deep_eq(&new_constraint),
                    FreeKind::NamedUnbound { constraint, .. } => constraint.deep_eq(
                        &new_constraint,
                    ),
                    _ => vstd::pervasive::unreached(),
                };
                if same {
                    return ;
                }
                let mut tmp: FreeKind<TyParam> = FreeKind::Unbound {
                    id: 0,
                    lev: 0,
                    constraint: Constraint::Uninited,
                };
                {
                    let slot = &mut s.tp_cells[j];
                    core::mem::swap(slot, &mut tmp);
                }
                match tmp {
                    FreeKind::Unbound { id, lev, .. } => {
                        let slot = &mut s.tp_cells[j];
                        *slot = FreeKind::Unbound { id, lev, constraint: new_constraint };
                    },
                    FreeKind::NamedUnbound { name, lev, .. } => {
                        let slot = &mut s.tp_cells[j];
                        *slot = FreeKind::NamedUnbound { name, lev, constraint: new_constraint };
                    },
                    _ => {
                        proof {
                            assert(false);
                        }
                    },
                }
                proof {
                    assert(s.tp_cells@ =~= s0.tp_cells@.update(j as int, s.tp_at(j as int)));
                    if s0.wf() {
                        lemma_wf_after_set_tp(s0, *s, j as int, s.tp_at(j as int));
                    }
                }
            },
        }
    }

    /// Overwrites the cell state.  Overwriting a resolved cell with an
    /// equal state is a no-op (the self-link guard).
    pub fn replace(self, s: &mut FreeStore, to: FreeKind<TyParam>)
        requires
            self.valid_in(*old(s)),
        ensures
            is_linked_kind(self.cell(*old(s))) && kind_state_eqv_tp(self.cell(*old(s)), to)
                ==> *final(s) == *old(s),
            !(is_linked_kind(self.cell(*old(s))) && kind_state_eqv_tp(self.cell(*old(s)), to))
                ==> tp_frame(*old(s), *final(s), self.pos()) && self.cell(*final(s)) == to,
            old(s).wf() && replace_ids_ok_tp(*old(s), self.pos(), to) ==> final(s).wf(),
    {
        let ghost s0 = *s;
        let same = {
            let cur = &s.tp_cells[self.idx];
            match cur {
                FreeKind::Linked(_) | FreeKind::UndoableLinked { .. } => cur.state_eq(&to),
                _ => false,
            }
        };
        if same {
            return ;
        }
        let slot = &mut s.tp_cells[self.idx];
        *slot = to;
        proof {
            if s0.wf() && replace_ids_ok_tp(s0, self.pos(), self.cell(*s)) {
                lemma_wf_after_set_tp(s0, *s, self.pos(), self.cell(*s));
            }
        }
    }

    /// Overwrites the cell state unconditionally, except that an equal
    /// state is left in place.
    pub fn force_replace(self, s: &mut FreeStore, to: FreeKind<TyParam>)
        requires
            self.valid_in(*old(s)),
        ensures
            kind_state_eqv_tp(self.cell(*old(s)), to) ==> *final(s) == *old(s),
            !kind_state_eqv_tp(self.cell(*old(s)), to) ==> tp_frame(*old(s), *final(s), self.pos())
                && self.cell(*final(s)) == to,
            old(s).wf() && replace_ids_ok_tp(*old(s), self.pos(), to) ==> final(s).wf(),
    {
        let ghost s0 = *s;
        let same = s.tp_cells[self.idx].state_eq(&to);
        if same {
            return ;
        }
        let slot = &mut s.tp_cells[self.idx];
        *slot = to;
        proof {
            if s0.wf() && replace_ids_ok_tp(s0, self.pos(), self.cell(*s)) {
                lemma_wf_after_set_tp(s0, *s, self.pos(), self.cell(*s));
            }
        }
    }

    /// A fresh cell with the same name, level and constraint, sharing
    /// nothing with this one; an anonymous cell draws a fresh id.
    pub fn detach(self, s: &mut FreeStore) -> (v: FreeTyParamVar)
        requires
            self.valid_in(*old(s)),
            is_unbound_kind(self.cell(*old(s))),
            self.cell(*old(s)) is Unbound ==> old(s).next_id < usize::MAX,
        ensures
            v.pos() == old(s).n_tp(),
            v.valid_in(*final(s)),
            final(s).n_tp() == old(s).n_tp() + 1,
            final(s).n_ty() == old(s).n_ty(),
            forall|j: int| 0 <= j < old(s).n_ty() ==> final(s).ty_at(j) == old(s).ty_at(j),
            forall|j: int| 0 <= j < old(s).n_tp() ==> final(s).tp_at(j) == old(s).tp_at(j),
            self.cell(*old(s)) is Unbound ==> final(s).next_id == old(s).next_id + 1 && v.cell(
                *final(s),
            ) is Unbound && v.cell(*final(s))->Unbound_id == old(s).next_id && v.cell(
                *final(s),
            )->Unbound_lev == self.cell(*old(s))->Unbound_lev && constraint_eqv(
                v.cell(*final(s))->Unbound_constraint,
                self.cell(*old(s))->Unbound_constraint,
            ),
            self.cell(*old(s)) is NamedUnbound ==> final(s).next_id == old(s).next_id && v.cell(
                *final(s),
            ) is NamedUnbound && v.cell(*final(s))->NamedUnbound_name@ == self.cell(
                *old(s),
            )->NamedUnbound_name@ && v.cell(*final(s))->NamedUnbound_lev == self.cell(
                *old(s),
            )->NamedUnbound_lev && constraint_eqv(
                v.cell(*final(s))->NamedUnbound_constraint,
                self.cell(*old(s))->NamedUnbound_constraint,
            ),
            old(s).wf() ==> final(s).wf(),
    {
        let (name, lev, constraint) = self.unwrap_unbound(s);
        match name {
            Some(n) => s.new_named_unbound_tp(n, lev, constraint),
            None => s.new_unbound_tp(lev, constraint),
        }
    }
}

} // verus!
