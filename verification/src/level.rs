//! Binding levels: reading the level of a term or cell, setting it
//! across the (possibly cyclic) constraint graph, lifting, lowering and
//! generalization.
//!
//! Reads follow links with a fuel bound; writes thread visited sets
//! through the traversal, the cycle-breaking protocol of this kernel.

use vstd::prelude::*;

use crate::GENERIC_LEVEL;
use crate::constraint::Constraint;
use crate::free::FreeKind;
use crate::free::FreeStore;
use crate::free::FreeTyParamVar;
use crate::free::FreeTyVar;
use crate::free::is_unbound_kind;
use crate::free::kind_constraint;
use crate::free::kind_has_id;
use crate::free::kind_level;
use crate::ty::TyParam;
use crate::ty::Type;

verus! {

/// Structural height of a type term; the measure of term traversals.
pub open spec fn ty_height(t: Type) -> nat
    decreases t,
{
    match t {
        Type::Poly { params, .. } => 1 + tps_height(params@),
        _ => 1,
    }
}

/// Structural height of a sequence of type-parameter terms.
pub open spec fn tps_height(ps: Seq<TyParam>) -> nat
    decreases ps,
{
    if ps.len() == 0 {
        0
    } else {
        1 + tp_height(ps[0]) + tps_height(ps.drop_first())
    }
}

/// Structural height of a type-parameter term.
pub open spec fn tp_height(p: TyParam) -> nat
    decreases p,
{
    match p {
        TyParam::Ty(t) => 1 + ty_height(*t),
        _ => 1,
    }
}

/// Every element of a sequence sits strictly below the sequence's height.
pub proof fn lemma_tps_height_elem(ps: Seq<TyParam>, i: int)
    requires
        0 <= i < ps.len(),
    ensures
        tp_height(ps[i]) < tps_height(ps),
    decreases ps.len(),
{
    if i > 0 {
        lemma_tps_height_elem(ps.drop_first(), i - 1);
    }
}

/// How many entries of a visited set are still false.
pub open spec fn count_false(s: Seq<bool>) -> nat
    decreases s.len(),
{
    if s.len() == 0 {
        0
    } else {
        (if s[0] {
            0nat
        } else {
            1nat
        }) + count_false(s.drop_first())
    }
}

/// Marking one unvisited entry shrinks the count by one.
pub proof fn lemma_count_false_update(s: Seq<bool>, i: int)
    requires
        0 <= i < s.len(),
        !s[i],
    ensures
        count_false(s.update(i, true)) + 1 == count_false(s),
    decreases s.len(),
{
    if i == 0 {
        assert(s.update(0, true).drop_first() =~= s.drop_first());
    } else {
        assert(s.update(i, true).drop_first() =~= s.drop_first().update(i - 1, true));
        lemma_count_false_update(s.drop_first(), i - 1);
    }
}



/// Minimum of two optional levels, ignoring `None`.
pub open spec fn opt_min(a: Option<usize>, b: Option<usize>) -> Option<usize> {
    match (a, b) {
        (Some(x), Some(y)) => if x <= y {
            a
        } else {
            b
        },
        (Some(_), None) => a,
        (None, _) => b,
    }
}

/// The level a type term reads as: the minimum level among its
/// embedded free variables, following links for at most `fuel`
/// dereference steps, `None` when the term is ground.
pub open spec fn spec_ty_level(s: FreeStore, t: Type, fuel: nat) -> Option<usize>
    decreases fuel, ty_height(t),
{
    match t {
        Type::FreeVar(v) => if 0 <= v.pos() < s.n_ty() {
            spec_ty_cell_level(s, v.pos(), fuel)
        } else {
            None
        },
        Type::Poly { params, .. } => spec_tps_level(s, params@, fuel),
        _ => None,
    }
}

/// The minimum level among a sequence of type-parameter terms.
pub open spec fn spec_tps_level(s: FreeStore, ps: Seq<TyParam>, fuel: nat) -> Option<usize>
    decreases fuel, tps_height(ps),
{
    if ps.len() == 0 {
        None
    } else {
        opt_min(spec_tp_level(s, ps[0], fuel), spec_tps_level(s, ps.drop_first(), fuel))
    }
}

/// The level a type-parameter term reads as.
pub open spec fn spec_tp_level(s: FreeStore, p: TyParam, fuel: nat) -> Option<usize>
    decreases fuel, tp_height(p),
{
    match p {
        TyParam::Ty(t) => spec_ty_level(s, *t, fuel),
        TyParam::FreeVar(v) => if 0 <= v.pos() < s.n_tp() {
            spec_tp_cell_level(s, v.pos(), fuel)
        } else {
            None
        },
        _ => None,
    }
}

/// The level a type-variable cell reads as: its own for unbound cells,
/// the term's through links.
pub open spec fn spec_ty_cell_level(s: FreeStore, i: int, fuel: nat) -> Option<usize>
    decreases fuel, 0nat,
{
    match s.ty_at(i) {
        FreeKind::Unbound { lev, .. } => Some(lev),
        FreeKind::NamedUnbound { lev, .. } => Some(lev),
        FreeKind::Linked(t) => if fuel == 0 {
            None
        } else {
            spec_ty_level(s, t, (fuel - 1) as nat)
        },
        FreeKind::UndoableLinked { t, .. } => if fuel == 0 {
            None
        } else {
            spec_ty_level(s, t, (fuel - 1) as nat)
        },
    }
}

/// The level a type-parameter-variable cell reads as.
pub open spec fn spec_tp_cell_level(s: FreeStore, i: int, fuel: nat) -> Option<usize>
    decreases fuel, 0nat,
{
    match s.tp_at(i) {
        FreeKind::Unbound { lev, .. } => Some(lev),
        FreeKind::NamedUnbound { lev, .. } => Some(lev),
        FreeKind::Linked(t) => if fuel == 0 {
            None
        } else {
            spec_tp_level(s, t, (fuel - 1) as nat)
        },
        FreeKind::UndoableLinked { t, .. } => if fuel == 0 {
            None
        } else {
            spec_tp_level(s, t, (fuel - 1) as nat)
        },
    }
}

/// Fuel that lets a level read follow any chain of cells that does not
/// revisit one.
pub open spec fn level_fuel(s: FreeStore) -> nat {
    s.n_ty() + s.n_tp() + 1
}

/// Minimum of two optional levels.
pub fn opt_min_exec(a: Option<usize>, b: Option<usize>) -> (r: Option<usize>)
    ensures
        r == opt_min(a, b),
{
    match (a, b) {
        (Some(x), Some(y)) => if x <= y {
            Some(x)
        } else {
            Some(y)
        },
        (Some(x), None) => Some(x),
        (None, other) => other,
    }
}

/// Reads the level of a type term; decides [`spec_ty_level`].
pub fn ty_level(s: &FreeStore, t: &Type, fuel: usize) -> (r: Option<usize>)
    ensures
        r == spec_ty_level(*s, *t, fuel as nat),
    decreases fuel as nat, ty_height(*t),
{
    match t {
        Type::FreeVar(v) => {
            if v.idx < s.ty_cells.len() {
                ty_cell_level(s, v.idx, fuel)
            } else {
                None
            }
        },
        Type::Poly { params, .. } => {
            let ghost ps = params@;
            proof {
                assert(ps.skip(0) =~= ps);
            }
            let mut acc: Option<usize> = None;
            let mut i: usize = 0;
            while i < params.len()
                invariant
                    i <= params.len(),
                    params@ == ps,
                    *t is Poly,
                    params == t->Poly_params,
                    opt_min(acc, spec_tps_level(*s, ps.skip(i as int), fuel as nat))
                        == spec_tps_level(*s, ps, fuel as nat),
                decreases params.len() - i,
            {
                proof {
                    assert(decreases_to!(*t => *params));
                    assert(decreases_to!(*params => params@[i as int]));
                    lemma_tps_height_elem(ps, i as int);
                    assert(ps.skip(i as int).drop_first() =~= ps.skip(i as int + 1));
                    assert(ps.skip(i as int)[0] == ps[i as int]);
                }
                let l = tp_level(s, &params[i], fuel);
                proof {
                    lemma_opt_min_assoc(acc, l, spec_tps_level(*s, ps.skip(i as int + 1), fuel as nat));
                }
                acc = opt_min_exec(acc, l);
                i += 1;
            }
            proof {
                assert(ps.skip(params@.len() as int) =~= Seq::<TyParam>::empty());
            }
            acc
        },
        _ => None,
    }
}

/// Reads the level of a type-parameter term; decides [`spec_tp_level`].
pub fn tp_level(s: &FreeStore, p: &TyParam, fuel: usize) -> (r: Option<usize>)
    ensures
        r == spec_tp_level(*s, *p, fuel as nat),
    decreases fuel as nat, tp_height(*p),
{
    match p {
        TyParam::Ty(t) => ty_level(s, t, fuel),
        TyParam::FreeVar(v) => {
            if v.idx < s.tp_cells.len() {
                tp_cell_level(s, v.idx, fuel)
            } else {
                None
            }
        },
        _ => None,
    }
}

/// Reads the level of a type-variable cell; decides
/// [`spec_ty_cell_level`].
pub fn ty_cell_level(s: &FreeStore, i: usize, fuel: usize) -> (r: Option<usize>)
    requires
        i < s.n_ty(),
    ensures
        r == spec_ty_cell_level(*s, i as int, fuel as nat),
    decreases fuel as nat, 0nat,
{
    match &s.ty_cells[i] {
        FreeKind::Unbound { lev, .. } => Some(*lev),
        FreeKind::NamedUnbound { lev, .. } => Some(*lev),
        FreeKind::Linked(t) => {
            if fuel == 0 {
                None
            } else {
                ty_level(s, t, fuel - 1)
            }
        },
        FreeKind::UndoableLinked { t, .. } => {
            if fuel == 0 {
                None
            } else {
                ty_level(s, t, fuel - 1)
            }
        },
    }
}

/// Reads the level of a type-parameter-variable cell; decides
/// [`spec_tp_cell_level`].
pub fn tp_cell_level(s: &FreeStore, i: usize, fuel: usize) -> (r: Option<usize>)
    requires
        i < s.n_tp(),
    ensures
        r == spec_tp_cell_level(*s, i as int, fuel as nat),
    decreases fuel as nat, 0nat,
{
    match &s.tp_cells[i] {
        FreeKind::Unbound { lev, .. } => Some(*lev),
        FreeKind::NamedUnbound { lev, .. } => Some(*lev),
        FreeKind::Linked(t) => {
            if fuel == 0 {
                None
            } else {
                tp_level(s, t, fuel - 1)
            }
        },
        FreeKind::UndoableLinked { t, .. } => {
            if fuel == 0 {
                None
            } else {
                tp_level(s, t, fuel - 1)
            }
        },
    }
}

/// `opt_min` is associative.
proof fn lemma_opt_min_assoc(a: Option<usize>, b: Option<usize>, c: Option<usize>)
    ensures
        opt_min(opt_min(a, b), c) == opt_min(a, opt_min(b, c)),
{
}


/// The cell state with its level replaced; resolved states are kept.
pub open spec fn kind_with_lev<T>(k: FreeKind<T>, lev: usize) -> FreeKind<T> {
    match k {
        FreeKind::Unbound { id, constraint, .. } => FreeKind::Unbound { id, lev, constraint },
        FreeKind::NamedUnbound { name, constraint, .. } => FreeKind::NamedUnbound {
            name,
            lev,
            constraint,
        },
        _ => k,
    }
}

/// The cell either kept its state or had its level set to `lev`.
pub open spec fn level_set_kind<T>(k0: FreeKind<T>, k1: FreeKind<T>, lev: usize) -> bool {
    k1 == k0 || k1 == kind_with_lev(k0, lev)
}

/// A level-setting walk touches nothing but levels: sizes, ids, names,
/// constraints and terms are kept, and every changed cell now carries
/// level `lev`.
pub open spec fn level_frame(s0: FreeStore, s1: FreeStore, lev: usize) -> bool {
    &&& s1.n_ty() == s0.n_ty()
    &&& s1.n_tp() == s0.n_tp()
    &&& s1.next_id == s0.next_id
    &&& forall|j: int|
        0 <= j < s0.n_ty() ==> #[trigger] level_set_kind(s0.ty_at(j), s1.ty_at(j), lev)
    &&& forall|j: int|
        0 <= j < s0.n_tp() ==> #[trigger] level_set_kind(s0.tp_at(j), s1.tp_at(j), lev)
}

/// Level-setting frames compose.
pub proof fn lemma_level_frame_trans(s0: FreeStore, s1: FreeStore, s2: FreeStore, lev: usize)
    requires
        level_frame(s0, s1, lev),
        level_frame(s1, s2, lev),
    ensures
        level_frame(s0, s2, lev),
{
    assert forall|j: int| 0 <= j < s0.n_ty() implies #[trigger] level_set_kind(
        s0.ty_at(j),
        s2.ty_at(j),
        lev,
    ) by {
        assert(level_set_kind(s0.ty_at(j), s1.ty_at(j), lev));
        assert(level_set_kind(s1.ty_at(j), s2.ty_at(j), lev));
    }
    assert forall|j: int| 0 <= j < s0.n_tp() implies #[trigger] level_set_kind(
        s0.tp_at(j),
        s2.tp_at(j),
        lev,
    ) by {
        assert(level_set_kind(s0.tp_at(j), s1.tp_at(j), lev));
        assert(level_set_kind(s1.tp_at(j), s2.tp_at(j), lev));
    }
}

/// Replacing a level never adds or removes ids.
proof fn lemma_with_lev_ids_ty(k: FreeKind<Type>, lev: usize)
    ensures
        forall|id: int| #[trigger]
            kind_has_id(kind_with_lev(k, lev), id) == kind_has_id(k, id),
{
}

/// Replacing a level never adds or removes ids.
proof fn lemma_with_lev_ids_tp(k: FreeKind<TyParam>, lev: usize)
    ensures
        forall|id: int| #[trigger]
            kind_has_id(kind_with_lev(k, lev), id) == kind_has_id(k, id),
{
}

/// A level-setting walk keeps the store well-formed.
pub proof fn lemma_level_frame_wf(s0: FreeStore, s1: FreeStore, lev: usize)
    requires
        s0.wf(),
        level_frame(s0, s1, lev),
    ensures
        s1.wf(),
{
    assert forall|i: int, id: int|
        0 <= i < s1.n_ty() implies #[trigger] kind_has_id(s1.ty_at(i), id) == kind_has_id(
        s0.ty_at(i),
        id,
    ) by {
        assert(level_set_kind(s0.ty_at(i), s1.ty_at(i), lev));
        lemma_with_lev_ids_ty(s0.ty_at(i), lev);
    }
    assert forall|i: int, id: int|
        0 <= i < s1.n_tp() implies #[trigger] kind_has_id(s1.tp_at(i), id) == kind_has_id(
        s0.tp_at(i),
        id,
    ) by {
        assert(level_set_kind(s0.tp_at(i), s1.tp_at(i), lev));
        lemma_with_lev_ids_tp(s0.tp_at(i), lev);
    }
    assert forall|i: int, id: int|
        0 <= i < s1.n_ty() && #[trigger] kind_has_id(s1.ty_at(i), id) implies 0 <= id
        < s1.next_id by {
        assert(kind_has_id(s0.ty_at(i), id));
    }
    assert forall|i: int, id: int|
        0 <= i < s1.n_tp() && #[trigger] kind_has_id(s1.tp_at(i), id) implies 0 <= id
        < s1.next_id by {
        assert(kind_has_id(s0.tp_at(i), id));
    }
    assert forall|i: int, j: int, id: int|
        0 <= i < s1.n_ty() && 0 <= j < s1.n_ty() && i != j && #[trigger] kind_has_id(
            s1.ty_at(i),
            id,
        ) implies !#[trigger] kind_has_id(s1.ty_at(j), id) by {
        if kind_has_id(s1.ty_at(j), id) {
            assert(kind_has_id(s0.ty_at(i), id));
            assert(kind_has_id(s0.ty_at(j), id));
            assert(false);
        }
    }
    assert forall|i: int, j: int, id: int|
        0 <= i < s1.n_ty() && 0 <= j < s1.n_tp() && #[trigger] kind_has_id(
            s1.ty_at(i),
            id,
        ) implies !#[trigger] kind_has_id(s1.tp_at(j), id) by {
        if kind_has_id(s1.tp_at(j), id) {
            assert(kind_has_id(s0.ty_at(i), id));
            assert(kind_has_id(s0.tp_at(j), id));
            assert(false);
        }
    }
    assert forall|i: int, j: int, id: int|
        0 <= i < s1.n_tp() && 0 <= j < s1.n_tp() && i != j && #[trigger] kind_has_id(
            s1.tp_at(i),
            id,
        ) implies !#[trigger] kind_has_id(s1.tp_at(j), id) by {
        if kind_has_id(s1.tp_at(j), id) {
            assert(kind_has_id(s0.tp_at(i), id));
            assert(kind_has_id(s0.tp_at(j), id));
            assert(false);
        }
    }
}

/// Every free variable the term mentions is marked in the visited
/// sets.
pub open spec fn ty_vars_marked(t: Type, vty: Seq<bool>, vtp: Seq<bool>) -> bool
    decreases t,
{
    match t {
        Type::FreeVar(v) => 0 <= v.pos() < vty.len() ==> vty[v.pos()],
        Type::Poly { params, .. } => forall|k: int|
            0 <= k < params@.len() ==> tp_vars_marked(#[trigger] params@[k], vty, vtp),
        _ => true,
    }
}

/// Every free variable the type-parameter term mentions is marked.
pub open spec fn tp_vars_marked(p: TyParam, vty: Seq<bool>, vtp: Seq<bool>) -> bool
    decreases p,
{
    match p {
        TyParam::FreeVar(v) => 0 <= v.pos() < vtp.len() ==> vtp[v.pos()],
        TyParam::Ty(t) => ty_vars_marked(*t, vty, vtp),
        _ => true,
    }
}

/// What holds of a type-variable cell once the level-setting walk has
/// visited it: an unbound cell carries `lev`, and a resolved cell's
/// term mentions only visited variables.
pub open spec fn cell_ok_ty(s: FreeStore, j: int, vty: Seq<bool>, vtp: Seq<bool>, lev: usize) -> bool {
    match s.ty_at(j) {
        FreeKind::Unbound { lev: l, .. } => l == lev,
        FreeKind::NamedUnbound { lev: l, .. } => l == lev,
        FreeKind::Linked(t) => ty_vars_marked(t, vty, vtp),
        FreeKind::UndoableLinked { t, .. } => ty_vars_marked(t, vty, vtp),
    }
}

/// As [`cell_ok_ty`], for a type-parameter-variable cell.
pub open spec fn cell_ok_tp(s: FreeStore, j: int, vty: Seq<bool>, vtp: Seq<bool>, lev: usize) -> bool {
    match s.tp_at(j) {
        FreeKind::Unbound { lev: l, .. } => l == lev,
        FreeKind::NamedUnbound { lev: l, .. } => l == lev,
        FreeKind::Linked(t) => tp_vars_marked(t, vty, vtp),
        FreeKind::UndoableLinked { t, .. } => tp_vars_marked(t, vty, vtp),
    }
}

/// Every visited cell satisfies its closure property: unbound at
/// `lev`, or resolved to a term of visited variables.
pub open spec fn marks_ok(s: FreeStore, vty: Seq<bool>, vtp: Seq<bool>, lev: usize) -> bool {
    &&& vty.len() == s.n_ty()
    &&& vtp.len() == s.n_tp()
    &&& forall|j: int| 0 <= j < vty.len() && vty[j] ==> #[trigger] cell_ok_ty(s, j, vty, vtp, lev)
    &&& forall|j: int| 0 <= j < vtp.len() && vtp[j] ==> #[trigger] cell_ok_tp(s, j, vty, vtp, lev)
}

/// Growing the visited sets never unmarks a term's variables.
proof fn lemma_ty_vars_marked_mono(
    t: Type,
    vty1: Seq<bool>,
    vtp1: Seq<bool>,
    vty2: Seq<bool>,
    vtp2: Seq<bool>,
)
    requires
        vty1.len() == vty2.len(),
        vtp1.len() == vtp2.len(),
        forall|j: int| 0 <= j < vty1.len() && vty1[j] ==> vty2[j],
        forall|j: int| 0 <= j < vtp1.len() && vtp1[j] ==> vtp2[j],
        ty_vars_marked(t, vty1, vtp1),
    ensures
        ty_vars_marked(t, vty2, vtp2),
    decreases t,
{
    match t {
        Type::Poly { params, .. } => {
            assert forall|k: int| 0 <= k < params@.len() implies tp_vars_marked(
                #[trigger] params@[k],
                vty2,
                vtp2,
            ) by {
                lemma_tp_vars_marked_mono(params@[k], vty1, vtp1, vty2, vtp2);
            }
        },
        _ => {},
    }
}

/// Growing the visited sets never unmarks a term's variables.
proof fn lemma_tp_vars_marked_mono(
    p: TyParam,
    vty1: Seq<bool>,
    vtp1: Seq<bool>,
    vty2: Seq<bool>,
    vtp2: Seq<bool>,
)
    requires
        vty1.len() == vty2.len(),
        vtp1.len() == vtp2.len(),
        forall|j: int| 0 <= j < vty1.len() && vty1[j] ==> vty2[j],
        forall|j: int| 0 <= j < vtp1.len() && vtp1[j] ==> vtp2[j],
        tp_vars_marked(p, vty1, vtp1),
    ensures
        tp_vars_marked(p, vty2, vtp2),
    decreases p,
{
    match p {
        TyParam::Ty(t) => {
            lemma_ty_vars_marked_mono(*t, vty1, vtp1, vty2, vtp2);
        },
        _ => {},
    }
}

/// Equal terms mention the same variables.
proof fn lemma_ty_vars_marked_eqv(a: Type, b: Type, vty: Seq<bool>, vtp: Seq<bool>)
    requires
        crate::ty::ty_eqv(a, b),
    ensures
        ty_vars_marked(a, vty, vtp) == ty_vars_marked(b, vty, vtp),
    decreases a,
{
    match (a, b) {
        (Type::Poly { params: pa, .. }, Type::Poly { params: pb, .. }) => {
            if ty_vars_marked(a, vty, vtp) {
                assert forall|k: int| 0 <= k < pb@.len() implies tp_vars_marked(
                    #[trigger] pb@[k],
                    vty,
                    vtp,
                ) by {
                    assert(tp_vars_marked(pa@[k], vty, vtp));
                    lemma_tp_vars_marked_eqv(pa@[k], pb@[k], vty, vtp);
                }
            }
            if ty_vars_marked(b, vty, vtp) {
                assert forall|k: int| 0 <= k < pa@.len() implies tp_vars_marked(
                    #[trigger] pa@[k],
                    vty,
                    vtp,
                ) by {
                    lemma_tp_vars_marked_eqv(pa@[k], pb@[k], vty, vtp);
                }
            }
        },
        _ => {},
    }
}

/// Equal terms mention the same variables.
proof fn lemma_tp_vars_marked_eqv(a: TyParam, b: TyParam, vty: Seq<bool>, vtp: Seq<bool>)
    requires
        crate::ty::tp_eqv(a, b),
    ensures
        tp_vars_marked(a, vty, vtp) == tp_vars_marked(b, vty, vtp),
    decreases a,
{
    match (a, b) {
        (TyParam::Ty(t1), TyParam::Ty(t2)) => {
            lemma_ty_vars_marked_eqv(*t1, *t2, vty, vtp);
        },
        _ => {},
    }
}

/// A visited cell's closure property survives later steps of the walk:
/// its state is untouched and the visited sets only grow.
proof fn lemma_cell_ok_ty_persists(
    s1: FreeStore,
    s2: FreeStore,
    vty1: Seq<bool>,
    vtp1: Seq<bool>,
    vty2: Seq<bool>,
    vtp2: Seq<bool>,
    j: int,
    lev: usize,
)
    requires
        cell_ok_ty(s1, j, vty1, vtp1, lev),
        s2.ty_at(j) == s1.ty_at(j),
        vty1.len() == vty2.len(),
        vtp1.len() == vtp2.len(),
        forall|k: int| 0 <= k < vty1.len() && vty1[k] ==> vty2[k],
        forall|k: int| 0 <= k < vtp1.len() && vtp1[k] ==> vtp2[k],
    ensures
        cell_ok_ty(s2, j, vty2, vtp2, lev),
{
    match s1.ty_at(j) {
        FreeKind::Linked(t) => {
            lemma_ty_vars_marked_mono(t, vty1, vtp1, vty2, vtp2);
        },
        FreeKind::UndoableLinked { t, .. } => {
            lemma_ty_vars_marked_mono(t, vty1, vtp1, vty2, vtp2);
        },
        _ => {},
    }
}

/// As [`lemma_cell_ok_ty_persists`], for a type-parameter cell.
proof fn lemma_cell_ok_tp_persists(
    s1: FreeStore,
    s2: FreeStore,
    vty1: Seq<bool>,
    vtp1: Seq<bool>,
    vty2: Seq<bool>,
    vtp2: Seq<bool>,
    j: int,
    lev: usize,
)
    requires
        cell_ok_tp(s1, j, vty1, vtp1, lev),
        s2.tp_at(j) == s1.tp_at(j),
        vty1.len() == vty2.len(),
        vtp1.len() == vtp2.len(),
        forall|k: int| 0 <= k < vty1.len() && vty1[k] ==> vty2[k],
        forall|k: int| 0 <= k < vtp1.len() && vtp1[k] ==> vtp2[k],
    ensures
        cell_ok_tp(s2, j, vty2, vtp2, lev),
{
    match s1.tp_at(j) {
        FreeKind::Linked(t) => {
            lemma_tp_vars_marked_mono(t, vty1, vtp1, vty2, vtp2);
        },
        FreeKind::UndoableLinked { t, .. } => {
            lemma_tp_vars_marked_mono(t, vty1, vtp1, vty2, vtp2);
        },
        _ => {},
    }
}

/// After the walk, the level a visited cell reads as is `lev` (when it
/// reads as any): the closure property propagates through links.
proof fn lemma_marked_read_ty_cell(
    s: FreeStore,
    vty: Seq<bool>,
    vtp: Seq<bool>,
    lev: usize,
    i: int,
    fuel: nat,
)
    requires
        marks_ok(s, vty, vtp, lev),
        0 <= i < s.n_ty(),
        vty[i],
    ensures
        spec_ty_cell_level(s, i, fuel) is Some ==> spec_ty_cell_level(s, i, fuel) == Some(lev),
    decreases fuel, 0nat,
{
    assert(cell_ok_ty(s, i, vty, vtp, lev));
    match s.ty_at(i) {
        FreeKind::Linked(t) => {
            if fuel > 0 {
                lemma_marked_read_ty_term(s, vty, vtp, lev, t, (fuel - 1) as nat);
            }
        },
        FreeKind::UndoableLinked { t, .. } => {
            if fuel > 0 {
                lemma_marked_read_ty_term(s, vty, vtp, lev, t, (fuel - 1) as nat);
            }
        },
        _ => {},
    }
}

/// As [`lemma_marked_read_ty_cell`], for a type-parameter cell.
proof fn lemma_marked_read_tp_cell(
    s: FreeStore,
    vty: Seq<bool>,
    vtp: Seq<bool>,
    lev: usize,
    i: int,
    fuel: nat,
)
    requires
        marks_ok(s, vty, vtp, lev),
        0 <= i < s.n_tp(),
        vtp[i],
    ensures
        spec_tp_cell_level(s, i, fuel) is Some ==> spec_tp_cell_level(s, i, fuel) == Some(lev),
    decreases fuel, 0nat,
{
    assert(cell_ok_tp(s, i, vty, vtp, lev));
    match s.tp_at(i) {
        FreeKind::Linked(t) => {
            if fuel > 0 {
                lemma_marked_read_tp_term(s, vty, vtp, lev, t, (fuel - 1) as nat);
            }
        },
        FreeKind::UndoableLinked { t, .. } => {
            if fuel > 0 {
                lemma_marked_read_tp_term(s, vty, vtp, lev, t, (fuel - 1) as nat);
            }
        },
        _ => {},
    }
}

/// After the walk, a term of visited variables reads level `lev` when
/// it reads any.
proof fn lemma_marked_read_ty_term(
    s: FreeStore,
    vty: Seq<bool>,
    vtp: Seq<bool>,
    lev: usize,
    t: Type,
    fuel: nat,
)
    requires
        marks_ok(s, vty, vtp, lev),
        ty_vars_marked(t, vty, vtp),
    ensures
        spec_ty_level(s, t, fuel) is Some ==> spec_ty_level(s, t, fuel) == Some(lev),
    decreases fuel, ty_height(t),
{
    match t {
        Type::FreeVar(v) => {
            if 0 <= v.pos() < s.n_ty() {
                lemma_marked_read_ty_cell(s, vty, vtp, lev, v.pos(), fuel);
            }
        },
        Type::Poly { params, .. } => {
            lemma_marked_read_tps(s, vty, vtp, lev, params@, fuel);
        },
        _ => {},
    }
}

/// As [`lemma_marked_read_ty_term`], over a parameter sequence.
proof fn lemma_marked_read_tps(
    s: FreeStore,
    vty: Seq<bool>,
    vtp: Seq<bool>,
    lev: usize,
    ps: Seq<TyParam>,
    fuel: nat,
)
    requires
        marks_ok(s, vty, vtp, lev),
        forall|k: int| 0 <= k < ps.len() ==> tp_vars_marked(#[trigger] ps[k], vty, vtp),
    ensures
        spec_tps_level(s, ps, fuel) is Some ==> spec_tps_level(s, ps, fuel) == Some(lev),
    decreases fuel, tps_height(ps),
{
    if ps.len() > 0 {
        lemma_marked_read_tp_term(s, vty, vtp, lev, ps[0], fuel);
        assert(forall|k: int|
            0 <= k < ps.drop_first().len() ==> #[trigger] ps.drop_first()[k] == ps[k + 1]);
        lemma_marked_read_tps(s, vty, vtp, lev, ps.drop_first(), fuel);
    }
}

/// As [`lemma_marked_read_ty_term`], for a type-parameter term.
proof fn lemma_marked_read_tp_term(
    s: FreeStore,
    vty: Seq<bool>,
    vtp: Seq<bool>,
    lev: usize,
    p: TyParam,
    fuel: nat,
)
    requires
        marks_ok(s, vty, vtp, lev),
        tp_vars_marked(p, vty, vtp),
    ensures
        spec_tp_level(s, p, fuel) is Some ==> spec_tp_level(s, p, fuel) == Some(lev),
    decreases fuel, tp_height(p),
{
    match p {
        TyParam::Ty(t) => {
            lemma_marked_read_ty_term(s, vty, vtp, lev, *t, fuel);
        },
        TyParam::FreeVar(v) => {
            if 0 <= v.pos() < s.n_tp() {
                lemma_marked_read_tp_cell(s, vty, vtp, lev, v.pos(), fuel);
            }
        },
        _ => {},
    }
}

/// Every free variable the term mentions reads level `lev` (when it
/// reads any level at all).
pub open spec fn term_vars_read_lev(s: FreeStore, t: Type, lev: usize) -> bool
    decreases t,
{
    match t {
        Type::FreeVar(v) => 0 <= v.pos() < s.n_ty() ==> forall|fuel: nat|
            (#[trigger] spec_ty_cell_level(s, v.pos(), fuel)) is Some ==> spec_ty_cell_level(
                s,
                v.pos(),
                fuel,
            ) == Some(lev),
        Type::Poly { params, .. } => forall|k: int|
            0 <= k < params@.len() ==> tp_vars_read_lev(s, #[trigger] params@[k], lev),
        _ => true,
    }
}

/// As [`term_vars_read_lev`], for a type-parameter term.
pub open spec fn tp_vars_read_lev(s: FreeStore, p: TyParam, lev: usize) -> bool
    decreases p,
{
    match p {
        TyParam::FreeVar(v) => 0 <= v.pos() < s.n_tp() ==> forall|fuel: nat|
            (#[trigger] spec_tp_cell_level(s, v.pos(), fuel)) is Some ==> spec_tp_cell_level(
                s,
                v.pos(),
                fuel,
            ) == Some(lev),
        TyParam::Ty(t) => term_vars_read_lev(s, *t, lev),
        _ => true,
    }
}

/// After the level-setting walk, every variable of a term whose
/// variables were all visited reads `lev`.
proof fn lemma_marked_vars_read_ty(s: FreeStore, vty: Seq<bool>, vtp: Seq<bool>, lev: usize, t: Type)
    requires
        marks_ok(s, vty, vtp, lev),
        ty_vars_marked(t, vty, vtp),
    ensures
        term_vars_read_lev(s, t, lev),
    decreases t,
{
    match t {
        Type::FreeVar(v) => {
            if 0 <= v.pos() < s.n_ty() {
                assert forall|fuel: nat|
                    (#[trigger] spec_ty_cell_level(s, v.pos(), fuel)) is Some
                        implies spec_ty_cell_level(s, v.pos(), fuel) == Some(lev) by {
                    lemma_marked_read_ty_cell(s, vty, vtp, lev, v.pos(), fuel);
                }
            }
        },
        Type::Poly { params, .. } => {
            assert forall|k: int| 0 <= k < params@.len() implies tp_vars_read_lev(
                s,
                #[trigger] params@[k],
                lev,
            ) by {
                lemma_marked_vars_read_tp(s, vty, vtp, lev, params@[k]);
            }
        },
        _ => {},
    }
}

/// As [`lemma_marked_vars_read_ty`], for a type-parameter term.
proof fn lemma_marked_vars_read_tp(
    s: FreeStore,
    vty: Seq<bool>,
    vtp: Seq<bool>,
    lev: usize,
    p: TyParam,
)
    requires
        marks_ok(s, vty, vtp, lev),
        tp_vars_marked(p, vty, vtp),
    ensures
        tp_vars_read_lev(s, p, lev),
    decreases p,
{
    match p {
        TyParam::FreeVar(v) => {
            if 0 <= v.pos() < s.n_tp() {
                assert forall|fuel: nat|
                    (#[trigger] spec_tp_cell_level(s, v.pos(), fuel)) is Some
                        implies spec_tp_cell_level(s, v.pos(), fuel) == Some(lev) by {
                    lemma_marked_read_tp_cell(s, vty, vtp, lev, v.pos(), fuel);
                }
            }
        },
        TyParam::Ty(t) => {
            lemma_marked_vars_read_ty(s, vty, vtp, lev, *t);
        },
        _ => {},
    }
}

/// Every free variable the term mentions reads, in `s1`, the
/// saturating successor of what it read in `s0`.
pub open spec fn term_vars_lifted(s0: FreeStore, s1: FreeStore, t: Type) -> bool
    decreases t,
{
    match t {
        Type::FreeVar(v) => 0 <= v.pos() < s0.n_ty() ==> forall|fuel: nat|
            (#[trigger] spec_ty_cell_level(s1, v.pos(), fuel)) == opt_succ(
                spec_ty_cell_level(s0, v.pos(), fuel),
            ),
        Type::Poly { params, .. } => forall|k: int|
            0 <= k < params@.len() ==> tp_vars_lifted(s0, s1, #[trigger] params@[k]),
        _ => true,
    }
}

/// As [`term_vars_lifted`], for a type-parameter term.
pub open spec fn tp_vars_lifted(s0: FreeStore, s1: FreeStore, p: TyParam) -> bool
    decreases p,
{
    match p {
        TyParam::FreeVar(v) => 0 <= v.pos() < s0.n_tp() ==> forall|fuel: nat|
            (#[trigger] spec_tp_cell_level(s1, v.pos(), fuel)) == opt_succ(
                spec_tp_cell_level(s0, v.pos(), fuel),
            ),
        TyParam::Ty(t) => term_vars_lifted(s0, s1, *t),
        _ => true,
    }
}

/// After the lifting walk, every variable of a term whose variables
/// were all visited reads the saturating successor of its old read.
proof fn lemma_lifted_vars_read_ty(
    s0: FreeStore,
    s1: FreeStore,
    vty: Seq<bool>,
    vtp: Seq<bool>,
    t: Type,
)
    requires
        lift_marks_ok(s0, s1, vty, vtp),
        ty_vars_marked(t, vty, vtp),
    ensures
        term_vars_lifted(s0, s1, t),
    decreases t,
{
    match t {
        Type::FreeVar(v) => {
            if 0 <= v.pos() < s0.n_ty() {
                assert forall|fuel: nat|
                    (#[trigger] spec_ty_cell_level(s1, v.pos(), fuel)) == opt_succ(
                        spec_ty_cell_level(s0, v.pos(), fuel),
                    ) by {
                    lemma_lift_read_ty_cell(s0, s1, vty, vtp, v.pos(), fuel);
                }
            }
        },
        Type::Poly { params, .. } => {
            assert forall|k: int| 0 <= k < params@.len() implies tp_vars_lifted(
                s0,
                s1,
                #[trigger] params@[k],
            ) by {
                lemma_lifted_vars_read_tp(s0, s1, vty, vtp, params@[k]);
            }
        },
        _ => {},
    }
}

/// As [`lemma_lifted_vars_read_ty`], for a type-parameter term.
proof fn lemma_lifted_vars_read_tp(
    s0: FreeStore,
    s1: FreeStore,
    vty: Seq<bool>,
    vtp: Seq<bool>,
    p: TyParam,
)
    requires
        lift_marks_ok(s0, s1, vty, vtp),
        tp_vars_marked(p, vty, vtp),
    ensures
        tp_vars_lifted(s0, s1, p),
    decreases p,
{
    match p {
        TyParam::FreeVar(v) => {
            if 0 <= v.pos() < s0.n_tp() {
                assert forall|fuel: nat|
                    (#[trigger] spec_tp_cell_level(s1, v.pos(), fuel)) == opt_succ(
                        spec_tp_cell_level(s0, v.pos(), fuel),
                    ) by {
                    lemma_lift_read_tp_cell(s0, s1, vty, vtp, v.pos(), fuel);
                }
            }
        },
        TyParam::Ty(t) => {
            lemma_lifted_vars_read_ty(s0, s1, vty, vtp, *t);
        },
        _ => {},
    }
}

/// Sets the level of the type-variable cell `i` and of every variable
/// its constraint or term reaches, skipping cells already visited.
fn set_level_walk_ty_cell(
    s: &mut FreeStore,
    i: usize,
    lev: usize,
    vty: &mut Vec<bool>,
    vtp: &mut Vec<bool>,
)
    requires
        i < old(s).n_ty(),
        old(vty)@.len() == old(s).n_ty(),
        old(vtp)@.len() == old(s).n_tp(),
    ensures
        level_frame(*old(s), *final(s), lev),
        final(vty)@.len() == old(vty)@.len(),
        final(vtp)@.len() == old(vtp)@.len(),
        forall|j: int| 0 <= j < old(vty)@.len() && old(vty)@[j] ==> final(vty)@[j],
        forall|j: int| 0 <= j < old(vtp)@.len() && old(vtp)@[j] ==> final(vtp)@[j],
        count_false(final(vty)@) + count_false(final(vtp)@) <= count_false(old(vty)@)
            + count_false(old(vtp)@),
        !old(vty)@[i as int] && is_unbound_kind(old(s).ty_at(i as int)) ==> final(s).ty_at(i as int)
            == kind_with_lev(old(s).ty_at(i as int), lev),
        !old(vty)@[i as int] && is_unbound_kind(old(s).ty_at(i as int)) ==> ({
            let c = kind_constraint(old(s).ty_at(i as int));
            &&& c is Sandwiched ==> ty_vars_marked(c->Sandwiched_sub, final(vty)@, final(vtp)@)
                && ty_vars_marked(c->Sandwiched_sup, final(vty)@, final(vtp)@)
            &&& c is TypeOf ==> ty_vars_marked(c->TypeOf_0, final(vty)@, final(vtp)@)
        }),
        final(vty)@[i as int],
        forall|j: int|
            0 <= j < old(vty)@.len() && (old(vty)@[j] || !final(vty)@[j]) ==> final(s).ty_at(j)
                == old(s).ty_at(j),
        forall|j: int|
            0 <= j < old(vtp)@.len() && (old(vtp)@[j] || !final(vtp)@[j]) ==> final(s).tp_at(j)
                == old(s).tp_at(j),
        forall|j: int|
            0 <= j < old(vty)@.len() && !old(vty)@[j] && final(vty)@[j] ==> #[trigger] cell_ok_ty(
                *final(s),
                j,
                final(vty)@,
                final(vtp)@,
                lev,
            ),
        forall|j: int|
            0 <= j < old(vtp)@.len() && !old(vtp)@[j] && final(vtp)@[j] ==> #[trigger] cell_ok_tp(
                *final(s),
                j,
                final(vty)@,
                final(vtp)@,
                lev,
            ),
    decreases count_false(old(vty)@) + count_false(old(vtp)@), 0nat,
{
    let ghost s0 = *s;
    let ghost vty0 = vty@;
    let ghost vtp0 = vtp@;
    if vty[i] {
        return ;
    }
    {
        let marked = &mut vty[i];
        *marked = true;
    }
    proof {
        lemma_count_false_update(vty0, i as int);
    }
    let ghost m1 = vty@;
    let is_unb = matches!(
        &s.ty_cells[i],
        FreeKind::Unbound { .. } | FreeKind::NamedUnbound { .. }
    );
    if is_unb {
        let mut tmp: FreeKind<Type> = FreeKind::Unbound {
            id: 0,
            lev: 0,
            constraint: Constraint::Uninited,
        };
        {
            let slot = &mut s.ty_cells[i];
            core::mem::swap(slot, &mut tmp);
        }
        let c2: Constraint;
        match tmp {
            FreeKind::Unbound { id, constraint, .. } => {
                c2 = constraint.clone();
                let slot = &mut s.ty_cells[i];
                *slot = FreeKind::Unbound { id, lev, constraint };
            },
            FreeKind::NamedUnbound { name, constraint, .. } => {
                c2 = constraint.clone();
                let slot = &mut s.ty_cells[i];
                *slot = FreeKind::NamedUnbound { name, lev, constraint };
            },
            _ => {
                proof {
                    assert(false);
                }
                c2 = Constraint::Uninited;
            },
        }
        proof {
            assert(s.ty_at(i as int) == kind_with_lev(s0.ty_at(i as int), lev));
            assert forall|j: int| 0 <= j < s0.n_ty() implies #[trigger] level_set_kind(
                s0.ty_at(j),
                s.ty_at(j),
                lev,
            ) by {}
            assert(level_frame(s0, *s, lev));
        }
        let ghost sa = *s;
        match c2 {
            Constraint::Sandwiched { sub, sup } => {
                set_level_walk_ty_term(s, &sub, lev, vty, vtp);
                proof {
                    lemma_level_frame_trans(s0, sa, *s, lev);
                }
                let ghost sb = *s;
                let ghost m2 = vty@;
                let ghost m2p = vtp@;
                proof {
                    assert(ty_vars_marked(sub, m2, m2p));
                }
                set_level_walk_ty_term(s, &sup, lev, vty, vtp);
                proof {
                    lemma_level_frame_trans(s0, sb, *s, lev);
                    assert(s.ty_at(i as int) == kind_with_lev(s0.ty_at(i as int), lev));
                    lemma_ty_vars_marked_mono(sub, m2, m2p, vty@, vtp@);
                    let orig = kind_constraint(s0.ty_at(i as int));
                    lemma_ty_vars_marked_eqv(sub, orig->Sandwiched_sub, vty@, vtp@);
                    lemma_ty_vars_marked_eqv(sup, orig->Sandwiched_sup, vty@, vtp@);
                    assert forall|j: int|
                        0 <= j < vty0.len() && !vty0[j] && vty@[j] implies #[trigger] cell_ok_ty(
                        *s,
                        j,
                        vty@,
                        vtp@,
                        lev,
                    ) by {
                        if j == i as int {
                            assert(s.ty_at(j) == kind_with_lev(s0.ty_at(j), lev));
                        } else if m2[j] {
                            assert(cell_ok_ty(sb, j, m2, m2p, lev));
                            assert(s.ty_at(j) == sb.ty_at(j));
                            lemma_cell_ok_ty_persists(sb, *s, m2, m2p, vty@, vtp@, j, lev);
                        } else {
                            assert(cell_ok_ty(*s, j, vty@, vtp@, lev));
                        }
                    }
                    assert forall|j: int|
                        0 <= j < vtp0.len() && !vtp0[j] && vtp@[j] implies #[trigger] cell_ok_tp(
                        *s,
                        j,
                        vty@,
                        vtp@,
                        lev,
                    ) by {
                        if m2p[j] {
                            assert(cell_ok_tp(sb, j, m2, m2p, lev));
                            assert(s.tp_at(j) == sb.tp_at(j));
                            lemma_cell_ok_tp_persists(sb, *s, m2, m2p, vty@, vtp@, j, lev);
                        } else {
                            assert(cell_ok_tp(*s, j, vty@, vtp@, lev));
                        }
                    }
                }
            },
            Constraint::TypeOf(t) => {
                set_level_walk_ty_term(s, &t, lev, vty, vtp);
                proof {
                    lemma_level_frame_trans(s0, sa, *s, lev);
                    assert(s.ty_at(i as int) == kind_with_lev(s0.ty_at(i as int), lev));
                    let orig = kind_constraint(s0.ty_at(i as int));
                    lemma_ty_vars_marked_eqv(t, orig->TypeOf_0, vty@, vtp@);
                    assert forall|j: int|
                        0 <= j < vty0.len() && !vty0[j] && vty@[j] implies #[trigger] cell_ok_ty(
                        *s,
                        j,
                        vty@,
                        vtp@,
                        lev,
                    ) by {
                        if j == i as int {
                            assert(s.ty_at(j) == kind_with_lev(s0.ty_at(j), lev));
                        } else {
                            assert(cell_ok_ty(*s, j, vty@, vtp@, lev));
                        }
                    }
                }
            },
            Constraint::Uninited => {
                proof {
                    assert forall|j: int|
                        0 <= j < vty0.len() && !vty0[j] && vty@[j] implies #[trigger] cell_ok_ty(
                        *s,
                        j,
                        vty@,
                        vtp@,
                        lev,
                    ) by {
                        assert(j == i as int);
                        assert(s.ty_at(j) == kind_with_lev(s0.ty_at(j), lev));
                    }
                }
            },
        }
    } else {
        let t2: Option<Type> = match &s.ty_cells[i] {
            FreeKind::Linked(t) => Some(t.clone()),
            FreeKind::UndoableLinked { t, .. } => Some(t.clone()),
            _ => None,
        };
        match t2 {
            Some(t) => {
                set_level_walk_ty_term(s, &t, lev, vty, vtp);
                proof {
                    assert(s.ty_at(i as int) == s0.ty_at(i as int));
                    assert(ty_vars_marked(t, vty@, vtp@));
                    match s0.ty_at(i as int) {
                        FreeKind::Linked(orig) => {
                            lemma_ty_vars_marked_eqv(t, orig, vty@, vtp@);
                        },
                        FreeKind::UndoableLinked { t: orig, .. } => {
                            lemma_ty_vars_marked_eqv(t, orig, vty@, vtp@);
                        },
                        _ => {},
                    }
                    assert(cell_ok_ty(*s, i as int, vty@, vtp@, lev));
                }
            },
            None => {
                proof {
                    assert(false);
                }
            },
        }
    }
}

/// Sets the level of the type-parameter-variable cell `i`; an unbound
/// cell's constraint is walked through its `TypeOf` carrier.
fn set_level_walk_tp_cell(
    s: &mut FreeStore,
    i: usize,
    lev: usize,
    vty: &mut Vec<bool>,
    vtp: &mut Vec<bool>,
)
    requires
        i < old(s).n_tp(),
        old(vty)@.len() == old(s).n_ty(),
        old(vtp)@.len() == old(s).n_tp(),
    ensures
        level_frame(*old(s), *final(s), lev),
        final(vty)@.len() == old(vty)@.len(),
        final(vtp)@.len() == old(vtp)@.len(),
        forall|j: int| 0 <= j < old(vty)@.len() && old(vty)@[j] ==> final(vty)@[j],
        forall|j: int| 0 <= j < old(vtp)@.len() && old(vtp)@[j] ==> final(vtp)@[j],
        count_false(final(vty)@) + count_false(final(vtp)@) <= count_false(old(vty)@)
            + count_false(old(vtp)@),
        !old(vtp)@[i as int] && is_unbound_kind(old(s).tp_at(i as int)) ==> final(s).tp_at(i as int)
            == kind_with_lev(old(s).tp_at(i as int), lev),
        !old(vtp)@[i as int] && is_unbound_kind(old(s).tp_at(i as int)) && kind_constraint(
            old(s).tp_at(i as int),
        ) is TypeOf ==> ty_vars_marked(
            kind_constraint(old(s).tp_at(i as int))->TypeOf_0,
            final(vty)@,
            final(vtp)@,
        ),
        final(vtp)@[i as int],
        forall|j: int|
            0 <= j < old(vty)@.len() && (old(vty)@[j] || !final(vty)@[j]) ==> final(s).ty_at(j)
                == old(s).ty_at(j),
        forall|j: int|
            0 <= j < old(vtp)@.len() && (old(vtp)@[j] || !final(vtp)@[j]) ==> final(s).tp_at(j)
                == old(s).tp_at(j),
        forall|j: int|
            0 <= j < old(vty)@.len() && !old(vty)@[j] && final(vty)@[j] ==> #[trigger] cell_ok_ty(
                *final(s),
                j,
                final(vty)@,
                final(vtp)@,
                lev,
            ),
        forall|j: int|
            0 <= j < old(vtp)@.len() && !old(vtp)@[j] && final(vtp)@[j] ==> #[trigger] cell_ok_tp(
                *final(s),
                j,
                final(vty)@,
                final(vtp)@,
                lev,
            ),
    decreases count_false(old(vty)@) + count_false(old(vtp)@), 0nat,
{
    let ghost s0 = *s;
    let ghost vty0 = vty@;
    let ghost vtp0 = vtp@;
    if vtp[i] {
        return ;
    }
    {
        let marked = &mut vtp[i];
        *marked = true;
    }
    proof {
        lemma_count_false_update(vtp0, i as int);
    }
    let is_unb = matches!(
        &s.tp_cells[i],
        FreeKind::Unbound { .. } | FreeKind::NamedUnbound { .. }
    );
    if is_unb {
        let mut tmp: FreeKind<TyParam> = FreeKind::Unbound {
            id: 0,
            lev: 0,
            constraint: Constraint::Uninited,
        };
        {
            let slot = &mut s.tp_cells[i];
            core::mem::swap(slot, &mut tmp);
        }
        let c2: Constraint;
        match tmp {
            FreeKind::Unbound { id, constraint, .. } => {
                c2 = constraint.clone();
                let slot = &mut s.tp_cells[i];
                *slot = FreeKind::Unbound { id, lev, constraint };
            },
            FreeKind::NamedUnbound { name, constraint, .. } => {
                c2 = constraint.clone();
                let slot = &mut s.tp_cells[i];
                *slot = FreeKind::NamedUnbound { name, lev, constraint };
            },
            _ => {
                proof {
                    assert(false);
                }
                c2 = Constraint::Uninited;
            },
        }
        proof {
            assert(s.tp_at(i as int) == kind_with_lev(s0.tp_at(i as int), lev));
            assert(level_frame(s0, *s, lev));
        }
        let ghost sa = *s;
        let ghost c2g = c2;
        match c2.get_type() {
            Some(t) => {
                set_level_walk_ty_term(s, &t, lev, vty, vtp);
                proof {
                    lemma_level_frame_trans(s0, sa, *s, lev);
                    assert(s.tp_at(i as int) == kind_with_lev(s0.tp_at(i as int), lev));
                    let orig = kind_constraint(s0.tp_at(i as int));
                    if orig is TypeOf {
                        lemma_ty_vars_marked_eqv(t, c2g->TypeOf_0, vty@, vtp@);
                        lemma_ty_vars_marked_eqv(c2g->TypeOf_0, orig->TypeOf_0, vty@, vtp@);
                    }
                    assert forall|j: int|
                        0 <= j < vtp0.len() && !vtp0[j] && vtp@[j] implies #[trigger] cell_ok_tp(
                        *s,
                        j,
                        vty@,
                        vtp@,
                        lev,
                    ) by {
                        if j == i as int {
                            assert(s.tp_at(j) == kind_with_lev(s0.tp_at(j), lev));
                        } else {
                            assert(cell_ok_tp(*s, j, vty@, vtp@, lev));
                        }
                    }
                }
            },
            None => {
                proof {
                    assert forall|j: int|
                        0 <= j < vtp0.len() && !vtp0[j] && vtp@[j] implies #[trigger] cell_ok_tp(
                        *s,
                        j,
                        vty@,
                        vtp@,
                        lev,
                    ) by {
                        assert(j == i as int);
                        assert(s.tp_at(j) == kind_with_lev(s0.tp_at(j), lev));
                    }
                }
            },
        }
    } else {
        let t2: Option<TyParam> = match &s.tp_cells[i] {
            FreeKind::Linked(t) => Some(t.clone()),
            FreeKind::UndoableLinked { t, .. } => Some(t.clone()),
            _ => None,
        };
        match t2 {
            Some(t) => {
                set_level_walk_tp_term(s, &t, lev, vty, vtp);
                proof {
                    assert(s.tp_at(i as int) == s0.tp_at(i as int));
                    assert(tp_vars_marked(t, vty@, vtp@));
                    match s0.tp_at(i as int) {
                        FreeKind::Linked(orig) => {
                            lemma_tp_vars_marked_eqv(t, orig, vty@, vtp@);
                        },
                        FreeKind::UndoableLinked { t: orig, .. } => {
                            lemma_tp_vars_marked_eqv(t, orig, vty@, vtp@);
                        },
                        _ => {},
                    }
                    assert(cell_ok_tp(*s, i as int, vty@, vtp@, lev));
                }
            },
            None => {
                proof {
                    assert(false);
                }
            },
        }
    }
}

/// Sets the level of every variable embedded in a type term.
fn set_level_walk_ty_term(
    s: &mut FreeStore,
    t: &Type,
    lev: usize,
    vty: &mut Vec<bool>,
    vtp: &mut Vec<bool>,
)
    requires
        old(vty)@.len() == old(s).n_ty(),
        old(vtp)@.len() == old(s).n_tp(),
    ensures
        level_frame(*old(s), *final(s), lev),
        final(vty)@.len() == old(vty)@.len(),
        final(vtp)@.len() == old(vtp)@.len(),
        forall|j: int| 0 <= j < old(vty)@.len() && old(vty)@[j] ==> final(vty)@[j],
        forall|j: int| 0 <= j < old(vtp)@.len() && old(vtp)@[j] ==> final(vtp)@[j],
        count_false(final(vty)@) + count_false(final(vtp)@) <= count_false(old(vty)@)
            + count_false(old(vtp)@),
        forall|j: int|
            0 <= j < old(vty)@.len() && (old(vty)@[j] || !final(vty)@[j]) ==> final(s).ty_at(j)
                == old(s).ty_at(j),
        forall|j: int|
            0 <= j < old(vtp)@.len() && (old(vtp)@[j] || !final(vtp)@[j]) ==> final(s).tp_at(j)
                == old(s).tp_at(j),
        forall|j: int|
            0 <= j < old(vty)@.len() && !old(vty)@[j] && final(vty)@[j] ==> #[trigger] cell_ok_ty(
                *final(s),
                j,
                final(vty)@,
                final(vtp)@,
                lev,
            ),
        forall|j: int|
            0 <= j < old(vtp)@.len() && !old(vtp)@[j] && final(vtp)@[j] ==> #[trigger] cell_ok_tp(
                *final(s),
                j,
                final(vty)@,
                final(vtp)@,
                lev,
            ),
        ty_vars_marked(*t, final(vty)@, final(vtp)@),
    decreases count_false(old(vty)@) + count_false(old(vtp)@), 1 + ty_height(*t),
{
    match t {
        Type::FreeVar(v) => {
            if v.idx < s.ty_cells.len() {
                set_level_walk_ty_cell(s, v.idx, lev, vty, vtp);
            }
        },
        Type::Poly { params, .. } => {
            let ghost ps = params@;
            let mut i: usize = 0;
            while i < params.len()
                invariant
                    i <= params.len(),
                    params@ == ps,
                    *t is Poly,
                    params == t->Poly_params,
                    s.n_ty() == old(s).n_ty(),
                    s.n_tp() == old(s).n_tp(),
                    vty@.len() == old(vty)@.len(),
                    vtp@.len() == old(vtp)@.len(),
                    old(vty)@.len() == old(s).n_ty(),
                    old(vtp)@.len() == old(s).n_tp(),
                    level_frame(*old(s), *s, lev),
                    forall|j: int| 0 <= j < old(vty)@.len() && old(vty)@[j] ==> vty@[j],
                    forall|j: int| 0 <= j < old(vtp)@.len() && old(vtp)@[j] ==> vtp@[j],
                    count_false(vty@) + count_false(vtp@) <= count_false(old(vty)@) + count_false(
                        old(vtp)@,
                    ),
                    forall|j: int|
                        0 <= j < old(vty)@.len() && (old(vty)@[j] || !vty@[j]) ==> s.ty_at(j)
                            == old(s).ty_at(j),
                    forall|j: int|
                        0 <= j < old(vtp)@.len() && (old(vtp)@[j] || !vtp@[j]) ==> s.tp_at(j)
                            == old(s).tp_at(j),
                    forall|j: int|
                        0 <= j < old(vty)@.len() && !old(vty)@[j] && vty@[j]
                            ==> #[trigger] cell_ok_ty(*s, j, vty@, vtp@, lev),
                    forall|j: int|
                        0 <= j < old(vtp)@.len() && !old(vtp)@[j] && vtp@[j]
                            ==> #[trigger] cell_ok_tp(*s, j, vty@, vtp@, lev),
                    forall|k: int| 0 <= k < i ==> tp_vars_marked(#[trigger] ps[k], vty@, vtp@),
                decreases params.len() - i,
            {
                proof {
                    lemma_tps_height_elem(ps, i as int);
                    assert(ty_height(*t) == 1 + tps_height(params@));
                    assert(tp_height(ps[i as int]) < ty_height(*t));
                }
                let ghost s1 = *s;
                let ghost m1 = vty@;
                let ghost m1p = vtp@;
                set_level_walk_tp_term(s, &params[i], lev, vty, vtp);
                proof {
                    lemma_level_frame_trans(*old(s), s1, *s, lev);
                    assert forall|j: int|
                        0 <= j < old(vty)@.len() && !old(vty)@[j] && vty@[j]
                            implies #[trigger] cell_ok_ty(*s, j, vty@, vtp@, lev) by {
                        if m1[j] {
                            assert(cell_ok_ty(s1, j, m1, m1p, lev));
                            assert(s.ty_at(j) == s1.ty_at(j));
                            lemma_cell_ok_ty_persists(s1, *s, m1, m1p, vty@, vtp@, j, lev);
                        } else {
                            assert(cell_ok_ty(*s, j, vty@, vtp@, lev));
                        }
                    }
                    assert forall|j: int|
                        0 <= j < old(vtp)@.len() && !old(vtp)@[j] && vtp@[j]
                            implies #[trigger] cell_ok_tp(*s, j, vty@, vtp@, lev) by {
                        if m1p[j] {
                            assert(cell_ok_tp(s1, j, m1, m1p, lev));
                            assert(s.tp_at(j) == s1.tp_at(j));
                            lemma_cell_ok_tp_persists(s1, *s, m1, m1p, vty@, vtp@, j, lev);
                        } else {
                            assert(cell_ok_tp(*s, j, vty@, vtp@, lev));
                        }
                    }
                    assert forall|k: int| 0 <= k < i + 1 implies tp_vars_marked(
                        #[trigger] ps[k],
                        vty@,
                        vtp@,
                    ) by {
                        if k < i {
                            lemma_tp_vars_marked_mono(ps[k], m1, m1p, vty@, vtp@);
                        }
                    }
                }
                i += 1;
            }
        },
        _ => {},
    }
}

/// Sets the level of every variable embedded in a type-parameter term.
fn set_level_walk_tp_term(
    s: &mut FreeStore,
    p: &TyParam,
    lev: usize,
    vty: &mut Vec<bool>,
    vtp: &mut Vec<bool>,
)
    requires
        old(vty)@.len() == old(s).n_ty(),
        old(vtp)@.len() == old(s).n_tp(),
    ensures
        level_frame(*old(s), *final(s), lev),
        final(vty)@.len() == old(vty)@.len(),
        final(vtp)@.len() == old(vtp)@.len(),
        forall|j: int| 0 <= j < old(vty)@.len() && old(vty)@[j] ==> final(vty)@[j],
        forall|j: int| 0 <= j < old(vtp)@.len() && old(vtp)@[j] ==> final(vtp)@[j],
        count_false(final(vty)@) + count_false(final(vtp)@) <= count_false(old(vty)@)
            + count_false(old(vtp)@),
        forall|j: int|
            0 <= j < old(vty)@.len() && (old(vty)@[j] || !final(vty)@[j]) ==> final(s).ty_at(j)
                == old(s).ty_at(j),
        forall|j: int|
            0 <= j < old(vtp)@.len() && (old(vtp)@[j] || !final(vtp)@[j]) ==> final(s).tp_at(j)
                == old(s).tp_at(j),
        forall|j: int|
            0 <= j < old(vty)@.len() && !old(vty)@[j] && final(vty)@[j] ==> #[trigger] cell_ok_ty(
                *final(s),
                j,
                final(vty)@,
                final(vtp)@,
                lev,
            ),
        forall|j: int|
            0 <= j < old(vtp)@.len() && !old(vtp)@[j] && final(vtp)@[j] ==> #[trigger] cell_ok_tp(
                *final(s),
                j,
                final(vty)@,
                final(vtp)@,
                lev,
            ),
        tp_vars_marked(*p, final(vty)@, final(vtp)@),
    decreases count_false(old(vty)@) + count_false(old(vtp)@), 1 + tp_height(*p),
{
    match p {
        TyParam::Ty(t) => {
            set_level_walk_ty_term(s, t, lev, vty, vtp);
        },
        TyParam::FreeVar(v) => {
            if v.idx < s.tp_cells.len() {
                set_level_walk_tp_cell(s, v.idx, lev, vty, vtp);
            }
        },
        _ => {},
    }
}

/// The larger of an optional level and a floor; a ground `None` stays
/// ground.
pub open spec fn opt_max(a: Option<usize>, l: usize) -> Option<usize> {
    match a {
        Some(x) => Some(
            if x >= l {
                x
            } else {
                l
            },
        ),
        None => None,
    }
}

/// The successor of an optional level, saturating.
pub open spec fn opt_succ(a: Option<usize>) -> Option<usize> {
    match a {
        Some(l) => Some(lev_succ(l)),
        None => None,
    }
}

/// A walk that only touches levels never makes a cell's read appear
/// or disappear: whether a level is read at all depends on the link
/// structure alone.
proof fn lemma_levels_only_read_some_ty_cell(s0: FreeStore, s1: FreeStore, i: int, fuel: nat)
    requires
        levels_only_frame(s0, s1),
        0 <= i < s0.n_ty(),
    ensures
        spec_ty_cell_level(s0, i, fuel) is Some <==> spec_ty_cell_level(s1, i, fuel) is Some,
    decreases fuel, 0nat,
{
    assert(levels_only_kind(s0.ty_at(i), s1.ty_at(i)));
    match s0.ty_at(i) {
        FreeKind::Linked(t) => {
            if fuel > 0 {
                lemma_levels_only_read_some_ty_term(s0, s1, t, (fuel - 1) as nat);
            }
        },
        FreeKind::UndoableLinked { t, .. } => {
            if fuel > 0 {
                lemma_levels_only_read_some_ty_term(s0, s1, t, (fuel - 1) as nat);
            }
        },
        _ => {},
    }
}

/// As [`lemma_levels_only_read_some_ty_cell`], for a type-parameter
/// cell.
proof fn lemma_levels_only_read_some_tp_cell(s0: FreeStore, s1: FreeStore, i: int, fuel: nat)
    requires
        levels_only_frame(s0, s1),
        0 <= i < s0.n_tp(),
    ensures
        spec_tp_cell_level(s0, i, fuel) is Some <==> spec_tp_cell_level(s1, i, fuel) is Some,
    decreases fuel, 0nat,
{
    assert(levels_only_kind(s0.tp_at(i), s1.tp_at(i)));
    match s0.tp_at(i) {
        FreeKind::Linked(t) => {
            if fuel > 0 {
                lemma_levels_only_read_some_tp_term(s0, s1, t, (fuel - 1) as nat);
            }
        },
        FreeKind::UndoableLinked { t, .. } => {
            if fuel > 0 {
                lemma_levels_only_read_some_tp_term(s0, s1, t, (fuel - 1) as nat);
            }
        },
        _ => {},
    }
}

/// As [`lemma_levels_only_read_some_ty_cell`], for a type term.
proof fn lemma_levels_only_read_some_ty_term(s0: FreeStore, s1: FreeStore, t: Type, fuel: nat)
    requires
        levels_only_frame(s0, s1),
    ensures
        spec_ty_level(s0, t, fuel) is Some <==> spec_ty_level(s1, t, fuel) is Some,
    decreases fuel, ty_height(t),
{
    match t {
        Type::FreeVar(v) => {
            if 0 <= v.pos() < s0.n_ty() {
                lemma_levels_only_read_some_ty_cell(s0, s1, v.pos(), fuel);
            }
        },
        Type::Poly { params, .. } => {
            lemma_levels_only_read_some_tps(s0, s1, params@, fuel);
        },
        _ => {},
    }
}

/// As [`lemma_levels_only_read_some_ty_cell`], over a parameter
/// sequence.
proof fn lemma_levels_only_read_some_tps(s0: FreeStore, s1: FreeStore, ps: Seq<TyParam>, fuel: nat)
    requires
        levels_only_frame(s0, s1),
    ensures
        spec_tps_level(s0, ps, fuel) is Some <==> spec_tps_level(s1, ps, fuel) is Some,
    decreases fuel, tps_height(ps),
{
    if ps.len() > 0 {
        lemma_levels_only_read_some_tp_term(s0, s1, ps[0], fuel);
        lemma_levels_only_read_some_tps(s0, s1, ps.drop_first(), fuel);
    }
}

/// As [`lemma_levels_only_read_some_ty_cell`], for a type-parameter
/// term.
proof fn lemma_levels_only_read_some_tp_term(s0: FreeStore, s1: FreeStore, p: TyParam, fuel: nat)
    requires
        levels_only_frame(s0, s1),
    ensures
        spec_tp_level(s0, p, fuel) is Some <==> spec_tp_level(s1, p, fuel) is Some,
    decreases fuel, tp_height(p),
{
    match p {
        TyParam::Ty(t) => {
            lemma_levels_only_read_some_ty_term(s0, s1, *t, fuel);
        },
        TyParam::FreeVar(v) => {
            if 0 <= v.pos() < s0.n_tp() {
                lemma_levels_only_read_some_tp_cell(s0, s1, v.pos(), fuel);
            }
        },
        _ => {},
    }
}

/// A vector of `n` entries, all false: a fresh visited set.
fn fresh_visited(n: usize) -> (r: Vec<bool>)
    ensures
        r@.len() == n,
        forall|j: int| 0 <= j < n ==> !r@[j],
{
    let mut r: Vec<bool> = Vec::new();
    let mut i: usize = 0;
    while i < n
        invariant
            i <= n,
            r@.len() == i,
            forall|j: int| 0 <= j < i ==> !r@[j],
        decreases n - i,
    {
        r.push(false);
        i += 1;
    }
    r
}


/// Whether an optional level is below `l`; a ground `None` counts as
/// below, as the ordering on optional values has it.
pub open spec fn opt_below(a: Option<usize>, l: usize) -> bool {
    a is None || a.unwrap() < l
}

/// The next level up, saturating at [`GENERIC_LEVEL`].
pub open spec fn lev_succ(l: usize) -> usize {
    if l == GENERIC_LEVEL {
        l
    } else {
        (l + 1) as usize
    }
}

/// The two cell states differ at most in their level.
pub open spec fn levels_only_kind<T>(k0: FreeKind<T>, k1: FreeKind<T>) -> bool {
    match (k0, k1) {
        (
            FreeKind::Unbound { id: i0, lev: _, constraint: c0 },
            FreeKind::Unbound { id: i1, lev: _, constraint: c1 },
        ) => i0 == i1 && c0 == c1,
        (
            FreeKind::NamedUnbound { name: n0, lev: _, constraint: c0 },
            FreeKind::NamedUnbound { name: n1, lev: _, constraint: c1 },
        ) => n0 == n1 && c0 == c1,
        _ => k0 == k1,
    }
}

/// A walk that touches nothing but levels, each cell possibly getting
/// a different one.
pub open spec fn levels_only_frame(s0: FreeStore, s1: FreeStore) -> bool {
    &&& s1.n_ty() == s0.n_ty()
    &&& s1.n_tp() == s0.n_tp()
    &&& s1.next_id == s0.next_id
    &&& forall|j: int| 0 <= j < s0.n_ty() ==> #[trigger] levels_only_kind(s0.ty_at(j), s1.ty_at(j))
    &&& forall|j: int| 0 <= j < s0.n_tp() ==> #[trigger] levels_only_kind(s0.tp_at(j), s1.tp_at(j))
}

/// A level-setting walk in particular touches nothing but levels.
pub proof fn lemma_level_frame_levels_only(s0: FreeStore, s1: FreeStore, lev: usize)
    requires
        level_frame(s0, s1, lev),
    ensures
        levels_only_frame(s0, s1),
{
    assert forall|j: int| 0 <= j < s0.n_ty() implies #[trigger] levels_only_kind(
        s0.ty_at(j),
        s1.ty_at(j),
    ) by {
        assert(level_set_kind(s0.ty_at(j), s1.ty_at(j), lev));
    }
    assert forall|j: int| 0 <= j < s0.n_tp() implies #[trigger] levels_only_kind(
        s0.tp_at(j),
        s1.tp_at(j),
    ) by {
        assert(level_set_kind(s0.tp_at(j), s1.tp_at(j), lev));
    }
}

/// Level-only frames compose.
pub proof fn lemma_levels_only_trans(s0: FreeStore, s1: FreeStore, s2: FreeStore)
    requires
        levels_only_frame(s0, s1),
        levels_only_frame(s1, s2),
    ensures
        levels_only_frame(s0, s2),
{
    assert forall|j: int| 0 <= j < s0.n_ty() implies #[trigger] levels_only_kind(
        s0.ty_at(j),
        s2.ty_at(j),
    ) by {
        assert(levels_only_kind(s0.ty_at(j), s1.ty_at(j)));
        assert(levels_only_kind(s1.ty_at(j), s2.ty_at(j)));
    }
    assert forall|j: int| 0 <= j < s0.n_tp() implies #[trigger] levels_only_kind(
        s0.tp_at(j),
        s2.tp_at(j),
    ) by {
        assert(levels_only_kind(s0.tp_at(j), s1.tp_at(j)));
        assert(levels_only_kind(s1.tp_at(j), s2.tp_at(j)));
    }
}

/// A level-only walk keeps the store well-formed.
pub proof fn lemma_levels_only_wf(s0: FreeStore, s1: FreeStore)
    requires
        s0.wf(),
        levels_only_frame(s0, s1),
    ensures
        s1.wf(),
{
    assert forall|i: int, id: int|
        0 <= i < s1.n_ty() implies #[trigger] kind_has_id(s1.ty_at(i), id) == kind_has_id(
        s0.ty_at(i),
        id,
    ) by {
        assert(levels_only_kind(s0.ty_at(i), s1.ty_at(i)));
    }
    assert forall|i: int, id: int|
        0 <= i < s1.n_tp() implies #[trigger] kind_has_id(s1.tp_at(i), id) == kind_has_id(
        s0.tp_at(i),
        id,
    ) by {
        assert(levels_only_kind(s0.tp_at(i), s1.tp_at(i)));
    }
    assert forall|i: int, id: int|
        0 <= i < s1.n_ty() && #[trigger] kind_has_id(s1.ty_at(i), id) implies 0 <= id
        < s1.next_id by {
        assert(kind_has_id(s0.ty_at(i), id));
    }
    assert forall|i: int, id: int|
        0 <= i < s1.n_tp() && #[trigger] kind_has_id(s1.tp_at(i), id) implies 0 <= id
        < s1.next_id by {
        assert(kind_has_id(s0.tp_at(i), id));
    }
    assert forall|i: int, j: int, id: int|
        0 <= i < s1.n_ty() && 0 <= j < s1.n_ty() && i != j && #[trigger] kind_has_id(
            s1.ty_at(i),
            id,
        ) implies !#[trigger] kind_has_id(s1.ty_at(j), id) by {
        if kind_has_id(s1.ty_at(j), id) {
            assert(kind_has_id(s0.ty_at(i), id));
            assert(kind_has_id(s0.ty_at(j), id));
            assert(false);
        }
    }
    assert forall|i: int, j: int, id: int|
        0 <= i < s1.n_ty() && 0 <= j < s1.n_tp() && #[trigger] kind_has_id(
            s1.ty_at(i),
            id,
        ) implies !#[trigger] kind_has_id(s1.tp_at(j), id) by {
        if kind_has_id(s1.tp_at(j), id) {
            assert(kind_has_id(s0.ty_at(i), id));
            assert(kind_has_id(s0.tp_at(j), id));
            assert(false);
        }
    }
    assert forall|i: int, j: int, id: int|
        0 <= i < s1.n_tp() && 0 <= j < s1.n_tp() && i != j && #[trigger] kind_has_id(
            s1.tp_at(i),
            id,
        ) implies !#[trigger] kind_has_id(s1.tp_at(j), id) by {
        if kind_has_id(s1.tp_at(j), id) {
            assert(kind_has_id(s0.tp_at(i), id));
            assert(kind_has_id(s0.tp_at(j), id));
            assert(false);
        }
    }
}

impl FreeTyVar {
    /// The level this cell reads as: its own for an unbound cell, the
    /// linked term's minimum embedded level otherwise, `None` for a
    /// ground term.
    pub fn level(self, s: &FreeStore) -> (r: Option<usize>)
        requires
            self.valid_in(*s),
            s.n_ty() + s.n_tp() < usize::MAX,
        ensures
            r == spec_ty_cell_level(*s, self.pos(), level_fuel(*s)),
            is_unbound_kind(self.cell(*s)) ==> r == Some(kind_level(self.cell(*s))),
    {
        let fuel = s.ty_cells.len() + s.tp_cells.len() + 1;
        ty_cell_level(s, self.idx, fuel)
    }

    /// Sets this variable's level, and the level of every variable its
    /// constraint or term reaches, to `lev`; the traversal threads a
    /// visited set, so cyclic bounds terminate.  Afterwards the level
    /// this cell reads as, through any chain of links, is `lev`.
    pub fn set_level(self, s: &mut FreeStore, lev: usize)
        requires
            self.valid_in(*old(s)),
        ensures
            level_frame(*old(s), *final(s), lev),
            is_unbound_kind(self.cell(*old(s))) ==> self.cell(*final(s)) == kind_with_lev(
                self.cell(*old(s)),
                lev,
            ),
            forall|fuel: nat|
                (#[trigger] spec_ty_cell_level(*final(s), self.pos(), fuel)) is Some
                    ==> spec_ty_cell_level(*final(s), self.pos(), fuel) == Some(lev),
            is_unbound_kind(self.cell(*old(s))) ==> ({
                let c = kind_constraint(self.cell(*old(s)));
                &&& c is Sandwiched ==> forall|fuel: nat|
                    ((#[trigger] spec_ty_level(*final(s), c->Sandwiched_sub, fuel)) is Some
                        ==> spec_ty_level(*final(s), c->Sandwiched_sub, fuel) == Some(lev)) && (
                    spec_ty_level(*final(s), c->Sandwiched_sup, fuel) is Some ==> spec_ty_level(
                        *final(s),
                        c->Sandwiched_sup,
                        fuel,
                    ) == Some(lev))
                &&& c is TypeOf ==> forall|fuel: nat|
                    (#[trigger] spec_ty_level(*final(s), c->TypeOf_0, fuel)) is Some
                        ==> spec_ty_level(*final(s), c->TypeOf_0, fuel) == Some(lev)
                &&& c is Sandwiched ==> term_vars_read_lev(*final(s), c->Sandwiched_sub, lev)
                    && term_vars_read_lev(*final(s), c->Sandwiched_sup, lev)
                &&& c is TypeOf ==> term_vars_read_lev(*final(s), c->TypeOf_0, lev)
            }),
            old(s).wf() ==> final(s).wf(),
    {
        let mut vty = fresh_visited(s.ty_cells.len());
        let mut vtp = fresh_visited(s.tp_cells.len());
        let ghost s0 = *s;
        set_level_walk_ty_cell(s, self.idx, lev, &mut vty, &mut vtp);
        proof {
            if s0.wf() {
                lemma_level_frame_wf(s0, *s, lev);
            }
            assert(marks_ok(*s, vty@, vtp@, lev)) by {
                assert forall|j: int|
                    0 <= j < vty@.len() && vty@[j] implies #[trigger] cell_ok_ty(
                    *s,
                    j,
                    vty@,
                    vtp@,
                    lev,
                ) by {}
                assert forall|j: int|
                    0 <= j < vtp@.len() && vtp@[j] implies #[trigger] cell_ok_tp(
                    *s,
                    j,
                    vty@,
                    vtp@,
                    lev,
                ) by {}
            }
            assert forall|fuel: nat|
                (#[trigger] spec_ty_cell_level(*s, self.pos(), fuel)) is Some
                    implies spec_ty_cell_level(*s, self.pos(), fuel) == Some(lev) by {
                lemma_marked_read_ty_cell(*s, vty@, vtp@, lev, self.pos(), fuel);
            }
            if is_unbound_kind(self.cell(s0)) {
                let c = kind_constraint(self.cell(s0));
                if c is Sandwiched {
                    assert forall|fuel: nat|
                        ((#[trigger] spec_ty_level(*s, c->Sandwiched_sub, fuel)) is Some
                            ==> spec_ty_level(*s, c->Sandwiched_sub, fuel) == Some(lev)) && (
                        spec_ty_level(*s, c->Sandwiched_sup, fuel) is Some ==> spec_ty_level(
                            *s,
                            c->Sandwiched_sup,
                            fuel,
                        ) == Some(lev)) by {
                        lemma_marked_read_ty_term(*s, vty@, vtp@, lev, c->Sandwiched_sub, fuel);
                        lemma_marked_read_ty_term(*s, vty@, vtp@, lev, c->Sandwiched_sup, fuel);
                    }
                }
                if c is TypeOf {
                    assert forall|fuel: nat|
                        (#[trigger] spec_ty_level(*s, c->TypeOf_0, fuel)) is Some
                            implies spec_ty_level(*s, c->TypeOf_0, fuel) == Some(lev) by {
                        lemma_marked_read_ty_term(*s, vty@, vtp@, lev, c->TypeOf_0, fuel);
                    }
                }
                if c is Sandwiched {
                    lemma_marked_vars_read_ty(*s, vty@, vtp@, lev, c->Sandwiched_sub);
                    lemma_marked_vars_read_ty(*s, vty@, vtp@, lev, c->Sandwiched_sup);
                }
                if c is TypeOf {
                    lemma_marked_vars_read_ty(*s, vty@, vtp@, lev, c->TypeOf_0);
                }
            }
        }
    }

    /// Raises the level to `level` when the current one is below it.
    pub fn lower(self, s: &mut FreeStore, level: usize)
        requires
            self.valid_in(*old(s)),
            old(s).n_ty() + old(s).n_tp() < usize::MAX,
        ensures
            opt_below(spec_ty_cell_level(*old(s), self.pos(), level_fuel(*old(s))), level) ==> (
            level_frame(*old(s), *final(s), level) && (is_unbound_kind(self.cell(*old(s)))
                ==> self.cell(*final(s)) == kind_with_lev(self.cell(*old(s)), level))),
            opt_below(spec_ty_cell_level(*old(s), self.pos(), level_fuel(*old(s))), level)
                ==> forall|fuel: nat|
                (#[trigger] spec_ty_cell_level(*final(s), self.pos(), fuel)) is Some
                    ==> spec_ty_cell_level(*final(s), self.pos(), fuel) == Some(level),
            !opt_below(spec_ty_cell_level(*old(s), self.pos(), level_fuel(*old(s))), level)
                ==> *final(s) == *old(s),
            forall|fuel: nat|
                ((#[trigger] spec_ty_cell_level(*final(s), self.pos(), fuel)) is Some
                    <==> spec_ty_cell_level(*old(s), self.pos(), fuel) is Some),
            old(s).wf() ==> final(s).wf(),
    {
        let below = match self.level(s) {
            None => true,
            Some(l) => l < level,
        };
        if below {
            self.set_level(s, level);
            proof {
                lemma_level_frame_levels_only(*old(s), *s, level);
                assert forall|fuel: nat|
                    ((#[trigger] spec_ty_cell_level(*s, self.pos(), fuel)) is Some
                        <==> spec_ty_cell_level(*old(s), self.pos(), fuel) is Some) by {
                    lemma_levels_only_read_some_ty_cell(*old(s), *s, self.pos(), fuel);
                }
            }
        }
    }

    /// Increments the level by one, saturating at [`GENERIC_LEVEL`];
    /// a ground cell is left alone.
    pub fn lift(self, s: &mut FreeStore)
        requires
            self.valid_in(*old(s)),
            old(s).n_ty() + old(s).n_tp() < usize::MAX,
        ensures
            levels_only_frame(*old(s), *final(s)),
            ({
                let l0 = spec_ty_cell_level(*old(s), self.pos(), level_fuel(*old(s)));
                &&& l0 is Some ==> level_frame(*old(s), *final(s), lev_succ(l0.unwrap())) && (
                is_unbound_kind(self.cell(*old(s))) ==> self.cell(*final(s)) == kind_with_lev(
                    self.cell(*old(s)),
                    lev_succ(l0.unwrap()),
                ))
                &&& l0 is None ==> *final(s) == *old(s)
            }),
            forall|fuel: nat|
                ((#[trigger] spec_ty_cell_level(*final(s), self.pos(), fuel)) is Some
                    <==> spec_ty_cell_level(*old(s), self.pos(), fuel) is Some),
            spec_ty_cell_level(*final(s), self.pos(), level_fuel(*final(s))) == opt_succ(
                spec_ty_cell_level(*old(s), self.pos(), level_fuel(*old(s))),
            ),
            old(s).wf() ==> final(s).wf(),
    {
        match self.level(s) {
            Some(l) => {
                let up = if l == GENERIC_LEVEL {
                    l
                } else {
                    l + 1
                };
                self.set_level(s, up);
                proof {
                    lemma_level_frame_levels_only(*old(s), *s, up);
                    assert forall|fuel: nat|
                        ((#[trigger] spec_ty_cell_level(*s, self.pos(), fuel)) is Some
                            <==> spec_ty_cell_level(*old(s), self.pos(), fuel) is Some) by {
                        lemma_levels_only_read_some_ty_cell(*old(s), *s, self.pos(), fuel);
                    }
                    assert(level_fuel(*s) == level_fuel(*old(s)));
                }
            },
            None => {
                proof {
                    assert(levels_only_frame(*old(s), *s));
                }
            },
        }
    }

    /// Marks the variable as universally quantified by setting its
    /// level to [`GENERIC_LEVEL`]; afterwards the level it reads as is
    /// [`GENERIC_LEVEL`].
    pub fn generalize(self, s: &mut FreeStore)
        requires
            self.valid_in(*old(s)),
        ensures
            level_frame(*old(s), *final(s), GENERIC_LEVEL),
            is_unbound_kind(self.cell(*old(s))) ==> self.cell(*final(s)) == kind_with_lev(
                self.cell(*old(s)),
                GENERIC_LEVEL,
            ),
            forall|fuel: nat|
                (#[trigger] spec_ty_cell_level(*final(s), self.pos(), fuel)) is Some
                    ==> spec_ty_cell_level(*final(s), self.pos(), fuel) == Some(GENERIC_LEVEL),
            is_unbound_kind(self.cell(*old(s))) ==> ({
                let c = kind_constraint(self.cell(*old(s)));
                &&& c is Sandwiched ==> forall|fuel: nat|
                    ((#[trigger] spec_ty_level(*final(s), c->Sandwiched_sub, fuel)) is Some
                        ==> spec_ty_level(*final(s), c->Sandwiched_sub, fuel) == Some(
                        GENERIC_LEVEL,
                    )) && (spec_ty_level(*final(s), c->Sandwiched_sup, fuel) is Some
                        ==> spec_ty_level(*final(s), c->Sandwiched_sup, fuel) == Some(
                        GENERIC_LEVEL,
                    ))
                &&& c is TypeOf ==> forall|fuel: nat|
                    (#[trigger] spec_ty_level(*final(s), c->TypeOf_0, fuel)) is Some
                        ==> spec_ty_level(*final(s), c->TypeOf_0, fuel) == Some(GENERIC_LEVEL)
                &&& c is Sandwiched ==> term_vars_read_lev(
                    *final(s),
                    c->Sandwiched_sub,
                    GENERIC_LEVEL,
                ) && term_vars_read_lev(*final(s), c->Sandwiched_sup, GENERIC_LEVEL)
                &&& c is TypeOf ==> term_vars_read_lev(*final(s), c->TypeOf_0, GENERIC_LEVEL)
            }),
            old(s).wf() ==> final(s).wf(),
    {
        self.set_level(s, GENERIC_LEVEL)
    }

    /// Whether the variable is generalized: its level reads as
    /// [`GENERIC_LEVEL`].
    pub fn is_generalized(self, s: &FreeStore) -> (r: bool)
        requires
            self.valid_in(*s),
            s.n_ty() + s.n_tp() < usize::MAX,
        ensures
            r == (spec_ty_cell_level(*s, self.pos(), level_fuel(*s)) == Some(GENERIC_LEVEL)),
    {
        match self.level(s) {
            Some(l) => l == GENERIC_LEVEL,
            None => false,
        }
    }
}

impl FreeTyParamVar {
    /// The level this cell reads as, as [`FreeTyVar::level`].
    pub fn level(self, s: &FreeStore) -> (r: Option<usize>)
        requires
            self.valid_in(*s),
            s.n_ty() + s.n_tp() < usize::MAX,
        ensures
            r == spec_tp_cell_level(*s, self.pos(), level_fuel(*s)),
            is_unbound_kind(self.cell(*s)) ==> r == Some(kind_level(self.cell(*s))),
    {
        let fuel = s.ty_cells.len() + s.tp_cells.len() + 1;
        tp_cell_level(s, self.idx, fuel)
    }

    /// Sets this variable's level, walking a `TypeOf` constraint or
    /// the linked term; afterwards the level this cell reads as,
    /// through any chain of links, is `lev`.
    pub fn set_level(self, s: &mut FreeStore, lev: usize)
        requires
            self.valid_in(*old(s)),
        ensures
            level_frame(*old(s), *final(s), lev),
            is_unbound_kind(self.cell(*old(s))) ==> self.cell(*final(s)) == kind_with_lev(
                self.cell(*old(s)),
                lev,
            ),
            forall|fuel: nat|
                (#[trigger] spec_tp_cell_level(*final(s), self.pos(), fuel)) is Some
                    ==> spec_tp_cell_level(*final(s), self.pos(), fuel) == Some(lev),
            is_unbound_kind(self.cell(*old(s))) && kind_constraint(self.cell(*old(s))) is TypeOf
                ==> forall|fuel: nat|
                (#[trigger] spec_ty_level(
                    *final(s),
                    kind_constraint(self.cell(*old(s)))->TypeOf_0,
                    fuel,
                )) is Some ==> spec_ty_level(
                    *final(s),
                    kind_constraint(self.cell(*old(s)))->TypeOf_0,
                    fuel,
                ) == Some(lev),
            is_unbound_kind(self.cell(*old(s))) && kind_constraint(self.cell(*old(s))) is TypeOf
                ==> term_vars_read_lev(
                *final(s),
                kind_constraint(self.cell(*old(s)))->TypeOf_0,
                lev,
            ),
            old(s).wf() ==> final(s).wf(),
    {
        let mut vty = fresh_visited(s.ty_cells.len());
        let mut vtp = fresh_visited(s.tp_cells.len());
        let ghost s0 = *s;
        set_level_walk_tp_cell(s, self.idx, lev, &mut vty, &mut vtp);
        proof {
            if s0.wf() {
                lemma_level_frame_wf(s0, *s, lev);
            }
            assert(marks_ok(*s, vty@, vtp@, lev)) by {
                assert forall|j: int|
                    0 <= j < vty@.len() && vty@[j] implies #[trigger] cell_ok_ty(
                    *s,
                    j,
                    vty@,
                    vtp@,
                    lev,
                ) by {}
                assert forall|j: int|
                    0 <= j < vtp@.len() && vtp@[j] implies #[trigger] cell_ok_tp(
                    *s,
                    j,
                    vty@,
                    vtp@,
                    lev,
                ) by {}
            }
            assert forall|fuel: nat|
                (#[trigger] spec_tp_cell_level(*s, self.pos(), fuel)) is Some
                    implies spec_tp_cell_level(*s, self.pos(), fuel) == Some(lev) by {
                lemma_marked_read_tp_cell(*s, vty@, vtp@, lev, self.pos(), fuel);
            }
            if is_unbound_kind(self.cell(s0)) && kind_constraint(self.cell(s0)) is TypeOf {
                let carrier = kind_constraint(self.cell(s0))->TypeOf_0;
                assert forall|fuel: nat|
                    (#[trigger] spec_ty_level(*s, carrier, fuel)) is Some implies spec_ty_level(
                    *s,
                    carrier,
                    fuel,
                ) == Some(lev) by {
                    lemma_marked_read_ty_term(*s, vty@, vtp@, lev, carrier, fuel);
                }
                lemma_marked_vars_read_ty(*s, vty@, vtp@, lev, carrier);
            }
        }
    }

    /// Raises the level to `level` when the current one is below it.
    pub fn lower(self, s: &mut FreeStore, level: usize)
        requires
            self.valid_in(*old(s)),
            old(s).n_ty() + old(s).n_tp() < usize::MAX,
        ensures
            opt_below(spec_tp_cell_level(*old(s), self.pos(), level_fuel(*old(s))), level) ==> (
            level_frame(*old(s), *final(s), level) && (is_unbound_kind(self.cell(*old(s)))
                ==> self.cell(*final(s)) == kind_with_lev(self.cell(*old(s)), level))),
            opt_below(spec_tp_cell_level(*old(s), self.pos(), level_fuel(*old(s))), level)
                ==> forall|fuel: nat|
                (#[trigger] spec_tp_cell_level(*final(s), self.pos(), fuel)) is Some
                    ==> spec_tp_cell_level(*final(s), self.pos(), fuel) == Some(level),
            !opt_below(spec_tp_cell_level(*old(s), self.pos(), level_fuel(*old(s))), level)
                ==> *final(s) == *old(s),
            forall|fuel: nat|
                ((#[trigger] spec_tp_cell_level(*final(s), self.pos(), fuel)) is Some
                    <==> spec_tp_cell_level(*old(s), self.pos(), fuel) is Some),
            old(s).wf() ==> final(s).wf(),
    {
        let below = match self.level(s) {
            None => true,
            Some(l) => l < level,
        };
        if below {
            self.set_level(s, level);
            proof {
                lemma_level_frame_levels_only(*old(s), *s, level);
                assert forall|fuel: nat|
                    ((#[trigger] spec_tp_cell_level(*s, self.pos(), fuel)) is Some
                        <==> spec_tp_cell_level(*old(s), self.pos(), fuel) is Some) by {
                    lemma_levels_only_read_some_tp_cell(*old(s), *s, self.pos(), fuel);
                }
            }
        }
    }

    /// Increments the level by one, saturating at [`GENERIC_LEVEL`].
    pub fn lift(self, s: &mut FreeStore)
        requires
            self.valid_in(*old(s)),
            old(s).n_ty() + old(s).n_tp() < usize::MAX,
        ensures
            levels_only_frame(*old(s), *final(s)),
            ({
                let l0 = spec_tp_cell_level(*old(s), self.pos(), level_fuel(*old(s)));
                &&& l0 is Some ==> level_frame(*old(s), *final(s), lev_succ(l0.unwrap())) && (
                is_unbound_kind(self.cell(*old(s))) ==> self.cell(*final(s)) == kind_with_lev(
                    self.cell(*old(s)),
                    lev_succ(l0.unwrap()),
                ))
                &&& l0 is None ==> *final(s) == *old(s)
            }),
            forall|fuel: nat|
                ((#[trigger] spec_tp_cell_level(*final(s), self.pos(), fuel)) is Some
                    <==> spec_tp_cell_level(*old(s), self.pos(), fuel) is Some),
            spec_tp_cell_level(*final(s), self.pos(), level_fuel(*final(s))) == opt_succ(
                spec_tp_cell_level(*old(s), self.pos(), level_fuel(*old(s))),
            ),
            old(s).wf() ==> final(s).wf(),
    {
        match self.level(s) {
            Some(l) => {
                let up = if l == GENERIC_LEVEL {
                    l
                } else {
                    l + 1
                };
                self.set_level(s, up);
                proof {
                    lemma_level_frame_levels_only(*old(s), *s, up);
                    assert forall|fuel: nat|
                        ((#[trigger] spec_tp_cell_level(*s, self.pos(), fuel)) is Some
                            <==> spec_tp_cell_level(*old(s), self.pos(), fuel) is Some) by {
                        lemma_levels_only_read_some_tp_cell(*old(s), *s, self.pos(), fuel);
                    }
                    assert(level_fuel(*s) == level_fuel(*old(s)));
                }
            },
            None => {
                proof {
                    assert(levels_only_frame(*old(s), *s));
                }
            },
        }
    }

    /// Marks the variable as universally quantified; afterwards the
    /// level it reads as is [`GENERIC_LEVEL`].
    pub fn generalize(self, s: &mut FreeStore)
        requires
            self.valid_in(*old(s)),
        ensures
            level_frame(*old(s), *final(s), GENERIC_LEVEL),
            is_unbound_kind(self.cell(*old(s))) ==> self.cell(*final(s)) == kind_with_lev(
                self.cell(*old(s)),
                GENERIC_LEVEL,
            ),
            forall|fuel: nat|
                (#[trigger] spec_tp_cell_level(*final(s), self.pos(), fuel)) is Some
                    ==> spec_tp_cell_level(*final(s), self.pos(), fuel) == Some(GENERIC_LEVEL),
            is_unbound_kind(self.cell(*old(s))) && kind_constraint(self.cell(*old(s))) is TypeOf
                ==> forall|fuel: nat|
                (#[trigger] spec_ty_level(
                    *final(s),
                    kind_constraint(self.cell(*old(s)))->TypeOf_0,
                    fuel,
                )) is Some ==> spec_ty_level(
                    *final(s),
                    kind_constraint(self.cell(*old(s)))->TypeOf_0,
                    fuel,
                ) == Some(GENERIC_LEVEL),
            is_unbound_kind(self.cell(*old(s))) && kind_constraint(self.cell(*old(s))) is TypeOf
                ==> term_vars_read_lev(
                *final(s),
                kind_constraint(self.cell(*old(s)))->TypeOf_0,
                GENERIC_LEVEL,
            ),
            old(s).wf() ==> final(s).wf(),
    {
        self.set_level(s, GENERIC_LEVEL)
    }

    /// Whether the variable is generalized.
    pub fn is_generalized(self, s: &FreeStore) -> (r: bool)
        requires
            self.valid_in(*s),
            s.n_ty() + s.n_tp() < usize::MAX,
        ensures
            r == (spec_tp_cell_level(*s, self.pos(), level_fuel(*s)) == Some(GENERIC_LEVEL)),
    {
        match self.level(s) {
            Some(l) => l == GENERIC_LEVEL,
            None => false,
        }
    }
}

/// What holds of a cell once the lifting walk has visited it: an
/// unbound cell's level became the saturating successor of its old
/// one, and a resolved cell is untouched with its term's variables
/// visited.  `k0` is the cell before the walk, `k1` after.
pub open spec fn lift_ok_ty(
    k0: FreeKind<Type>,
    k1: FreeKind<Type>,
    vty: Seq<bool>,
    vtp: Seq<bool>,
) -> bool {
    match k0 {
        FreeKind::Unbound { .. } => k1 == kind_with_lev(k0, lev_succ(kind_level(k0))),
        FreeKind::NamedUnbound { .. } => k1 == kind_with_lev(k0, lev_succ(kind_level(k0))),
        FreeKind::Linked(t) => k1 == k0 && ty_vars_marked(t, vty, vtp),
        FreeKind::UndoableLinked { t, .. } => k1 == k0 && ty_vars_marked(t, vty, vtp),
    }
}

/// As [`lift_ok_ty`], for a type-parameter cell.
pub open spec fn lift_ok_tp(
    k0: FreeKind<TyParam>,
    k1: FreeKind<TyParam>,
    vty: Seq<bool>,
    vtp: Seq<bool>,
) -> bool {
    match k0 {
        FreeKind::Unbound { .. } => k1 == kind_with_lev(k0, lev_succ(kind_level(k0))),
        FreeKind::NamedUnbound { .. } => k1 == kind_with_lev(k0, lev_succ(kind_level(k0))),
        FreeKind::Linked(t) => k1 == k0 && tp_vars_marked(t, vty, vtp),
        FreeKind::UndoableLinked { t, .. } => k1 == k0 && tp_vars_marked(t, vty, vtp),
    }
}

/// A lifted cell's property survives later steps of the walk.
proof fn lemma_lift_ok_ty_persists(
    k0: FreeKind<Type>,
    k1: FreeKind<Type>,
    vty1: Seq<bool>,
    vtp1: Seq<bool>,
    vty2: Seq<bool>,
    vtp2: Seq<bool>,
)
    requires
        lift_ok_ty(k0, k1, vty1, vtp1),
        vty1.len() == vty2.len(),
        vtp1.len() == vtp2.len(),
        forall|k: int| 0 <= k < vty1.len() && vty1[k] ==> vty2[k],
        forall|k: int| 0 <= k < vtp1.len() && vtp1[k] ==> vtp2[k],
    ensures
        lift_ok_ty(k0, k1, vty2, vtp2),
{
    match k0 {
        FreeKind::Linked(t) => {
            lemma_ty_vars_marked_mono(t, vty1, vtp1, vty2, vtp2);
        },
        FreeKind::UndoableLinked { t, .. } => {
            lemma_ty_vars_marked_mono(t, vty1, vtp1, vty2, vtp2);
        },
        _ => {},
    }
}

/// A lifted cell's property survives later steps of the walk.
proof fn lemma_lift_ok_tp_persists(
    k0: FreeKind<TyParam>,
    k1: FreeKind<TyParam>,
    vty1: Seq<bool>,
    vtp1: Seq<bool>,
    vty2: Seq<bool>,
    vtp2: Seq<bool>,
)
    requires
        lift_ok_tp(k0, k1, vty1, vtp1),
        vty1.len() == vty2.len(),
        vtp1.len() == vtp2.len(),
        forall|k: int| 0 <= k < vty1.len() && vty1[k] ==> vty2[k],
        forall|k: int| 0 <= k < vtp1.len() && vtp1[k] ==> vtp2[k],
    ensures
        lift_ok_tp(k0, k1, vty2, vtp2),
{
    match k0 {
        FreeKind::Linked(t) => {
            lemma_tp_vars_marked_mono(t, vty1, vtp1, vty2, vtp2);
        },
        FreeKind::UndoableLinked { t, .. } => {
            lemma_tp_vars_marked_mono(t, vty1, vtp1, vty2, vtp2);
        },
        _ => {},
    }
}

/// Every visited cell was lifted exactly once: `s0` is the store
/// before the whole walk, `s1` after it.
pub open spec fn lift_marks_ok(s0: FreeStore, s1: FreeStore, vty: Seq<bool>, vtp: Seq<bool>) -> bool {
    &&& vty.len() == s0.n_ty()
    &&& vtp.len() == s0.n_tp()
    &&& s1.n_ty() == s0.n_ty()
    &&& s1.n_tp() == s0.n_tp()
    &&& forall|j: int|
        0 <= j < vty.len() && vty[j] ==> #[trigger] lift_ok_ty(s0.ty_at(j), s1.ty_at(j), vty, vtp)
    &&& forall|j: int|
        0 <= j < vtp.len() && vtp[j] ==> #[trigger] lift_ok_tp(s0.tp_at(j), s1.tp_at(j), vty, vtp)
}

/// After the lifting walk, the level a visited cell reads as is the
/// saturating successor of what it read before.
proof fn lemma_lift_read_ty_cell(
    s0: FreeStore,
    s1: FreeStore,
    vty: Seq<bool>,
    vtp: Seq<bool>,
    i: int,
    fuel: nat,
)
    requires
        lift_marks_ok(s0, s1, vty, vtp),
        0 <= i < s0.n_ty(),
        vty[i],
    ensures
        spec_ty_cell_level(s1, i, fuel) == opt_succ(spec_ty_cell_level(s0, i, fuel)),
    decreases fuel, 0nat,
{
    assert(lift_ok_ty(s0.ty_at(i), s1.ty_at(i), vty, vtp));
    match s0.ty_at(i) {
        FreeKind::Linked(t) => {
            if fuel > 0 {
                lemma_lift_read_ty_term(s0, s1, vty, vtp, t, (fuel - 1) as nat);
            }
        },
        FreeKind::UndoableLinked { t, .. } => {
            if fuel > 0 {
                lemma_lift_read_ty_term(s0, s1, vty, vtp, t, (fuel - 1) as nat);
            }
        },
        _ => {},
    }
}

/// As [`lemma_lift_read_ty_cell`], for a type-parameter cell.
proof fn lemma_lift_read_tp_cell(
    s0: FreeStore,
    s1: FreeStore,
    vty: Seq<bool>,
    vtp: Seq<bool>,
    i: int,
    fuel: nat,
)
    requires
        lift_marks_ok(s0, s1, vty, vtp),
        0 <= i < s0.n_tp(),
        vtp[i],
    ensures
        spec_tp_cell_level(s1, i, fuel) == opt_succ(spec_tp_cell_level(s0, i, fuel)),
    decreases fuel, 0nat,
{
    assert(lift_ok_tp(s0.tp_at(i), s1.tp_at(i), vty, vtp));
    match s0.tp_at(i) {
        FreeKind::Linked(t) => {
            if fuel > 0 {
                lemma_lift_read_tp_term(s0, s1, vty, vtp, t, (fuel - 1) as nat);
            }
        },
        FreeKind::UndoableLinked { t, .. } => {
            if fuel > 0 {
                lemma_lift_read_tp_term(s0, s1, vty, vtp, t, (fuel - 1) as nat);
            }
        },
        _ => {},
    }
}

/// As [`lemma_lift_read_ty_cell`], for a term of visited variables.
proof fn lemma_lift_read_ty_term(
    s0: FreeStore,
    s1: FreeStore,
    vty: Seq<bool>,
    vtp: Seq<bool>,
    t: Type,
    fuel: nat,
)
    requires
        lift_marks_ok(s0, s1, vty, vtp),
        ty_vars_marked(t, vty, vtp),
    ensures
        spec_ty_level(s1, t, fuel) == opt_succ(spec_ty_level(s0, t, fuel)),
    decreases fuel, ty_height(t),
{
    match t {
        Type::FreeVar(v) => {
            if 0 <= v.pos() < s0.n_ty() {
                lemma_lift_read_ty_cell(s0, s1, vty, vtp, v.pos(), fuel);
            }
        },
        Type::Poly { params, .. } => {
            lemma_lift_read_tps(s0, s1, vty, vtp, params@, fuel);
        },
        _ => {},
    }
}

/// As [`lemma_lift_read_ty_cell`], over a parameter sequence.
proof fn lemma_lift_read_tps(
    s0: FreeStore,
    s1: FreeStore,
    vty: Seq<bool>,
    vtp: Seq<bool>,
    ps: Seq<TyParam>,
    fuel: nat,
)
    requires
        lift_marks_ok(s0, s1, vty, vtp),
        forall|k: int| 0 <= k < ps.len() ==> tp_vars_marked(#[trigger] ps[k], vty, vtp),
    ensures
        spec_tps_level(s1, ps, fuel) == opt_succ(spec_tps_level(s0, ps, fuel)),
    decreases fuel, tps_height(ps),
{
    if ps.len() > 0 {
        lemma_lift_read_tp_term(s0, s1, vty, vtp, ps[0], fuel);
        assert(forall|k: int|
            0 <= k < ps.drop_first().len() ==> #[trigger] ps.drop_first()[k] == ps[k + 1]);
        lemma_lift_read_tps(s0, s1, vty, vtp, ps.drop_first(), fuel);
        assert(opt_min(opt_succ(spec_tp_level(s0, ps[0], fuel)), opt_succ(spec_tps_level(s0, ps.drop_first(), fuel)))
            == opt_succ(opt_min(spec_tp_level(s0, ps[0], fuel), spec_tps_level(s0, ps.drop_first(), fuel))));
    }
}

/// As [`lemma_lift_read_ty_cell`], for a type-parameter term.
proof fn lemma_lift_read_tp_term(
    s0: FreeStore,
    s1: FreeStore,
    vty: Seq<bool>,
    vtp: Seq<bool>,
    p: TyParam,
    fuel: nat,
)
    requires
        lift_marks_ok(s0, s1, vty, vtp),
        tp_vars_marked(p, vty, vtp),
    ensures
        spec_tp_level(s1, p, fuel) == opt_succ(spec_tp_level(s0, p, fuel)),
    decreases fuel, tp_height(p),
{
    match p {
        TyParam::Ty(t) => {
            lemma_lift_read_ty_term(s0, s1, vty, vtp, *t, fuel);
        },
        TyParam::FreeVar(v) => {
            if 0 <= v.pos() < s0.n_tp() {
                lemma_lift_read_tp_cell(s0, s1, vty, vtp, v.pos(), fuel);
            }
        },
        _ => {},
    }
}

/// Lifts the type-variable cell `i` by one level, saturating, and
/// walks on to every variable its constraint or term reaches; each
/// cell is lifted exactly once.
fn lift_walk_ty_cell(s: &mut FreeStore, i: usize, vty: &mut Vec<bool>, vtp: &mut Vec<bool>)
    requires
        i < old(s).n_ty(),
        old(vty)@.len() == old(s).n_ty(),
        old(vtp)@.len() == old(s).n_tp(),
    ensures
        levels_only_frame(*old(s), *final(s)),
        final(vty)@.len() == old(vty)@.len(),
        final(vtp)@.len() == old(vtp)@.len(),
        forall|j: int| 0 <= j < old(vty)@.len() && old(vty)@[j] ==> final(vty)@[j],
        forall|j: int| 0 <= j < old(vtp)@.len() && old(vtp)@[j] ==> final(vtp)@[j],
        count_false(final(vty)@) + count_false(final(vtp)@) <= count_false(old(vty)@)
            + count_false(old(vtp)@),
        final(vty)@[i as int],
        forall|j: int|
            0 <= j < old(vty)@.len() && (old(vty)@[j] || !final(vty)@[j]) ==> final(s).ty_at(j)
                == old(s).ty_at(j),
        forall|j: int|
            0 <= j < old(vtp)@.len() && (old(vtp)@[j] || !final(vtp)@[j]) ==> final(s).tp_at(j)
                == old(s).tp_at(j),
        forall|j: int|
            0 <= j < old(vty)@.len() && !old(vty)@[j] && final(vty)@[j] ==> #[trigger] lift_ok_ty(
                old(s).ty_at(j),
                final(s).ty_at(j),
                final(vty)@,
                final(vtp)@,
            ),
        forall|j: int|
            0 <= j < old(vtp)@.len() && !old(vtp)@[j] && final(vtp)@[j] ==> #[trigger] lift_ok_tp(
                old(s).tp_at(j),
                final(s).tp_at(j),
                final(vty)@,
                final(vtp)@,
            ),
    decreases count_false(old(vty)@) + count_false(old(vtp)@), 0nat,
{
    let ghost s0 = *s;
    let ghost vty0 = vty@;
    let ghost vtp0 = vtp@;
    if vty[i] {
        return ;
    }
    {
        let marked = &mut vty[i];
        *marked = true;
    }
    proof {
        lemma_count_false_update(vty0, i as int);
    }
    let is_unb = matches!(
        &s.ty_cells[i],
        FreeKind::Unbound { .. } | FreeKind::NamedUnbound { .. }
    );
    if is_unb {
        let mut tmp: FreeKind<Type> = FreeKind::Unbound {
            id: 0,
            lev: 0,
            constraint: Constraint::Uninited,
        };
        {
            let slot = &mut s.ty_cells[i];
            core::mem::swap(slot, &mut tmp);
        }
        let c2: Constraint;
        match tmp {
            FreeKind::Unbound { id, lev, constraint } => {
                c2 = constraint.clone();
                let up = if lev == GENERIC_LEVEL {
                    lev
                } else {
                    lev + 1
                };
                let slot = &mut s.ty_cells[i];
                *slot = FreeKind::Unbound { id, lev: up, constraint };
            },
            FreeKind::NamedUnbound { name, lev, constraint } => {
                c2 = constraint.clone();
                let up = if lev == GENERIC_LEVEL {
                    lev
                } else {
                    lev + 1
                };
                let slot = &mut s.ty_cells[i];
                *slot = FreeKind::NamedUnbound { name, lev: up, constraint };
            },
            _ => {
                proof {
                    assert(false);
                }
                c2 = Constraint::Uninited;
            },
        }
        proof {
            assert(s.ty_at(i as int) == kind_with_lev(
                s0.ty_at(i as int),
                lev_succ(kind_level(s0.ty_at(i as int))),
            ));
            assert forall|j: int| 0 <= j < s0.n_ty() implies #[trigger] levels_only_kind(
                s0.ty_at(j),
                s.ty_at(j),
            ) by {}
            assert(levels_only_frame(s0, *s));
        }
        let ghost sa = *s;
        match c2 {
            Constraint::Sandwiched { sub, sup } => {
                lift_walk_ty_term(s, &sub, vty, vtp);
                proof {
                    lemma_levels_only_trans(s0, sa, *s);
                }
                let ghost sb = *s;
                let ghost m2 = vty@;
                let ghost m2p = vtp@;
                lift_walk_ty_term(s, &sup, vty, vtp);
                proof {
                    lemma_levels_only_trans(s0, sb, *s);
                    assert forall|j: int|
                        0 <= j < vty0.len() && !vty0[j] && vty@[j] implies #[trigger] lift_ok_ty(
                        s0.ty_at(j),
                        s.ty_at(j),
                        vty@,
                        vtp@,
                    ) by {
                        if j == i as int {
                            assert(s.ty_at(j) == sa.ty_at(j));
                        } else if m2[j] {
                            assert(lift_ok_ty(sa.ty_at(j), sb.ty_at(j), m2, m2p));
                            assert(sa.ty_at(j) == s0.ty_at(j));
                            assert(s.ty_at(j) == sb.ty_at(j));
                            lemma_lift_ok_ty_persists(s0.ty_at(j), s.ty_at(j), m2, m2p, vty@, vtp@);
                        } else {
                            assert(lift_ok_ty(sb.ty_at(j), s.ty_at(j), vty@, vtp@));
                            assert(sb.ty_at(j) == s0.ty_at(j));
                        }
                    }
                    assert forall|j: int|
                        0 <= j < vtp0.len() && !vtp0[j] && vtp@[j] implies #[trigger] lift_ok_tp(
                        s0.tp_at(j),
                        s.tp_at(j),
                        vty@,
                        vtp@,
                    ) by {
                        if m2p[j] {
                            assert(lift_ok_tp(sa.tp_at(j), sb.tp_at(j), m2, m2p));
                            assert(sa.tp_at(j) == s0.tp_at(j));
                            assert(s.tp_at(j) == sb.tp_at(j));
                            lemma_lift_ok_tp_persists(s0.tp_at(j), s.tp_at(j), m2, m2p, vty@, vtp@);
                        } else {
                            assert(lift_ok_tp(sb.tp_at(j), s.tp_at(j), vty@, vtp@));
                            assert(sb.tp_at(j) == s0.tp_at(j));
                        }
                    }
                }
            },
            Constraint::TypeOf(t) => {
                lift_walk_ty_term(s, &t, vty, vtp);
                proof {
                    lemma_levels_only_trans(s0, sa, *s);
                    assert forall|j: int|
                        0 <= j < vty0.len() && !vty0[j] && vty@[j] implies #[trigger] lift_ok_ty(
                        s0.ty_at(j),
                        s.ty_at(j),
                        vty@,
                        vtp@,
                    ) by {
                        if j == i as int {
                            assert(s.ty_at(j) == sa.ty_at(j));
                        } else {
                            assert(lift_ok_ty(sa.ty_at(j), s.ty_at(j), vty@, vtp@));
                            assert(sa.ty_at(j) == s0.ty_at(j));
                        }
                    }
                    assert forall|j: int|
                        0 <= j < vtp0.len() && !vtp0[j] && vtp@[j] implies #[trigger] lift_ok_tp(
                        s0.tp_at(j),
                        s.tp_at(j),
                        vty@,
                        vtp@,
                    ) by {
                        assert(lift_ok_tp(sa.tp_at(j), s.tp_at(j), vty@, vtp@));
                        assert(sa.tp_at(j) == s0.tp_at(j));
                    }
                }
            },
            Constraint::Uninited => {
                proof {
                    assert forall|j: int|
                        0 <= j < vty0.len() && !vty0[j] && vty@[j] implies #[trigger] lift_ok_ty(
                        s0.ty_at(j),
                        s.ty_at(j),
                        vty@,
                        vtp@,
                    ) by {
                        assert(j == i as int);
                    }
                }
            },
        }
    } else {
        let t2: Option<Type> = match &s.ty_cells[i] {
            FreeKind::Linked(t) => Some(t.clone()),
            FreeKind::UndoableLinked { t, .. } => Some(t.clone()),
            _ => None,
        };
        match t2 {
            Some(t) => {
                lift_walk_ty_term(s, &t, vty, vtp);
                proof {
                    assert(s.ty_at(i as int) == s0.ty_at(i as int));
                    assert(ty_vars_marked(t, vty@, vtp@));
                    match s0.ty_at(i as int) {
                        FreeKind::Linked(orig) => {
                            lemma_ty_vars_marked_eqv(t, orig, vty@, vtp@);
                        },
                        FreeKind::UndoableLinked { t: orig, .. } => {
                            lemma_ty_vars_marked_eqv(t, orig, vty@, vtp@);
                        },
                        _ => {},
                    }
                    assert(lift_ok_ty(s0.ty_at(i as int), s.ty_at(i as int), vty@, vtp@));
                }
            },
            None => {
                proof {
                    assert(false);
                }
            },
        }
    }
}

/// Lifts the type-parameter-variable cell `i` by one level; its
/// constraint is walked through a `TypeOf` carrier.
fn lift_walk_tp_cell(s: &mut FreeStore, i: usize, vty: &mut Vec<bool>, vtp: &mut Vec<bool>)
    requires
        i < old(s).n_tp(),
        old(vty)@.len() == old(s).n_ty(),
        old(vtp)@.len() == old(s).n_tp(),
    ensures
        levels_only_frame(*old(s), *final(s)),
        final(vty)@.len() == old(vty)@.len(),
        final(vtp)@.len() == old(vtp)@.len(),
        forall|j: int| 0 <= j < old(vty)@.len() && old(vty)@[j] ==> final(vty)@[j],
        forall|j: int| 0 <= j < old(vtp)@.len() && old(vtp)@[j] ==> final(vtp)@[j],
        count_false(final(vty)@) + count_false(final(vtp)@) <= count_false(old(vty)@)
            + count_false(old(vtp)@),
        final(vtp)@[i as int],
        forall|j: int|
            0 <= j < old(vty)@.len() && (old(vty)@[j] || !final(vty)@[j]) ==> final(s).ty_at(j)
                == old(s).ty_at(j),
        forall|j: int|
            0 <= j < old(vtp)@.len() && (old(vtp)@[j] || !final(vtp)@[j]) ==> final(s).tp_at(j)
                == old(s).tp_at(j),
        forall|j: int|
            0 <= j < old(vty)@.len() && !old(vty)@[j] && final(vty)@[j] ==> #[trigger] lift_ok_ty(
                old(s).ty_at(j),
                final(s).ty_at(j),
                final(vty)@,
                final(vtp)@,
            ),
        forall|j: int|
            0 <= j < old(vtp)@.len() && !old(vtp)@[j] && final(vtp)@[j] ==> #[trigger] lift_ok_tp(
                old(s).tp_at(j),
                final(s).tp_at(j),
                final(vty)@,
                final(vtp)@,
            ),
    decreases count_false(old(vty)@) + count_false(old(vtp)@), 0nat,
{
    let ghost s0 = *s;
    let ghost vty0 = vty@;
    let ghost vtp0 = vtp@;
    if vtp[i] {
        return ;
    }
    {
        let marked = &mut vtp[i];
        *marked = true;
    }
    proof {
        lemma_count_false_update(vtp0, i as int);
    }
    let is_unb = matches!(
        &s.tp_cells[i],
        FreeKind::Unbound { .. } | FreeKind::NamedUnbound { .. }
    );
    if is_unb {
        let mut tmp: FreeKind<TyParam> = FreeKind::Unbound {
            id: 0,
            lev: 0,
            constraint: Constraint::Uninited,
        };
        {
            let slot = &mut s.tp_cells[i];
            core::mem::swap(slot, &mut tmp);
        }
        let c2: Constraint;
        match tmp {
            FreeKind::Unbound { id, lev, constraint } => {
                c2 = constraint.clone();
                let up = if lev == GENERIC_LEVEL {
                    lev
                } else {
                    lev + 1
                };
                let slot = &mut s.tp_cells[i];
                *slot = FreeKind::Unbound { id, lev: up, constraint };
            },
            FreeKind::NamedUnbound { name, lev, constraint } => {
                c2 = constraint.clone();
                let up = if lev == GENERIC_LEVEL {
                    lev
                } else {
                    lev + 1
                };
                let slot = &mut s.tp_cells[i];
                *slot = FreeKind::NamedUnbound { name, lev: up, constraint };
            },
            _ => {
                proof {
                    assert(false);
                }
                c2 = Constraint::Uninited;
            },
        }
        proof {
            assert(s.tp_at(i as int) == kind_with_lev(
                s0.tp_at(i as int),
                lev_succ(kind_level(s0.tp_at(i as int))),
            ));
            assert(levels_only_frame(s0, *s));
        }
        let ghost sa = *s;
        match c2.get_type() {
            Some(t) => {
                lift_walk_ty_term(s, &t, vty, vtp);
                proof {
                    lemma_levels_only_trans(s0, sa, *s);
                    assert forall|j: int|
                        0 <= j < vtp0.len() && !vtp0[j] && vtp@[j] implies #[trigger] lift_ok_tp(
                        s0.tp_at(j),
                        s.tp_at(j),
                        vty@,
                        vtp@,
                    ) by {
                        if j == i as int {
                            assert(s.tp_at(j) == sa.tp_at(j));
                        } else {
                            assert(lift_ok_tp(sa.tp_at(j), s.tp_at(j), vty@, vtp@));
                            assert(sa.tp_at(j) == s0.tp_at(j));
                        }
                    }
                    assert forall|j: int|
                        0 <= j < vty0.len() && !vty0[j] && vty@[j] implies #[trigger] lift_ok_ty(
                        s0.ty_at(j),
                        s.ty_at(j),
                        vty@,
                        vtp@,
                    ) by {
                        assert(lift_ok_ty(sa.ty_at(j), s.ty_at(j), vty@, vtp@));
                        assert(sa.ty_at(j) == s0.ty_at(j));
                    }
                }
            },
            None => {
                proof {
                    assert forall|j: int|
                        0 <= j < vtp0.len() && !vtp0[j] && vtp@[j] implies #[trigger] lift_ok_tp(
                        s0.tp_at(j),
                        s.tp_at(j),
                        vty@,
                        vtp@,
                    ) by {
                        assert(j == i as int);
                    }
                }
            },
        }
    } else {
        let t2: Option<TyParam> = match &s.tp_cells[i] {
            FreeKind::Linked(t) => Some(t.clone()),
            FreeKind::UndoableLinked { t, .. } => Some(t.clone()),
            _ => None,
        };
        match t2 {
            Some(t) => {
                lift_walk_tp_term(s, &t, vty, vtp);
                proof {
                    assert(s.tp_at(i as int) == s0.tp_at(i as int));
                    assert(tp_vars_marked(t, vty@, vtp@));
                    match s0.tp_at(i as int) {
                        FreeKind::Linked(orig) => {
                            lemma_tp_vars_marked_eqv(t, orig, vty@, vtp@);
                        },
                        FreeKind::UndoableLinked { t: orig, .. } => {
                            lemma_tp_vars_marked_eqv(t, orig, vty@, vtp@);
                        },
                        _ => {},
                    }
                    assert(lift_ok_tp(s0.tp_at(i as int), s.tp_at(i as int), vty@, vtp@));
                }
            },
            None => {
                proof {
                    assert(false);
                }
            },
        }
    }
}

/// Lifts every variable embedded in a type term by one level, each
/// cell exactly once.
fn lift_walk_ty_term(s: &mut FreeStore, t: &Type, vty: &mut Vec<bool>, vtp: &mut Vec<bool>)
    requires
        old(vty)@.len() == old(s).n_ty(),
        old(vtp)@.len() == old(s).n_tp(),
    ensures
        levels_only_frame(*old(s), *final(s)),
        final(vty)@.len() == old(vty)@.len(),
        final(vtp)@.len() == old(vtp)@.len(),
        forall|j: int| 0 <= j < old(vty)@.len() && old(vty)@[j] ==> final(vty)@[j],
        forall|j: int| 0 <= j < old(vtp)@.len() && old(vtp)@[j] ==> final(vtp)@[j],
        count_false(final(vty)@) + count_false(final(vtp)@) <= count_false(old(vty)@)
            + count_false(old(vtp)@),
        forall|j: int|
            0 <= j < old(vty)@.len() && (old(vty)@[j] || !final(vty)@[j]) ==> final(s).ty_at(j)
                == old(s).ty_at(j),
        forall|j: int|
            0 <= j < old(vtp)@.len() && (old(vtp)@[j] || !final(vtp)@[j]) ==> final(s).tp_at(j)
                == old(s).tp_at(j),
        forall|j: int|
            0 <= j < old(vty)@.len() && !old(vty)@[j] && final(vty)@[j] ==> #[trigger] lift_ok_ty(
                old(s).ty_at(j),
                final(s).ty_at(j),
                final(vty)@,
                final(vtp)@,
            ),
        forall|j: int|
            0 <= j < old(vtp)@.len() && !old(vtp)@[j] && final(vtp)@[j] ==> #[trigger] lift_ok_tp(
                old(s).tp_at(j),
                final(s).tp_at(j),
                final(vty)@,
                final(vtp)@,
            ),
        ty_vars_marked(*t, final(vty)@, final(vtp)@),
    decreases count_false(old(vty)@) + count_false(old(vtp)@), 1 + ty_height(*t),
{
    match t {
        Type::FreeVar(v) => {
            if v.idx < s.ty_cells.len() {
                lift_walk_ty_cell(s, v.idx, vty, vtp);
            }
        },
        Type::Poly { params, .. } => {
            let ghost ps = params@;
            let mut i: usize = 0;
            while i < params.len()
                invariant
                    i <= params.len(),
                    params@ == ps,
                    *t is Poly,
                    params == t->Poly_params,
                    s.n_ty() == old(s).n_ty(),
                    s.n_tp() == old(s).n_tp(),
                    vty@.len() == old(vty)@.len(),
                    vtp@.len() == old(vtp)@.len(),
                    old(vty)@.len() == old(s).n_ty(),
                    old(vtp)@.len() == old(s).n_tp(),
                    levels_only_frame(*old(s), *s),
                    forall|j: int| 0 <= j < old(vty)@.len() && old(vty)@[j] ==> vty@[j],
                    forall|j: int| 0 <= j < old(vtp)@.len() && old(vtp)@[j] ==> vtp@[j],
                    count_false(vty@) + count_false(vtp@) <= count_false(old(vty)@) + count_false(
                        old(vtp)@,
                    ),
                    forall|j: int|
                        0 <= j < old(vty)@.len() && (old(vty)@[j] || !vty@[j]) ==> s.ty_at(j)
                            == old(s).ty_at(j),
                    forall|j: int|
                        0 <= j < old(vtp)@.len() && (old(vtp)@[j] || !vtp@[j]) ==> s.tp_at(j)
                            == old(s).tp_at(j),
                    forall|j: int|
                        0 <= j < old(vty)@.len() && !old(vty)@[j] && vty@[j]
                            ==> #[trigger] lift_ok_ty(old(s).ty_at(j), s.ty_at(j), vty@, vtp@),
                    forall|j: int|
                        0 <= j < old(vtp)@.len() && !old(vtp)@[j] && vtp@[j]
                            ==> #[trigger] lift_ok_tp(old(s).tp_at(j), s.tp_at(j), vty@, vtp@),
                    forall|k: int| 0 <= k < i ==> tp_vars_marked(#[trigger] ps[k], vty@, vtp@),
                decreases params.len() - i,
            {
                proof {
                    lemma_tps_height_elem(ps, i as int);
                    assert(ty_height(*t) == 1 + tps_height(params@));
                    assert(tp_height(ps[i as int]) < ty_height(*t));
                }
                let ghost s1 = *s;
                let ghost m1 = vty@;
                let ghost m1p = vtp@;
                lift_walk_tp_term(s, &params[i], vty, vtp);
                proof {
                    lemma_levels_only_trans(*old(s), s1, *s);
                    assert forall|j: int|
                        0 <= j < old(vty)@.len() && !old(vty)@[j] && vty@[j]
                            implies #[trigger] lift_ok_ty(old(s).ty_at(j), s.ty_at(j), vty@, vtp@) by {
                        if m1[j] {
                            assert(lift_ok_ty(old(s).ty_at(j), s1.ty_at(j), m1, m1p));
                            assert(s.ty_at(j) == s1.ty_at(j));
                            lemma_lift_ok_ty_persists(
                                old(s).ty_at(j),
                                s.ty_at(j),
                                m1,
                                m1p,
                                vty@,
                                vtp@,
                            );
                        } else {
                            assert(lift_ok_ty(s1.ty_at(j), s.ty_at(j), vty@, vtp@));
                            assert(s1.ty_at(j) == old(s).ty_at(j));
                        }
                    }
                    assert forall|j: int|
                        0 <= j < old(vtp)@.len() && !old(vtp)@[j] && vtp@[j]
                            implies #[trigger] lift_ok_tp(old(s).tp_at(j), s.tp_at(j), vty@, vtp@) by {
                        if m1p[j] {
                            assert(lift_ok_tp(old(s).tp_at(j), s1.tp_at(j), m1, m1p));
                            assert(s.tp_at(j) == s1.tp_at(j));
                            lemma_lift_ok_tp_persists(
                                old(s).tp_at(j),
                                s.tp_at(j),
                                m1,
                                m1p,
                                vty@,
                                vtp@,
                            );
                        } else {
                            assert(lift_ok_tp(s1.tp_at(j), s.tp_at(j), vty@, vtp@));
                            assert(s1.tp_at(j) == old(s).tp_at(j));
                        }
                    }
                    assert forall|k: int| 0 <= k < i + 1 implies tp_vars_marked(
                        #[trigger] ps[k],
                        vty@,
                        vtp@,
                    ) by {
                        if k < i {
                            lemma_tp_vars_marked_mono(ps[k], m1, m1p, vty@, vtp@);
                        }
                    }
                }
                i += 1;
            }
        },
        _ => {},
    }
}

/// Lifts every variable embedded in a type-parameter term by one
/// level, each cell exactly once.
fn lift_walk_tp_term(s: &mut FreeStore, p: &TyParam, vty: &mut Vec<bool>, vtp: &mut Vec<bool>)
    requires
        old(vty)@.len() == old(s).n_ty(),
        old(vtp)@.len() == old(s).n_tp(),
    ensures
        levels_only_frame(*old(s), *final(s)),
        final(vty)@.len() == old(vty)@.len(),
        final(vtp)@.len() == old(vtp)@.len(),
        forall|j: int| 0 <= j < old(vty)@.len() && old(vty)@[j] ==> final(vty)@[j],
        forall|j: int| 0 <= j < old(vtp)@.len() && old(vtp)@[j] ==> final(vtp)@[j],
        count_false(final(vty)@) + count_false(final(vtp)@) <= count_false(old(vty)@)
            + count_false(old(vtp)@),
        forall|j: int|
            0 <= j < old(vty)@.len() && (old(vty)@[j] || !final(vty)@[j]) ==> final(s).ty_at(j)
                == old(s).ty_at(j),
        forall|j: int|
            0 <= j < old(vtp)@.len() && (old(vtp)@[j] || !final(vtp)@[j]) ==> final(s).tp_at(j)
                == old(s).tp_at(j),
        forall|j: int|
            0 <= j < old(vty)@.len() && !old(vty)@[j] && final(vty)@[j] ==> #[trigger] lift_ok_ty(
                old(s).ty_at(j),
                final(s).ty_at(j),
                final(vty)@,
                final(vtp)@,
            ),
        forall|j: int|
            0 <= j < old(vtp)@.len() && !old(vtp)@[j] && final(vtp)@[j] ==> #[trigger] lift_ok_tp(
                old(s).tp_at(j),
                final(s).tp_at(j),
                final(vty)@,
                final(vtp)@,
            ),
        tp_vars_marked(*p, final(vty)@, final(vtp)@),
    decreases count_false(old(vty)@) + count_false(old(vtp)@), 1 + tp_height(*p),
{
    match p {
        TyParam::Ty(t) => {
            lift_walk_ty_term(s, t, vty, vtp);
        },
        TyParam::FreeVar(v) => {
            if v.idx < s.tp_cells.len() {
                lift_walk_tp_cell(s, v.idx, vty, vtp);
            }
        },
        _ => {},
    }
}

impl Constraint {
    /// Lifts every variable the constraint embeds by one level, each
    /// exactly once, saturating at [`GENERIC_LEVEL`]: afterwards the
    /// level each carried term reads as is the saturating successor of
    /// what it read before, and the store changes in levels alone.
    pub fn lift(&self, s: &mut FreeStore)
        ensures
            levels_only_frame(*old(s), *final(s)),
            forall|j: int|
                0 <= j < old(s).n_ty() ==> (#[trigger] final(s).ty_at(j)) == old(s).ty_at(j)
                    || final(s).ty_at(j) == kind_with_lev(
                    old(s).ty_at(j),
                    lev_succ(kind_level(old(s).ty_at(j))),
                ),
            forall|j: int|
                0 <= j < old(s).n_tp() ==> (#[trigger] final(s).tp_at(j)) == old(s).tp_at(j)
                    || final(s).tp_at(j) == kind_with_lev(
                    old(s).tp_at(j),
                    lev_succ(kind_level(old(s).tp_at(j))),
                ),
            self is Sandwiched ==> forall|fuel: nat|
                (#[trigger] spec_ty_level(*final(s), self->Sandwiched_sub, fuel)) == opt_succ(
                    spec_ty_level(*old(s), self->Sandwiched_sub, fuel),
                ) && spec_ty_level(*final(s), self->Sandwiched_sup, fuel) == opt_succ(
                    spec_ty_level(*old(s), self->Sandwiched_sup, fuel),
                ),
            self is TypeOf ==> forall|fuel: nat|
                (#[trigger] spec_ty_level(*final(s), self->TypeOf_0, fuel)) == opt_succ(
                    spec_ty_level(*old(s), self->TypeOf_0, fuel),
                ),
            self is Sandwiched ==> term_vars_lifted(*old(s), *final(s), self->Sandwiched_sub)
                && term_vars_lifted(*old(s), *final(s), self->Sandwiched_sup),
            self is TypeOf ==> term_vars_lifted(*old(s), *final(s), self->TypeOf_0),
            self is Uninited ==> *final(s) == *old(s),
            old(s).wf() ==> final(s).wf(),
    {
        let ghost s0 = *s;
        match self {
            Constraint::Sandwiched { sub, sup } => {
                let mut vty = fresh_visited(s.ty_cells.len());
                let mut vtp = fresh_visited(s.tp_cells.len());
                lift_walk_ty_term(s, sub, &mut vty, &mut vtp);
                let ghost s1 = *s;
                let ghost m1 = vty@;
                let ghost m1p = vtp@;
                lift_walk_ty_term(s, sup, &mut vty, &mut vtp);
                proof {
                    lemma_levels_only_trans(s0, s1, *s);
                    assert forall|j: int|
                        0 <= j < vty@.len() && vty@[j] implies #[trigger] lift_ok_ty(
                        s0.ty_at(j),
                        s.ty_at(j),
                        vty@,
                        vtp@,
                    ) by {
                        if m1[j] {
                            assert(lift_ok_ty(s0.ty_at(j), s1.ty_at(j), m1, m1p));
                            assert(s.ty_at(j) == s1.ty_at(j));
                            lemma_lift_ok_ty_persists(s0.ty_at(j), s.ty_at(j), m1, m1p, vty@, vtp@);
                        } else {
                            assert(lift_ok_ty(s1.ty_at(j), s.ty_at(j), vty@, vtp@));
                            assert(s1.ty_at(j) == s0.ty_at(j));
                        }
                    }
                    assert forall|j: int|
                        0 <= j < vtp@.len() && vtp@[j] implies #[trigger] lift_ok_tp(
                        s0.tp_at(j),
                        s.tp_at(j),
                        vty@,
                        vtp@,
                    ) by {
                        if m1p[j] {
                            assert(lift_ok_tp(s0.tp_at(j), s1.tp_at(j), m1, m1p));
                            assert(s.tp_at(j) == s1.tp_at(j));
                            lemma_lift_ok_tp_persists(s0.tp_at(j), s.tp_at(j), m1, m1p, vty@, vtp@);
                        } else {
                            assert(lift_ok_tp(s1.tp_at(j), s.tp_at(j), vty@, vtp@));
                            assert(s1.tp_at(j) == s0.tp_at(j));
                        }
                    }
                    assert(lift_marks_ok(s0, *s, vty@, vtp@));
                    assert forall|j: int|
                        0 <= j < s0.n_ty() implies (#[trigger] s.ty_at(j)) == s0.ty_at(j)
                        || s.ty_at(j) == kind_with_lev(
                        s0.ty_at(j),
                        lev_succ(kind_level(s0.ty_at(j))),
                    ) by {
                        if vty@[j] {
                            assert(lift_ok_ty(s0.ty_at(j), s.ty_at(j), vty@, vtp@));
                        } else {
                            assert(s1.ty_at(j) == s0.ty_at(j));
                            assert(s.ty_at(j) == s1.ty_at(j));
                        }
                    }
                    assert forall|j: int|
                        0 <= j < s0.n_tp() implies (#[trigger] s.tp_at(j)) == s0.tp_at(j)
                        || s.tp_at(j) == kind_with_lev(
                        s0.tp_at(j),
                        lev_succ(kind_level(s0.tp_at(j))),
                    ) by {
                        if vtp@[j] {
                            assert(lift_ok_tp(s0.tp_at(j), s.tp_at(j), vty@, vtp@));
                        } else {
                            assert(s1.tp_at(j) == s0.tp_at(j));
                            assert(s.tp_at(j) == s1.tp_at(j));
                        }
                    }
                    assert(ty_vars_marked(*sub, vty@, vtp@)) by {
                        lemma_ty_vars_marked_mono(*sub, m1, m1p, vty@, vtp@);
                    }
                    assert forall|fuel: nat|
                        (#[trigger] spec_ty_level(*s, self->Sandwiched_sub, fuel)) == opt_succ(
                            spec_ty_level(s0, self->Sandwiched_sub, fuel),
                        ) && spec_ty_level(*s, self->Sandwiched_sup, fuel) == opt_succ(
                            spec_ty_level(s0, self->Sandwiched_sup, fuel),
                        ) by {
                        lemma_lift_read_ty_term(s0, *s, vty@, vtp@, *sub, fuel);
                        lemma_lift_read_ty_term(s0, *s, vty@, vtp@, *sup, fuel);
                    }
                    lemma_lifted_vars_read_ty(s0, *s, vty@, vtp@, *sub);
                    lemma_lifted_vars_read_ty(s0, *s, vty@, vtp@, *sup);
                }
            },
            Constraint::TypeOf(t) => {
                let mut vty = fresh_visited(s.ty_cells.len());
                let mut vtp = fresh_visited(s.tp_cells.len());
                lift_walk_ty_term(s, t, &mut vty, &mut vtp);
                proof {
                    assert(lift_marks_ok(s0, *s, vty@, vtp@)) by {
                        assert forall|j: int|
                            0 <= j < vty@.len() && vty@[j] implies #[trigger] lift_ok_ty(
                            s0.ty_at(j),
                            s.ty_at(j),
                            vty@,
                            vtp@,
                        ) by {}
                        assert forall|j: int|
                            0 <= j < vtp@.len() && vtp@[j] implies #[trigger] lift_ok_tp(
                            s0.tp_at(j),
                            s.tp_at(j),
                            vty@,
                            vtp@,
                        ) by {}
                    }
                    assert forall|j: int|
                        0 <= j < s0.n_ty() implies (#[trigger] s.ty_at(j)) == s0.ty_at(j)
                        || s.ty_at(j) == kind_with_lev(
                        s0.ty_at(j),
                        lev_succ(kind_level(s0.ty_at(j))),
                    ) by {
                        if vty@[j] {
                            assert(lift_ok_ty(s0.ty_at(j), s.ty_at(j), vty@, vtp@));
                        }
                    }
                    assert forall|j: int|
                        0 <= j < s0.n_tp() implies (#[trigger] s.tp_at(j)) == s0.tp_at(j)
                        || s.tp_at(j) == kind_with_lev(
                        s0.tp_at(j),
                        lev_succ(kind_level(s0.tp_at(j))),
                    ) by {
                        if vtp@[j] {
                            assert(lift_ok_tp(s0.tp_at(j), s.tp_at(j), vty@, vtp@));
                        }
                    }
                    assert forall|fuel: nat|
                        (#[trigger] spec_ty_level(*s, self->TypeOf_0, fuel)) == opt_succ(
                            spec_ty_level(s0, self->TypeOf_0, fuel),
                        ) by {
                        lemma_lift_read_ty_term(s0, *s, vty@, vtp@, *t, fuel);
                    }
                    lemma_lifted_vars_read_ty(s0, *s, vty@, vtp@, *t);
                }
            },
            Constraint::Uninited => {},
        }
        proof {
            if s0.wf() {
                lemma_levels_only_wf(s0, *s);
            }
        }
    }
}

impl Type {
    /// The minimum level among the variables this term embeds, `None`
    /// when it is fully ground.
    pub fn level(&self, s: &FreeStore) -> (r: Option<usize>)
        requires
            s.n_ty() + s.n_tp() < usize::MAX,
        ensures
            r == spec_ty_level(*s, *self, level_fuel(*s)),
    {
        let fuel = s.ty_cells.len() + s.tp_cells.len() + 1;
        ty_level(s, self, fuel)
    }

    /// Sets the level of every variable this term embeds to `lev`,
    /// skipping cells the traversal has already visited so that
    /// cyclic bounds terminate; afterwards the level the term reads
    /// as, through any chain of links, is `lev`.
    pub fn set_level(&self, s: &mut FreeStore, lev: usize)
        ensures
            level_frame(*old(s), *final(s), lev),
            forall|fuel: nat|
                (#[trigger] spec_ty_level(*final(s), *self, fuel)) is Some ==> spec_ty_level(
                    *final(s),
                    *self,
                    fuel,
                ) == Some(lev),
            term_vars_read_lev(*final(s), *self, lev),
            old(s).wf() ==> final(s).wf(),
    {
        let mut vty = fresh_visited(s.ty_cells.len());
        let mut vtp = fresh_visited(s.tp_cells.len());
        let ghost s0 = *s;
        set_level_walk_ty_term(s, self, lev, &mut vty, &mut vtp);
        proof {
            if s0.wf() {
                lemma_level_frame_wf(s0, *s, lev);
            }
            assert(marks_ok(*s, vty@, vtp@, lev)) by {
                assert forall|j: int|
                    0 <= j < vty@.len() && vty@[j] implies #[trigger] cell_ok_ty(
                    *s,
                    j,
                    vty@,
                    vtp@,
                    lev,
                ) by {}
                assert forall|j: int|
                    0 <= j < vtp@.len() && vtp@[j] implies #[trigger] cell_ok_tp(
                    *s,
                    j,
                    vty@,
                    vtp@,
                    lev,
                ) by {}
            }
            assert forall|fuel: nat|
                (#[trigger] spec_ty_level(*s, *self, fuel)) is Some implies spec_ty_level(
                *s,
                *self,
                fuel,
            ) == Some(lev) by {
                lemma_marked_read_ty_term(*s, vty@, vtp@, lev, *self, fuel);
            }
            lemma_marked_vars_read_ty(*s, vty@, vtp@, lev, *self);
        }
    }

    /// Raises the level of every variable this term embeds by one,
    /// each exactly once, saturating at [`GENERIC_LEVEL`]: afterwards
    /// the level the term reads as is the saturating successor of what
    /// it read before.
    pub fn lift(&self, s: &mut FreeStore)
        ensures
            levels_only_frame(*old(s), *final(s)),
            forall|j: int|
                0 <= j < old(s).n_ty() ==> (#[trigger] final(s).ty_at(j)) == old(s).ty_at(j)
                    || final(s).ty_at(j) == kind_with_lev(
                    old(s).ty_at(j),
                    lev_succ(kind_level(old(s).ty_at(j))),
                ),
            forall|j: int|
                0 <= j < old(s).n_tp() ==> (#[trigger] final(s).tp_at(j)) == old(s).tp_at(j)
                    || final(s).tp_at(j) == kind_with_lev(
                    old(s).tp_at(j),
                    lev_succ(kind_level(old(s).tp_at(j))),
                ),
            forall|fuel: nat|
                (#[trigger] spec_ty_level(*final(s), *self, fuel)) == opt_succ(
                    spec_ty_level(*old(s), *self, fuel),
                ),
            term_vars_lifted(*old(s), *final(s), *self),
            old(s).wf() ==> final(s).wf(),
    {
        let mut vty = fresh_visited(s.ty_cells.len());
        let mut vtp = fresh_visited(s.tp_cells.len());
        let ghost s0 = *s;
        lift_walk_ty_term(s, self, &mut vty, &mut vtp);
        proof {
            if s0.wf() {
                lemma_levels_only_wf(s0, *s);
            }
            assert(lift_marks_ok(s0, *s, vty@, vtp@)) by {
                assert forall|j: int|
                    0 <= j < vty@.len() && vty@[j] implies #[trigger] lift_ok_ty(
                    s0.ty_at(j),
                    s.ty_at(j),
                    vty@,
                    vtp@,
                ) by {}
                assert forall|j: int|
                    0 <= j < vtp@.len() && vtp@[j] implies #[trigger] lift_ok_tp(
                    s0.tp_at(j),
                    s.tp_at(j),
                    vty@,
                    vtp@,
                ) by {}
            }
            assert forall|j: int|
                0 <= j < s0.n_ty() implies (#[trigger] s.ty_at(j)) == s0.ty_at(j) || s.ty_at(j)
                == kind_with_lev(s0.ty_at(j), lev_succ(kind_level(s0.ty_at(j)))) by {
                if vty@[j] {
                    assert(lift_ok_ty(s0.ty_at(j), s.ty_at(j), vty@, vtp@));
                }
            }
            assert forall|j: int|
                0 <= j < s0.n_tp() implies (#[trigger] s.tp_at(j)) == s0.tp_at(j) || s.tp_at(j)
                == kind_with_lev(s0.tp_at(j), lev_succ(kind_level(s0.tp_at(j)))) by {
                if vtp@[j] {
                    assert(lift_ok_tp(s0.tp_at(j), s.tp_at(j), vty@, vtp@));
                }
            }
            assert forall|fuel: nat|
                (#[trigger] spec_ty_level(*s, *self, fuel)) == opt_succ(
                    spec_ty_level(s0, *self, fuel),
                ) by {
                lemma_lift_read_ty_term(s0, *s, vty@, vtp@, *self, fuel);
            }
            lemma_lifted_vars_read_ty(s0, *s, vty@, vtp@, *self);
        }
    }
}

/// The level protocol shared by both kinds of free-variable handles:
/// reading a level, setting it across the constraint graph, widening,
/// lifting and generalization.
pub trait HasLevel {
    /// Whether the handle names a cell of the store.
    spec fn level_wf(&self, s: FreeStore) -> bool;

    /// The level the cell reads as, `None` when it is resolved to a
    /// ground term.
    spec fn spec_level(&self, s: FreeStore) -> Option<usize>;

    /// Reads the level.
    fn level(&self, s: &FreeStore) -> (r: Option<usize>)
        requires
            self.level_wf(*s),
            s.n_ty() + s.n_tp() < usize::MAX,
        ensures
            r == self.spec_level(*s),
    ;

    /// Sets the level of this variable and of every variable its
    /// constraint or term reaches to `lev`; afterwards the level it
    /// reads as is `lev`.
    fn set_level(&self, s: &mut FreeStore, lev: usize)
        requires
            self.level_wf(*old(s)),
        ensures
            level_frame(*old(s), *final(s), lev),
            self.spec_level(*final(s)) is Some ==> self.spec_level(*final(s)) == Some(lev),
            old(s).wf() ==> final(s).wf(),
            self.level_wf(*final(s)),
    ;

    /// Raises the level to `level` when the current one is below it:
    /// the level becomes the larger of the two, never decreases, and
    /// repeating the call changes nothing further.
    fn lower(&self, s: &mut FreeStore, level: usize)
        requires
            self.level_wf(*old(s)),
            old(s).n_ty() + old(s).n_tp() < usize::MAX,
        ensures
            levels_only_frame(*old(s), *final(s)),
            self.spec_level(*final(s)) == opt_max(self.spec_level(*old(s)), level),
            old(s).wf() ==> final(s).wf(),
            self.level_wf(*final(s)),
    ;

    /// Increments the level by one, saturating at [`GENERIC_LEVEL`];
    /// a ground variable is left alone.
    fn lift(&self, s: &mut FreeStore)
        requires
            self.level_wf(*old(s)),
            old(s).n_ty() + old(s).n_tp() < usize::MAX,
        ensures
            levels_only_frame(*old(s), *final(s)),
            self.spec_level(*final(s)) == opt_succ(self.spec_level(*old(s))),
            self.spec_level(*old(s)) is None ==> *final(s) == *old(s),
            old(s).wf() ==> final(s).wf(),
            self.level_wf(*final(s)),
    ;

    /// Marks the variable as universally quantified; afterwards the
    /// level it reads as is [`GENERIC_LEVEL`].
    fn generalize(&self, s: &mut FreeStore)
        requires
            self.level_wf(*old(s)),
        ensures
            level_frame(*old(s), *final(s), GENERIC_LEVEL),
            self.spec_level(*final(s)) is Some ==> self.spec_level(*final(s)) == Some(
                GENERIC_LEVEL,
            ),
            old(s).wf() ==> final(s).wf(),
            self.level_wf(*final(s)),
    ;

    /// Whether the variable is generalized.
    fn is_generalized(&self, s: &FreeStore) -> (r: bool)
        requires
            self.level_wf(*s),
            s.n_ty() + s.n_tp() < usize::MAX,
        ensures
            r == (self.spec_level(*s) == Some(GENERIC_LEVEL)),
    ;
}

impl HasLevel for FreeTyVar {
    open spec fn level_wf(&self, s: FreeStore) -> bool {
        self.valid_in(s)
    }

    open spec fn spec_level(&self, s: FreeStore) -> Option<usize> {
        spec_ty_cell_level(s, self.pos(), level_fuel(s))
    }

    fn level(&self, s: &FreeStore) -> (r: Option<usize>) {
        FreeTyVar::level(*self, s)
    }

    fn set_level(&self, s: &mut FreeStore, lev: usize) {
        FreeTyVar::set_level(*self, s, lev)
    }

    fn lower(&self, s: &mut FreeStore, level: usize) {
        let ghost s0 = *s;
        FreeTyVar::lower(*self, s, level);
        proof {
            if opt_below(spec_ty_cell_level(s0, self.pos(), level_fuel(s0)), level) {
                lemma_level_frame_levels_only(s0, *s, level);
            }
        }
    }

    fn lift(&self, s: &mut FreeStore) {
        FreeTyVar::lift(*self, s)
    }

    fn generalize(&self, s: &mut FreeStore) {
        FreeTyVar::generalize(*self, s)
    }

    fn is_generalized(&self, s: &FreeStore) -> (r: bool) {
        FreeTyVar::is_generalized(*self, s)
    }
}

impl HasLevel for FreeTyParamVar {
    open spec fn level_wf(&self, s: FreeStore) -> bool {
        self.valid_in(s)
    }

    open spec fn spec_level(&self, s: FreeStore) -> Option<usize> {
        spec_tp_cell_level(s, self.pos(), level_fuel(s))
    }

    fn level(&self, s: &FreeStore) -> (r: Option<usize>) {
        FreeTyParamVar::level(*self, s)
    }

    fn set_level(&self, s: &mut FreeStore, lev: usize) {
        FreeTyParamVar::set_level(*self, s, lev)
    }

    fn lower(&self, s: &mut FreeStore, level: usize) {
        let ghost s0 = *s;
        FreeTyParamVar::lower(*self, s, level);
        proof {
            if opt_below(spec_tp_cell_level(s0, self.pos(), level_fuel(s0)), level) {
                lemma_level_frame_levels_only(s0, *s, level);
            }
        }
    }

    fn lift(&self, s: &mut FreeStore) {
        FreeTyParamVar::lift(*self, s)
    }

    fn generalize(&self, s: &mut FreeStore) {
        FreeTyParamVar::generalize(*self, s)
    }

    fn is_generalized(&self, s: &FreeStore) -> (r: bool) {
        FreeTyParamVar::is_generalized(*self, s)
    }
}

} // verus!
