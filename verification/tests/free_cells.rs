//! Free-variable cells: fresh ids, linking, undo, levels and
//! constraint updates.

use erg_infer::GENERIC_LEVEL;
use erg_infer::constraint::Constraint;
use erg_infer::free::FreeKind;
use erg_infer::free::FreeStore;
use erg_infer::level::HasLevel;
use erg_infer::ty::Type;

fn open_sandwich() -> Constraint {
    Constraint::new_sandwiched(Type::Never, Type::Obj)
}

fn cell_id(s: &FreeStore, v: erg_infer::free::FreeTyVar) -> Option<usize> {
    match v.clone_inner(s) {
        FreeKind::Unbound { id, .. } => Some(id),
        _ => None,
    }
}

#[test]
fn fresh_ids_unique() {
    let mut s = FreeStore::new();
    let a = s.new_unbound(0, open_sandwich());
    let b = s.new_unbound(0, open_sandwich());
    let c = s.new_unbound(3, Constraint::Uninited);
    let ia = cell_id(&s, a).unwrap();
    let ib = cell_id(&s, b).unwrap();
    let ic = cell_id(&s, c).unwrap();
    assert_ne!(ia, ib);
    assert_ne!(ia, ic);
    assert_ne!(ib, ic);
}

#[test]
fn ids_survive_undoable_links() {
    let mut s = FreeStore::new();
    let a = s.new_unbound(0, open_sandwich());
    let ia = cell_id(&s, a).unwrap();
    a.undoable_link(&mut s, Type::Mono("Int".to_string()));
    let b = s.new_unbound(0, open_sandwich());
    let ib = cell_id(&s, b).unwrap();
    assert_ne!(ia, ib);
    a.undo(&mut s);
    assert_eq!(cell_id(&s, a), Some(ia));
}

#[test]
fn link_to_equal_term_is_noop() {
    let mut s = FreeStore::new();
    let v = s.new_unbound(0, open_sandwich());
    v.link(&mut s, Type::Mono("Int".to_string()));
    assert!(v.is_linked(&s));
    // Linking again to an equal term keeps the state untouched.
    v.link(&mut s, Type::Mono("Int".to_string()));
    assert!(v.is_linked(&s));
    assert!(!v.is_undoable_linked(&s));
    assert!(v.crack(&s).deep_eq(&Type::Mono("Int".to_string())));
}

#[test]
fn undoable_link_then_undo_restores() {
    let mut s = FreeStore::new();
    let v = s.new_unbound(0, open_sandwich());
    let before = v.clone_inner(&s);
    v.undoable_link(&mut s, Type::Mono("Int".to_string()));
    assert!(v.is_linked(&s));
    assert!(v.is_undoable_linked(&s));
    v.undo(&mut s);
    assert!(v.is_unbound(&s));
    assert!(v.clone_inner(&s).state_eq(&before));
}

#[test]
fn stacked_undoable_links_restore_in_order() {
    let mut s = FreeStore::new();
    let v = s.new_unbound(0, open_sandwich());
    let start = v.clone_inner(&s);
    v.undoable_link(&mut s, Type::Mono("Int".to_string()));
    let mid = v.clone_inner(&s);
    v.undoable_link(&mut s, Type::Mono("Nat".to_string()));
    v.undo(&mut s);
    assert!(v.clone_inner(&s).state_eq(&mid));
    v.undo(&mut s);
    assert!(v.clone_inner(&s).state_eq(&start));
}

#[test]
fn set_level_then_generalize() {
    let mut s = FreeStore::new();
    let v = s.new_unbound(0, open_sandwich());
    v.set_level(&mut s, 1);
    assert_eq!(v.level(&s), Some(1));
    v.generalize(&mut s);
    assert_eq!(v.level(&s), Some(GENERIC_LEVEL));
    assert!(v.is_generalized(&s));
}

#[test]
fn lower_widens_only() {
    let mut s = FreeStore::new();
    let v = s.new_unbound(2, open_sandwich());
    v.lower(&mut s, 5);
    assert_eq!(v.level(&s), Some(5));
    v.lower(&mut s, 3);
    assert_eq!(v.level(&s), Some(5));
}

#[test]
fn lift_increments_level() {
    let mut s = FreeStore::new();
    let v = s.new_unbound(4, open_sandwich());
    v.lift(&mut s);
    assert_eq!(v.level(&s), Some(5));
    let g = s.new_unbound(GENERIC_LEVEL, open_sandwich());
    g.lift(&mut s);
    assert_eq!(g.level(&s), Some(GENERIC_LEVEL));
}

#[test]
fn generalized_constraint_is_immutable_without_flag() {
    let mut s = FreeStore::new();
    let v = s.new_unbound(GENERIC_LEVEL, open_sandwich());
    let tighter = Constraint::new_subtype_of(Type::Mono("Int".to_string()));
    v.update_constraint(&mut s, tighter.clone(), false);
    assert!(v.crack_constraint(&s).deep_eq(&open_sandwich()));
    v.update_constraint(&mut s, tighter.clone(), true);
    assert!(v.crack_constraint(&s).deep_eq(&tighter));
}

#[test]
fn update_constraint_overwrites_live_variable() {
    let mut s = FreeStore::new();
    let v = s.new_unbound(1, Constraint::Uninited);
    assert!(v.constraint_is_uninited(&s));
    let c = Constraint::new_supertype_of(Type::Mono("Int".to_string()));
    v.update_constraint(&mut s, c.clone(), false);
    assert!(v.crack_constraint(&s).deep_eq(&c));
    assert!(v.constraint_is_sandwiched(&s));
}

#[test]
fn unbound_name_formats_anonymous_ids() {
    let mut s = FreeStore::new();
    let v = s.new_unbound(0, open_sandwich());
    // Ids start at 1.
    assert_eq!(v.unbound_name(&s).unwrap(), "%1");
    let named = s.new_named_unbound("T".to_string(), 0, open_sandwich());
    assert_eq!(named.unbound_name(&s).unwrap(), "T");
}

#[test]
fn detach_copies_without_sharing() {
    let mut s = FreeStore::new();
    let v = s.new_named_unbound("T".to_string(), 2, open_sandwich());
    let w = v.detach(&mut s);
    assert_ne!(v.idx, w.idx);
    let (name, lev, c) = w.unwrap_unbound(&s);
    assert_eq!(name.unwrap(), "T");
    assert_eq!(lev, 2);
    assert!(c.deep_eq(&open_sandwich()));
    // Linking the copy leaves the original untouched.
    w.link(&mut s, Type::Never);
    assert!(v.is_unbound(&s));
}

#[test]
fn unwrap_linked_returns_the_term() {
    let mut s = FreeStore::new();
    let v = s.new_linked(Type::Mono("Str".to_string()));
    assert!(v.is_linked(&s));
    let t = v.unwrap_linked(&s);
    assert!(t.deep_eq(&Type::Mono("Str".to_string())));
}

#[test]
fn constraint_reads_through_links() {
    let mut s = FreeStore::new();
    let inner = s.new_named_unbound(
        "T".to_string(),
        0,
        Constraint::new_subtype_of(Type::Mono("Int".to_string())),
    );
    let outer = s.new_linked(Type::FreeVar(inner));
    let c = outer.constraint(&s).unwrap();
    assert!(c.deep_eq(&Constraint::new_subtype_of(Type::Mono("Int".to_string()))));
    assert_eq!(outer.unbound_name(&s).unwrap(), "T");
    let sup = outer.get_super(&s).unwrap();
    assert!(sup.deep_eq(&Type::Mono("Int".to_string())));
}

#[test]
fn replace_and_force_replace() {
    let mut s = FreeStore::new();
    let v = s.new_unbound(0, open_sandwich());
    v.replace(&mut s, FreeKind::Linked(Type::Obj));
    assert!(v.is_linked(&s));
    v.force_replace(
        &mut s,
        FreeKind::NamedUnbound {
            name: "U".to_string(),
            lev: 7,
            constraint: Constraint::Uninited,
        },
    );
    assert!(v.is_unbound(&s));
    assert_eq!(v.level(&s), Some(7));
}

#[test]
fn type_parameter_cells_mirror_the_protocol() {
    let mut s = FreeStore::new();
    let v = s.new_unbound_tp(0, open_sandwich());
    assert!(v.is_unbound(&s));
    let before = v.clone_inner(&s);
    v.undoable_link(&mut s, erg_infer::ty::TyParam::Value(3));
    assert!(v.is_linked(&s));
    assert!(v.crack(&s).deep_eq(&erg_infer::ty::TyParam::Value(3)));
    v.undo(&mut s);
    assert!(v.is_unbound(&s));
    assert!(v.clone_inner(&s).state_eq(&before));
    v.link(&mut s, erg_infer::ty::TyParam::Value(7));
    let t = v.unwrap_linked(&s);
    assert!(t.deep_eq(&erg_infer::ty::TyParam::Value(7)));
    let named = s.new_named_unbound_tp("N".to_string(), 2, Constraint::Uninited);
    let (name, lev, c) = named.unwrap_unbound(&s);
    assert_eq!(name.unwrap(), "N");
    assert_eq!(lev, 2);
    assert!(c.is_uninited());
    named.set_level(&mut s, 4);
    assert_eq!(named.level(&s), Some(4));
    named.generalize(&mut s);
    assert!(named.is_generalized(&s));
}

#[test]
fn the_level_protocol_is_shared() {
    let mut s = FreeStore::new();
    let v = s.new_unbound(0, open_sandwich());
    let p = s.new_unbound_tp(0, open_sandwich());
    HasLevel::set_level(&v, &mut s, 2);
    HasLevel::set_level(&p, &mut s, 3);
    assert_eq!(HasLevel::level(&v, &s), Some(2));
    assert_eq!(HasLevel::level(&p, &s), Some(3));
    HasLevel::generalize(&v, &mut s);
    assert!(HasLevel::is_generalized(&v, &s));
    assert!(!HasLevel::is_generalized(&p, &s));
}

#[test]
fn map_rewrites_a_linked_term_in_place() {
    let mut s = FreeStore::new();
    let v = s.new_linked_tp(erg_infer::ty::TyParam::Value(20));
    v.map(&mut s, |t| match t {
        erg_infer::ty::TyParam::Value(x) => erg_infer::ty::TyParam::Value(x + 1),
        other => other,
    });
    assert!(v.crack(&s).deep_eq(&erg_infer::ty::TyParam::Value(21)));
}

#[test]
fn set_level_propagates_through_bounds() {
    let mut s = FreeStore::new();
    let w = s.new_named_unbound("W".to_string(), 9, open_sandwich());
    let v = s.new_named_unbound(
        "V".to_string(),
        9,
        Constraint::new_subtype_of(Type::FreeVar(w)),
    );
    v.set_level(&mut s, 1);
    assert_eq!(v.level(&s), Some(1));
    assert_eq!(w.level(&s), Some(1));
}

#[test]
fn set_level_reaches_through_links() {
    let mut s = FreeStore::new();
    let v = s.new_named_unbound("V".to_string(), 3, open_sandwich());
    let linked = s.new_linked(Type::FreeVar(v));
    linked.set_level(&mut s, 8);
    assert_eq!(v.level(&s), Some(8));
    assert_eq!(linked.level(&s), Some(8));
    let u = s.new_unbound(2, open_sandwich());
    let spec_linked = s.new_unbound(0, open_sandwich());
    spec_linked.undoable_link(&mut s, Type::FreeVar(u));
    spec_linked.set_level(&mut s, 6);
    assert_eq!(u.level(&s), Some(6));
    assert_eq!(spec_linked.level(&s), Some(6));
}

#[test]
fn lift_is_exactly_once_per_cell() {
    let mut s = FreeStore::new();
    let t_var = s.new_named_unbound("T".to_string(), 4, open_sandwich());
    let pair = Type::Poly {
        name: "Pair".to_string(),
        params: vec![
            erg_infer::ty::TyParam::Ty(Box::new(Type::FreeVar(t_var))),
            erg_infer::ty::TyParam::Ty(Box::new(Type::FreeVar(t_var))),
        ],
    };
    // The variable occurs twice but is lifted once.
    pair.lift(&mut s);
    assert_eq!(t_var.level(&s), Some(5));
}

#[test]
fn type_parameter_cells_read_constraints() {
    let mut s = FreeStore::new();
    let v = s.new_named_unbound_tp(
        "N".to_string(),
        1,
        Constraint::new_subtype_of(Type::Mono("Nat".to_string())),
    );
    assert_eq!(v.unbound_name(&s).unwrap(), "N");
    assert!(v.constraint_is_sandwiched(&s));
    assert!(!v.constraint_is_uninited(&s));
    let sup = v.get_super(&s).unwrap();
    assert!(sup.deep_eq(&Type::Mono("Nat".to_string())));
    let (sub, _) = v.get_subsup(&s).unwrap();
    assert!(sub.deep_eq(&Type::Never));
    let anon = s.new_unbound_tp(0, Constraint::Uninited);
    assert_eq!(anon.unbound_name(&s).unwrap(), "%1");
    // Reads follow links between type-parameter cells.
    let outer = s.new_linked_tp(erg_infer::ty::TyParam::FreeVar(v));
    assert_eq!(outer.unbound_name(&s).unwrap(), "N");
    assert!(outer.constraint(&s).unwrap().deep_eq(
        &Constraint::new_subtype_of(Type::Mono("Nat".to_string()))
    ));
}

#[test]
fn type_parameter_constraint_updates_and_detach() {
    let mut s = FreeStore::new();
    let v = s.new_named_unbound_tp("N".to_string(), GENERIC_LEVEL, Constraint::Uninited);
    let c = Constraint::new_type_of(Type::Mono("Nat".to_string()));
    v.update_constraint(&mut s, c.clone(), false);
    assert!(v.constraint_is_uninited(&s));
    v.update_constraint(&mut s, c.clone(), true);
    assert!(v.constraint_is_typeof(&s));
    assert!(v.get_type(&s).unwrap().deep_eq(&Type::Mono("Nat".to_string())));
    let w = v.detach(&mut s);
    let (name, lev, wc) = w.unwrap_unbound(&s);
    assert_eq!(name.unwrap(), "N");
    assert_eq!(lev, GENERIC_LEVEL);
    assert!(wc.deep_eq(&c));
    w.replace(&mut s, FreeKind::Linked(erg_infer::ty::TyParam::Value(1)));
    assert!(w.is_linked(&s));
    w.force_replace(
        &mut s,
        FreeKind::Unbound { id: 0, lev: 0, constraint: Constraint::Uninited },
    );
    assert!(w.is_unbound(&s));
}

#[test]
fn level_writes_through_links_follow_the_protocol() {
    let mut s = FreeStore::new();
    let v = s.new_named_unbound("V".to_string(), 3, open_sandwich());
    let linked = s.new_linked(Type::FreeVar(v));
    linked.lower(&mut s, 7);
    assert_eq!(v.level(&s), Some(7));
    linked.lower(&mut s, 5);
    assert_eq!(v.level(&s), Some(7));
    linked.lift(&mut s);
    assert_eq!(v.level(&s), Some(8));
    linked.generalize(&mut s);
    assert_eq!(v.level(&s), Some(GENERIC_LEVEL));
    assert!(linked.is_generalized(&s));
}

#[test]
fn resolved_states_compare_by_their_term() {
    let int = || Type::Mono("Int".to_string());
    let linked: FreeKind<Type> = FreeKind::Linked(int());
    let undoable: FreeKind<Type> = FreeKind::UndoableLinked {
        t: int(),
        previous: Box::new(FreeKind::Unbound { id: 1, lev: 0, constraint: open_sandwich() }),
    };
    // A definitive and a speculative link to the same term are equal
    // states; the saved history plays no part.
    assert!(linked.deep_eq(&undoable));
    assert!(undoable.deep_eq(&linked));
    let other_history: FreeKind<Type> = FreeKind::UndoableLinked {
        t: int(),
        previous: Box::new(FreeKind::Unbound { id: 2, lev: 5, constraint: Constraint::Uninited }),
    };
    assert!(undoable.deep_eq(&other_history));
    // Full-state equality distinguishes the histories and the variants.
    assert!(!undoable.state_eq(&other_history));
    assert!(!linked.state_eq(&undoable));
    assert!(linked.state_eq(&FreeKind::Linked(int())));
    assert!(!linked.deep_eq(&FreeKind::Linked(Type::Obj)));
}
