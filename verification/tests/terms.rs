//! Terms, constraints, cycle-safe equality, hashing and printing.

use erg_infer::constraint::Constraint;
use erg_infer::free::FreeStore;
use erg_infer::ty::TyParam;
use erg_infer::ty::Type;

fn add_of(t: Type) -> Type {
    Type::Poly { name: "Add".to_string(), params: vec![TyParam::Ty(Box::new(t))] }
}

#[test]
fn type_of_type_canonicalises() {
    let c = Constraint::new_type_of(Type::Type);
    assert!(c.deep_eq(&Constraint::new_sandwiched(Type::Never, Type::Obj)));
    let t = c.get_type().unwrap();
    assert!(t.deep_eq(&Type::Type));
    let plain = Constraint::new_type_of(Type::Mono("Int".to_string()));
    assert!(plain.get_type().unwrap().deep_eq(&Type::Mono("Int".to_string())));
    assert!(plain.get_sub().is_none());
}

#[test]
fn sandwich_accessors() {
    let c = Constraint::new_sandwiched(
        Type::Mono("Int".to_string()),
        Type::Mono("Num".to_string()),
    );
    assert!(c.get_sub().unwrap().deep_eq(&Type::Mono("Int".to_string())));
    assert!(c.get_super().unwrap().deep_eq(&Type::Mono("Num".to_string())));
    let (sub, sup) = c.get_sub_sup().unwrap();
    assert!(sub.deep_eq(&Type::Mono("Int".to_string())));
    assert!(sup.deep_eq(&Type::Mono("Num".to_string())));
    assert!(!c.is_uninited());
    assert!(Constraint::Uninited.is_uninited());
    assert!(Constraint::Uninited.get_sub_sup().is_none());
}

#[test]
fn get_super_mut_refines_the_bound() {
    let mut c = Constraint::new_subtype_of(Type::Obj);
    if let Some(sup) = c.get_super_mut() {
        *sup = Type::Mono("Int".to_string());
    }
    assert!(c.get_super().unwrap().deep_eq(&Type::Mono("Int".to_string())));
    let mut u = Constraint::Uninited;
    assert!(u.get_super_mut().is_none());
}

#[test]
fn deep_eq_on_plain_terms() {
    let a = add_of(Type::Mono("Int".to_string()));
    let b = add_of(Type::Mono("Int".to_string()));
    let c = add_of(Type::Mono("Nat".to_string()));
    assert!(a.deep_eq(&b));
    assert!(!a.deep_eq(&c));
    assert!(!a.deep_eq(&Type::Obj));
    assert!(TyParam::Value(3).deep_eq(&TyParam::Value(3)));
    assert!(!TyParam::Value(3).deep_eq(&TyParam::Value(4)));
}

#[test]
fn self_referential_variable_compares_hashes_and_prints() {
    let mut s = FreeStore::new();
    let v = s.new_named_unbound("T".to_string(), 0, Constraint::Uninited);
    let t = Type::FreeVar(v);
    let bound = Constraint::new_sandwiched(Type::Never, add_of(t.clone()));
    v.update_constraint(&mut s, bound, true);

    // Equality of a cell with itself holds without descending the cycle.
    assert!(t.eq_limited(&t, &s, 10));
    // Hashing terminates within the budget.
    let h1 = t.hash_limited(&s, 10);
    let h2 = t.hash_limited(&s, 10);
    assert_eq!(h1, h2);
    // Printing at limit 3 in debug mode spells out the bound.
    assert_eq!(t.limited_fmt(&s, 3, true), "?T(:> Never, <: Add(...))");
    // Past the limit the printer elides.
    assert_eq!(t.limited_fmt(&s, 0, true), "...");
}

#[test]
fn mutual_sandwich_references_terminate() {
    let mut s = FreeStore::new();
    let a = s.new_named_unbound("A".to_string(), 1, Constraint::Uninited);
    let b = s.new_named_unbound("A".to_string(), 1, Constraint::Uninited);
    a.update_constraint(
        &mut s,
        Constraint::new_subtype_of(add_of(Type::FreeVar(b))),
        true,
    );
    b.update_constraint(
        &mut s,
        Constraint::new_subtype_of(add_of(Type::FreeVar(a))),
        true,
    );
    // The walk ping-pongs between the two cells until the budget is
    // spent, then answers without overflowing the stack.
    let r = Type::FreeVar(a).eq_limited(&Type::FreeVar(b), &s, 10);
    assert!(!r);
    let _ = Type::FreeVar(a).hash_limited(&s, 10);
    let _ = Type::FreeVar(a).limited_fmt(&s, 10, true);
}

#[test]
fn equality_reads_through_links() {
    let mut s = FreeStore::new();
    let v = s.new_unbound(0, Constraint::new_sandwiched(Type::Never, Type::Obj));
    v.link(&mut s, Type::Mono("Int".to_string()));
    assert!(Type::FreeVar(v).eq_limited(&Type::Mono("Int".to_string()), &s, 10));
    assert!(Type::Mono("Int".to_string()).eq_limited(&Type::FreeVar(v), &s, 10));
    assert!(!Type::FreeVar(v).eq_limited(&Type::Mono("Nat".to_string()), &s, 10));
}

#[test]
fn constraint_printing() {
    let s = FreeStore::new();
    let open = Constraint::new_sandwiched(Type::Never, Type::Obj);
    assert_eq!(open.limited_fmt(&s, 10, false), ": Type");
    let sub = Constraint::new_subtype_of(Type::Mono("Int".to_string()));
    assert_eq!(sub.limited_fmt(&s, 10, false), "<: Int");
    let sup = Constraint::new_supertype_of(Type::Mono("Int".to_string()));
    assert_eq!(sup.limited_fmt(&s, 10, false), ":> Int");
    let both = Constraint::new_sandwiched(
        Type::Mono("Int".to_string()),
        Type::Mono("Num".to_string()),
    );
    assert_eq!(both.limited_fmt(&s, 10, false), ":> Int, <: Num");
    assert_eq!(Constraint::Uninited.limited_fmt(&s, 10, false), "<uninited>");
    let type_of = Constraint::new_type_of(Type::Mono("Int".to_string()));
    assert_eq!(type_of.limited_fmt(&s, 10, false), ": Int");
}

#[test]
fn named_constraint_printing() {
    let s = FreeStore::new();
    let open = Constraint::new_sandwiched(Type::Never, Type::Obj);
    assert_eq!(open.named_fmt(&s, "T", 10), "T: Type");
    let sub = Constraint::new_subtype_of(Type::Mono("Int".to_string()));
    assert_eq!(sub.named_fmt(&s, "T", 10), "T <: Int");
    let sup = Constraint::new_supertype_of(Type::Mono("Int".to_string()));
    assert_eq!(sup.named_fmt(&s, "T", 10), "T :> Int");
    let both = Constraint::new_sandwiched(
        Type::Mono("Int".to_string()),
        Type::Mono("Num".to_string()),
    );
    assert_eq!(both.named_fmt(&s, "T", 10), "T :> Int, T <: Num");
    assert_eq!(Constraint::Uninited.named_fmt(&s, "T", 10), "Never");
}

#[test]
fn term_printing() {
    let s = FreeStore::new();
    let t = Type::Poly {
        name: "Pair".to_string(),
        params: vec![
            TyParam::Ty(Box::new(Type::Mono("Int".to_string()))),
            TyParam::Value(-5),
        ],
    };
    assert_eq!(t.limited_fmt(&s, 10, false), "Pair(Int, -5)");
    assert_eq!(Type::Never.limited_fmt(&s, 10, false), "Never");
    assert_eq!(Type::Obj.limited_fmt(&s, 10, false), "Obj");
    assert_eq!(Type::Type.limited_fmt(&s, 10, false), "Type");
}

#[test]
fn generalized_variables_print_bare() {
    let mut s = FreeStore::new();
    let v = s.new_named_unbound(
        "T".to_string(),
        0,
        Constraint::new_sandwiched(Type::Never, Type::Obj),
    );
    v.generalize(&mut s);
    assert_eq!(Type::FreeVar(v).limited_fmt(&s, 10, false), "T");
    let a = s.new_unbound(0, Constraint::new_sandwiched(Type::Never, Type::Obj));
    assert_eq!(Type::FreeVar(a).limited_fmt(&s, 10, false), "?1");
}

#[test]
fn level_reads_through_terms() {
    let mut s = FreeStore::new();
    let v = s.new_named_unbound(
        "T".to_string(),
        4,
        Constraint::new_sandwiched(Type::Never, Type::Obj),
    );
    let linked = s.new_linked(add_of(Type::FreeVar(v)));
    assert_eq!(linked.level(&s), Some(4));
    let ground = s.new_linked(Type::Mono("Int".to_string()));
    assert_eq!(ground.level(&s), None);
}

#[test]
fn constraint_lift_raises_embedded_levels() {
    let mut s = FreeStore::new();
    let v = s.new_named_unbound(
        "T".to_string(),
        2,
        Constraint::new_sandwiched(Type::Never, Type::Obj),
    );
    let c = Constraint::new_subtype_of(add_of(Type::FreeVar(v)));
    c.lift(&mut s);
    assert_eq!(v.level(&s), Some(3));
}

#[test]
fn structural_equality_compares_constraints_only() {
    let mut s = FreeStore::new();
    let a = s.new_named_unbound(
        "A".to_string(),
        1,
        Constraint::new_subtype_of(Type::Mono("Int".to_string())),
    );
    let b = s.new_named_unbound(
        "B".to_string(),
        5,
        Constraint::new_subtype_of(Type::Mono("Int".to_string())),
    );
    // Same bounds, different names and levels: structurally equal.
    assert!(a.structural_eq(b, &s, 10));
    let c = s.new_named_unbound(
        "C".to_string(),
        1,
        Constraint::new_subtype_of(Type::Mono("Str".to_string())),
    );
    assert!(!a.structural_eq(c, &s, 10));
    let u1 = s.new_unbound(0, Constraint::Uninited);
    let u2 = s.new_unbound(0, Constraint::Uninited);
    assert!(u1.structural_eq(u2, &s, 10));
    assert!(!u1.structural_eq(a, &s, 10));
}

#[test]
fn term_level_operations() {
    let mut s = FreeStore::new();
    let v = s.new_named_unbound(
        "T".to_string(),
        1,
        Constraint::new_sandwiched(Type::Never, Type::Obj),
    );
    let t = add_of(Type::FreeVar(v));
    assert_eq!(t.level(&s), Some(1));
    t.set_level(&mut s, 6);
    assert_eq!(t.level(&s), Some(6));
    t.lift(&mut s);
    assert_eq!(t.level(&s), Some(7));
    assert_eq!(Type::Obj.level(&s), None);
}

#[test]
fn equal_unbound_terms_hash_equally() {
    // While no link is installed, equality and hashing agree.
    let mut s = FreeStore::new();
    let a = s.new_named_unbound(
        "T".to_string(),
        1,
        Constraint::new_subtype_of(Type::Mono("Num".to_string())),
    );
    let b = s.new_named_unbound(
        "T".to_string(),
        1,
        Constraint::new_subtype_of(Type::Mono("Num".to_string())),
    );
    let ta = add_of(Type::FreeVar(a));
    let tb = add_of(Type::FreeVar(b));
    assert!(ta.eq_limited(&tb, &s, 10));
    assert_eq!(ta.hash_limited(&s, 10), tb.hash_limited(&s, 10));
}
