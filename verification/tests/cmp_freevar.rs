//! Comparing free type variables whose bounds mention themselves.

use erg_infer::constraint::Constraint;
use erg_infer::free::FreeStore;
use erg_infer::ty::TyParam;
use erg_infer::ty::Type;

#[test]
fn cmp_freevar() {
    let mut s = FreeStore::new();
    let fv = s.new_named_unbound("T".to_string(), 1, Constraint::Uninited);
    let t = Type::FreeVar(fv);
    let constraint = Constraint::new_subtype_of(Type::Poly {
        name: "Add".to_string(),
        params: vec![TyParam::Ty(Box::new(t.clone()))],
    });
    fv.update_constraint(&mut s, constraint.clone(), true);
    let uv = s.new_named_unbound("T".to_string(), 1, constraint);
    let u = Type::FreeVar(uv);
    println!("{} {}", t.limited_fmt(&s, 10, false), u.limited_fmt(&s, 10, false));
    assert!(t.eq_limited(&t, &s, 10));
    assert!(t.eq_limited(&u, &s, 10));
}
