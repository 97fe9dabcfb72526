//! Constraints on free type variables: sandwich bounds, `TypeOf`
//! carriers and the two-phase `Uninited` placeholder.

use vstd::prelude::*;

use crate::ty::Type;
use crate::ty::ty_eqv;

verus! {

/// A constraint attached to an unbound variable.
///
/// Canonical encodings: a subtype-only bound is `Sandwiched { Never, sup }`,
/// a supertype-only bound is `Sandwiched { sub, Obj }`, and "a term of type
/// `Type`" is the fully open `Sandwiched { Never, Obj }`.
pub enum Constraint {
    /// `sub :> ? <: sup`.
    Sandwiched { sub: Type, sup: Type },
    /// The variable is a value whose type is the carried term.
    TypeOf(Type),
    /// Placeholder of two-phase construction; must be overwritten before
    /// inference reads it.
    Uninited,
}

/// Deep equality of two constraints up to string contents, as
/// [`ty_eqv`].
pub open spec fn constraint_eqv(a: Constraint, b: Constraint) -> bool {
    match (a, b) {
        (
            Constraint::Sandwiched { sub: s1, sup: p1 },
            Constraint::Sandwiched { sub: s2, sup: p2 },
        ) => ty_eqv(s1, s2) && ty_eqv(p1, p2),
        (Constraint::TypeOf(t1), Constraint::TypeOf(t2)) => ty_eqv(t1, t2),
        (Constraint::Uninited, Constraint::Uninited) => true,
        _ => false,
    }
}

impl Clone for Constraint {
    /// Cloning rebuilds the carried terms; the copy is
    /// [`constraint_eqv`]-equal to the original.
    fn clone(&self) -> (res: Self)
        ensures
            constraint_eqv(res, *self),
    {
        match self {
            Constraint::Sandwiched { sub, sup } => Constraint::Sandwiched {
                sub: sub.clone(),
                sup: sup.clone(),
            },
            Constraint::TypeOf(t) => Constraint::TypeOf(t.clone()),
            Constraint::Uninited => Constraint::Uninited,
        }
    }
}

impl Constraint {
    /// What [`Constraint::get_type`] returns: the carried type of a
    /// `TypeOf`, and `Type` itself for the fully open sandwich.
    pub open spec fn spec_get_type(self) -> Option<Type> {
        match self {
            Constraint::TypeOf(t) => Some(t),
            Constraint::Sandwiched { sub, sup } => if sub is Never && sup is Obj {
                Some(Type::Type)
            } else {
                None
            },
            Constraint::Uninited => None,
        }
    }

    /// Decides [`constraint_eqv`], the deep equality up to string contents.
    pub fn deep_eq(&self, other: &Constraint) -> (r: bool)
        ensures
            r == constraint_eqv(*self, *other),
    {
        match (self, other) {
            (
                Constraint::Sandwiched { sub: s1, sup: p1 },
                Constraint::Sandwiched { sub: s2, sup: p2 },
            ) => s1.deep_eq(s2) && p1.deep_eq(p2),
            (Constraint::TypeOf(t1), Constraint::TypeOf(t2)) => t1.deep_eq(t2),
            (Constraint::Uninited, Constraint::Uninited) => true,
            _ => false,
        }
    }

    /// `sub :> ? <: sup`.
    pub fn new_sandwiched(sub: Type, sup: Type) -> (r: Self)
        ensures
            r == (Constraint::Sandwiched { sub, sup }),
    {
        Constraint::Sandwiched { sub, sup }
    }

    /// A variable that is a term of type `t`; `new_type_of(Type)`
    /// canonicalises to the fully open sandwich `(:> Never, <: Obj)`.
    pub fn new_type_of(t: Type) -> (r: Self)
        ensures
            t is Type ==> r == (Constraint::Sandwiched { sub: Type::Never, sup: Type::Obj }),
            !(t is Type) ==> r == Constraint::TypeOf(t),
    {
        if matches!(t, Type::Type) {
            Constraint::new_sandwiched(Type::Never, Type::Obj)
        } else {
            Constraint::TypeOf(t)
        }
    }

    /// `? <: sup`, encoded as `Sandwiched { Never, sup }`.
    pub fn new_subtype_of(sup: Type) -> (r: Self)
        ensures
            r == (Constraint::Sandwiched { sub: Type::Never, sup }),
    {
        Constraint::new_sandwiched(Type::Never, sup)
    }

    /// `? :> sub`, encoded as `Sandwiched { sub, Obj }`.
    pub fn new_supertype_of(sub: Type) -> (r: Self)
        ensures
            r == (Constraint::Sandwiched { sub, sup: Type::Obj }),
    {
        Constraint::new_sandwiched(sub, Type::Obj)
    }

    /// Whether this is the two-phase construction placeholder.
    pub fn is_uninited(&self) -> (r: bool)
        ensures
            r == (*self is Uninited),
    {
        matches!(self, Constraint::Uninited)
    }

    /// The type this variable is a term of, if the constraint pins one
    /// down; see [`Constraint::spec_get_type`].
    pub fn get_type(&self) -> (r: Option<Type>)
        ensures
            r is Some <==> self.spec_get_type() is Some,
            r is Some ==> ty_eqv(r.unwrap(), self.spec_get_type().unwrap()),
    {
        match self {
            Constraint::TypeOf(t) => Some(t.clone()),
            Constraint::Sandwiched { sub: Type::Never, sup: Type::Obj } => Some(Type::Type),
            _ => None,
        }
    }

    /// The lower bound `sub` of a sandwich, `None` otherwise.
    pub fn get_sub(&self) -> (r: Option<Type>)
        ensures
            r is Some <==> *self is Sandwiched,
            r is Some ==> ty_eqv(r.unwrap(), self->Sandwiched_sub),
    {
        match self {
            Constraint::Sandwiched { sub, .. } => Some(sub.clone()),
            _ => None,
        }
    }

    /// The upper bound `sup` of a sandwich, `None` otherwise.
    pub fn get_super(&self) -> (r: Option<Type>)
        ensures
            r is Some <==> *self is Sandwiched,
            r is Some ==> ty_eqv(r.unwrap(), self->Sandwiched_sup),
    {
        match self {
            Constraint::Sandwiched { sup, .. } => Some(sup.clone()),
            _ => None,
        }
    }

    /// Both bounds of a sandwich, `None` otherwise.
    pub fn get_sub_sup(&self) -> (r: Option<(Type, Type)>)
        ensures
            r is Some <==> *self is Sandwiched,
            r is Some ==> ty_eqv(r.unwrap().0, self->Sandwiched_sub) && ty_eqv(
                r.unwrap().1,
                self->Sandwiched_sup,
            ),
    {
        match self {
            Constraint::Sandwiched { sub, sup } => Some((sub.clone(), sup.clone())),
            _ => None,
        }
    }

    /// Mutable access to the upper bound of a sandwich, for refinement
    /// during unification; `None` leaves the constraint untouched.
    pub fn get_super_mut(&mut self) -> (r: Option<&mut Type>)
        ensures
            r is Some <==> *old(self) is Sandwiched,
            r is Some ==> *r.unwrap() == old(self)->Sandwiched_sup && *final(self) == (
            Constraint::Sandwiched {
                sub: old(self)->Sandwiched_sub,
                sup: *final(r.unwrap()),
            }),
            r is None ==> *final(self) == *old(self),
    {
        match self {
            Constraint::Sandwiched { sup, .. } => Some(sup),
            _ => None,
        }
    }
}

} // verus!
