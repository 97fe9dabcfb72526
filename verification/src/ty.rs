//! Algebraic type terms and type-parameter terms.
//!
//! A term is a finite tree; sharing and cycles arise only through
//! `FreeVar` leaves, which name cells of a [`crate::free::FreeStore`].
//! Walks that follow those cells are therefore depth-limited or
//! visited-set guided; the term values themselves are plain data.

use vstd::prelude::*;

use crate::free::FreeTyParamVar;
use crate::free::FreeTyVar;
use crate::strutil::string_eq;

verus! {

/// A type term: bottom, top, the type of types, nominal types and
/// free type variables.
pub enum Type {
    /// The bottom type.
    Never,
    /// The top type.
    Obj,
    /// The type of types.
    Type,
    /// A nominal type without parameters, e.g. `Int`.
    Mono(String),
    /// A nominal type applied to type-parameter terms, e.g. `Add(T)`.
    Poly { name: String, params: Vec<TyParam> },
    /// A free type variable, a cell of the store.
    FreeVar(FreeTyVar),
}

/// A term in type-argument position: a literal, a carried type, or a
/// free type-parameter variable.
pub enum TyParam {
    /// An integer literal.
    Value(i64),
    /// A type used as a type argument.
    Ty(Box<Type>),
    /// A free type-parameter variable, a cell of the store.
    FreeVar(FreeTyParamVar),
}

/// Deep equality of two type terms up to string contents: the shape of
/// both terms must match, names must have equal text, and `FreeVar`
/// leaves must name the same cell.
pub open spec fn ty_eqv(a: Type, b: Type) -> bool
    decreases a,
{
    match (a, b) {
        (Type::Never, Type::Never) => true,
        (Type::Obj, Type::Obj) => true,
        (Type::Type, Type::Type) => true,
        (Type::Mono(n1), Type::Mono(n2)) => n1@ == n2@,
        (Type::Poly { name: n1, params: p1 }, Type::Poly { name: n2, params: p2 }) => {
            &&& n1@ == n2@
            &&& p1.len() == p2.len()
            &&& forall|i: int| 0 <= i < p1.len() ==> tp_eqv(#[trigger] p1[i], p2[i])
        },
        (Type::FreeVar(v1), Type::FreeVar(v2)) => v1 == v2,
        _ => false,
    }
}

/// Deep equality of two type-parameter terms, as [`ty_eqv`].
pub open spec fn tp_eqv(a: TyParam, b: TyParam) -> bool
    decreases a,
{
    match (a, b) {
        (TyParam::Value(x), TyParam::Value(y)) => x == y,
        (TyParam::Ty(t1), TyParam::Ty(t2)) => ty_eqv(*t1, *t2),
        (TyParam::FreeVar(v1), TyParam::FreeVar(v2)) => v1 == v2,
        _ => false,
    }
}

impl Clone for Type {
    /// Cloning rebuilds the term; the copy is [`ty_eqv`]-equal to the
    /// original (string contents are preserved, cell handles are copied).
    fn clone(&self) -> (res: Self)
        ensures
            ty_eqv(res, *self),
        decreases self,
    {
        match self {
            Type::Never => Type::Never,
            Type::Obj => Type::Obj,
            Type::Type => Type::Type,
            Type::Mono(name) => Type::Mono(name.clone()),
            Type::Poly { name, params } => {
                let mut ps: Vec<TyParam> = Vec::new();
                let mut i: usize = 0;
                while i < params.len()
                    invariant
                        i <= params.len(),
                        ps@.len() == i,
                        *self is Poly,
                        params == self->Poly_params,
                        forall|j: int| 0 <= j < i ==> tp_eqv(#[trigger] ps@[j], params@[j]),
                    decreases params.len() - i,
                {
                    proof {
                        assert(decreases_to!(*self => *params));
                        assert(decreases_to!(*params => params@[i as int]));
                    }
                    ps.push(params[i].clone());
                    i += 1;
                }
                Type::Poly { name: name.clone(), params: ps }
            },
            Type::FreeVar(v) => Type::FreeVar(*v),
        }
    }
}

impl Clone for TyParam {
    /// Cloning rebuilds the term; the copy is [`tp_eqv`]-equal to the original.
    fn clone(&self) -> (res: Self)
        ensures
            tp_eqv(res, *self),
        decreases self,
    {
        match self {
            TyParam::Value(x) => TyParam::Value(*x),
            TyParam::Ty(t) => TyParam::Ty(Box::new((**t).clone())),
            TyParam::FreeVar(v) => TyParam::FreeVar(*v),
        }
    }
}

impl Type {
    /// Decides [`ty_eqv`], the deep term equality up to string contents.
    pub fn deep_eq(&self, other: &Type) -> (r: bool)
        ensures
            r == ty_eqv(*self, *other),
        decreases self,
    {
        match (self, other) {
            (Type::Never, Type::Never) => true,
            (Type::Obj, Type::Obj) => true,
            (Type::Type, Type::Type) => true,
            (Type::Mono(n1), Type::Mono(n2)) => string_eq(n1, n2),
            (Type::Poly { name: n1, params: p1 }, Type::Poly { name: n2, params: p2 }) => {
                if !string_eq(n1, n2) {
                    return false;
                }
                if p1.len() != p2.len() {
                    return false;
                }
                let mut i: usize = 0;
                while i < p1.len()
                    invariant
                        i <= p1.len(),
                        p1.len() == p2.len(),
                        *self is Poly,
                        p1 == self->Poly_params,
                        n1@ == n2@,
                        *other == (Type::Poly { name: *n2, params: *p2 }),
                        forall|j: int| 0 <= j < i ==> tp_eqv(#[trigger] p1@[j], p2@[j]),
                    decreases p1.len() - i,
                {
                    proof {
                        assert(decreases_to!(*self => *p1));
                        assert(decreases_to!(*p1 => p1@[i as int]));
                    }
                    if !p1[i].deep_eq(&p2[i]) {
                        return false;
                    }
                    i += 1;
                }
                true
            },
            (Type::FreeVar(v1), Type::FreeVar(v2)) => v1 == v2,
            _ => false,
        }
    }
}

impl TyParam {
    /// Decides [`tp_eqv`], the deep term equality up to string contents.
    pub fn deep_eq(&self, other: &TyParam) -> (r: bool)
        ensures
            r == tp_eqv(*self, *other),
        decreases self,
    {
        match (self, other) {
            (TyParam::Value(x), TyParam::Value(y)) => x == y,
            (TyParam::Ty(t1), TyParam::Ty(t2)) => t1.deep_eq(t2),
            (TyParam::FreeVar(v1), TyParam::FreeVar(v2)) => v1 == v2,
            _ => false,
        }
    }
}

} // verus!
