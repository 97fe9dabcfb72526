//! Depth-limited printing of terms, cells and constraints.
//!
//! Cycles are legal in the type graph, so every printer takes a limit
//! (10 by convention) and emits `...` once it is spent.  A debug mode
//! additionally prints a variable's constraint in parentheses after
//! its name.

use vstd::prelude::*;

use crate::GENERIC_LEVEL;
use crate::constraint::Constraint;
use crate::free::FreeKind;
use crate::free::FreeStore;
use crate::free::FreeTyParamVar;
use crate::free::FreeTyVar;
use crate::level::tp_height;
use crate::level::tps_height;
use crate::level::ty_height;
use crate::strutil::concat_str;
use crate::strutil::i64_to_string;
use crate::strutil::spec_idec;
use crate::strutil::spec_udec;
use crate::strutil::u64_to_string;
use crate::ty::TyParam;
use crate::ty::Type;

verus! {

/// The conventional printing depth.
pub const DEFAULT_FMT_LIMIT: usize = 10;

/// The rendering of a type term at the given depth, the specification
/// mirror of [`Type::limited_fmt`].
pub open spec fn spec_ty_fmt(s: FreeStore, t: Type, limit: nat, debug: bool) -> Seq<char>
    decreases limit, ty_height(t),
{
    if limit == 0 {
        "..."@
    } else {
        match t {
            Type::Never => "Never"@,
            Type::Obj => "Obj"@,
            Type::Type => "Type"@,
            Type::Mono(n) => n@,
            Type::Poly { name, params } => name@ + "("@ + spec_tps_fmt(
                s,
                params@,
                (limit - 1) as nat,
                debug,
            ) + ")"@,
            Type::FreeVar(v) => if 0 <= v.pos() < s.n_ty() {
                spec_cell_fmt_ty(s, v, limit, debug)
            } else {
                "..."@
            },
        }
    }
}

/// The comma-separated renderings of type-parameter terms.
pub open spec fn spec_tps_fmt(s: FreeStore, ps: Seq<TyParam>, limit: nat, debug: bool) -> Seq<char>
    decreases limit, tps_height(ps),
{
    if ps.len() == 0 {
        Seq::<char>::empty()
    } else {
        spec_tp_fmt(s, ps[0], limit, debug) + spec_tps_rest(s, ps.drop_first(), limit, debug)
    }
}

/// The renderings of the remaining type parameters, each preceded by
/// a separator.
pub open spec fn spec_tps_rest(s: FreeStore, ps: Seq<TyParam>, limit: nat, debug: bool) -> Seq<char>
    decreases limit, tps_height(ps),
{
    if ps.len() == 0 {
        Seq::<char>::empty()
    } else {
        ", "@ + spec_tp_fmt(s, ps[0], limit, debug) + spec_tps_rest(
            s,
            ps.drop_first(),
            limit,
            debug,
        )
    }
}

/// The rendering of a type-parameter term.
pub open spec fn spec_tp_fmt(s: FreeStore, p: TyParam, limit: nat, debug: bool) -> Seq<char>
    decreases limit, tp_height(p),
{
    if limit == 0 {
        "..."@
    } else {
        match p {
            TyParam::Value(x) => spec_idec(x as int),
            TyParam::Ty(t) => spec_ty_fmt(s, *t, limit, debug),
            TyParam::FreeVar(v) => if 0 <= v.pos() < s.n_tp() {
                spec_cell_fmt_tp(s, v, limit, debug)
            } else {
                "..."@
            },
        }
    }
}

/// The debug annotation after a variable's name: its constraint in
/// parentheses; empty when debug mode is off.
pub open spec fn spec_annot(s: FreeStore, c: Constraint, limit: nat, debug: bool) -> Seq<char>
    decreases limit, 1nat,
{
    if debug {
        "("@ + spec_constraint_fmt(s, c, limit, debug) + ")"@
    } else {
        Seq::<char>::empty()
    }
}

/// The rendering of a type-variable cell: `?name` or `?id` while the
/// variable is live, the bare name or `%id` once generalized, the
/// term's rendering once resolved.
pub open spec fn spec_cell_fmt_ty(s: FreeStore, v: FreeTyVar, limit: nat, debug: bool) -> Seq<char>
    decreases limit, 0nat,
{
    if limit == 0 {
        "..."@
    } else {
        match v.cell(s) {
            FreeKind::Linked(t) => if debug {
                "("@ + spec_ty_fmt(s, t, (limit - 1) as nat, debug) + ")"@
            } else {
                spec_ty_fmt(s, t, (limit - 1) as nat, debug)
            },
            FreeKind::UndoableLinked { t, .. } => if debug {
                "("@ + spec_ty_fmt(s, t, (limit - 1) as nat, debug) + ")"@
            } else {
                spec_ty_fmt(s, t, (limit - 1) as nat, debug)
            },
            FreeKind::NamedUnbound { name, lev, constraint } => if lev == GENERIC_LEVEL {
                name@ + spec_annot(s, constraint, (limit - 1) as nat, debug)
            } else {
                "?"@ + name@ + spec_annot(s, constraint, (limit - 1) as nat, debug)
            },
            FreeKind::Unbound { id, lev, constraint } => if lev == GENERIC_LEVEL {
                "%"@ + spec_udec(id as nat) + spec_annot(s, constraint, (limit - 1) as nat, debug)
            } else {
                "?"@ + spec_udec(id as nat) + spec_annot(s, constraint, (limit - 1) as nat, debug)
            },
        }
    }
}

/// The rendering of a type-parameter-variable cell.
pub open spec fn spec_cell_fmt_tp(
    s: FreeStore,
    v: FreeTyParamVar,
    limit: nat,
    debug: bool,
) -> Seq<char>
    decreases limit, 0nat,
{
    if limit == 0 {
        "..."@
    } else {
        match v.cell(s) {
            FreeKind::Linked(t) => if debug {
                "("@ + spec_tp_fmt(s, t, (limit - 1) as nat, debug) + ")"@
            } else {
                spec_tp_fmt(s, t, (limit - 1) as nat, debug)
            },
            FreeKind::UndoableLinked { t, .. } => if debug {
                "("@ + spec_tp_fmt(s, t, (limit - 1) as nat, debug) + ")"@
            } else {
                spec_tp_fmt(s, t, (limit - 1) as nat, debug)
            },
            FreeKind::NamedUnbound { name, lev, constraint } => if lev == GENERIC_LEVEL {
                name@ + spec_annot(s, constraint, (limit - 1) as nat, debug)
            } else {
                "?"@ + name@ + spec_annot(s, constraint, (limit - 1) as nat, debug)
            },
            FreeKind::Unbound { id, lev, constraint } => if lev == GENERIC_LEVEL {
                "%"@ + spec_udec(id as nat) + spec_annot(s, constraint, (limit - 1) as nat, debug)
            } else {
                "?"@ + spec_udec(id as nat) + spec_annot(s, constraint, (limit - 1) as nat, debug)
            },
        }
    }
}

/// The rendering of a constraint: in debug mode both bounds of a
/// sandwich are spelled out; otherwise the canonical short forms are
/// used, with the fully open sandwich presenting as `: Type`.
pub open spec fn spec_constraint_fmt(s: FreeStore, c: Constraint, limit: nat, debug: bool) -> Seq<
    char,
>
    decreases limit, 0nat,
{
    if limit == 0 {
        "..."@
    } else {
        match c {
            Constraint::Sandwiched { sub, sup } => if debug {
                ":> "@ + spec_ty_fmt(s, sub, (limit - 1) as nat, debug) + ", <: "@ + spec_ty_fmt(
                    s,
                    sup,
                    (limit - 1) as nat,
                    debug,
                )
            } else if sub is Never && sup is Obj {
                ": Type"@
            } else if sub is Never {
                "<: "@ + spec_ty_fmt(s, sup, (limit - 1) as nat, debug)
            } else if sup is Obj {
                ":> "@ + spec_ty_fmt(s, sub, (limit - 1) as nat, debug)
            } else {
                ":> "@ + spec_ty_fmt(s, sub, (limit - 1) as nat, debug) + ", <: "@ + spec_ty_fmt(
                    s,
                    sup,
                    (limit - 1) as nat,
                    debug,
                )
            },
            Constraint::TypeOf(t) => ": "@ + spec_ty_fmt(s, t, (limit - 1) as nat, debug),
            Constraint::Uninited => "<uninited>"@,
        }
    }
}

/// The rendering of a constraint with the variable's name written
/// before each bound, as the specification mirror of
/// [`Constraint::named_fmt`]; an uninitialized constraint presents as
/// `Never`.
pub open spec fn spec_named_fmt(s: FreeStore, c: Constraint, name: Seq<char>, limit: nat) -> Seq<
    char,
>
    decreases limit, 0nat,
{
    if limit == 0 {
        "..."@
    } else {
        match c {
            Constraint::Sandwiched { sub, sup } => if sub is Never && sup is Obj {
                name + ": Type"@
            } else if sub is Never {
                name + " <: "@ + spec_ty_fmt(s, sup, (limit - 1) as nat, false)
            } else if sup is Obj {
                name + " :> "@ + spec_ty_fmt(s, sub, (limit - 1) as nat, false)
            } else {
                name + " :> "@ + spec_ty_fmt(s, sub, (limit - 1) as nat, false) + ", "@ + name
                    + " <: "@ + spec_ty_fmt(s, sup, (limit - 1) as nat, false)
            },
            Constraint::TypeOf(t) => name + ": "@ + spec_ty_fmt(s, t, (limit - 1) as nat, false),
            Constraint::Uninited => "Never"@,
        }
    }
}

impl Type {
    /// Renders the term at the given depth, emitting `...` past the
    /// limit; decides [`spec_ty_fmt`].
    pub fn limited_fmt(&self, s: &FreeStore, limit: usize, debug: bool) -> (r: String)
        ensures
            r@ == spec_ty_fmt(*s, *self, limit as nat, debug),
        decreases limit as nat, ty_height(*self),
    {
        if limit == 0 {
            return String::from_str("...");
        }
        match self {
            Type::Never => String::from_str("Never"),
            Type::Obj => String::from_str("Obj"),
            Type::Type => String::from_str("Type"),
            Type::Mono(n) => n.clone(),
            Type::Poly { name, params } => {
                let ghost ps = params@;
                let mut r = name.clone();
                r.append("(");
                let ghost base = name@ + "("@;
                if params.len() > 0 {
                    proof {
                        crate::level::lemma_tps_height_elem(ps, 0);
                        assert(ty_height(*self) == 1 + tps_height(ps));
                        assert(ps.drop_first() =~= ps.skip(1));
                    }
                    let first = params[0].limited_fmt(s, limit - 1, debug);
                    r.append(first.as_str());
                    let mut i: usize = 1;
                    while i < params.len()
                        invariant
                            1 <= i <= params.len(),
                            params@ == ps,
                            *self is Poly,
                            params == self->Poly_params,
                            limit >= 1,
                            r@ + spec_tps_rest(*s, ps.skip(i as int), (limit - 1) as nat, debug)
                                == base + spec_tps_fmt(*s, ps, (limit - 1) as nat, debug),
                        decreases params.len() - i,
                    {
                        proof {
                            crate::level::lemma_tps_height_elem(ps, i as int);
                            assert(ty_height(*self) == 1 + tps_height(ps));
                            assert(ps.skip(i as int)[0] == ps[i as int]);
                            assert(ps.skip(i as int).drop_first() =~= ps.skip(i as int + 1));
                        }
                        r.append(", ");
                        let piece = params[i].limited_fmt(s, limit - 1, debug);
                        r.append(piece.as_str());
                        i += 1;
                    }
                    proof {
                        assert(ps.skip(ps.len() as int) =~= Seq::<TyParam>::empty());
                    }
                }
                r.append(")");
                proof {
                    assert(r@ =~= spec_ty_fmt(*s, *self, limit as nat, debug));
                }
                r
            },
            Type::FreeVar(v) => {
                if v.idx < s.ty_cells.len() {
                    v.limited_fmt(s, limit, debug)
                } else {
                    String::from_str("...")
                }
            },
        }
    }
}

impl TyParam {
    /// Renders the term at the given depth; decides [`spec_tp_fmt`].
    pub fn limited_fmt(&self, s: &FreeStore, limit: usize, debug: bool) -> (r: String)
        ensures
            r@ == spec_tp_fmt(*s, *self, limit as nat, debug),
        decreases limit as nat, tp_height(*self),
    {
        if limit == 0 {
            return String::from_str("...");
        }
        match self {
            TyParam::Value(x) => i64_to_string(*x),
            TyParam::Ty(t) => t.limited_fmt(s, limit, debug),
            TyParam::FreeVar(v) => {
                if v.idx < s.tp_cells.len() {
                    v.limited_fmt(s, limit, debug)
                } else {
                    String::from_str("...")
                }
            },
        }
    }
}

/// The debug annotation after a variable's name.
fn annot(s: &FreeStore, c: &Constraint, limit: usize, debug: bool) -> (r: String)
    ensures
        r@ == spec_annot(*s, *c, limit as nat, debug),
    decreases limit as nat, 2nat,
{
    if debug {
        let inner = c.limited_fmt(s, limit, debug);
        let mut r = String::from_str("(");
        r.append(inner.as_str());
        r.append(")");
        r
    } else {
        let r = String::new();
        proof {
            assert(r@ =~= Seq::<char>::empty());
        }
        r
    }
}

impl FreeTyVar {
    /// Renders the cell at the given depth; decides
    /// [`spec_cell_fmt_ty`].
    pub fn limited_fmt(self, s: &FreeStore, limit: usize, debug: bool) -> (r: String)
        requires
            self.valid_in(*s),
        ensures
            r@ == spec_cell_fmt_ty(*s, self, limit as nat, debug),
        decreases limit as nat, 0nat,
    {
        if limit == 0 {
            return String::from_str("...");
        }
        match &s.ty_cells[self.idx] {
            FreeKind::Linked(t) => {
                let inner = t.limited_fmt(s, limit - 1, debug);
                if debug {
                    let mut r = String::from_str("(");
                    r.append(inner.as_str());
                    r.append(")");
                    r
                } else {
                    inner
                }
            },
            FreeKind::UndoableLinked { t, .. } => {
                let inner = t.limited_fmt(s, limit - 1, debug);
                if debug {
                    let mut r = String::from_str("(");
                    r.append(inner.as_str());
                    r.append(")");
                    r
                } else {
                    inner
                }
            },
            FreeKind::NamedUnbound { name, lev, constraint } => {
                let a = annot(s, constraint, limit - 1, debug);
                let mut r = if *lev == GENERIC_LEVEL {
                    name.clone()
                } else {
                    concat_str(String::from_str("?"), name.as_str())
                };
                r.append(a.as_str());
                r
            },
            FreeKind::Unbound { id, lev, constraint } => {
                let a = annot(s, constraint, limit - 1, debug);
                let digits = u64_to_string(*id as u64);
                let mut r = if *lev == GENERIC_LEVEL {
                    concat_str(String::from_str("%"), digits.as_str())
                } else {
                    concat_str(String::from_str("?"), digits.as_str())
                };
                r.append(a.as_str());
                r
            },
        }
    }
}

impl FreeTyParamVar {
    /// Renders the cell at the given depth; decides
    /// [`spec_cell_fmt_tp`].
    pub fn limited_fmt(self, s: &FreeStore, limit: usize, debug: bool) -> (r: String)
        requires
            self.valid_in(*s),
        ensures
            r@ == spec_cell_fmt_tp(*s, self, limit as nat, debug),
        decreases limit as nat, 0nat,
    {
        if limit == 0 {
            return String::from_str("...");
        }
        match &s.tp_cells[self.idx] {
            FreeKind::Linked(t) => {
                let inner = t.limited_fmt(s, limit - 1, debug);
                if debug {
                    let mut r = String::from_str("(");
                    r.append(inner.as_str());
                    r.append(")");
                    r
                } else {
                    inner
                }
            },
            FreeKind::UndoableLinked { t, .. } => {
                let inner = t.limited_fmt(s, limit - 1, debug);
                if debug {
                    let mut r = String::from_str("(");
                    r.append(inner.as_str());
                    r.append(")");
                    r
                } else {
                    inner
                }
            },
            FreeKind::NamedUnbound { name, lev, constraint } => {
                let a = annot(s, constraint, limit - 1, debug);
                let mut r = if *lev == GENERIC_LEVEL {
                    name.clone()
                } else {
                    concat_str(String::from_str("?"), name.as_str())
                };
                r.append(a.as_str());
                r
            },
            FreeKind::Unbound { id, lev, constraint } => {
                let a = annot(s, constraint, limit - 1, debug);
                let digits = u64_to_string(*id as u64);
                let mut r = if *lev == GENERIC_LEVEL {
                    concat_str(String::from_str("%"), digits.as_str())
                } else {
                    concat_str(String::from_str("?"), digits.as_str())
                };
                r.append(a.as_str());
                r
            },
        }
    }
}

impl Constraint {
    /// Renders the constraint at the given depth; decides
    /// [`spec_constraint_fmt`].
    pub fn limited_fmt(&self, s: &FreeStore, limit: usize, debug: bool) -> (r: String)
        ensures
            r@ == spec_constraint_fmt(*s, *self, limit as nat, debug),
        decreases limit as nat, 1nat,
    {
        if limit == 0 {
            return String::from_str("...");
        }
        match self {
            Constraint::Sandwiched { sub, sup } => {
                if debug {
                    let a = sub.limited_fmt(s, limit - 1, debug);
                    let b = sup.limited_fmt(s, limit - 1, debug);
                    let mut r = String::from_str(":> ");
                    r.append(a.as_str());
                    r.append(", <: ");
                    r.append(b.as_str());
                    r
                } else {
                    let sub_never = matches!(sub, Type::Never);
                    let sup_obj = matches!(sup, Type::Obj);
                    if sub_never && sup_obj {
                        String::from_str(": Type")
                    } else if sub_never {
                        let b = sup.limited_fmt(s, limit - 1, debug);
                        concat_str(String::from_str("<: "), b.as_str())
                    } else if sup_obj {
                        let a = sub.limited_fmt(s, limit - 1, debug);
                        concat_str(String::from_str(":> "), a.as_str())
                    } else {
                        let a = sub.limited_fmt(s, limit - 1, debug);
                        let b = sup.limited_fmt(s, limit - 1, debug);
                        let mut r = String::from_str(":> ");
                        r.append(a.as_str());
                        r.append(", <: ");
                        r.append(b.as_str());
                        r
                    }
                }
            },
            Constraint::TypeOf(t) => {
                let a = t.limited_fmt(s, limit - 1, debug);
                concat_str(String::from_str(": "), a.as_str())
            },
            Constraint::Uninited => String::from_str("<uninited>"),
        }
    }

    /// Renders the constraint with the variable's name written before
    /// each bound; decides [`spec_named_fmt`].
    pub fn named_fmt(&self, s: &FreeStore, name: &str, limit: usize) -> (r: String)
        ensures
            r@ == spec_named_fmt(*s, *self, name@, limit as nat),
        decreases limit as nat, 1nat,
    {
        if limit == 0 {
            return String::from_str("...");
        }
        match self {
            Constraint::Sandwiched { sub, sup } => {
                let sub_never = matches!(sub, Type::Never);
                let sup_obj = matches!(sup, Type::Obj);
                if sub_never && sup_obj {
                    concat_str(String::from_str(name), ": Type")
                } else if sub_never {
                    let b = sup.limited_fmt(s, limit - 1, false);
                    let mut r = String::from_str(name);
                    r.append(" <: ");
                    r.append(b.as_str());
                    r
                } else if sup_obj {
                    let a = sub.limited_fmt(s, limit - 1, false);
                    let mut r = String::from_str(name);
                    r.append(" :> ");
                    r.append(a.as_str());
                    r
                } else {
                    let a = sub.limited_fmt(s, limit - 1, false);
                    let b = sup.limited_fmt(s, limit - 1, false);
                    let mut r = String::from_str(name);
                    r.append(" :> ");
                    r.append(a.as_str());
                    r.append(", ");
                    r.append(name);
                    r.append(" <: ");
                    r.append(b.as_str());
                    r
                }
            },
            Constraint::TypeOf(t) => {
                let a = t.limited_fmt(s, limit - 1, false);
                let mut r = String::from_str(name);
                r.append(": ");
                r.append(a.as_str());
                r
            },
            Constraint::Uninited => String::from_str("Never"),
        }
    }
}

} // verus!
