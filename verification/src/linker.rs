//! The method linker: a single pass over a module's top-level items
//! that absorbs every free-standing `Methods` block into the class
//! definition it names, preserving source order, and raises one
//! name-error per block whose class is unknown.

use vstd::prelude::*;

use crate::error::CompileError;
use crate::error::CompileErrors;
use crate::error::ErrorKind;
use crate::error::Input;
use crate::error::Location;
use crate::error::no_var_msg;
use crate::error::similar_var_hint;
use crate::strutil::string_eq;

verus! {

/// The target written after `Methods`.
#[derive(Debug)]
pub enum TypeSpec {
    /// A simple nominal name.
    Simple(String),
    /// A compound or parameterized target; the linker deliberately
    /// does not handle these.
    Compound(String),
}

/// What a definition's body begins with.
#[derive(Debug)]
pub enum BodyHead {
    /// A call of the named function.
    Call(String),
    /// Anything else.
    Other,
}

/// A top-level variable or class-constructor definition.
#[derive(Debug)]
pub struct Def {
    /// The defined name.
    pub name: String,
    /// The first expression of the body.
    pub body_head: BodyHead,
}

/// A free-standing block of method definitions for a nominal type.
#[derive(Debug)]
pub struct MethodsBlock {
    /// The type the methods extend.
    pub class: TypeSpec,
    /// Where the block's target is written.
    pub loc: Location,
    /// The method definitions.
    pub defs: Vec<Def>,
}

/// A class definition with its absorbed method blocks.
#[derive(Debug)]
pub struct ClassDef {
    /// The original definition.
    pub def: Def,
    /// The method blocks folded into this class, in source order.
    pub methods_list: Vec<MethodsBlock>,
}

/// One top-level item of a module.
#[derive(Debug)]
pub enum Item {
    /// A definition.
    Def(Def),
    /// A free-standing methods block.
    Methods(MethodsBlock),
    /// A class definition.
    ClassDef(ClassDef),
    /// Any other top-level chunk, identified only for order.
    Other(u64),
}

/// A parsed module: its name and its top-level items in source order.
#[derive(Debug)]
pub struct Ast {
    /// The module's name.
    pub name: String,
    /// The top-level items.
    pub module: Vec<Item>,
}

impl Ast {
    /// A module from its name and items.
    pub fn new(name: String, module: Vec<Item>) -> (r: Self)
        ensures
            r == (Ast { name, module }),
    {
        Ast { name, module }
    }
}

/// The view of a target type specification.
#[verifier::ext_equal]
pub enum TypeSpecV {
    /// A simple nominal name.
    Simple(Seq<char>),
    /// A compound target.
    Compound(Seq<char>),
}

/// The view of a definition.
#[verifier::ext_equal]
pub struct DefV {
    /// The defined name.
    pub name: Seq<char>,
    /// The callee of the body's first expression, if it is a call.
    pub body_call: Option<Seq<char>>,
}

/// The view of a methods block.
#[verifier::ext_equal]
pub struct MethodsV {
    /// The target.
    pub class: TypeSpecV,
    /// The block's location.
    pub loc: Location,
    /// The method definitions.
    pub defs: Seq<DefV>,
}

/// The view of a class definition.
#[verifier::ext_equal]
pub struct ClassDefV {
    /// The original definition.
    pub def: DefV,
    /// The absorbed method blocks.
    pub methods: Seq<MethodsV>,
}

/// The view of a top-level item.
#[verifier::ext_equal]
pub enum ItemV {
    /// A definition.
    Def(DefV),
    /// A methods block.
    Methods(MethodsV),
    /// A class definition.
    ClassDef(ClassDefV),
    /// Any other chunk.
    Other(u64),
}

/// The view of a definition.
pub open spec fn def_view(d: Def) -> DefV {
    DefV {
        name: d.name@,
        body_call: match d.body_head {
            BodyHead::Call(f) => Some(f@),
            BodyHead::Other => None,
        },
    }
}

/// The view of a target.
pub open spec fn type_spec_view(t: TypeSpec) -> TypeSpecV {
    match t {
        TypeSpec::Simple(n) => TypeSpecV::Simple(n@),
        TypeSpec::Compound(n) => TypeSpecV::Compound(n@),
    }
}

/// The view of a methods block.
pub open spec fn methods_view(m: MethodsBlock) -> MethodsV {
    MethodsV {
        class: type_spec_view(m.class),
        loc: m.loc,
        defs: m.defs@.map_values(|d: Def| def_view(d)),
    }
}

/// The view of a class definition.
pub open spec fn class_def_view(c: ClassDef) -> ClassDefV {
    ClassDefV {
        def: def_view(c.def),
        methods: c.methods_list@.map_values(|m: MethodsBlock| methods_view(m)),
    }
}

/// The view of a top-level item.
pub open spec fn item_view(i: Item) -> ItemV {
    match i {
        Item::Def(d) => ItemV::Def(def_view(d)),
        Item::Methods(m) => ItemV::Methods(methods_view(m)),
        Item::ClassDef(c) => ItemV::ClassDef(class_def_view(c)),
        Item::Other(x) => ItemV::Other(x),
    }
}

/// The views of a module's items.
pub open spec fn items_view(s: Seq<Item>) -> Seq<ItemV> {
    s.map_values(|i: Item| item_view(i))
}

/// Whether a definition is a class definition: its body begins with a
/// call of one of the recognized class constructors.
pub open spec fn is_class_ctor(f: Seq<char>) -> bool {
    f == "Class"@ || f == "Inherit"@ || f == "Inheritable"@
}

/// Whether a definition's body starts with a class-constructor call.
pub open spec fn is_class_def(d: DefV) -> bool {
    d.body_call is Some && is_class_ctor(d.body_call.unwrap())
}

/// The position registered for `name`, if any.
pub open spec fn map_find(m: Seq<(Seq<char>, int)>, name: Seq<char>) -> Option<int>
    decreases m.len(),
{
    if m.len() == 0 {
        None
    } else if m[0].0 == name {
        Some(m[0].1)
    } else {
        map_find(m.drop_first(), name)
    }
}

/// Registers `name` at `pos`, overwriting an earlier registration of
/// the same name.
pub open spec fn map_set(m: Seq<(Seq<char>, int)>, name: Seq<char>, pos: int) -> Seq<
    (Seq<char>, int),
>
    decreases m.len(),
{
    if m.len() == 0 {
        seq![(name, pos)]
    } else if m[0].0 == name {
        seq![(name, pos)] + m.drop_first()
    } else {
        seq![m[0]] + map_set(m.drop_first(), name, pos)
    }
}

/// The registered class names joined with trailing commas, the
/// candidate list shown when a `Methods` block names an unknown class.
pub open spec fn joined_names(m: Seq<(Seq<char>, int)>) -> Seq<char>
    decreases m.len(),
{
    if m.len() == 0 {
        Seq::<char>::empty()
    } else {
        m[0].0 + ","@ + joined_names(m.drop_first())
    }
}

/// One diagnostic of the linking pass, by content: the unknown name,
/// the candidate list at that moment, and the block's location.
#[verifier::ext_equal]
pub struct LinkErrV {
    /// The unknown class name.
    pub name: Seq<char>,
    /// The candidate list.
    pub listed: Seq<char>,
    /// The block's location.
    pub loc: Location,
}

/// The state of the linking pass over a prefix of the module.
#[verifier::ext_equal]
pub struct LinkState {
    /// The rewritten items so far.
    pub out: Seq<ItemV>,
    /// Registered class names and their positions in `out`.
    pub map: Seq<(Seq<char>, int)>,
    /// The diagnostics so far, by content.
    pub errs: Seq<LinkErrV>,
}

/// The empty starting state.
pub open spec fn link_init() -> LinkState {
    LinkState { out: Seq::<ItemV>::empty(), map: Seq::empty(), errs: Seq::empty() }
}

/// One step of the linking pass.
pub open spec fn link_step(st: LinkState, item: ItemV) -> LinkState {
    match item {
        ItemV::Def(d) => if is_class_def(d) {
            LinkState {
                out: st.out.push(ItemV::ClassDef(ClassDefV { def: d, methods: Seq::empty() })),
                map: map_set(st.map, d.name, st.out.len() as int),
                errs: st.errs,
            }
        } else {
            LinkState { out: st.out.push(ItemV::Def(d)), map: st.map, errs: st.errs }
        },
        ItemV::Methods(m) => match m.class {
            TypeSpecV::Simple(name) => match map_find(st.map, name) {
                Some(pos) => if 0 <= pos < st.out.len() && st.out[pos] is ClassDef {
                    LinkState {
                        out: st.out.update(
                            pos,
                            ItemV::ClassDef(
                                ClassDefV {
                                    def: st.out[pos]->ClassDef_0.def,
                                    methods: st.out[pos]->ClassDef_0.methods.push(m),
                                },
                            ),
                        ),
                        map: st.map,
                        errs: st.errs,
                    }
                } else {
                    st
                },
                None => LinkState {
                    out: st.out,
                    map: st.map,
                    errs: st.errs.push(
                        LinkErrV { name, listed: joined_names(st.map), loc: m.loc },
                    ),
                },
            },
            TypeSpecV::Compound(_) => st,
        },
        ItemV::ClassDef(c) => LinkState {
            out: st.out.push(ItemV::ClassDef(c)),
            map: st.map,
            errs: st.errs,
        },
        ItemV::Other(x) => LinkState {
            out: st.out.push(ItemV::Other(x)),
            map: st.map,
            errs: st.errs,
        },
    }
}

/// The linking pass over the whole module, item by item.
pub open spec fn link_fold(items: Seq<ItemV>) -> LinkState
    decreases items.len(),
{
    if items.len() == 0 {
        link_init()
    } else {
        link_step(link_fold(items.drop_last()), items.last())
    }
}


/// The view of the position map.
pub open spec fn pos_map_view(m: Seq<(String, usize)>) -> Seq<(Seq<char>, int)> {
    m.map_values(|e: (String, usize)| (e.0@, e.1 as int))
}

/// Every registered position names a class definition in `out`.
pub open spec fn map_ok(m: Seq<(Seq<char>, int)>, out: Seq<ItemV>) -> bool {
    forall|k: int|
        0 <= k < m.len() ==> 0 <= (#[trigger] m[k]).1 < out.len() && out[m[k].1] is ClassDef
}

/// A found position was registered.
proof fn lemma_map_find_in(m: Seq<(Seq<char>, int)>, name: Seq<char>)
    requires
        map_find(m, name) is Some,
    ensures
        exists|k: int|
            0 <= k < m.len() && (#[trigger] m[k]).0 == name && m[k].1 == map_find(m, name).unwrap(),
    decreases m.len(),
{
    if m.len() > 0 && m[0].0 != name {
        lemma_map_find_in(m.drop_first(), name);
        let k0 = choose|k: int|
            0 <= k < m.drop_first().len() && (#[trigger] m.drop_first()[k]).0 == name
                && m.drop_first()[k].1 == map_find(m.drop_first(), name).unwrap();
        assert(m[k0 + 1] == m.drop_first()[k0]);
    }
}

/// Registration keeps every entry either the new one or an old one.
proof fn lemma_map_set_entries(m: Seq<(Seq<char>, int)>, name: Seq<char>, pos: int)
    ensures
        forall|k: int|
            0 <= k < map_set(m, name, pos).len() ==> (#[trigger] map_set(m, name, pos)[k]) == (
            name,
            pos,
            ) || exists|j: int| 0 <= j < m.len() && m[j] == map_set(m, name, pos)[k],
    decreases m.len(),
{
    let res = map_set(m, name, pos);
    if m.len() == 0 {
    } else if m[0].0 == name {
        assert forall|k: int| 0 <= k < res.len() implies (#[trigger] res[k]) == (name, pos)
            || exists|j: int| 0 <= j < m.len() && m[j] == res[k] by {
            if k > 0 {
                assert(res[k] == m.drop_first()[k - 1]);
                assert(m[k] == res[k]);
            }
        }
    } else {
        lemma_map_set_entries(m.drop_first(), name, pos);
        assert forall|k: int| 0 <= k < res.len() implies (#[trigger] res[k]) == (name, pos)
            || exists|j: int| 0 <= j < m.len() && m[j] == res[k] by {
            if k == 0 {
                assert(res[0] == m[0]);
            } else {
                let inner = map_set(m.drop_first(), name, pos);
                assert(res[k] == inner[k - 1]);
                if inner[k - 1] == (name, pos) {
                } else {
                    let j0 = choose|j: int|
                        0 <= j < m.drop_first().len() && m.drop_first()[j] == inner[k - 1];
                    assert(m[j0 + 1] == m.drop_first()[j0]);
                }
            }
        }
    }
}

/// After every step of the pass, registered positions still name
/// class definitions.
proof fn lemma_fold_map_ok(items: Seq<ItemV>)
    ensures
        map_ok(link_fold(items).map, link_fold(items).out),
    decreases items.len(),
{
    if items.len() > 0 {
        lemma_fold_map_ok(items.drop_last());
        let st = link_fold(items.drop_last());
        let st1 = link_fold(items);
        match items.last() {
            ItemV::Def(d) => {
                if is_class_def(d) {
                    let out1 = st.out.push(
                        ItemV::ClassDef(ClassDefV { def: d, methods: Seq::empty() }),
                    );
                    assert forall|k: int|
                        0 <= k < st.map.len() implies 0 <= (#[trigger] st.map[k]).1 < out1.len()
                        && out1[st.map[k].1] is ClassDef by {}
                    lemma_map_set_entries(st.map, d.name, st.out.len() as int);
                    assert forall|k: int|
                        0 <= k < st1.map.len() implies 0 <= (#[trigger] st1.map[k]).1 < st1.out.len()
                        && st1.out[st1.map[k].1] is ClassDef by {
                        if st1.map[k] == (d.name, st.out.len() as int) {
                        } else {
                            let j0 = choose|j: int|
                                0 <= j < st.map.len() && st.map[j] == st1.map[k];
                        }
                    }
                }
            },
            ItemV::Methods(m) => {},
            ItemV::ClassDef(c) => {},
            ItemV::Other(x) => {},
        }
    }
}


/// Skipping a matchless prefix does not change what is found.
proof fn lemma_map_find_split(m: Seq<(Seq<char>, int)>, name: Seq<char>, i: int)
    requires
        0 <= i <= m.len(),
        forall|j: int| 0 <= j < i ==> (#[trigger] m[j]).0 != name,
    ensures
        map_find(m, name) == map_find(m.skip(i), name),
    decreases i,
{
    if i > 0 {
        assert(m.drop_first().skip(i - 1) =~= m.skip(i));
        assert(forall|j: int|
            0 <= j < i - 1 ==> (#[trigger] m.drop_first()[j]).0 == m[j + 1].0);
        lemma_map_find_split(m.drop_first(), name, i - 1);
    } else {
        assert(m.skip(0) =~= m);
    }
}

/// Registration leaves a matchless prefix alone.
proof fn lemma_map_set_split(m: Seq<(Seq<char>, int)>, name: Seq<char>, pos: int, i: int)
    requires
        0 <= i <= m.len(),
        forall|j: int| 0 <= j < i ==> (#[trigger] m[j]).0 != name,
    ensures
        map_set(m, name, pos) =~= m.take(i) + map_set(m.skip(i), name, pos),
    decreases i,
{
    if i > 0 {
        assert(m.drop_first().skip(i - 1) =~= m.skip(i));
        assert(forall|j: int|
            0 <= j < i - 1 ==> (#[trigger] m.drop_first()[j]).0 == m[j + 1].0);
        lemma_map_set_split(m.drop_first(), name, pos, i - 1);
        assert(m.drop_first().take(i - 1) =~= m.take(i).drop_first());
        assert(map_set(m, name, pos) =~= seq![m[0]] + map_set(m.drop_first(), name, pos));
        assert(map_set(m.drop_first(), name, pos) == m.take(i).drop_first() + map_set(
            m.skip(i),
            name,
            pos,
        ));
        assert(seq![m[0]] + (m.take(i).drop_first() + map_set(m.skip(i), name, pos)) =~= (seq![
            m[0],
        ] + m.take(i).drop_first()) + map_set(m.skip(i), name, pos));
        assert(seq![m[0]] + m.take(i).drop_first() =~= m.take(i));
    } else {
        assert(m.skip(0) =~= m);
        assert(m.take(0) + map_set(m.skip(0), name, pos) =~= map_set(m, name, pos));
    }
}

/// Equality of a string and a literal by contents.
fn name_is(a: &String, b: &str) -> (r: bool)
    ensures
        r == (a@ == b@),
{
    let owned = String::from_str(b);
    a.eq(&owned)
}

/// Looks a class name up in the position map; decides [`map_find`].
fn map_find_exec(m: &Vec<(String, usize)>, name: &String) -> (r: Option<usize>)
    ensures
        r is Some <==> map_find(pos_map_view(m@), name@) is Some,
        r is Some ==> map_find(pos_map_view(m@), name@) == Some(r.unwrap() as int),
{
    let ghost mv = pos_map_view(m@);
    let mut i: usize = 0;
    while i < m.len()
        invariant
            i <= m.len(),
            mv == pos_map_view(m@),
            mv.len() == m@.len(),
            forall|j: int| 0 <= j < i ==> (#[trigger] mv[j]).0 != name@,
        decreases m.len() - i,
    {
        if string_eq(&m[i].0, name) {
            proof {
                lemma_map_find_split(mv, name@, i as int);
                assert(mv.skip(i as int)[0] == mv[i as int]);
            }
            return Some(m[i].1);
        }
        i += 1;
    }
    proof {
        lemma_map_find_split(mv, name@, m@.len() as int);
        assert(mv.skip(mv.len() as int) =~= Seq::<(Seq<char>, int)>::empty());
    }
    None
}

/// Registers a class name in the position map; decides [`map_set`].
fn map_set_exec(m: &mut Vec<(String, usize)>, name: String, pos: usize)
    ensures
        pos_map_view(final(m)@) =~= map_set(pos_map_view(old(m)@), name@, pos as int),
{
    let ghost mv = pos_map_view(m@);
    let mut i: usize = 0;
    while i < m.len()
        invariant
            i <= m.len(),
            m@ == old(m)@,
            mv == pos_map_view(m@),
            mv.len() == m@.len(),
            forall|j: int| 0 <= j < i ==> (#[trigger] mv[j]).0 != name@,
        decreases m.len() - i,
    {
        if string_eq(&m[i].0, &name) {
            proof {
                lemma_map_set_split(mv, name@, pos as int, i as int);
                assert(mv.skip(i as int)[0] == mv[i as int]);
            }
            let slot = &mut m[i];
            *slot = (name, pos);
            proof {
                assert(pos_map_view(m@) =~= mv.update(i as int, (name@, pos as int)));
                assert(mv.take(i as int) + (seq![(name@, pos as int)] + mv.skip(i as int).drop_first())
                    =~= mv.update(i as int, (name@, pos as int)));
            }
            return ;
        }
        i += 1;
    }
    proof {
        lemma_map_set_split(mv, name@, pos as int, m@.len() as int);
        assert(mv.skip(mv.len() as int) =~= Seq::<(Seq<char>, int)>::empty());
    }
    m.push((name, pos));
    proof {
        assert(pos_map_view(m@) =~= mv.push((name@, pos as int)));
        assert(mv.take(mv.len() as int) + seq![(name@, pos as int)] =~= mv.push(
            (name@, pos as int),
        ));
    }
}

/// Joins the registered class names with trailing commas; decides
/// [`joined_names`].
fn joined_names_exec(m: &Vec<(String, usize)>) -> (r: String)
    ensures
        r@ == joined_names(pos_map_view(m@)),
{
    let ghost mv = pos_map_view(m@);
    let mut acc = String::new();
    let mut i: usize = 0;
    proof {
        assert(mv.skip(0) =~= mv);
        assert(acc@ + joined_names(mv) =~= joined_names(mv));
    }
    while i < m.len()
        invariant
            i <= m.len(),
            mv == pos_map_view(m@),
            mv.len() == m@.len(),
            acc@ + joined_names(mv.skip(i as int)) == joined_names(mv),
        decreases m.len() - i,
    {
        proof {
            assert(mv.skip(i as int)[0] == mv[i as int]);
            assert(mv.skip(i as int).drop_first() =~= mv.skip(i as int + 1));
        }
        acc.append(m[i].0.as_str());
        acc.append(",");
        i += 1;
    }
    proof {
        assert(mv.skip(mv.len() as int) =~= Seq::<(Seq<char>, int)>::empty());
        assert(acc@ + joined_names(mv.skip(mv.len() as int)) =~= acc@);
    }
    acc
}

/// The per-diagnostic correspondence between the accumulated records
/// and the contents the pass computes.
pub open spec fn errs_match(es: Seq<CompileError>, ls: Seq<LinkErrV>, input_name: Seq<char>) -> bool {
    &&& es.len() == ls.len()
    &&& forall|k: int|
        0 <= k < es.len() ==> {
            &&& (#[trigger] es[k]).core.kind == ErrorKind::NameError
            &&& es[k].core.loc == ls[k].loc
            &&& es[k].core.main_message@ == no_var_msg(ls[k].name)
            &&& es[k].core.sub_messages@.len() == 1
            &&& es[k].core.sub_messages@[0].loc == ls[k].loc
            &&& es[k].core.sub_messages@[0].hint is Some
            &&& es[k].core.sub_messages@[0].hint.unwrap()@ == similar_var_hint(ls[k].listed)
            &&& es[k].input.name@ == input_name
        }
}

/// Combines method definitions into their owning classes: the state of
/// one linking pass.
pub struct Linker {
    /// Registered class names and their positions in the output.
    pub def_root_pos_map: Vec<(String, usize)>,
    /// Diagnostics raised so far.
    pub errs: CompileErrors,
}

impl Linker {
    /// A fresh linker with no registered classes and no diagnostics.
    pub fn new() -> (r: Self)
        ensures
            r.def_root_pos_map@.len() == 0,
            r.errs.errors@.len() == 0,
    {
        Linker { def_root_pos_map: Vec::new(), errs: CompileErrors::empty() }
    }

    /// Runs the pass: every `Methods` block naming a registered class
    /// is absorbed into that class's definition at its original
    /// position; one naming an unknown class becomes a name error whose
    /// hint lists every registered class.  The rewritten module comes
    /// back when no diagnostics were raised, the diagnostics otherwise.
    ///
    /// Compound or parameterized targets are a deliberate gap of this
    /// pass, hence the precondition.
    pub fn link(self, ast: Ast) -> (r: Result<Ast, CompileErrors>)
        requires
            self.def_root_pos_map@.len() == 0,
            self.errs.errors@.len() == 0,
            forall|j: int|
                0 <= j < ast.module@.len() ==> ((#[trigger] ast.module@[j]) is Methods
                    ==> ast.module@[j]->Methods_0.class is Simple),
        ensures
            ({
                let st = link_fold(items_view(ast.module@));
                &&& (r is Ok <==> st.errs.len() == 0)
                &&& r is Ok ==> r->Ok_0.name@ == ast.name@ && items_view(r->Ok_0.module@) == st.out
                &&& r is Err ==> errs_match(r->Err_0.errors@, st.errs, ast.name@)
            }),
    {
        let Linker { mut def_root_pos_map, mut errs } = self;
        let Ast { name: ast_name, module } = ast;
        let ghost orig = module@;
        let ghost all = items_view(orig);
        let ghost n = all.len();
        let mut items = module;
        let mut new_items: Vec<Item> = Vec::new();
        let ghost mut i: int = 0;
        proof {
            assert(items@ =~= orig.skip(0));
            assert(all.take(0) =~= Seq::<ItemV>::empty());
            assert(items_view(new_items@) =~= link_fold(all.take(0)).out);
            assert(pos_map_view(def_root_pos_map@) =~= link_fold(all.take(0)).map);
        }
        while items.len() > 0
            invariant
                0 <= i <= n,
                n == all.len(),
                n == orig.len(),
                all == items_view(orig),
                items@ == orig.skip(i),
                forall|j: int|
                    0 <= j < orig.len() ==> ((#[trigger] orig[j]) is Methods
                        ==> orig[j]->Methods_0.class is Simple),
                items_view(new_items@) == link_fold(all.take(i)).out,
                pos_map_view(def_root_pos_map@) == link_fold(all.take(i)).map,
                errs_match(errs.errors@, link_fold(all.take(i)).errs, ast_name@),
            decreases items.len(),
        {
            let ghost st = link_fold(all.take(i));
            let ghost cur = all[i];
            proof {
                assert(orig.skip(i)[0] == orig[i]);
                assert(all[i] == item_view(orig[i]));
                assert(all.take(i + 1).drop_last() =~= all.take(i));
                assert(all.take(i + 1).last() == all[i]);
                assert(link_fold(all.take(i + 1)) == link_step(st, cur));
            }
            let chunk = items.remove(0);
            proof {
                assert(items@ =~= orig.skip(i + 1));
            }
            match chunk {
                Item::Def(def) => {
                    let ghost dv = def_view(def);
                    let is_class = match &def.body_head {
                        BodyHead::Call(f) => {
                            name_is(f, "Class") || name_is(f, "Inherit") || name_is(
                                f,
                                "Inheritable",
                            )
                        },
                        BodyHead::Other => false,
                    };
                    proof {
                        assert(is_class == is_class_def(dv));
                    }
                    if is_class {
                        map_set_exec(&mut def_root_pos_map, def.name.clone(), new_items.len());
                        new_items.push(Item::ClassDef(ClassDef { def, methods_list: Vec::new() }));
                        proof {
                            assert(items_view(new_items@) =~~= st.out.push(
                                ItemV::ClassDef(ClassDefV { def: dv, methods: Seq::empty() }),
                            ));
                        }
                    } else {
                        new_items.push(Item::Def(def));
                        proof {
                            assert(items_view(new_items@) =~= st.out.push(ItemV::Def(dv)));
                        }
                    }
                },
                Item::Methods(methods) => {
                    let ghost mv = methods_view(methods);
                    match &methods.class {
                        TypeSpec::Simple(cname) => {
                            let found = map_find_exec(&def_root_pos_map, cname);
                            match found {
                                Some(pos) => {
                                    proof {
                                        lemma_fold_map_ok(all.take(i));
                                        lemma_map_find_in(st.map, cname@);
                                    }
                                    let taken = new_items.remove(pos);
                                    match taken {
                                        Item::ClassDef(class_def) => {
                                            let ClassDef { def, mut methods_list } = class_def;
                                            methods_list.push(methods);
                                            new_items.insert(
                                                pos,
                                                Item::ClassDef(ClassDef { def, methods_list }),
                                            );
                                            proof {
                                                assert(items_view(new_items@) =~~= st.out.update(
                                                    pos as int,
                                                    ItemV::ClassDef(
                                                        ClassDefV {
                                                            def: st.out[pos as int]->ClassDef_0.def,
                                                            methods: st.out[
                                                                pos as int
                                                            ]->ClassDef_0.methods.push(mv),
                                                        },
                                                    ),
                                                ));
                                            }
                                        },
                                        _ => {
                                            proof {
                                                assert(item_view(taken) == st.out[pos as int]);
                                                assert(false);
                                            }
                                        },
                                    }
                                },
                                None => {
                                    let listed = joined_names_exec(&def_root_pos_map);
                                    let err = CompileError::no_var_error(
                                        Input::new(ast_name.clone()),
                                        0,
                                        methods.loc,
                                        String::new(),
                                        cname.as_str(),
                                        Some(listed.as_str()),
                                    );
                                    errs.push(err);
                                },
                            }
                        },
                        TypeSpec::Compound(_) => {
                            proof {
                                assert(false);
                            }
                        },
                    }
                },
                Item::ClassDef(c) => {
                    let ghost cv = class_def_view(c);
                    new_items.push(Item::ClassDef(c));
                    proof {
                        assert(items_view(new_items@) =~= st.out.push(ItemV::ClassDef(cv)));
                    }
                },
                Item::Other(x) => {
                    new_items.push(Item::Other(x));
                    proof {
                        assert(items_view(new_items@) =~= st.out.push(ItemV::Other(x)));
                    }
                },
            }
            proof {
                i = i + 1;
            }
        }
        proof {
            assert(all.take(n as int) =~= all);
        }
        if errs.is_empty() {
            Ok(Ast::new(ast_name, new_items))
        } else {
            Err(errs)
        }
    }
}


/// The root form of an output item: a class definition counts as its
/// underlying definition, methods aside.
pub open spec fn root_of(item: ItemV) -> ItemV {
    match item {
        ItemV::ClassDef(c) => ItemV::Def(c.def),
        other => other,
    }
}

/// The root forms of a sequence of items.
pub open spec fn roots_of(s: Seq<ItemV>) -> Seq<ItemV>
    decreases s.len(),
{
    if s.len() == 0 {
        Seq::<ItemV>::empty()
    } else {
        roots_of(s.drop_last()).push(root_of(s.last()))
    }
}

/// The root forms of the non-`Methods` items of the input, in order.
pub open spec fn input_roots(s: Seq<ItemV>) -> Seq<ItemV>
    decreases s.len(),
{
    if s.len() == 0 {
        Seq::<ItemV>::empty()
    } else if s.last() is Methods {
        input_roots(s.drop_last())
    } else {
        input_roots(s.drop_last()).push(root_of(s.last()))
    }
}

proof fn lemma_roots_of_push(s: Seq<ItemV>, item: ItemV)
    ensures
        roots_of(s.push(item)) == roots_of(s).push(root_of(item)),
{
    assert(s.push(item).drop_last() =~= s);
    assert(s.push(item).last() == item);
}

proof fn lemma_roots_of_update(s: Seq<ItemV>, pos: int, item: ItemV)
    requires
        0 <= pos < s.len(),
        root_of(item) == root_of(s[pos]),
    ensures
        roots_of(s.update(pos, item)) == roots_of(s),
    decreases s.len(),
{
    let s1 = s.update(pos, item);
    if pos == s.len() - 1 {
        assert(s1.drop_last() =~= s.drop_last());
        assert(s1.last() == item);
    } else {
        assert(s1.drop_last() =~= s.drop_last().update(pos, item));
        assert(s1.last() == s.last());
        lemma_roots_of_update(s.drop_last(), pos, item);
    }
}

/// Source-order stability: the linker's output preserves the relative
/// order of every non-`Methods` item of the input, each standing at
/// its original relative position with its original definition; a
/// `Methods` block never adds, removes or reorders roots.
pub proof fn lemma_linker_order(items: Seq<ItemV>)
    ensures
        roots_of(link_fold(items).out) == input_roots(items),
    decreases items.len(),
{
    if items.len() > 0 {
        lemma_linker_order(items.drop_last());
        let st = link_fold(items.drop_last());
        match items.last() {
            ItemV::Def(d) => {
                if is_class_def(d) {
                    lemma_roots_of_push(
                        st.out,
                        ItemV::ClassDef(ClassDefV { def: d, methods: Seq::empty() }),
                    );
                } else {
                    lemma_roots_of_push(st.out, ItemV::Def(d));
                }
            },
            ItemV::Methods(m) => {
                match m.class {
                    TypeSpecV::Simple(name) => {
                        match map_find(st.map, name) {
                            Some(pos) => {
                                if 0 <= pos < st.out.len() && st.out[pos] is ClassDef {
                                    lemma_roots_of_update(
                                        st.out,
                                        pos,
                                        ItemV::ClassDef(
                                            ClassDefV {
                                                def: st.out[pos]->ClassDef_0.def,
                                                methods: st.out[pos]->ClassDef_0.methods.push(m),
                                            },
                                        ),
                                    );
                                }
                            },
                            None => {},
                        }
                    },
                    TypeSpecV::Compound(_) => {},
                }
            },
            ItemV::ClassDef(c) => {
                lemma_roots_of_push(st.out, ItemV::ClassDef(c));
            },
            ItemV::Other(x) => {
                lemma_roots_of_push(st.out, ItemV::Other(x));
            },
        }
    }
}

/// How many `Methods` blocks of the input name a class unknown at the
/// moment the pass reaches them.
pub open spec fn unknown_methods_count(items: Seq<ItemV>) -> int
    decreases items.len(),
{
    if items.len() == 0 {
        0
    } else {
        unknown_methods_count(items.drop_last()) + (
        match items.last() {
            ItemV::Methods(m) => match m.class {
                TypeSpecV::Simple(name) => if map_find(
                    link_fold(items.drop_last()).map,
                    name,
                ) is None {
                    1int
                } else {
                    0int
                },
                TypeSpecV::Compound(_) => 0int,
            },
            _ => 0int,
        })
    }
}

/// Error enumeration: the pass raises exactly one diagnostic per
/// `Methods` block that names an unknown class, in source order, and
/// each diagnostic's candidate list is the classes registered when the
/// block was reached.
pub proof fn lemma_linker_errors(items: Seq<ItemV>)
    ensures
        link_fold(items).errs.len() == unknown_methods_count(items),
        forall|k: int|
            0 <= k < link_fold(items).errs.len() ==> exists|j: int|
                {
                    &&& 0 <= j < items.len()
                    &&& (#[trigger] items[j]) is Methods
                    &&& items[j]->Methods_0.class is Simple
                    &&& #[trigger] link_fold(items).errs[k] == (LinkErrV {
                        name: items[j]->Methods_0.class->Simple_0,
                        listed: joined_names(link_fold(items.take(j)).map),
                        loc: items[j]->Methods_0.loc,
                    })
                },
    decreases items.len(),
{
    if items.len() > 0 {
        lemma_linker_errors(items.drop_last());
        let st = link_fold(items.drop_last());
        let st1 = link_fold(items);
        assert(items.take(items.len() - 1) =~= items.drop_last());
        assert forall|k: int| 0 <= k < st1.errs.len() implies exists|j: int|
            {
                &&& 0 <= j < items.len()
                &&& (#[trigger] items[j]) is Methods
                &&& items[j]->Methods_0.class is Simple
                &&& #[trigger] st1.errs[k] == (LinkErrV {
                    name: items[j]->Methods_0.class->Simple_0,
                    listed: joined_names(link_fold(items.take(j)).map),
                    loc: items[j]->Methods_0.loc,
                })
            } by {
            if k < st.errs.len() {
                assert(st1.errs[k] == st.errs[k]);
                let j0 = choose|j: int|
                    {
                        &&& 0 <= j < items.drop_last().len()
                        &&& (#[trigger] items.drop_last()[j]) is Methods
                        &&& items.drop_last()[j]->Methods_0.class is Simple
                        &&& st.errs[k] == (LinkErrV {
                            name: items.drop_last()[j]->Methods_0.class->Simple_0,
                            listed: joined_names(link_fold(items.drop_last().take(j)).map),
                            loc: items.drop_last()[j]->Methods_0.loc,
                        })
                    };
                assert(items[j0] == items.drop_last()[j0]);
                assert(items.drop_last().take(j0) =~= items.take(j0));
            } else {
                assert(items[items.len() - 1] == items.last());
            }
        }
    }
}

} // verus!
