//! Diagnostics of the inference kernel and the lowering pass: the
//! error taxonomy, the structured error record, the accumulator that
//! collects records instead of throwing, and the constructors for each
//! diagnostic this core can raise.

use vstd::prelude::*;

use crate::display::spec_ty_fmt;
use crate::free::FreeStore;
use crate::strutil::concat_str;
use crate::strutil::spec_udec;
use crate::strutil::u64_to_string;
use crate::ty::Type;

verus! {

/// The kind of a diagnostic.
#[derive(Clone, Copy, PartialEq, Eq, Structural, Debug)]
pub enum ErrorKind {
    /// Undefined or misused names.
    NameError,
    /// Declared-vs-actual mismatches and invalid casts.
    TypeError,
    /// Constructs allowed only in interface files.
    SyntaxError,
    /// Re-assignment of an immutable binding.
    AssignError,
    /// Missing attribute on an object or singular value.
    AttributeError,
    /// Access to a private binding from outside.
    VisibilityError,
    /// Inheriting from a non-inheritable class.
    InheritanceError,
    /// File-system errors at the boundary.
    IoError,
    /// Module not found.
    ImportError,
    /// Bindings or expression results never consumed.
    UnusedWarning,
    /// Type-level warnings such as non-single return types.
    TypeWarning,
    /// Name-level warnings such as shadowing a built-in.
    NameWarning,
}

/// A source location.
#[derive(Clone, Copy, PartialEq, Eq, Structural, Debug)]
pub enum Location {
    /// A span from one line and column to another.
    Range { ln_begin: u32, col_begin: u32, ln_end: u32, col_end: u32 },
    /// A whole line.
    Line(u32),
    /// No usable location.
    Unknown,
}

/// Visibility of a binding.
#[derive(Clone, Copy, PartialEq, Eq, Structural, Debug)]
pub enum Visibility {
    /// Reachable only inside the defining scope.
    Private,
    /// Reachable from outside.
    Public,
}

/// The compilation unit a diagnostic belongs to.
#[derive(Debug)]
pub struct Input {
    /// The unit's name, usually its path.
    pub name: String,
}

impl Input {
    /// An input with the given name.
    pub fn new(name: String) -> (r: Self)
        ensures
            r == (Input { name }),
    {
        Input { name }
    }
}

impl Clone for Input {
    /// The copy carries the same name.
    fn clone(&self) -> (r: Self)
        ensures
            r.name@ == self.name@,
    {
        Input { name: self.name.clone() }
    }
}

/// One underlined span of a diagnostic, with optional notes and hint.
#[derive(Debug)]
pub struct SubMessage {
    /// Where the underline sits.
    pub loc: Location,
    /// Extra lines shown beneath the underline.
    pub msgs: Vec<String>,
    /// An optional suggestion.
    pub hint: Option<String>,
}

impl SubMessage {
    /// A span with notes and an optional hint.
    pub fn ambiguous_new(loc: Location, msgs: Vec<String>, hint: Option<String>) -> (r: Self)
        ensures
            r == (SubMessage { loc, msgs, hint }),
    {
        SubMessage { loc, msgs, hint }
    }

    /// A bare span.
    pub fn only_loc(loc: Location) -> (r: Self)
        ensures
            r.loc == loc,
            r.msgs@.len() == 0,
            r.hint is None,
    {
        SubMessage { loc, msgs: Vec::new(), hint: None }
    }
}

/// The structured core of a diagnostic: number, kind, location, main
/// message and underlined sub-messages.
#[derive(Debug)]
pub struct ErrorCore {
    /// The underlined spans.
    pub sub_messages: Vec<SubMessage>,
    /// The headline.
    pub main_message: String,
    /// The error number the caller assigned.
    pub errno: usize,
    /// The kind.
    pub kind: ErrorKind,
    /// The main location.
    pub loc: Location,
}

impl ErrorCore {
    /// Assembles a core record.
    pub fn new(
        sub_messages: Vec<SubMessage>,
        main_message: String,
        errno: usize,
        kind: ErrorKind,
        loc: Location,
    ) -> (r: Self)
        ensures
            r == (ErrorCore { sub_messages, main_message, errno, kind, loc }),
    {
        ErrorCore { sub_messages, main_message, errno, kind, loc }
    }
}

/// A diagnostic of this core: the structured record plus the input it
/// belongs to and the scope that caused it.
#[derive(Debug)]
pub struct CompileError {
    /// The structured record.
    pub core: ErrorCore,
    /// The compilation unit.
    pub input: Input,
    /// The enclosing scope's description.
    pub caused_by: String,
}

/// Diagnostics raised while lowering; they share the compile-error
/// record.
pub type LowerError = CompileError;

/// Warnings share the same record as errors.
pub type LowerWarning = LowerError;

impl CompileError {
    /// Assembles a diagnostic.
    pub fn new(core: ErrorCore, input: Input, caused_by: String) -> (r: Self)
        ensures
            r == (CompileError { core, input, caused_by }),
    {
        CompileError { core, input, caused_by }
    }
}

/// The diagnostics of `s` that do not belong to the named input, in
/// order.
pub open spec fn spec_without_input(s: Seq<CompileError>, name: Seq<char>) -> Seq<CompileError>
    decreases s.len(),
{
    if s.len() == 0 {
        Seq::<CompileError>::empty()
    } else if s[0].input.name@ != name {
        seq![s[0]] + spec_without_input(s.drop_first(), name)
    } else {
        spec_without_input(s.drop_first(), name)
    }
}

/// An ordered accumulator of diagnostics: passes push into it and
/// return it instead of throwing.
#[derive(Debug)]
pub struct CompileErrors {
    /// The records, in the order they were raised.
    pub errors: Vec<CompileError>,
}

/// Accumulated lowering diagnostics.
pub type LowerErrors = CompileErrors;

/// Accumulated lowering warnings.
pub type LowerWarnings = LowerErrors;

impl CompileErrors {
    /// An empty accumulator.
    pub fn new() -> (r: Self)
        ensures
            r.errors@.len() == 0,
    {
        CompileErrors { errors: Vec::new() }
    }

    /// An empty accumulator.
    pub fn empty() -> (r: Self)
        ensures
            r.errors@.len() == 0,
    {
        CompileErrors { errors: Vec::new() }
    }

    /// Appends one diagnostic.
    pub fn push(&mut self, error: CompileError)
        ensures
            final(self).errors@ == old(self).errors@.push(error),
    {
        self.errors.push(error);
    }

    /// Appends every diagnostic of another accumulator, in order.
    pub fn extend(&mut self, errors: CompileErrors)
        ensures
            final(self).errors@ == old(self).errors@ + errors.errors@,
    {
        let mut rest = errors;
        self.errors.append(&mut rest.errors);
    }

    /// How many diagnostics were raised.
    pub fn len(&self) -> (r: usize)
        ensures
            r == self.errors@.len(),
    {
        self.errors.len()
    }

    /// Whether none were raised.
    pub fn is_empty(&self) -> (r: bool)
        ensures
            r == (self.errors@.len() == 0),
    {
        self.errors.len() == 0
    }

    /// The diagnostic at position `i`.
    pub fn get(&self, i: usize) -> (r: &CompileError)
        requires
            i < self.errors@.len(),
        ensures
            *r == self.errors@[i as int],
    {
        &self.errors[i]
    }

    /// Takes every accumulated diagnostic out, leaving the accumulator
    /// empty.
    pub fn take(&mut self) -> (r: CompileErrors)
        ensures
            r.errors@ == old(self).errors@,
            final(self).errors@.len() == 0,
    {
        let mut out: Vec<CompileError> = Vec::new();
        core::mem::swap(&mut self.errors, &mut out);
        CompileErrors { errors: out }
    }

    /// Discards every accumulated diagnostic.
    pub fn clear(&mut self)
        ensures
            final(self).errors@.len() == 0,
    {
        self.errors = Vec::new();
    }

    /// Drops every diagnostic belonging to the named input; the rest
    /// keep their order.
    pub fn remove(&mut self, input_name: &str)
        ensures
            final(self).errors@ == spec_without_input(old(self).errors@, input_name@),
    {
        let mut kept: Vec<CompileError> = Vec::new();
        let ghost all = self.errors@;
        while self.errors.len() > 0
            invariant
                kept@ + spec_without_input(self.errors@, input_name@) == spec_without_input(
                    all,
                    input_name@,
                ),
            decreases self.errors.len(),
        {
            let ghost before = self.errors@;
            let e = self.errors.remove(0);
            proof {
                assert(before.drop_first() =~= self.errors@);
            }
            let keep = !string_eq_str(&e.input.name, input_name);
            if keep {
                proof {
                    assert((kept@.push(e)) + spec_without_input(self.errors@, input_name@) =~= kept@
                        + spec_without_input(before, input_name@));
                }
                kept.push(e);
            }
        }
        proof {
            assert(spec_without_input(self.errors@, input_name@) =~= Seq::<CompileError>::empty());
            assert(kept@ =~= spec_without_input(all, input_name@));
        }
        self.errors = kept;
    }
}

/// Headline of an unused-expression warning.
pub open spec fn unused_expr_msg(t: Seq<char>) -> Seq<char> {
    "the evaluation result of the expression (: "@ + t + ") is not used"@
}

/// Hint of an unused-expression warning.
pub open spec fn unused_expr_hint() -> Seq<char> {
    "if you don't use the value, use discard function"@
}

/// Headline of a duplicate-declaration error.
pub open spec fn duplicate_decl_msg(name: Seq<char>) -> Seq<char> {
    name + " is already declared"@
}

/// Headline of a duplicate-definition error.
pub open spec fn duplicate_definition_msg(name: Seq<char>) -> Seq<char> {
    name + " is already defined"@
}

/// Headline of a violated-declaration error.
pub open spec fn violate_decl_msg(name: Seq<char>, expect: Seq<char>, found: Seq<char>) -> Seq<
    char,
> {
    name + " was declared as "@ + expect + ", but an "@ + found + " object is assigned"@
}

/// Headline of an undefined-variable error.
pub open spec fn no_var_msg(name: Seq<char>) -> Seq<char> {
    name + " is not defined"@
}

/// Hint proposing a variable with a similar name.
pub open spec fn similar_var_hint(n: Seq<char>) -> Seq<char> {
    "exists a similar name variable: "@ + n
}

/// Headline of an access-before-definition error.
pub open spec fn access_before_def_msg(name: Seq<char>, defined_line: nat) -> Seq<char> {
    "cannot access "@ + name + " before its definition (line "@ + spec_udec(defined_line) + ")"@
}

/// Headline of an access-to-deleted-variable error.
pub open spec fn access_deleted_var_msg(name: Seq<char>, del_line: nat) -> Seq<char> {
    "cannot access deleted variable "@ + name + " (deleted at line "@ + spec_udec(del_line) + ")"@
}

/// Headline of an undefined-type error.
pub open spec fn no_type_msg(name: Seq<char>) -> Seq<char> {
    "Type "@ + name + " is not defined"@
}

/// Hint proposing a type with a similar name.
pub open spec fn similar_type_hint(n: Seq<char>) -> Seq<char> {
    "exists a similar name type: "@ + n
}

/// Hint of an internal type-not-found error.
pub open spec fn report_bug_hint() -> Seq<char> {
    "this may be a compiler bug, please report it"@
}

/// Headline of a missing-attribute error.
pub open spec fn no_attr_msg(obj_t: Seq<char>, name: Seq<char>) -> Seq<char> {
    obj_t + " object has no attribute "@ + name
}

/// Hint proposing an attribute with a similar name.
pub open spec fn similar_attr_hint(n: Seq<char>) -> Seq<char> {
    "has a similar name attribute: "@ + n
}

/// Headline of a missing-attribute error on a singular value.
pub open spec fn singular_no_attr_msg(
    obj_name: Seq<char>,
    obj_t: Seq<char>,
    name: Seq<char>,
) -> Seq<char> {
    obj_name + "(: "@ + obj_t + ") has no attribute "@ + name
}

/// Headline of a re-assignment error.
pub open spec fn reassign_msg(name: Seq<char>) -> Seq<char> {
    "variable "@ + name + " cannot be assigned more than once"@
}

/// Headline of a deletion error.
pub open spec fn del_msg(is_const: bool, name: Seq<char>) -> Seq<char> {
    (if is_const {
        "constant "@
    } else {
        "built-in variable "@
    }) + name + " cannot be deleted"@
}

/// Headline of a visibility error.
pub open spec fn visibility_msg(name: Seq<char>, vis: Visibility) -> Seq<char> {
    name + " is "@ + (if vis is Private {
        "private"@
    } else {
        "public"@
    }) + " variable"@
}

/// Headline of an override-without-permission error.
pub open spec fn override_msg(name: Seq<char>, superclass: Seq<char>) -> Seq<char> {
    name + " is already defined in "@ + superclass
}

/// Note under an override error.
pub open spec fn override_submsg() -> Seq<char> {
    "cannot override by default"@
}

/// Hint of an override error.
pub open spec fn override_hint() -> Seq<char> {
    "use @Override decorator"@
}

/// Headline of an inheritance error.
pub open spec fn inheritance_msg(class: Seq<char>) -> Seq<char> {
    class + " is not inheritable"@
}

/// Headline of a module-environment error.
pub open spec fn module_env_msg(mod_name: Seq<char>) -> Seq<char> {
    "module "@ + mod_name + " is not supported in your environment"@
}

/// Note proposing a similarly named module of this language.
pub open spec fn similar_erg_mod_msg(m: Seq<char>) -> Seq<char> {
    "similar name erg module exists: "@ + m
}

/// Note proposing a similarly named module of the interop target.
pub open spec fn similar_py_mod_msg(m: Seq<char>) -> Seq<char> {
    "similar name python module exists: "@ + m
}

/// Hint for importing interop modules.
pub open spec fn pyimport_hint() -> Seq<char> {
    "to import python modules, use pyimport"@
}

/// Headline of an inner-type-definition error.
pub open spec fn inner_typedef_msg() -> Seq<char> {
    "types must be defined at the top level"@
}

/// Headline of a declaration-outside-interface error.
pub open spec fn declare_msg() -> Seq<char> {
    "declarations and alias definitions are only allowed in d.er files"@
}

/// Headline of an invalid-cast error.
pub open spec fn invalid_type_cast_msg(name: Seq<char>, cast_to: Seq<char>) -> Seq<char> {
    "the type of "@ + name + " cannot be cast to "@ + cast_to
}

/// Headline of an unused-binding warning.
pub open spec fn unused_msg(name: Seq<char>) -> Seq<char> {
    name + " is not used"@
}

/// Headline of a non-single-return-type warning.
pub open spec fn union_return_type_msg(fn_name: Seq<char>) -> Seq<char> {
    "the return type of function "@ + fn_name + " is not single"@
}

/// Hint of a non-single-return-type warning.
pub open spec fn union_return_type_hint(fn_name: Seq<char>, t: Seq<char>) -> Seq<char> {
    "please explicitly specify the return type of function "@ + fn_name + ", for example `"@
        + fn_name + "(...): "@ + t + " = ...`"@
}

/// Headline of a shadowed-built-in warning.
pub open spec fn builtin_exists_msg(name: Seq<char>) -> Seq<char> {
    "a built-in function named "@ + name + " already exists"@
}

/// The shared shape of the diagnostics below: one sub-message at the
/// main location, without notes.
pub open spec fn simple_error_shape(
    r: CompileError,
    errno: usize,
    kind: ErrorKind,
    loc: Location,
) -> bool {
    &&& r.core.errno == errno
    &&& r.core.kind == kind
    &&& r.core.loc == loc
    &&& r.core.sub_messages@.len() == 1
    &&& r.core.sub_messages@[0].loc == loc
    &&& r.core.sub_messages@[0].msgs@.len() == 0
}

/// One note-free sub-message.
fn one_sub(loc: Location, hint: Option<String>) -> (r: Vec<SubMessage>)
    ensures
        r@.len() == 1,
        r@[0].loc == loc,
        r@[0].msgs@.len() == 0,
        r@[0].hint == hint,
{
    let mut subs: Vec<SubMessage> = Vec::new();
    subs.push(SubMessage::ambiguous_new(loc, Vec::new(), hint));
    subs
}

impl LowerError {
    /// A syntax error with a caller-supplied description and hint.
    pub fn syntax_error(
        input: Input,
        errno: usize,
        loc: Location,
        caused_by: String,
        desc: String,
        hint: Option<String>,
    ) -> (r: Self)
        ensures
            simple_error_shape(r, errno, ErrorKind::SyntaxError, loc),
            r.core.main_message == desc,
            r.core.sub_messages@[0].hint == hint,
            r.input == input,
            r.caused_by == caused_by,
    {
        let subs = one_sub(loc, hint);
        CompileError::new(
            ErrorCore::new(subs, desc, errno, ErrorKind::SyntaxError, loc),
            input,
            caused_by,
        )
    }

    /// The value of an expression is never consumed; `expr_t` is the
    /// expression's type and `loc` its location.
    pub fn unused_expr_warning(
        input: Input,
        errno: usize,
        s: &FreeStore,
        expr_t: &Type,
        loc: Location,
        caused_by: String,
    ) -> (r: Self)
        ensures
            simple_error_shape(r, errno, ErrorKind::UnusedWarning, loc),
            r.core.main_message@ == unused_expr_msg(
                spec_ty_fmt(*s, *expr_t, crate::display::DEFAULT_FMT_LIMIT as nat, false),
            ),
            r.core.sub_messages@[0].hint is Some,
            r.core.sub_messages@[0].hint.unwrap()@ == unused_expr_hint(),
            r.input == input,
            r.caused_by == caused_by,
    {
        let t = expr_t.limited_fmt(s, crate::display::DEFAULT_FMT_LIMIT, false);
        let mut main = String::from_str("the evaluation result of the expression (: ");
        main.append(t.as_str());
        main.append(") is not used");
        let hint = Some(String::from_str("if you don't use the value, use discard function"));
        let subs = one_sub(loc, hint);
        CompileError::new(
            ErrorCore::new(subs, main, errno, ErrorKind::UnusedWarning, loc),
            input,
            caused_by,
        )
    }

    /// The name was already declared.
    pub fn duplicate_decl_error(
        input: Input,
        errno: usize,
        loc: Location,
        caused_by: String,
        name: &str,
    ) -> (r: Self)
        ensures
            simple_error_shape(r, errno, ErrorKind::NameError, loc),
            r.core.main_message@ == duplicate_decl_msg(name@),
            r.core.sub_messages@[0].hint is None,
            r.input == input,
            r.caused_by == caused_by,
    {
        let main = concat_str(String::from_str(name), " is already declared");
        let subs = one_sub(loc, None);
        CompileError::new(
            ErrorCore::new(subs, main, errno, ErrorKind::NameError, loc),
            input,
            caused_by,
        )
    }

    /// The name was already defined.
    pub fn duplicate_definition_error(
        input: Input,
        errno: usize,
        loc: Location,
        caused_by: String,
        name: &str,
    ) -> (r: Self)
        ensures
            simple_error_shape(r, errno, ErrorKind::NameError, loc),
            r.core.main_message@ == duplicate_definition_msg(name@),
            r.core.sub_messages@[0].hint is None,
            r.input == input,
            r.caused_by == caused_by,
    {
        let main = concat_str(String::from_str(name), " is already defined");
        let subs = one_sub(loc, None);
        CompileError::new(
            ErrorCore::new(subs, main, errno, ErrorKind::NameError, loc),
            input,
            caused_by,
        )
    }

    /// A binding violates its declared type.
    pub fn violate_decl_error(
        input: Input,
        errno: usize,
        loc: Location,
        caused_by: String,
        name: &str,
        s: &FreeStore,
        spec_t: &Type,
        found_t: &Type,
    ) -> (r: Self)
        ensures
            simple_error_shape(r, errno, ErrorKind::TypeError, loc),
            r.core.main_message@ == violate_decl_msg(
                name@,
                spec_ty_fmt(*s, *spec_t, crate::display::DEFAULT_FMT_LIMIT as nat, false),
                spec_ty_fmt(*s, *found_t, crate::display::DEFAULT_FMT_LIMIT as nat, false),
            ),
            r.core.sub_messages@[0].hint is None,
            r.input == input,
            r.caused_by == caused_by,
    {
        let expect = spec_t.limited_fmt(s, crate::display::DEFAULT_FMT_LIMIT, false);
        let found = found_t.limited_fmt(s, crate::display::DEFAULT_FMT_LIMIT, false);
        let mut main = String::from_str(name);
        main.append(" was declared as ");
        main.append(expect.as_str());
        main.append(", but an ");
        main.append(found.as_str());
        main.append(" object is assigned");
        let subs = one_sub(loc, None);
        CompileError::new(
            ErrorCore::new(subs, main, errno, ErrorKind::TypeError, loc),
            input,
            caused_by,
        )
    }

    /// The variable is not defined; the hint may propose a similar
    /// name.
    pub fn no_var_error(
        input: Input,
        errno: usize,
        loc: Location,
        caused_by: String,
        name: &str,
        similar_name: Option<&str>,
    ) -> (r: Self)
        ensures
            simple_error_shape(r, errno, ErrorKind::NameError, loc),
            r.core.main_message@ == no_var_msg(name@),
            r.core.sub_messages@[0].hint is Some <==> similar_name is Some,
            similar_name is Some ==> r.core.sub_messages@[0].hint.unwrap()@ == similar_var_hint(
                similar_name.unwrap()@,
            ),
            r.input == input,
            r.caused_by == caused_by,
    {
        let hint: Option<String> = match similar_name {
            Some(n) => Some(concat_str(String::from_str("exists a similar name variable: "), n)),
            None => None,
        };
        let main = concat_str(String::from_str(name), " is not defined");
        let subs = one_sub(loc, hint);
        CompileError::new(
            ErrorCore::new(subs, main, errno, ErrorKind::NameError, loc),
            input,
            caused_by,
        )
    }

    /// The variable is referenced before the line that defines it.
    pub fn access_before_def_error(
        input: Input,
        errno: usize,
        loc: Location,
        caused_by: String,
        name: &str,
        defined_line: u32,
        similar_name: Option<&str>,
    ) -> (r: Self)
        ensures
            simple_error_shape(r, errno, ErrorKind::NameError, loc),
            r.core.main_message@ == access_before_def_msg(name@, defined_line as nat),
            r.core.sub_messages@[0].hint is Some <==> similar_name is Some,
            similar_name is Some ==> r.core.sub_messages@[0].hint.unwrap()@ == similar_var_hint(
                similar_name.unwrap()@,
            ),
            r.input == input,
            r.caused_by == caused_by,
    {
        let hint: Option<String> = match similar_name {
            Some(n) => Some(concat_str(String::from_str("exists a similar name variable: "), n)),
            None => None,
        };
        let line = u64_to_string(defined_line as u64);
        let mut main = String::from_str("cannot access ");
        main.append(name);
        main.append(" before its definition (line ");
        main.append(line.as_str());
        main.append(")");
        let subs = one_sub(loc, hint);
        CompileError::new(
            ErrorCore::new(subs, main, errno, ErrorKind::NameError, loc),
            input,
            caused_by,
        )
    }

    /// The variable was deleted at the given line.
    pub fn access_deleted_var_error(
        input: Input,
        errno: usize,
        loc: Location,
        caused_by: String,
        name: &str,
        del_line: u32,
        similar_name: Option<&str>,
    ) -> (r: Self)
        ensures
            simple_error_shape(r, errno, ErrorKind::NameError, loc),
            r.core.main_message@ == access_deleted_var_msg(name@, del_line as nat),
            r.core.sub_messages@[0].hint is Some <==> similar_name is Some,
            similar_name is Some ==> r.core.sub_messages@[0].hint.unwrap()@ == similar_var_hint(
                similar_name.unwrap()@,
            ),
            r.input == input,
            r.caused_by == caused_by,
    {
        let hint: Option<String> = match similar_name {
            Some(n) => Some(concat_str(String::from_str("exists a similar name variable: "), n)),
            None => None,
        };
        let line = u64_to_string(del_line as u64);
        let mut main = String::from_str("cannot access deleted variable ");
        main.append(name);
        main.append(" (deleted at line ");
        main.append(line.as_str());
        main.append(")");
        let subs = one_sub(loc, hint);
        CompileError::new(
            ErrorCore::new(subs, main, errno, ErrorKind::NameError, loc),
            input,
            caused_by,
        )
    }

    /// The type name is not defined.
    pub fn no_type_error(
        input: Input,
        errno: usize,
        loc: Location,
        caused_by: String,
        name: &str,
        similar_name: Option<&str>,
    ) -> (r: Self)
        ensures
            simple_error_shape(r, errno, ErrorKind::NameError, loc),
            r.core.main_message@ == no_type_msg(name@),
            r.core.sub_messages@[0].hint is Some <==> similar_name is Some,
            similar_name is Some ==> r.core.sub_messages@[0].hint.unwrap()@ == similar_type_hint(
                similar_name.unwrap()@,
            ),
            r.input == input,
            r.caused_by == caused_by,
    {
        let hint: Option<String> = match similar_name {
            Some(n) => Some(concat_str(String::from_str("exists a similar name type: "), n)),
            None => None,
        };
        let mut main = String::from_str("Type ");
        main.append(name);
        main.append(" is not defined");
        let subs = one_sub(loc, hint);
        CompileError::new(
            ErrorCore::new(subs, main, errno, ErrorKind::NameError, loc),
            input,
            caused_by,
        )
    }

    /// A type term could not be resolved; this points at an internal
    /// inconsistency, so the hint asks for a report.
    pub fn type_not_found(
        input: Input,
        errno: usize,
        loc: Location,
        caused_by: String,
        s: &FreeStore,
        typ: &Type,
    ) -> (r: Self)
        ensures
            simple_error_shape(r, errno, ErrorKind::NameError, loc),
            r.core.main_message@ == no_type_msg(
                spec_ty_fmt(*s, *typ, crate::display::DEFAULT_FMT_LIMIT as nat, false),
            ),
            r.core.sub_messages@[0].hint is Some,
            r.core.sub_messages@[0].hint.unwrap()@ == report_bug_hint(),
            r.input == input,
            r.caused_by == caused_by,
    {
        let t = typ.limited_fmt(s, crate::display::DEFAULT_FMT_LIMIT, false);
        let mut main = String::from_str("Type ");
        main.append(t.as_str());
        main.append(" is not defined");
        let hint = Some(String::from_str("this may be a compiler bug, please report it"));
        let subs = one_sub(loc, hint);
        CompileError::new(
            ErrorCore::new(subs, main, errno, ErrorKind::NameError, loc),
            input,
            caused_by,
        )
    }

    /// The object has no attribute of that name.
    pub fn no_attr_error(
        input: Input,
        errno: usize,
        loc: Location,
        caused_by: String,
        s: &FreeStore,
        obj_t: &Type,
        name: &str,
        similar_name: Option<&str>,
    ) -> (r: Self)
        ensures
            simple_error_shape(r, errno, ErrorKind::AttributeError, loc),
            r.core.main_message@ == no_attr_msg(
                spec_ty_fmt(*s, *obj_t, crate::display::DEFAULT_FMT_LIMIT as nat, false),
                name@,
            ),
            r.core.sub_messages@[0].hint is Some <==> similar_name is Some,
            similar_name is Some ==> r.core.sub_messages@[0].hint.unwrap()@ == similar_attr_hint(
                similar_name.unwrap()@,
            ),
            r.input == input,
            r.caused_by == caused_by,
    {
        let hint: Option<String> = match similar_name {
            Some(n) => Some(concat_str(String::from_str("has a similar name attribute: "), n)),
            None => None,
        };
        let t = obj_t.limited_fmt(s, crate::display::DEFAULT_FMT_LIMIT, false);
        let mut main = t;
        main.append(" object has no attribute ");
        main.append(name);
        let subs = one_sub(loc, hint);
        CompileError::new(
            ErrorCore::new(subs, main, errno, ErrorKind::AttributeError, loc),
            input,
            caused_by,
        )
    }

    /// A singular value has no attribute of that name.
    pub fn singular_no_attr_error(
        input: Input,
        errno: usize,
        loc: Location,
        caused_by: String,
        obj_name: &str,
        s: &FreeStore,
        obj_t: &Type,
        name: &str,
        similar_name: Option<&str>,
    ) -> (r: Self)
        ensures
            simple_error_shape(r, errno, ErrorKind::AttributeError, loc),
            r.core.main_message@ == singular_no_attr_msg(
                obj_name@,
                spec_ty_fmt(*s, *obj_t, crate::display::DEFAULT_FMT_LIMIT as nat, false),
                name@,
            ),
            r.core.sub_messages@[0].hint is Some <==> similar_name is Some,
            similar_name is Some ==> r.core.sub_messages@[0].hint.unwrap()@ == similar_attr_hint(
                similar_name.unwrap()@,
            ),
            r.input == input,
            r.caused_by == caused_by,
    {
        let hint: Option<String> = match similar_name {
            Some(n) => Some(concat_str(String::from_str("has a similar name attribute: "), n)),
            None => None,
        };
        let t = obj_t.limited_fmt(s, crate::display::DEFAULT_FMT_LIMIT, false);
        let mut main = String::from_str(obj_name);
        main.append("(: ");
        main.append(t.as_str());
        main.append(") has no attribute ");
        main.append(name);
        let subs = one_sub(loc, hint);
        CompileError::new(
            ErrorCore::new(subs, main, errno, ErrorKind::AttributeError, loc),
            input,
            caused_by,
        )
    }

    /// The immutable binding is assigned a second time.
    pub fn reassign_error(
        input: Input,
        errno: usize,
        loc: Location,
        caused_by: String,
        name: &str,
    ) -> (r: Self)
        ensures
            simple_error_shape(r, errno, ErrorKind::AssignError, loc),
            r.core.main_message@ == reassign_msg(name@),
            r.core.sub_messages@[0].hint is None,
            r.input == input,
            r.caused_by == caused_by,
    {
        let mut main = String::from_str("variable ");
        main.append(name);
        main.append(" cannot be assigned more than once");
        let subs = one_sub(loc, None);
        CompileError::new(
            ErrorCore::new(subs, main, errno, ErrorKind::AssignError, loc),
            input,
            caused_by,
        )
    }

    /// A constant or built-in variable cannot be deleted.
    pub fn del_error(
        input: Input,
        errno: usize,
        name: &str,
        loc: Location,
        is_const: bool,
        caused_by: String,
    ) -> (r: Self)
        ensures
            simple_error_shape(r, errno, ErrorKind::NameError, loc),
            r.core.main_message@ == del_msg(is_const, name@),
            r.core.sub_messages@[0].hint is None,
            r.input == input,
            r.caused_by == caused_by,
    {
        let mut main = if is_const {
            String::from_str("constant ")
        } else {
            String::from_str("built-in variable ")
        };
        main.append(name);
        main.append(" cannot be deleted");
        let subs = one_sub(loc, None);
        CompileError::new(
            ErrorCore::new(subs, main, errno, ErrorKind::NameError, loc),
            input,
            caused_by,
        )
    }

    /// The binding is not visible from the access site.
    pub fn visibility_error(
        input: Input,
        errno: usize,
        loc: Location,
        caused_by: String,
        name: &str,
        vis: Visibility,
    ) -> (r: Self)
        ensures
            simple_error_shape(r, errno, ErrorKind::VisibilityError, loc),
            r.core.main_message@ == visibility_msg(name@, vis),
            r.core.sub_messages@[0].hint is None,
            r.input == input,
            r.caused_by == caused_by,
    {
        let mut main = String::from_str(name);
        main.append(" is ");
        match vis {
            Visibility::Private => main.append("private"),
            Visibility::Public => main.append("public"),
        }
        main.append(" variable");
        let subs = one_sub(loc, None);
        CompileError::new(
            ErrorCore::new(subs, main, errno, ErrorKind::VisibilityError, loc),
            input,
            caused_by,
        )
    }

    /// The method is already defined in a superclass and may not be
    /// overridden silently.
    pub fn override_error(
        input: Input,
        errno: usize,
        name: &str,
        name_loc: Location,
        s: &FreeStore,
        superclass: &Type,
        caused_by: String,
    ) -> (r: Self)
        ensures
            r.core.errno == errno,
            r.core.kind == ErrorKind::NameError,
            r.core.loc == name_loc,
            r.core.main_message@ == override_msg(
                name@,
                spec_ty_fmt(*s, *superclass, crate::display::DEFAULT_FMT_LIMIT as nat, false),
            ),
            r.core.sub_messages@.len() == 1,
            r.core.sub_messages@[0].loc == name_loc,
            r.core.sub_messages@[0].msgs@.len() == 1,
            r.core.sub_messages@[0].msgs@[0]@ == override_submsg(),
            r.core.sub_messages@[0].hint is Some,
            r.core.sub_messages@[0].hint.unwrap()@ == override_hint(),
            r.input == input,
            r.caused_by == caused_by,
    {
        let sup = superclass.limited_fmt(s, crate::display::DEFAULT_FMT_LIMIT, false);
        let mut main = String::from_str(name);
        main.append(" is already defined in ");
        main.append(sup.as_str());
        let mut notes: Vec<String> = Vec::new();
        notes.push(String::from_str("cannot override by default"));
        let hint = Some(String::from_str("use @Override decorator"));
        let mut subs: Vec<SubMessage> = Vec::new();
        subs.push(SubMessage::ambiguous_new(name_loc, notes, hint));
        CompileError::new(
            ErrorCore::new(subs, main, errno, ErrorKind::NameError, name_loc),
            input,
            caused_by,
        )
    }

    /// The class is not inheritable.
    pub fn inheritance_error(
        input: Input,
        errno: usize,
        class: String,
        loc: Location,
        caused_by: String,
    ) -> (r: Self)
        ensures
            simple_error_shape(r, errno, ErrorKind::InheritanceError, loc),
            r.core.main_message@ == inheritance_msg(class@),
            r.core.sub_messages@[0].hint is None,
            r.input == input,
            r.caused_by == caused_by,
    {
        let main = concat_str(class, " is not inheritable");
        let subs = one_sub(loc, None);
        CompileError::new(
            ErrorCore::new(subs, main, errno, ErrorKind::InheritanceError, loc),
            input,
            caused_by,
        )
    }

    /// A file-system error at the boundary.
    pub fn file_error(
        input: Input,
        errno: usize,
        desc: String,
        loc: Location,
        caused_by: String,
        hint: Option<String>,
    ) -> (r: Self)
        ensures
            simple_error_shape(r, errno, ErrorKind::IoError, loc),
            r.core.main_message == desc,
            r.core.sub_messages@[0].hint == hint,
            r.input == input,
            r.caused_by == caused_by,
    {
        let subs = one_sub(loc, hint);
        CompileError::new(
            ErrorCore::new(subs, desc, errno, ErrorKind::IoError, loc),
            input,
            caused_by,
        )
    }

    /// The module is not supported in this environment.
    pub fn module_env_error(
        input: Input,
        errno: usize,
        mod_name: &str,
        loc: Location,
        caused_by: String,
    ) -> (r: Self)
        ensures
            simple_error_shape(r, errno, ErrorKind::IoError, loc),
            r.core.main_message@ == module_env_msg(mod_name@),
            r.core.sub_messages@[0].hint is None,
            r.input == input,
            r.caused_by == caused_by,
    {
        let mut desc = String::from_str("module ");
        desc.append(mod_name);
        desc.append(" is not supported in your environment");
        Self::file_error(input, errno, desc, loc, caused_by, None)
    }

    /// The module was not found; notes may propose similarly named
    /// modules of this language or of the interop target, and a hint
    /// explains how to import the latter.
    pub fn import_error(
        input: Input,
        errno: usize,
        desc: String,
        loc: Location,
        caused_by: String,
        similar_erg_mod: Option<String>,
        similar_py_mod: Option<String>,
    ) -> (r: Self)
        ensures
            r.core.errno == errno,
            r.core.kind == ErrorKind::ImportError,
            r.core.loc == loc,
            r.core.main_message == desc,
            r.core.sub_messages@.len() == 1,
            r.core.sub_messages@[0].loc == loc,
            similar_erg_mod is Some && similar_py_mod is Some ==> {
                &&& r.core.sub_messages@[0].msgs@.len() == 2
                &&& r.core.sub_messages@[0].msgs@[0]@ == similar_erg_mod_msg(
                    similar_erg_mod.unwrap()@,
                )
                &&& r.core.sub_messages@[0].msgs@[1]@ == similar_py_mod_msg(
                    similar_py_mod.unwrap()@,
                )
                &&& r.core.sub_messages@[0].hint is Some
                &&& r.core.sub_messages@[0].hint.unwrap()@ == pyimport_hint()
            },
            similar_erg_mod is Some && similar_py_mod is None ==> {
                &&& r.core.sub_messages@[0].msgs@.len() == 1
                &&& r.core.sub_messages@[0].msgs@[0]@ == similar_erg_mod_msg(
                    similar_erg_mod.unwrap()@,
                )
                &&& r.core.sub_messages@[0].hint is None
            },
            similar_erg_mod is None && similar_py_mod is Some ==> {
                &&& r.core.sub_messages@[0].msgs@.len() == 1
                &&& r.core.sub_messages@[0].msgs@[0]@ == similar_py_mod_msg(
                    similar_py_mod.unwrap()@,
                )
                &&& r.core.sub_messages@[0].hint is Some
                &&& r.core.sub_messages@[0].hint.unwrap()@ == pyimport_hint()
            },
            similar_erg_mod is None && similar_py_mod is None ==> {
                &&& r.core.sub_messages@[0].msgs@.len() == 0
                &&& r.core.sub_messages@[0].hint is None
            },
            r.input == input,
            r.caused_by == caused_by,
    {
        let mut msgs: Vec<String> = Vec::new();
        let mut hint: Option<String> = None;
        match (similar_erg_mod, similar_py_mod) {
            (Some(erg), Some(py)) => {
                msgs.push(concat_str(String::from_str("similar name erg module exists: "), erg.as_str()));
                msgs.push(concat_str(String::from_str("similar name python module exists: "), py.as_str()));
                hint = Some(String::from_str("to import python modules, use pyimport"));
            },
            (Some(erg), None) => {
                msgs.push(concat_str(String::from_str("similar name erg module exists: "), erg.as_str()));
            },
            (None, Some(py)) => {
                msgs.push(concat_str(String::from_str("similar name python module exists: "), py.as_str()));
                hint = Some(String::from_str("to import python modules, use pyimport"));
            },
            (None, None) => {},
        }
        let mut subs: Vec<SubMessage> = Vec::new();
        subs.push(SubMessage::ambiguous_new(loc, msgs, hint));
        CompileError::new(
            ErrorCore::new(subs, desc, errno, ErrorKind::ImportError, loc),
            input,
            caused_by,
        )
    }

    /// Types must be defined at the top level.
    pub fn inner_typedef_error(
        input: Input,
        errno: usize,
        loc: Location,
        caused_by: String,
    ) -> (r: Self)
        ensures
            simple_error_shape(r, errno, ErrorKind::TypeError, loc),
            r.core.main_message@ == inner_typedef_msg(),
            r.core.sub_messages@[0].hint is None,
            r.input == input,
            r.caused_by == caused_by,
    {
        let main = String::from_str("types must be defined at the top level");
        let subs = one_sub(loc, None);
        CompileError::new(
            ErrorCore::new(subs, main, errno, ErrorKind::TypeError, loc),
            input,
            caused_by,
        )
    }

    /// Only declarations and alias definitions are allowed in an
    /// interface file.
    pub fn declare_error(input: Input, errno: usize, loc: Location, caused_by: String) -> (r: Self)
        ensures
            simple_error_shape(r, errno, ErrorKind::SyntaxError, loc),
            r.core.main_message@ == declare_msg(),
            r.core.sub_messages@[0].hint is None,
            r.input == input,
            r.caused_by == caused_by,
    {
        let main = String::from_str(
            "declarations and alias definitions are only allowed in d.er files",
        );
        let subs = one_sub(loc, None);
        CompileError::new(
            ErrorCore::new(subs, main, errno, ErrorKind::SyntaxError, loc),
            input,
            caused_by,
        )
    }

    /// The value cannot be cast to the requested type.
    pub fn invalid_type_cast_error(
        input: Input,
        errno: usize,
        loc: Location,
        caused_by: String,
        name: &str,
        s: &FreeStore,
        cast_to: &Type,
        hint: Option<String>,
    ) -> (r: Self)
        ensures
            simple_error_shape(r, errno, ErrorKind::TypeError, loc),
            r.core.main_message@ == invalid_type_cast_msg(
                name@,
                spec_ty_fmt(*s, *cast_to, crate::display::DEFAULT_FMT_LIMIT as nat, false),
            ),
            r.core.sub_messages@[0].hint == hint,
            r.input == input,
            r.caused_by == caused_by,
    {
        let t = cast_to.limited_fmt(s, crate::display::DEFAULT_FMT_LIMIT, false);
        let mut main = String::from_str("the type of ");
        main.append(name);
        main.append(" cannot be cast to ");
        main.append(t.as_str());
        let subs = one_sub(loc, hint);
        CompileError::new(
            ErrorCore::new(subs, main, errno, ErrorKind::TypeError, loc),
            input,
            caused_by,
        )
    }
}

impl LowerWarning {
    /// The binding is never used.
    pub fn unused_warning(
        input: Input,
        errno: usize,
        loc: Location,
        name: &str,
        caused_by: String,
    ) -> (r: Self)
        ensures
            simple_error_shape(r, errno, ErrorKind::UnusedWarning, loc),
            r.core.main_message@ == unused_msg(name@),
            r.core.sub_messages@[0].hint is None,
            r.input == input,
            r.caused_by == caused_by,
    {
        let main = concat_str(String::from_str(name), " is not used");
        let subs = one_sub(loc, None);
        CompileError::new(
            ErrorCore::new(subs, main, errno, ErrorKind::UnusedWarning, loc),
            input,
            caused_by,
        )
    }

    /// The function's return type is a union; the hint shows how to
    /// pin it down.
    pub fn union_return_type_warning(
        input: Input,
        errno: usize,
        loc: Location,
        caused_by: String,
        fn_name: &str,
        s: &FreeStore,
        typ: &Type,
    ) -> (r: Self)
        ensures
            simple_error_shape(r, errno, ErrorKind::TypeWarning, loc),
            r.core.main_message@ == union_return_type_msg(fn_name@),
            r.core.sub_messages@[0].hint is Some,
            r.core.sub_messages@[0].hint.unwrap()@ == union_return_type_hint(
                fn_name@,
                spec_ty_fmt(*s, *typ, crate::display::DEFAULT_FMT_LIMIT as nat, false),
            ),
            r.input == input,
            r.caused_by == caused_by,
    {
        let t = typ.limited_fmt(s, crate::display::DEFAULT_FMT_LIMIT, false);
        let mut hint_text = String::from_str(
            "please explicitly specify the return type of function ",
        );
        hint_text.append(fn_name);
        hint_text.append(", for example `");
        hint_text.append(fn_name);
        hint_text.append("(...): ");
        hint_text.append(t.as_str());
        hint_text.append(" = ...`");
        let mut main = String::from_str("the return type of function ");
        main.append(fn_name);
        main.append(" is not single");
        let subs = one_sub(loc, Some(hint_text));
        CompileError::new(
            ErrorCore::new(subs, main, errno, ErrorKind::TypeWarning, loc),
            input,
            caused_by,
        )
    }

    /// A built-in function of the same name already exists.
    pub fn builtin_exists_warning(
        input: Input,
        errno: usize,
        loc: Location,
        caused_by: String,
        name: &str,
    ) -> (r: Self)
        ensures
            simple_error_shape(r, errno, ErrorKind::NameWarning, loc),
            r.core.main_message@ == builtin_exists_msg(name@),
            r.core.sub_messages@[0].hint is None,
            r.input == input,
            r.caused_by == caused_by,
    {
        let mut main = String::from_str("a built-in function named ");
        main.append(name);
        main.append(" already exists");
        let subs = one_sub(loc, None);
        CompileError::new(
            ErrorCore::new(subs, main, errno, ErrorKind::NameWarning, loc),
            input,
            caused_by,
        )
    }
}

/// Equality of a string and a string slice by contents.
fn string_eq_str(a: &String, b: &str) -> (r: bool)
    ensures
        r == (a@ == b@),
{
    let owned = String::from_str(b);
    a.eq(&owned)
}

} // verus!
