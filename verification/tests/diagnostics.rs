//! The diagnostic constructors and the accumulator.

use erg_infer::error::CompileErrors;
use erg_infer::error::ErrorKind;
use erg_infer::error::Input;
use erg_infer::error::Location;
use erg_infer::error::LowerError;
use erg_infer::error::LowerWarning;
use erg_infer::error::Visibility;
use erg_infer::free::FreeStore;
use erg_infer::ty::Type;

fn input() -> Input {
    Input::new("main.er".to_string())
}

fn loc() -> Location {
    Location::Range { ln_begin: 1, col_begin: 0, ln_end: 1, col_end: 3 }
}

#[test]
fn no_var_error_contents() {
    let e = LowerError::no_var_error(input(), 7, loc(), "f".to_string(), "xyz", Some("xyy"));
    assert_eq!(e.core.kind, ErrorKind::NameError);
    assert_eq!(e.core.errno, 7);
    assert_eq!(e.core.main_message, "xyz is not defined");
    assert_eq!(
        e.core.sub_messages[0].hint.as_ref().unwrap(),
        "exists a similar name variable: xyy"
    );
    assert_eq!(e.caused_by, "f");
    assert_eq!(e.input.name, "main.er");
    let without = LowerError::no_var_error(input(), 7, loc(), String::new(), "xyz", None);
    assert!(without.core.sub_messages[0].hint.is_none());
}

#[test]
fn access_before_and_after_deletion() {
    let e = LowerError::access_before_def_error(
        input(),
        1,
        loc(),
        String::new(),
        "x",
        42,
        None,
    );
    assert_eq!(e.core.kind, ErrorKind::NameError);
    assert_eq!(
        e.core.main_message,
        "cannot access x before its definition (line 42)"
    );
    let d = LowerError::access_deleted_var_error(
        input(),
        2,
        loc(),
        String::new(),
        "y",
        9,
        None,
    );
    assert_eq!(d.core.main_message, "cannot access deleted variable y (deleted at line 9)");
}

#[test]
fn duplicate_and_reassign() {
    let a = LowerError::duplicate_decl_error(input(), 1, loc(), String::new(), "x");
    assert_eq!(a.core.main_message, "x is already declared");
    let b = LowerError::duplicate_definition_error(input(), 1, loc(), String::new(), "x");
    assert_eq!(b.core.main_message, "x is already defined");
    let c = LowerError::reassign_error(input(), 1, loc(), String::new(), "x");
    assert_eq!(c.core.kind, ErrorKind::AssignError);
    assert_eq!(c.core.main_message, "variable x cannot be assigned more than once");
}

#[test]
fn type_level_diagnostics() {
    let s = FreeStore::new();
    let e = LowerError::violate_decl_error(
        input(),
        3,
        loc(),
        String::new(),
        "n",
        &s,
        &Type::Mono("Int".to_string()),
        &Type::Mono("Str".to_string()),
    );
    assert_eq!(e.core.kind, ErrorKind::TypeError);
    assert_eq!(
        e.core.main_message,
        "n was declared as Int, but an Str object is assigned"
    );
    let nf = LowerError::type_not_found(
        input(),
        3,
        loc(),
        String::new(),
        &s,
        &Type::Mono("Gone".to_string()),
    );
    assert_eq!(nf.core.main_message, "Type Gone is not defined");
    assert!(nf.core.sub_messages[0].hint.is_some());
    let nt = LowerError::no_type_error(input(), 3, loc(), String::new(), "Gone", Some("Gene"));
    assert_eq!(
        nt.core.sub_messages[0].hint.as_ref().unwrap(),
        "exists a similar name type: Gene"
    );
    let cast = LowerError::invalid_type_cast_error(
        input(),
        3,
        loc(),
        String::new(),
        "x",
        &s,
        &Type::Mono("Int".to_string()),
        None,
    );
    assert_eq!(cast.core.main_message, "the type of x cannot be cast to Int");
}

#[test]
fn attribute_diagnostics() {
    let s = FreeStore::new();
    let e = LowerError::no_attr_error(
        input(),
        4,
        loc(),
        String::new(),
        &s,
        &Type::Mono("Int".to_string()),
        "frobnicate",
        None,
    );
    assert_eq!(e.core.kind, ErrorKind::AttributeError);
    assert_eq!(e.core.main_message, "Int object has no attribute frobnicate");
    let sing = LowerError::singular_no_attr_error(
        input(),
        4,
        loc(),
        String::new(),
        "one",
        &s,
        &Type::Mono("Nat".to_string()),
        "x",
        Some("y"),
    );
    assert_eq!(sing.core.main_message, "one(: Nat) has no attribute x");
    assert_eq!(
        sing.core.sub_messages[0].hint.as_ref().unwrap(),
        "has a similar name attribute: y"
    );
}

#[test]
fn visibility_and_deletion() {
    let v = LowerError::visibility_error(
        input(),
        5,
        loc(),
        String::new(),
        "secret",
        Visibility::Private,
    );
    assert_eq!(v.core.kind, ErrorKind::VisibilityError);
    assert_eq!(v.core.main_message, "secret is private variable");
    let p = LowerError::visibility_error(
        input(),
        5,
        loc(),
        String::new(),
        "open",
        Visibility::Public,
    );
    assert_eq!(p.core.main_message, "open is public variable");
    let d = LowerError::del_error(input(), 5, "True", loc(), true, String::new());
    assert_eq!(d.core.main_message, "constant True cannot be deleted");
    let b = LowerError::del_error(input(), 5, "print", loc(), false, String::new());
    assert_eq!(b.core.main_message, "built-in variable print cannot be deleted");
}

#[test]
fn override_and_inheritance() {
    let s = FreeStore::new();
    let o = LowerError::override_error(
        input(),
        6,
        "meth",
        loc(),
        &s,
        &Type::Mono("Base".to_string()),
        "Sub".to_string(),
    );
    assert_eq!(o.core.kind, ErrorKind::NameError);
    assert_eq!(o.core.main_message, "meth is already defined in Base");
    assert_eq!(o.core.sub_messages[0].msgs[0], "cannot override by default");
    assert_eq!(
        o.core.sub_messages[0].hint.as_ref().unwrap(),
        "use @Override decorator"
    );
    let i = LowerError::inheritance_error(
        input(),
        6,
        "Final".to_string(),
        loc(),
        String::new(),
    );
    assert_eq!(i.core.kind, ErrorKind::InheritanceError);
    assert_eq!(i.core.main_message, "Final is not inheritable");
}

#[test]
fn io_and_syntax_diagnostics() {
    let f = LowerError::file_error(
        input(),
        8,
        "no such file".to_string(),
        loc(),
        String::new(),
        None,
    );
    assert_eq!(f.core.kind, ErrorKind::IoError);
    let m = LowerError::module_env_error(input(), 8, "socketlib", loc(), String::new());
    assert_eq!(
        m.core.main_message,
        "module socketlib is not supported in your environment"
    );
    assert_eq!(m.core.kind, ErrorKind::IoError);
    let sx = LowerError::syntax_error(
        input(),
        8,
        loc(),
        String::new(),
        "unexpected token".to_string(),
        None,
    );
    assert_eq!(sx.core.kind, ErrorKind::SyntaxError);
    let de = LowerError::declare_error(input(), 8, loc(), String::new());
    assert_eq!(
        de.core.main_message,
        "declarations and alias definitions are only allowed in d.er files"
    );
    let it = LowerError::inner_typedef_error(input(), 8, loc(), String::new());
    assert_eq!(it.core.main_message, "types must be defined at the top level");
    assert_eq!(it.core.kind, ErrorKind::TypeError);
}

#[test]
fn import_error_branches() {
    let both = LowerError::import_error(
        input(),
        9,
        "module m not found".to_string(),
        loc(),
        String::new(),
        Some("math".to_string()),
        Some("cmath".to_string()),
    );
    assert_eq!(both.core.kind, ErrorKind::ImportError);
    assert_eq!(both.core.sub_messages[0].msgs.len(), 2);
    assert_eq!(both.core.sub_messages[0].msgs[0], "similar name erg module exists: math");
    assert_eq!(
        both.core.sub_messages[0].msgs[1],
        "similar name python module exists: cmath"
    );
    assert_eq!(
        both.core.sub_messages[0].hint.as_ref().unwrap(),
        "to import python modules, use pyimport"
    );
    let erg_only = LowerError::import_error(
        input(),
        9,
        "module m not found".to_string(),
        loc(),
        String::new(),
        Some("math".to_string()),
        None,
    );
    assert_eq!(erg_only.core.sub_messages[0].msgs.len(), 1);
    assert!(erg_only.core.sub_messages[0].hint.is_none());
    let py_only = LowerError::import_error(
        input(),
        9,
        "module m not found".to_string(),
        loc(),
        String::new(),
        None,
        Some("cmath".to_string()),
    );
    assert_eq!(py_only.core.sub_messages[0].msgs.len(), 1);
    assert!(py_only.core.sub_messages[0].hint.is_some());
    let neither = LowerError::import_error(
        input(),
        9,
        "module m not found".to_string(),
        loc(),
        String::new(),
        None,
        None,
    );
    assert_eq!(neither.core.sub_messages[0].msgs.len(), 0);
    assert!(neither.core.sub_messages[0].hint.is_none());
}

#[test]
fn warnings() {
    let s = FreeStore::new();
    let u = LowerWarning::unused_warning(input(), 10, loc(), "x", String::new());
    assert_eq!(u.core.kind, ErrorKind::UnusedWarning);
    assert_eq!(u.core.main_message, "x is not used");
    let ue = LowerWarning::unused_expr_warning(
        input(),
        10,
        &s,
        &Type::Mono("Int".to_string()),
        loc(),
        String::new(),
    );
    assert_eq!(
        ue.core.main_message,
        "the evaluation result of the expression (: Int) is not used"
    );
    let ur = LowerWarning::union_return_type_warning(
        input(),
        10,
        loc(),
        String::new(),
        "f",
        &s,
        &Type::Mono("Int".to_string()),
    );
    assert_eq!(ur.core.kind, ErrorKind::TypeWarning);
    assert_eq!(
        ur.core.sub_messages[0].hint.as_ref().unwrap(),
        "please explicitly specify the return type of function f, for example `f(...): Int = ...`"
    );
    let be = LowerWarning::builtin_exists_warning(input(), 10, loc(), String::new(), "print");
    assert_eq!(be.core.kind, ErrorKind::NameWarning);
    assert_eq!(be.core.main_message, "a built-in function named print already exists");
}

#[test]
fn accumulator_operations() {
    let mut errs = CompileErrors::new();
    assert!(errs.is_empty());
    errs.push(LowerError::reassign_error(input(), 1, loc(), String::new(), "x"));
    errs.push(LowerError::reassign_error(
        Input::new("other.er".to_string()),
        2,
        loc(),
        String::new(),
        "y",
    ));
    assert_eq!(errs.len(), 2);
    let mut more = CompileErrors::empty();
    more.push(LowerError::reassign_error(input(), 3, loc(), String::new(), "z"));
    errs.extend(more);
    assert_eq!(errs.len(), 3);
    assert_eq!(errs.get(2).core.errno, 3);
    errs.remove("other.er");
    assert_eq!(errs.len(), 2);
    assert_eq!(errs.get(0).core.errno, 1);
    assert_eq!(errs.get(1).core.errno, 3);
    let taken = errs.take();
    assert!(errs.is_empty());
    assert_eq!(taken.len(), 2);
    let mut cleared = taken;
    cleared.clear();
    assert!(cleared.is_empty());
}
