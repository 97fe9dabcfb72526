//! The method linker: absorption, source order and diagnostics.

use erg_infer::error::ErrorKind;
use erg_infer::error::Location;
use erg_infer::linker::Ast;
use erg_infer::linker::BodyHead;
use erg_infer::linker::Def;
use erg_infer::linker::Item;
use erg_infer::linker::Linker;
use erg_infer::linker::MethodsBlock;
use erg_infer::linker::TypeSpec;

fn class_def(name: &str) -> Item {
    Item::Def(Def { name: name.to_string(), body_head: BodyHead::Call("Class".to_string()) })
}

fn plain_def(name: &str) -> Item {
    Item::Def(Def { name: name.to_string(), body_head: BodyHead::Other })
}

fn methods_for(class: &str, attrs: &[&str]) -> Item {
    Item::Methods(MethodsBlock {
        class: TypeSpec::Simple(class.to_string()),
        loc: Location::Line(3),
        defs: attrs
            .iter()
            .map(|a| Def { name: a.to_string(), body_head: BodyHead::Other })
            .collect(),
    })
}

#[test]
fn methods_absorbed_into_class() {
    let ast = Ast::new(
        "main".to_string(),
        vec![class_def("Foo"), methods_for("Foo", &["bar"])],
    );
    let out = Linker::new().link(ast).unwrap();
    assert_eq!(out.name, "main");
    assert_eq!(out.module.len(), 1);
    match &out.module[0] {
        Item::ClassDef(cd) => {
            assert_eq!(cd.def.name, "Foo");
            assert_eq!(cd.methods_list.len(), 1);
            assert_eq!(cd.methods_list[0].defs.len(), 1);
            assert_eq!(cd.methods_list[0].defs[0].name, "bar");
        },
        _ => panic!("expected a class definition"),
    }
}

#[test]
fn unknown_class_raises_one_name_error() {
    let ast = Ast::new(
        "main".to_string(),
        vec![class_def("Foo"), methods_for("Bar", &[])],
    );
    let errs = Linker::new().link(ast).unwrap_err();
    assert_eq!(errs.len(), 1);
    let e = errs.get(0);
    assert_eq!(e.core.kind, ErrorKind::NameError);
    assert_eq!(e.core.main_message, "Bar is not defined");
    let hint = e.core.sub_messages[0].hint.as_ref().unwrap();
    assert!(hint.contains("Foo,"));
    assert_eq!(hint, "exists a similar name variable: Foo,");
    assert_eq!(e.core.loc, Location::Line(3));
    assert_eq!(e.input.name, "main");
}

#[test]
fn inherit_and_inheritable_are_class_constructors() {
    let ast = Ast::new(
        "m".to_string(),
        vec![
            Item::Def(Def {
                name: "A".to_string(),
                body_head: BodyHead::Call("Inherit".to_string()),
            }),
            Item::Def(Def {
                name: "B".to_string(),
                body_head: BodyHead::Call("Inheritable".to_string()),
            }),
            methods_for("A", &["x"]),
            methods_for("B", &["y"]),
        ],
    );
    let out = Linker::new().link(ast).unwrap();
    assert_eq!(out.module.len(), 2);
    match (&out.module[0], &out.module[1]) {
        (Item::ClassDef(a), Item::ClassDef(b)) => {
            assert_eq!(a.def.name, "A");
            assert_eq!(a.methods_list.len(), 1);
            assert_eq!(b.def.name, "B");
            assert_eq!(b.methods_list.len(), 1);
        },
        _ => panic!("expected two class definitions"),
    }
}

#[test]
fn source_order_is_preserved() {
    let ast = Ast::new(
        "m".to_string(),
        vec![
            Item::Other(1),
            plain_def("x"),
            class_def("Foo"),
            Item::Other(2),
            methods_for("Foo", &["bar"]),
            plain_def("y"),
        ],
    );
    let out = Linker::new().link(ast).unwrap();
    assert_eq!(out.module.len(), 5);
    assert!(matches!(&out.module[0], Item::Other(1)));
    assert!(matches!(&out.module[1], Item::Def(d) if d.name == "x"));
    assert!(matches!(&out.module[2], Item::ClassDef(cd) if cd.def.name == "Foo"
        && cd.methods_list.len() == 1));
    assert!(matches!(&out.module[3], Item::Other(2)));
    assert!(matches!(&out.module[4], Item::Def(d) if d.name == "y"));
}

#[test]
fn one_error_per_unknown_block_listing_all_classes() {
    let ast = Ast::new(
        "m".to_string(),
        vec![
            class_def("Foo"),
            methods_for("Missing", &[]),
            class_def("Goo"),
            methods_for("AlsoMissing", &[]),
        ],
    );
    let errs = Linker::new().link(ast).unwrap_err();
    assert_eq!(errs.len(), 2);
    assert_eq!(errs.get(0).core.kind, ErrorKind::NameError);
    assert_eq!(errs.get(1).core.kind, ErrorKind::NameError);
    // The candidate list names every class registered at that moment.
    let first = errs.get(0).core.sub_messages[0].hint.as_ref().unwrap();
    assert_eq!(first, "exists a similar name variable: Foo,");
    let second = errs.get(1).core.sub_messages[0].hint.as_ref().unwrap();
    assert_eq!(second, "exists a similar name variable: Foo,Goo,");
}

#[test]
fn multiple_methods_blocks_accumulate() {
    let ast = Ast::new(
        "m".to_string(),
        vec![
            class_def("Foo"),
            methods_for("Foo", &["a"]),
            methods_for("Foo", &["b"]),
        ],
    );
    let out = Linker::new().link(ast).unwrap();
    assert_eq!(out.module.len(), 1);
    match &out.module[0] {
        Item::ClassDef(cd) => {
            assert_eq!(cd.methods_list.len(), 2);
            assert_eq!(cd.methods_list[0].defs[0].name, "a");
            assert_eq!(cd.methods_list[1].defs[0].name, "b");
        },
        _ => panic!("expected a class definition"),
    }
}

#[test]
fn non_constructor_call_stays_a_plain_def() {
    let ast = Ast::new(
        "m".to_string(),
        vec![Item::Def(Def {
            name: "f".to_string(),
            body_head: BodyHead::Call("print".to_string()),
        })],
    );
    let out = Linker::new().link(ast).unwrap();
    assert!(matches!(&out.module[0], Item::Def(d) if d.name == "f"));
}

#[test]
fn empty_module_links_to_empty_module() {
    let ast = Ast::new("m".to_string(), vec![]);
    let out = Linker::new().link(ast).unwrap();
    assert_eq!(out.module.len(), 0);
}

#[test]
fn a_later_class_of_the_same_name_wins() {
    let ast = Ast::new(
        "m".to_string(),
        vec![class_def("Foo"), class_def("Foo"), methods_for("Foo", &["late"])],
    );
    let out = Linker::new().link(ast).unwrap();
    assert_eq!(out.module.len(), 2);
    match (&out.module[0], &out.module[1]) {
        (Item::ClassDef(first), Item::ClassDef(second)) => {
            assert_eq!(first.methods_list.len(), 0);
            assert_eq!(second.methods_list.len(), 1);
            assert_eq!(second.methods_list[0].defs[0].name, "late");
        },
        _ => panic!("expected two class definitions"),
    }
}
