use css_modules::loader::{MappingContent, MappingFile, TransformError};
use css_modules::mapping::{CssModuleExport, CssModuleExports};
use css_modules::syntax::{
    Expr, ImportDecl, ImportSpecifier, JsxAttr, JsxAttrName, JsxAttrValue, JsxElement, MemberProp,
    ModuleItem, Property, Stmt, VarDecl, VarKind,
};
use css_modules::visitor::{ClassNameUsage, TransformVisitor};
use css_modules::walk::fallback_object_name;

fn table(entries: &[(&str, &str)]) -> CssModuleExports {
    let mut t = CssModuleExports::new();
    for (key, name) in entries {
        t.insert(
            key.to_string(),
            CssModuleExport { name: name.to_string(), composes: vec![], is_referenced: true },
        );
    }
    t
}

fn files() -> Vec<MappingFile> {
    vec![MappingFile {
        name: "button.module.json".to_string(),
        content: MappingContent::Parsed(table(&[("button", "button_1"), ("icon", "icon_7")])),
    }]
}

fn import(src: &str, specifiers: Vec<ImportSpecifier>) -> ImportDecl {
    ImportDecl { src: src.to_string(), specifiers }
}

fn default(local: &str) -> ImportSpecifier {
    ImportSpecifier::Default { local: local.to_string() }
}

fn named(local: &str) -> ImportSpecifier {
    ImportSpecifier::Named { local: local.to_string() }
}

fn ident(name: &str) -> Expr {
    Expr::Ident(name.to_string())
}

fn member(obj: Expr, prop: &str) -> Expr {
    Expr::Member { obj: Box::new(obj), prop: MemberProp::Ident(prop.to_string()) }
}

fn class(value: JsxAttrValue) -> JsxAttr {
    JsxAttr { name: JsxAttrName::Ident("className".to_string()), value: Some(value) }
}

fn bound() -> TransformVisitor {
    let mut v = TransformVisitor::new();
    v.visit_mut_import_decl(import("./button.module.css", vec![default("styles")]), &files())
        .unwrap();
    v
}

#[test]
fn fresh_visitor_holds_nothing() {
    let v = TransformVisitor::new();
    assert_eq!(v.style_mapping(), None);
    assert_eq!(v.style_binding_name(), None);
    assert!(!v.needs_fallback_object());
    assert_eq!(v.fallback_properties(), Vec::<(String, String)>::new());
}

#[test]
fn stylesheet_import_is_resolved_and_cleared() {
    let mut v = TransformVisitor::new();
    let out = v
        .visit_mut_import_decl(import("./button.module.css", vec![default("styles")]), &files())
        .unwrap();
    assert_eq!(out, import("./button.module.css", vec![]));
    assert_eq!(v.style_binding_name().map(|s| s.as_str()), Some("styles"));
    assert_eq!(v.style_mapping(), Some(&table(&[("button", "button_1"), ("icon", "icon_7")])));
    assert!(!v.needs_fallback_object());
}

#[test]
fn other_import_is_left_alone() {
    let mut v = TransformVisitor::new();
    let decl = || import("./button.css", vec![default("styles")]);
    assert_eq!(v.visit_mut_import_decl(decl(), &files()), Ok(decl()));
    assert_eq!(v, TransformVisitor::new());
    assert!(!decl().needs_mapping());
}

#[test]
fn import_without_specifiers_is_a_no_op() {
    let mut v = TransformVisitor::new();
    let decl = || import("./button.module.css", vec![]);
    assert!(!decl().needs_mapping());
    // No table is looked up: there is none among the files.
    assert_eq!(v.visit_mut_import_decl(decl(), &Vec::new()), Ok(decl()));
    assert_eq!(v, TransformVisitor::new());
}

#[test]
fn last_default_specifier_gives_the_binding() {
    let mut v = TransformVisitor::new();
    let decl = import(
        "./button.module.css",
        vec![named("a"), default("first"), default("second"), named("b")],
    );
    assert!(decl.needs_mapping());
    v.visit_mut_import_decl(decl, &files()).unwrap();
    assert_eq!(v.style_binding_name().map(|s| s.as_str()), Some("second"));
}

#[test]
fn import_without_default_keeps_the_binding() {
    let mut v = bound();
    let other = vec![MappingFile {
        name: "card.module.json".to_string(),
        content: MappingContent::Parsed(table(&[("card", "card_1")])),
    }];
    let out = v
        .visit_mut_import_decl(
            import("./card.module.css", vec![named("card"), ImportSpecifier::Namespace { local: "all".to_string() }]),
            &other,
        )
        .unwrap();
    assert!(out.specifiers.is_empty());
    assert_eq!(v.style_binding_name().map(|s| s.as_str()), Some("styles"));
    assert_eq!(v.style_mapping(), Some(&table(&[("card", "card_1")])));
}

#[test]
fn failed_load_leaves_the_visitor_as_it_was() {
    let mut v = bound();
    let r = v.visit_mut_import_decl(import("./card.module.css", vec![default("card")]), &files());
    assert_eq!(r, Err(TransformError::MappingNotFound));
    assert_eq!(v, bound());
}

#[test]
fn attributes_are_classified() {
    let v = bound();
    let lookup = class(JsxAttrValue::Container(member(ident("styles"), "button")));
    assert_eq!(v.classify(&lookup), ClassNameUsage::Lookup { key: "button".to_string() });
    // Not the class attribute.
    let id = JsxAttr {
        name: JsxAttrName::Ident("id".to_string()),
        value: Some(JsxAttrValue::Container(member(ident("styles"), "button"))),
    };
    assert_eq!(v.classify(&id), ClassNameUsage::Untouched);
    let namespaced = JsxAttr {
        name: JsxAttrName::Namespaced { ns: "x".to_string(), name: "className".to_string() },
        value: Some(JsxAttrValue::Container(ident("a"))),
    };
    assert_eq!(v.classify(&namespaced), ClassNameUsage::Untouched);
    // No expression.
    assert_eq!(v.classify(&class(JsxAttrValue::Str("a".to_string()))), ClassNameUsage::Untouched);
    assert_eq!(v.classify(&class(JsxAttrValue::EmptyContainer)), ClassNameUsage::Untouched);
    assert_eq!(
        v.classify(&JsxAttr { name: JsxAttrName::Ident("className".to_string()), value: None }),
        ClassNameUsage::Untouched
    );
    // A member access on something else.
    assert_eq!(
        v.classify(&class(JsxAttrValue::Container(member(ident("props"), "button")))),
        ClassNameUsage::Untouched
    );
    assert_eq!(
        v.classify(&class(JsxAttrValue::Container(member(member(ident("styles"), "a"), "b")))),
        ClassNameUsage::Untouched
    );
    // No single class can be read.
    assert_eq!(v.classify(&class(JsxAttrValue::Container(ident("styles")))), ClassNameUsage::Unrecognized);
    let computed = Expr::Member {
        obj: Box::new(ident("styles")),
        prop: MemberProp::Computed(Box::new(Expr::Str("button".to_string()))),
    };
    assert_eq!(v.classify(&class(JsxAttrValue::Container(computed))), ClassNameUsage::Unrecognized);
    let private = Expr::Member {
        obj: Box::new(ident("styles")),
        prop: MemberProp::Private("button".to_string()),
    };
    assert_eq!(v.classify(&class(JsxAttrValue::Container(private))), ClassNameUsage::Unrecognized);
    assert_eq!(
        v.classify(&class(JsxAttrValue::Container(Expr::Other { operands: vec![] }))),
        ClassNameUsage::Unrecognized
    );
}

#[test]
fn unbound_style_object_is_not_recognized() {
    let v = TransformVisitor::new();
    let attr = class(JsxAttrValue::Container(member(ident("styles"), "button")));
    assert_eq!(v.classify(&attr), ClassNameUsage::Untouched);
}

#[test]
fn class_use_becomes_the_scoped_name() {
    let mut v = bound();
    let out = v
        .visit_mut_jsx_attr(class(JsxAttrValue::Container(member(ident("styles"), "icon"))))
        .unwrap();
    assert_eq!(out, class(JsxAttrValue::Str("icon_7".to_string())));
    assert!(!v.needs_fallback_object());
}

#[test]
fn unknown_class_fails_and_changes_nothing() {
    let mut v = bound();
    let r = v.visit_mut_jsx_attr(class(JsxAttrValue::Container(member(ident("styles"), "nope"))));
    assert_eq!(r, Err(TransformError::UnresolvedClassKey { key: "nope".to_string() }));
    assert_eq!(v, bound());
}

#[test]
fn unrecognized_value_asks_for_the_fallback_object() {
    let mut v = bound();
    let attr = || class(JsxAttrValue::Container(ident("styles")));
    assert_eq!(v.visit_mut_jsx_attr(attr()), Ok(attr()));
    assert!(v.needs_fallback_object());
    // The need stays until the list is closed.
    let plain = || class(JsxAttrValue::Str("a".to_string()));
    assert_eq!(v.visit_mut_jsx_attr(plain()), Ok(plain()));
    assert!(v.needs_fallback_object());
}

#[test]
fn attribute_below_an_attribute_is_visited_first() {
    let mut v = bound();
    let inner = |value: JsxAttrValue| {
        Expr::Element(JsxElement { name: "i".to_string(), attrs: vec![class(value)], children: vec![] })
    };
    let outer = |value: JsxAttrValue| JsxAttr {
        name: JsxAttrName::Ident("icon".to_string()),
        value: Some(JsxAttrValue::Container(Expr::Other { operands: vec![inner(value)] })),
    };
    let out = v
        .visit_mut_jsx_attr(outer(JsxAttrValue::Container(member(ident("styles"), "icon"))))
        .unwrap();
    assert_eq!(out, outer(JsxAttrValue::Str("icon_7".to_string())));
    assert!(!v.needs_fallback_object());
}

#[test]
fn statement_lists_keep_their_own_need() {
    let mut v = bound();
    v.visit_mut_jsx_attr(class(JsxAttrValue::Container(ident("styles")))).unwrap();
    assert!(v.needs_fallback_object());
    let around = v.enter_statement_list();
    assert!(around);
    assert!(!v.needs_fallback_object());
    assert!(!v.leave_statement_list(around));
    assert!(v.needs_fallback_object());
    let around = v.enter_statement_list();
    v.visit_mut_jsx_attr(class(JsxAttrValue::Container(ident("styles")))).unwrap();
    assert!(v.leave_statement_list(false));
    assert!(!v.needs_fallback_object());
    assert!(around);
}

#[test]
fn fallback_object_lists_the_table_in_order() {
    let v = bound();
    assert_eq!(fallback_object_name(), "_styles");
    assert_eq!(
        v.fallback_properties(),
        vec![
            ("button".to_string(), "button_1".to_string()),
            ("icon".to_string(), "icon_7".to_string())
        ]
    );
    assert_eq!(
        v.fallback_object(),
        Stmt::Var(VarDecl {
            kind: VarKind::Const,
            name: "_styles".to_string(),
            init: Some(Expr::Object {
                props: vec![
                    Property { key: "button".to_string(), value: Expr::Str("button_1".to_string()) },
                    Property { key: "icon".to_string(), value: Expr::Str("icon_7".to_string()) },
                ],
            }),
        })
    );
}

#[test]
fn fallback_object_of_a_fresh_visitor_is_empty() {
    assert_eq!(
        TransformVisitor::new().fallback_object(),
        Stmt::Var(VarDecl {
            kind: VarKind::Const,
            name: "_styles".to_string(),
            init: Some(Expr::Object { props: vec![] }),
        })
    );
}

#[test]
fn only_a_resolved_import_becomes_empty() {
    let mut v = TransformVisitor::new();
    let side_effect = || ModuleItem::Import(import("./polyfill.js", vec![]));
    assert_eq!(v.visit_mut_module_item(side_effect(), &files()), Ok(side_effect()));
    let bare_sheet = || ModuleItem::Import(import("./button.module.css", vec![]));
    assert_eq!(v.visit_mut_module_item(bare_sheet(), &files()), Ok(bare_sheet()));
    assert_eq!(v, TransformVisitor::new());
    let kept = || ModuleItem::Import(import("./react.js", vec![default("React")]));
    assert_eq!(v.visit_mut_module_item(kept(), &files()), Ok(kept()));
    let sheet = ModuleItem::Import(import("./button.module.css", vec![default("styles")]));
    assert_eq!(v.visit_mut_module_item(sheet, &files()), Ok(ModuleItem::Stmt(Stmt::Empty)));
    assert_eq!(v, bound());
}

#[test]
fn visited_items_note_the_need() {
    let mut v = bound();
    let stmt = || {
        ModuleItem::Stmt(Stmt::Expr(Expr::Element(JsxElement {
            name: "a".to_string(),
            attrs: vec![class(JsxAttrValue::Container(ident("x")))],
            children: vec![],
        })))
    };
    assert_eq!(v.visit_mut_module_item(stmt(), &files()), Ok(stmt()));
    assert!(v.needs_fallback_object());
}

#[test]
fn replacement_is_the_scoped_name() {
    let mut v = bound();
    let attr = class(JsxAttrValue::Container(member(ident("styles"), "button")));
    assert_eq!(v.replacement(&attr), Ok((Some("button_1".to_string()), false)));
    assert_eq!(v.replace_class_name(&attr), Ok(Some("button_1".to_string())));
    assert!(!v.needs_fallback_object());
}

#[test]
fn replacement_of_other_attributes_is_none() {
    let mut v = bound();
    let plain = class(JsxAttrValue::Str("button_1".to_string()));
    assert_eq!(v.replacement(&plain), Ok((None, false)));
    assert_eq!(v.replace_class_name(&plain), Ok(None));
    let other = class(JsxAttrValue::Container(member(ident("props"), "button")));
    assert_eq!(v.replace_class_name(&other), Ok(None));
    assert!(!v.needs_fallback_object());
    let opaque = class(JsxAttrValue::Container(Expr::Other { operands: vec![] }));
    assert_eq!(v.replacement(&opaque), Ok((None, true)));
    assert_eq!(v.replace_class_name(&opaque), Ok(None));
    assert!(v.needs_fallback_object());
}

#[test]
fn replacement_of_an_unknown_class_fails() {
    let mut v = bound();
    let attr = class(JsxAttrValue::Container(member(ident("styles"), "nope")));
    let error = TransformError::UnresolvedClassKey { key: "nope".to_string() };
    assert_eq!(v.replacement(&attr), Err(error.clone()));
    assert_eq!(v.replace_class_name(&attr), Err(error));
    assert_eq!(v, bound());
}

#[test]
fn visited_import_is_settled_by_what_it_bound() {
    let cleared = || import("./button.module.css", vec![]);
    // The visit has cleared the specifiers.
    assert_eq!(ModuleItem::from_visited_import(true, cleared()), ModuleItem::Stmt(Stmt::Empty));
    // The import never bound a name.
    assert_eq!(ModuleItem::from_visited_import(false, cleared()), ModuleItem::Import(cleared()));
    let other = || import("./react.js", vec![default("React")]);
    assert_eq!(ModuleItem::from_visited_import(true, other()), ModuleItem::Import(other()));
    assert!(other().binds_names());
    assert!(!cleared().binds_names());
}
