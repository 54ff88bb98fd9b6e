use css_modules::loader::{MappingContent, MappingFile, TransformError};
use css_modules::mapping::{CssModuleExport, CssModuleExports, CssModuleReference};
use css_modules::syntax::{
    Expr, ImportDecl, ImportSpecifier, JsxAttr, JsxAttrName, JsxAttrValue, JsxElement, MemberProp,
    Module, ModuleItem, Property, Stmt, VarDecl, VarKind,
};
use css_modules::visitor::process_transform;

fn export(name: &str) -> CssModuleExport {
    CssModuleExport { name: name.to_string(), composes: vec![], is_referenced: true }
}

fn table(entries: &[(&str, &str)]) -> CssModuleExports {
    let mut t = CssModuleExports::new();
    for (key, name) in entries {
        t.insert(key.to_string(), export(name));
    }
    t
}

fn file(name: &str, entries: &[(&str, &str)]) -> MappingFile {
    MappingFile { name: name.to_string(), content: MappingContent::Parsed(table(entries)) }
}

fn ident(name: &str) -> Expr {
    Expr::Ident(name.to_string())
}

fn member(obj: &str, prop: &str) -> Expr {
    Expr::Member { obj: Box::new(ident(obj)), prop: MemberProp::Ident(prop.to_string()) }
}

fn attr(name: &str, value: JsxAttrValue) -> JsxAttr {
    JsxAttr { name: JsxAttrName::Ident(name.to_string()), value: Some(value) }
}

fn class_expr(e: Expr) -> JsxAttr {
    attr("className", JsxAttrValue::Container(e))
}

fn text_attr(name: &str, value: &str) -> JsxAttr {
    attr(name, JsxAttrValue::Str(value.to_string()))
}

fn element(name: &str, attrs: Vec<JsxAttr>, children: Vec<Expr>) -> Expr {
    Expr::Element(JsxElement { name: name.to_string(), attrs, children })
}

fn arrow(body: Expr) -> Expr {
    Expr::Arrow { params: vec![], body: Box::new(body) }
}

fn export_const(name: &str, init: Expr) -> ModuleItem {
    ModuleItem::Export(VarDecl { kind: VarKind::Const, name: name.to_string(), init: Some(init) })
}

fn import_default(local: &str, src: &str) -> ModuleItem {
    ModuleItem::Import(ImportDecl {
        src: src.to_string(),
        specifiers: vec![ImportSpecifier::Default { local: local.to_string() }],
    })
}

fn fallback(entries: &[(&str, &str)]) -> Stmt {
    Stmt::Var(VarDecl {
        kind: VarKind::Const,
        name: "_styles".to_string(),
        init: Some(Expr::Object {
            props: entries
                .iter()
                .map(|(k, v)| Property { key: k.to_string(), value: Expr::Str(v.to_string()) })
                .collect(),
        }),
    })
}

fn button_module(class_value: Expr) -> Module {
    Module {
        body: vec![
            import_default("styles", "./button.module.css"),
            export_const(
                "Button",
                arrow(element("button", vec![class_expr(class_value), text_attr("id", "3")], vec![])),
            ),
        ],
    }
}

#[test]
fn remove_import() {
    let files = vec![file("button.module.json", &[("button", "button_1")])];
    let out = process_transform(button_module(member("styles", "button")), &files).unwrap();
    assert_eq!(out.body.len(), 1);
    assert!(out.body.iter().all(|item| !matches!(item, ModuleItem::Import(_))));
}

#[test]
fn import_is_removed_and_class_is_resolved() {
    let files = vec![file("button.module.json", &[("button", "button_1")])];
    let out = process_transform(button_module(member("styles", "button")), &files).unwrap();
    let expected = Module {
        body: vec![export_const(
            "Button",
            arrow(element(
                "button",
                vec![text_attr("className", "button_1"), text_attr("id", "3")],
                vec![],
            )),
        )],
    };
    assert_eq!(out, expected);
}

#[test]
fn missing_class_is_reported() {
    let files = vec![file("button.module.json", &[("other", "other_1")])];
    let r = process_transform(button_module(member("styles", "button")), &files);
    assert_eq!(r, Err(TransformError::UnresolvedClassKey { key: "button".to_string() }));
}

#[test]
fn template_value_gets_fallback_object() {
    let files = vec![file("button.module.json", &[("foo", "foo_1"), ("bar", "bar_1")])];
    let template = || Expr::Template {
        quasis: vec!["foo ".to_string(), "".to_string()],
        exprs: vec![member("styles", "bar")],
    };
    let out = process_transform(button_module(template()), &files).unwrap();
    let expected = Module {
        body: vec![
            export_const(
                "Button",
                arrow(element(
                    "button",
                    vec![class_expr(template()), text_attr("id", "3")],
                    vec![],
                )),
            ),
            ModuleItem::Stmt(fallback(&[("foo", "foo_1"), ("bar", "bar_1")])),
        ],
    };
    assert_eq!(out, expected);
}

#[test]
fn sibling_modules_load_independently() {
    let files = vec![file("button.module.json", &[("button", "button_1")])];
    let first = process_transform(button_module(member("styles", "button")), &files).unwrap();
    let second = process_transform(button_module(member("styles", "button")), &files).unwrap();
    assert_eq!(first, second);
    // A module without the import sees nothing of the table that another
    // module loaded: its use of `styles` stays.
    let plain = || Module {
        body: vec![export_const(
            "Button",
            arrow(element("button", vec![class_expr(member("styles", "button"))], vec![])),
        )],
    };
    assert_eq!(process_transform(plain(), &files).unwrap(), plain());
}

#[test]
fn composes_are_carried_by_the_table() {
    let mut t = CssModuleExports::new();
    let e = CssModuleExport {
        name: "a_1".to_string(),
        composes: vec![
            CssModuleReference::Local { name: "b_1".to_string() },
            CssModuleReference::Dependency { name: "c".to_string(), specifier: "./c.css".to_string() },
        ],
        is_referenced: false,
    };
    assert!(t.insert("a".to_string(), e.clone()).is_none());
    assert_eq!(t.get("a"), Some(&e));
    assert_eq!(t.clone(), t);
}

fn stmt_item(e: Expr) -> ModuleItem {
    ModuleItem::Stmt(Stmt::Expr(e))
}

fn function(body: Vec<Stmt>) -> Expr {
    Expr::Function { params: vec![], body }
}

fn run(body: Vec<ModuleItem>, files: &Vec<MappingFile>) -> Result<Vec<ModuleItem>, TransformError> {
    process_transform(Module { body }, files).map(|m| m.body)
}

fn button_files() -> Vec<MappingFile> {
    vec![file("button.module.json", &[("button", "button_1"), ("icon", "icon_7")])]
}

#[test]
fn module_without_stylesheet_import_is_unchanged() {
    let module = || Module {
        body: vec![
            import_default("React", "react"),
            ModuleItem::Import(ImportDecl { src: "./polyfill.js".to_string(), specifiers: vec![] }),
            ModuleItem::Import(ImportDecl {
                src: "./util.css".to_string(),
                specifiers: vec![ImportSpecifier::Named { local: "x".to_string() }],
            }),
            export_const(
                "App",
                arrow(element(
                    "div",
                    vec![
                        class_expr(member("styles", "button")),
                        class_expr(member("props", "className")),
                        text_attr("className", "plain"),
                    ],
                    vec![element("span", vec![], vec![Expr::Str("text".to_string())])],
                )),
            ),
            stmt_item(function(vec![
                Stmt::Return(Some(ident("x"))),
                Stmt::Block(vec![Stmt::Return(None)]),
            ])),
        ],
    };
    assert_eq!(process_transform(module(), &button_files()), Ok(module()));
    assert_eq!(process_transform(module(), &Vec::new()), Ok(module()));
}

#[test]
fn empty_module_is_unchanged() {
    assert_eq!(run(vec![], &Vec::new()), Ok(vec![]));
}

#[test]
fn empty_statements_are_dropped_from_every_list() {
    let out = run(
        vec![
            ModuleItem::Stmt(Stmt::Empty),
            stmt_item(function(vec![
                Stmt::Empty,
                Stmt::Return(None),
                Stmt::Empty,
                Stmt::Block(vec![Stmt::Empty, Stmt::Expr(ident("a")), Stmt::Empty]),
            ])),
            ModuleItem::Stmt(Stmt::Block(vec![Stmt::Empty])),
            ModuleItem::Stmt(Stmt::Empty),
        ],
        &Vec::new(),
    );
    assert_eq!(
        out,
        Ok(vec![
            stmt_item(function(vec![
                Stmt::Return(None),
                Stmt::Block(vec![Stmt::Expr(ident("a"))]),
            ])),
            ModuleItem::Stmt(Stmt::Block(vec![])),
        ])
    );
}

fn side_effect_import(src: &str) -> ModuleItem {
    ModuleItem::Import(ImportDecl { src: src.to_string(), specifiers: vec![] })
}

#[test]
fn import_without_specifiers_stays() {
    let module = || vec![side_effect_import("./polyfill.js"), stmt_item(ident("a"))];
    assert_eq!(run(module(), &Vec::new()), Ok(module()));
    // Also one from a CSS module: it binds no name, so nothing is loaded.
    let sheet = || vec![side_effect_import("./reset.module.css"), stmt_item(ident("a"))];
    assert_eq!(run(sheet(), &Vec::new()), Ok(sheet()));
}

#[test]
fn import_without_specifiers_stays_beside_a_resolved_import() {
    let out = run(
        vec![
            import_default("styles", "./button.module.css"),
            side_effect_import("./polyfill.js"),
            stmt_item(element("a", vec![class_expr(member("styles", "button"))], vec![])),
        ],
        &button_files(),
    );
    assert_eq!(
        out,
        Ok(vec![
            side_effect_import("./polyfill.js"),
            stmt_item(element("a", vec![text_attr("className", "button_1")], vec![])),
        ])
    );
}

#[test]
fn statements_keep_their_order() {
    let out = run(
        vec![
            stmt_item(ident("a")),
            import_default("styles", "./button.module.css"),
            stmt_item(ident("b")),
            ModuleItem::Stmt(Stmt::Empty),
            stmt_item(ident("c")),
            import_default("React", "react"),
            stmt_item(ident("d")),
        ],
        &button_files(),
    );
    assert_eq!(
        out,
        Ok(vec![
            stmt_item(ident("a")),
            stmt_item(ident("b")),
            stmt_item(ident("c")),
            import_default("React", "react"),
            stmt_item(ident("d")),
        ])
    );
}

#[test]
fn use_before_the_import_is_not_resolved() {
    let use_ = || stmt_item(element("a", vec![class_expr(member("styles", "button"))], vec![]));
    let out = run(vec![use_(), import_default("styles", "./button.module.css"), use_()], &button_files());
    assert_eq!(
        out,
        Ok(vec![
            use_(),
            stmt_item(element("a", vec![text_attr("className", "button_1")], vec![])),
        ])
    );
}

#[test]
fn binding_name_is_the_one_of_the_import() {
    let out = run(
        vec![
            import_default("css", "./button.module.css"),
            stmt_item(element(
                "a",
                vec![class_expr(member("css", "icon")), class_expr(member("styles", "icon"))],
                vec![],
            )),
        ],
        &button_files(),
    );
    assert_eq!(
        out,
        Ok(vec![stmt_item(element(
            "a",
            vec![text_attr("className", "icon_7"), class_expr(member("styles", "icon"))],
            vec![],
        ))])
    );
}

#[test]
fn uses_are_resolved_at_any_depth() {
    let deep = |class: JsxAttr| {
        stmt_item(function(vec![Stmt::Block(vec![Stmt::Return(Some(arrow(element(
            "ul",
            vec![],
            vec![
                element("li", vec![text_attr("id", "1")], vec![]),
                Expr::Other {
                    operands: vec![Expr::Template {
                        quasis: vec!["".to_string(), "".to_string()],
                        exprs: vec![Expr::Object {
                            props: vec![Property {
                                key: "k".to_string(),
                                value: Expr::Member {
                                    obj: Box::new(ident("x")),
                                    prop: MemberProp::Computed(Box::new(element(
                                        "b",
                                        vec![attr(
                                            "title",
                                            JsxAttrValue::Element(JsxElement {
                                                name: "i".to_string(),
                                                attrs: vec![class],
                                                children: vec![],
                                            }),
                                        )],
                                        vec![],
                                    ))),
                                },
                            }],
                        }],
                    }],
                },
            ],
        ))))])]))
    };
    let out = run(
        vec![import_default("styles", "./button.module.css"), deep(class_expr(member("styles", "icon")))],
        &button_files(),
    );
    assert_eq!(out, Ok(vec![deep(text_attr("className", "icon_7"))]));
}

#[test]
fn every_use_is_resolved_once() {
    let out = run(
        vec![
            import_default("styles", "./button.module.css"),
            stmt_item(element(
                "a",
                vec![class_expr(member("styles", "button"))],
                vec![
                    element("b", vec![class_expr(member("styles", "icon"))], vec![]),
                    element("c", vec![class_expr(member("styles", "button"))], vec![]),
                ],
            )),
        ],
        &button_files(),
    );
    assert_eq!(
        out,
        Ok(vec![stmt_item(element(
            "a",
            vec![text_attr("className", "button_1")],
            vec![
                element("b", vec![text_attr("className", "icon_7")], vec![]),
                element("c", vec![text_attr("className", "button_1")], vec![]),
            ],
        ))])
    );
}

#[test]
fn fallback_object_goes_to_the_innermost_list() {
    let opaque = || element("a", vec![class_expr(ident("styles"))], vec![]);
    let out = run(
        vec![
            import_default("styles", "./button.module.css"),
            stmt_item(function(vec![Stmt::Expr(opaque()), Stmt::Return(None)])),
            stmt_item(function(vec![Stmt::Return(None)])),
        ],
        &button_files(),
    );
    assert_eq!(
        out,
        Ok(vec![
            stmt_item(function(vec![
                Stmt::Expr(opaque()),
                Stmt::Return(None),
                fallback(&[("button", "button_1"), ("icon", "icon_7")]),
            ])),
            stmt_item(function(vec![Stmt::Return(None)])),
        ])
    );
}

#[test]
fn fallback_object_is_last_in_the_module() {
    let opaque = || stmt_item(element("a", vec![class_expr(ident("styles"))], vec![]));
    let out = run(
        vec![
            opaque(),
            import_default("styles", "./button.module.css"),
            stmt_item(ident("x")),
            ModuleItem::Stmt(Stmt::Empty),
        ],
        &button_files(),
    );
    // The declaration holds the table that the walk ended with.
    assert_eq!(
        out,
        Ok(vec![
            opaque(),
            stmt_item(ident("x")),
            ModuleItem::Stmt(fallback(&[("button", "button_1"), ("icon", "icon_7")])),
        ])
    );
}

#[test]
fn fallback_object_is_empty_without_a_table() {
    let opaque = || stmt_item(element("a", vec![class_expr(ident("x"))], vec![]));
    assert_eq!(run(vec![opaque()], &Vec::new()), Ok(vec![opaque(), ModuleItem::Stmt(fallback(&[]))]));
}

#[test]
fn computed_class_asks_for_the_fallback_object() {
    let computed = || {
        stmt_item(element(
            "a",
            vec![class_expr(Expr::Member {
                obj: Box::new(ident("styles")),
                prop: MemberProp::Computed(Box::new(Expr::Str("button".to_string()))),
            })],
            vec![],
        ))
    };
    let out = run(vec![import_default("styles", "./button.module.css"), computed()], &button_files());
    assert_eq!(
        out,
        Ok(vec![computed(), ModuleItem::Stmt(fallback(&[("button", "button_1"), ("icon", "icon_7")]))])
    );
}

#[test]
fn later_import_replaces_the_table() {
    let files = vec![
        file("a.module.json", &[("x", "x_a")]),
        file("b.module.json", &[("x", "x_b")]),
    ];
    let use_ = |binding: &str| stmt_item(element("p", vec![class_expr(member(binding, "x"))], vec![]));
    let out = run(
        vec![
            import_default("a", "./a.module.css"),
            use_("a"),
            import_default("b", "./b.module.css"),
            use_("a"),
            use_("b"),
        ],
        &files,
    );
    let resolved = |name: &str| stmt_item(element("p", vec![text_attr("className", name)], vec![]));
    assert_eq!(out, Ok(vec![resolved("x_a"), use_("a"), resolved("x_b")]));
}

#[test]
fn failures_of_loading_end_the_transform() {
    let module = || vec![import_default("styles", "./button.module.css"), stmt_item(ident("a"))];
    assert_eq!(run(module(), &Vec::new()), Err(TransformError::MappingNotFound));
    let unreadable = vec![MappingFile {
        name: "button.module.json".to_string(),
        content: MappingContent::Unreadable,
    }];
    assert_eq!(run(module(), &unreadable), Err(TransformError::MappingReadFailure));
    let malformed = vec![MappingFile {
        name: "button.module.json".to_string(),
        content: MappingContent::Malformed,
    }];
    assert_eq!(run(module(), &malformed), Err(TransformError::MappingParseFailure));
}

#[test]
fn first_failure_is_reported() {
    let missing = |key: &str| stmt_item(element("a", vec![class_expr(member("styles", key))], vec![]));
    let out = run(
        vec![
            import_default("styles", "./button.module.css"),
            missing("one"),
            missing("two"),
            import_default("other", "./other.module.css"),
        ],
        &button_files(),
    );
    assert_eq!(out, Err(TransformError::UnresolvedClassKey { key: "one".to_string() }));
    let out = run(
        vec![
            import_default("other", "./other.module.css"),
            import_default("styles", "./button.module.css"),
            missing("one"),
        ],
        &button_files(),
    );
    assert_eq!(out, Err(TransformError::MappingNotFound));
}

#[test]
fn transform_of_the_output_changes_nothing() {
    let files = button_files();
    let first = process_transform(button_module(member("styles", "button")), &files).unwrap();
    let again = process_transform(
        process_transform(button_module(member("styles", "button")), &files).unwrap(),
        &Vec::new(),
    );
    assert_eq!(again, Ok(first));
}

#[test]
fn transform_of_an_output_with_an_opaque_class_adds_an_object() {
    let files = button_files();
    let module = || button_module(ident("styles"));
    let first = process_transform(module(), &files).unwrap();
    assert_eq!(first.body.len(), 2);
    let again = process_transform(process_transform(module(), &files).unwrap(), &files).unwrap();
    assert_eq!(again.body.len(), 3);
    assert_eq!(again.body[2], ModuleItem::Stmt(fallback(&[])));
}

#[test]
fn output_holds_no_stylesheet_import_that_binds_a_name() {
    let out = run(
        vec![
            import_default("a", "./button.module.css"),
            side_effect_import("./side.module.css"),
            import_default("React", "react"),
            ModuleItem::Import(ImportDecl {
                src: "./button.module.css".to_string(),
                specifiers: vec![ImportSpecifier::Named { local: "b".to_string() }],
            }),
        ],
        &button_files(),
    );
    assert_eq!(
        out,
        Ok(vec![side_effect_import("./side.module.css"), import_default("React", "react")])
    );
}

#[test]
fn copies_of_trees_are_equal() {
    let module = Module {
        body: vec![
            import_default("styles", "./button.module.css"),
            export_const(
                "Button",
                arrow(element(
                    "button",
                    vec![
                        class_expr(member("styles", "button")),
                        text_attr("id", "3"),
                        JsxAttr { name: JsxAttrName::Namespaced { ns: "a".to_string(), name: "b".to_string() }, value: None },
                        attr("x", JsxAttrValue::EmptyContainer),
                        attr("y", JsxAttrValue::Element(JsxElement { name: "i".to_string(), attrs: vec![], children: vec![] })),
                    ],
                    vec![Expr::Template { quasis: vec!["a".to_string(), "b".to_string()], exprs: vec![ident("x")] }],
                )),
            ),
            stmt_item(function(vec![
                Stmt::Other {
                    exprs: vec![Expr::Member {
                        obj: Box::new(ident("a")),
                        prop: MemberProp::Computed(Box::new(Expr::Str("k".to_string()))),
                    }],
                    stmts: vec![Stmt::Empty, Stmt::Block(vec![Stmt::Return(None)])],
                },
                fallback(&[("a", "b")]),
            ])),
        ],
    };
    let copy = module.clone();
    assert_eq!(copy, module);
    let files = button_files();
    assert_eq!(process_transform(copy, &files), process_transform(module, &files.clone()));
}

#[test]
fn empty_statement_outside_a_list_stays() {
    let branch = |stmts: Vec<Stmt>| {
        ModuleItem::Stmt(Stmt::Other { exprs: vec![ident("c")], stmts })
    };
    let out = run(
        vec![branch(vec![Stmt::Empty, Stmt::Block(vec![Stmt::Empty, Stmt::Return(None)])])],
        &Vec::new(),
    );
    assert_eq!(out, Ok(vec![branch(vec![Stmt::Empty, Stmt::Block(vec![Stmt::Return(None)])])]));
}

#[test]
fn need_below_a_branch_reaches_the_list_around() {
    let opaque = || Stmt::Expr(element("a", vec![class_expr(ident("x"))], vec![]));
    let out = run(
        vec![stmt_item(function(vec![Stmt::Other { exprs: vec![], stmts: vec![opaque()] }]))],
        &Vec::new(),
    );
    assert_eq!(
        out,
        Ok(vec![stmt_item(function(vec![
            Stmt::Other { exprs: vec![], stmts: vec![opaque()] },
            fallback(&[]),
        ]))])
    );
}

#[test]
fn count_of_items_is_less_the_resolved_imports_plus_the_fallback() {
    let files = vec![
        file("a.module.json", &[("x", "x_a")]),
        file("b.module.json", &[("x", "x_b")]),
    ];
    let opaque = || stmt_item(element("p", vec![class_expr(ident("a"))], vec![]));
    let plain = || stmt_item(element("p", vec![class_expr(member("b", "x"))], vec![]));
    // Five items, two imports resolved, no fallback: three.
    let out = run(
        vec![
            import_default("a", "./a.module.css"),
            side_effect_import("./polyfill.js"),
            import_default("b", "./b.module.css"),
            plain(),
            import_default("React", "react"),
        ],
        &files,
    )
    .unwrap();
    assert_eq!(out.len(), 5 - 2);
    // Four items, two imports resolved, the fallback: three.
    let out = run(
        vec![
            import_default("a", "./a.module.css"),
            opaque(),
            import_default("b", "./b.module.css"),
            plain(),
        ],
        &files,
    )
    .unwrap();
    assert_eq!(out.len(), 4 - 2 + 1);
    assert_eq!(out[2], ModuleItem::Stmt(fallback(&[("x", "x_b")])));
}
