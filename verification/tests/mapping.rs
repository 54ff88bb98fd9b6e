use css_modules::mapping::{CssModuleExport, CssModuleExports, CssModuleReference};

fn export(name: &str) -> CssModuleExport {
    CssModuleExport { name: name.to_string(), composes: vec![], is_referenced: false }
}

#[test]
fn new_table_is_empty() {
    let t = CssModuleExports::new();
    assert_eq!(t.len(), 0);
    assert_eq!(t.get("a"), None);
    assert_eq!(t.find("a"), None);
}

#[test]
fn entries_keep_insertion_order() {
    let mut t = CssModuleExports::new();
    assert_eq!(t.insert("b".to_string(), export("b_1")), None);
    assert_eq!(t.insert("a".to_string(), export("a_1")), None);
    assert_eq!(t.insert("c".to_string(), export("c_1")), None);
    assert_eq!(t.len(), 3);
    assert_eq!(t.key_at(0), "b");
    assert_eq!(t.key_at(1), "a");
    assert_eq!(t.key_at(2), "c");
    assert_eq!(t.export_at(1), &export("a_1"));
    assert_eq!(t.find("a"), Some(1));
    assert_eq!(t.find("c"), Some(2));
    assert_eq!(t.find("d"), None);
}

#[test]
fn insert_replaces_in_place() {
    let mut t = CssModuleExports::new();
    t.insert("a".to_string(), export("a_1"));
    t.insert("b".to_string(), export("b_1"));
    assert_eq!(t.insert("a".to_string(), export("a_2")), Some(export("a_1")));
    assert_eq!(t.len(), 2);
    assert_eq!(t.key_at(0), "a");
    assert_eq!(t.get("a"), Some(&export("a_2")));
    assert_eq!(t.get("b"), Some(&export("b_1")));
}

#[test]
fn keys_are_compared_exactly() {
    let mut t = CssModuleExports::new();
    t.insert("button".to_string(), export("button_1"));
    assert_eq!(t.get("Button"), None);
    assert_eq!(t.get("butto"), None);
    assert_eq!(t.get("button "), None);
    assert_eq!(t.get("button").map(|e| e.name.as_str()), Some("button_1"));
}

#[test]
fn clones_are_equal() {
    let reference = CssModuleReference::Dependency {
        name: "x".to_string(),
        specifier: "./x.module.css".to_string(),
    };
    assert_eq!(reference.clone(), reference);
    let e = CssModuleExport {
        name: "a_1".to_string(),
        composes: vec![
            CssModuleReference::Local { name: "b_1".to_string() },
            CssModuleReference::Global { name: "c".to_string() },
            reference,
        ],
        is_referenced: true,
    };
    assert_eq!(e.clone(), e);
    let mut t = CssModuleExports::new();
    t.insert("a".to_string(), e);
    t.insert("b".to_string(), export("b_1"));
    let copy = t.clone();
    assert_eq!(copy, t);
    assert_eq!(copy.key_at(1), "b");
}
