use css_modules::loader::{
    find_file, get_css_module_mapping, MappingContent, MappingFile, TransformError,
};
use css_modules::mapping::{CssModuleExport, CssModuleExports};

fn names(list: &[&str]) -> Vec<String> {
    list.iter().map(|n| n.to_string()).collect()
}

fn table(key: &str, name: &str) -> CssModuleExports {
    let mut t = CssModuleExports::new();
    t.insert(
        key.to_string(),
        CssModuleExport { name: name.to_string(), composes: vec![], is_referenced: true },
    );
    t
}

fn parsed(name: &str, key: &str, compiled: &str) -> MappingFile {
    MappingFile { name: name.to_string(), content: MappingContent::Parsed(table(key, compiled)) }
}

#[test]
fn first_file_of_the_name_wins() {
    let walk = names(&["src", "a.json", "b.json", "a.json"]);
    assert_eq!(find_file("a.json", &walk), Some(1));
    assert_eq!(find_file("b.json", &walk), Some(2));
    assert_eq!(find_file("src", &walk), Some(0));
}

#[test]
fn file_that_is_not_there_is_not_found() {
    assert_eq!(find_file("a.json", &names(&["b.json", "a.jso", "a.json5", "A.json"])), None);
    assert_eq!(find_file("a.json", &Vec::new()), None);
}

#[test]
fn table_is_loaded_from_the_file_of_its_name() {
    let files = vec![
        parsed("other.module.json", "x", "x_1"),
        parsed("button.module.json", "button", "button_1"),
    ];
    assert_eq!(
        get_css_module_mapping("./button.module.css", &files),
        Ok(table("button", "button_1"))
    );
}

#[test]
fn first_table_of_the_name_is_loaded() {
    let files = vec![
        parsed("button.module.json", "button", "first"),
        parsed("button.module.json", "button", "second"),
    ];
    assert_eq!(
        get_css_module_mapping("./button.module.css", &files),
        Ok(table("button", "first"))
    );
}

#[test]
fn missing_table_is_mapping_not_found() {
    let files = vec![parsed("other.module.json", "x", "x_1")];
    assert_eq!(
        get_css_module_mapping("./button.module.css", &files),
        Err(TransformError::MappingNotFound)
    );
    assert_eq!(
        get_css_module_mapping("./button.module.css", &Vec::new()),
        Err(TransformError::MappingNotFound)
    );
}

#[test]
fn unreadable_table_is_mapping_read_failure() {
    let files = vec![
        MappingFile { name: "button.module.json".to_string(), content: MappingContent::Unreadable },
        parsed("button.module.json", "button", "button_1"),
    ];
    assert_eq!(
        get_css_module_mapping("./button.module.css", &files),
        Err(TransformError::MappingReadFailure)
    );
}

#[test]
fn malformed_table_is_mapping_parse_failure() {
    let files = vec![MappingFile {
        name: "button.module.json".to_string(),
        content: MappingContent::Malformed,
    }];
    assert_eq!(
        get_css_module_mapping("./button.module.css", &files),
        Err(TransformError::MappingParseFailure)
    );
}

#[test]
fn table_of_a_name_with_inner_extension_is_found() {
    let files = vec![parsed("a.css.module.json", "x", "x_1")];
    assert_eq!(get_css_module_mapping("./a.css.module.css", &files), Ok(table("x", "x_1")));
    assert_eq!(get_css_module_mapping("../a.css.module.css", &files), Ok(table("x", "x_1")));
}

#[test]
fn table_of_a_stylesheet_in_another_directory_is_not_found() {
    // Tables are found by the name of their file alone, and the name that
    // is derived keeps the directories of the specifier.
    let files = vec![parsed("button.module.json", "button", "button_1")];
    assert_eq!(
        get_css_module_mapping("./ui/button.module.css", &files),
        Err(TransformError::MappingNotFound)
    );
}
