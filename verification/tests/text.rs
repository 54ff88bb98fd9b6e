use css_modules::text::{chars_of, is_stylesheet_path, mapping_file_name, same_text};

/// The same name, by the functions of `str`.
fn by_std(specifier: &str) -> String {
    let mut rest = specifier;
    loop {
        if let Some(tail) = rest.strip_prefix("./") {
            rest = tail;
        } else if let Some(tail) = rest.strip_prefix("../") {
            rest = tail;
        } else {
            break;
        }
    }
    match rest.strip_suffix(".css") {
        Some(stem) => format!("{}.json", stem),
        None => rest.to_string(),
    }
}

#[test]
fn mapping_file_of_a_relative_import() {
    assert_eq!(mapping_file_name("./button.module.css"), "button.module.json");
}

#[test]
fn mapping_file_of_a_bare_import() {
    assert_eq!(mapping_file_name("button.module.css"), "button.module.json");
}

#[test]
fn only_the_extension_at_the_end_is_replaced() {
    assert_eq!(mapping_file_name("./a.css.module.css"), "a.css.module.json");
    assert_eq!(mapping_file_name(".css.css"), ".css.json");
    assert_eq!(mapping_file_name("./x.css.d/y.module.css"), "x.css.d/y.module.json");
    assert_eq!(mapping_file_name(".css"), ".json");
}

#[test]
fn only_the_marks_at_the_start_are_dropped() {
    assert_eq!(mapping_file_name("././x.module.css"), "x.module.json");
    assert_eq!(mapping_file_name("../x.module.css"), "x.module.json");
    assert_eq!(mapping_file_name("../.././../x.module.css"), "x.module.json");
    assert_eq!(mapping_file_name("a/./b.module.css"), "a/./b.module.json");
    assert_eq!(mapping_file_name("a/../b.module.css"), "a/../b.module.json");
    assert_eq!(mapping_file_name(".//x.module.css"), "/x.module.json");
    assert_eq!(mapping_file_name(".../x.module.css"), ".../x.module.json");
    assert_eq!(mapping_file_name("./"), "");
    assert_eq!(mapping_file_name(".."), "..");
}

#[test]
fn mapping_file_keeps_directories() {
    assert_eq!(mapping_file_name("./ui/button.module.css"), "ui/button.module.json");
    assert_eq!(mapping_file_name("../ui/button.module.css"), "ui/button.module.json");
}

#[test]
fn text_without_the_extension_keeps_its_end() {
    assert_eq!(mapping_file_name("./button.module.scss"), "button.module.scss");
    assert_eq!(mapping_file_name("./button.css.js"), "button.css.js");
    assert_eq!(mapping_file_name("css"), "css");
    assert_eq!(mapping_file_name(""), "");
}

#[test]
fn mapping_file_name_agrees_with_prefix_and_suffix_of_str() {
    for specifier in [
        "",
        ".",
        "./",
        "../",
        ".css",
        "./.css",
        "../.css",
        "a.module.css",
        "./a.module.css",
        "../../a/b/c.module.css",
        "./x.css.d/y.module.css",
        "x.cssx.css",
        "./\u{e9}t\u{e9}/\u{1f600}.module.css",
        "no-extension",
        "...///...css",
        ".c.cs.css.csss",
        "./../././a.css.module.css",
    ] {
        assert_eq!(mapping_file_name(specifier), by_std(specifier), "for {:?}", specifier);
    }
}

#[test]
fn stylesheet_paths_end_in_the_suffix() {
    assert!(is_stylesheet_path("./button.module.css"));
    assert!(is_stylesheet_path(".module.css"));
    assert!(is_stylesheet_path("a/b/c.module.css"));
    assert!(!is_stylesheet_path("./button.css"));
    assert!(!is_stylesheet_path("./button.module.css.js"));
    assert!(!is_stylesheet_path("module.css"));
    assert!(!is_stylesheet_path(""));
    assert!(!is_stylesheet_path("./button.module.scss"));
    assert!(!is_stylesheet_path("./button.MODULE.CSS"));
}

#[test]
fn stylesheet_path_agrees_with_ends_with() {
    for path in ["", "css", ".module.css", "x.module.css", "x.module.cs", "\u{e9}.module.css", "x.module.css "] {
        assert_eq!(is_stylesheet_path(path), path.ends_with(".module.css"), "for {:?}", path);
    }
}

#[test]
fn same_text_compares_characters() {
    assert!(same_text("", ""));
    assert!(same_text("className", "className"));
    assert!(!same_text("className", "classname"));
    assert!(!same_text("class", "className"));
    assert!(!same_text("className", "class"));
    assert!(same_text("\u{e9}", "\u{e9}"));
}

#[test]
fn chars_of_lists_the_characters() {
    assert_eq!(chars_of("a\u{e9}b"), vec!['a', '\u{e9}', 'b']);
    assert_eq!(chars_of(""), Vec::<char>::new());
}
