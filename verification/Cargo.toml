[package]
name = "css_modules"
version = "0.1.0"
edition = "2021"
publish = false

[dependencies]
serde = { version = "=1.0.229", features = ["derive"] }
serde_json = "=1.0.154"
swc_core = { version = "=82.2.0", features = ["common", "ecma_ast", "ecma_parser", "ecma_parser_typescript", "ecma_plugin_transform", "ecma_utils", "ecma_visit"] }
walkdir = "=2.5.0"
