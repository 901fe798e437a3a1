use std::path::Path;
use treesitter_index::cli::parse_kinds;
use treesitter_index::indexer::{
    skeleton, skeleton_matching, skeleton_matching_imports, skeleton_selected,
};
use treesitter_index::language::SourceLanguage;
use treesitter_index::pattern::SymbolPattern;
use treesitter_index::render::render_imports;
use treesitter_index::skeleton::{ChildStyle, Entry, Section};
use treesitter_index::syntax::parse_source;

fn index(language: SourceLanguage, source: &str) -> String {
    let root = parse_source(source.as_bytes(), language).unwrap();
    skeleton(language, &root, source.as_bytes())
}

fn index_matching(language: SourceLanguage, source: &str, patterns: &[&str]) -> String {
    index_matching_with_case(language, source, patterns, false)
}

fn index_matching_with_case(
    language: SourceLanguage,
    source: &str,
    patterns: &[&str],
    case_insensitive: bool,
) -> String {
    let root = parse_source(source.as_bytes(), language).unwrap();
    let patterns: Vec<SymbolPattern> = patterns
        .iter()
        .map(|pattern| SymbolPattern::new(pattern, case_insensitive).unwrap())
        .collect();
    skeleton_matching(language, &root, source.as_bytes(), &patterns)
}

#[test]
fn infers_supported_extensions() {
    assert_eq!(
        SourceLanguage::from_path(Path::new("main.py")).unwrap(),
        SourceLanguage::Python
    );
    assert_eq!(
        SourceLanguage::from_path(Path::new("app.tsx")).unwrap(),
        SourceLanguage::Tsx
    );
    assert_eq!(
        SourceLanguage::from_path(Path::new("lib.rs")).unwrap(),
        SourceLanguage::Rust
    );
    assert!(SourceLanguage::from_path(Path::new("data.json")).is_err());
}

#[test]
fn matches_python_and_typescript_classes_and_functions_by_bare_name() {
    let python = index_matching(
        SourceLanguage::Python,
        "import os\nVALUE = 1\n@decorated\nclass Repository:\n    def connect(self): pass\nasync def process_data(value): pass\ndef ignore_me(): pass\n",
        &["^Repo.*$", "^process_.ata$"],
    );
    assert!(python.contains("Repository"));
    assert!(python.contains("connect(self)"));
    assert!(python.contains("async process_data(value)"));
    assert!(!python.contains("import"));
    assert!(!python.contains("VALUE"));
    assert!(!python.contains("ignore_me"));

    let typescript = index_matching(
        SourceLanguage::TypeScript,
        "export interface ServiceShape {}\nexport const loader = () => 1;\nexport class Service { run(): void {} }\nexport function load(path: string): void {}\nclass Ignore {}\n",
        &["^Service$", "^lo.d$"],
    );
    assert!(typescript.contains("export Service"));
    assert!(typescript.contains("run(): void"));
    assert!(typescript.contains("export load(path: string): void"));
    assert!(!typescript.contains("ServiceShape"));
    assert!(!typescript.contains("loader"));
    assert!(!typescript.contains("Ignore"));
}

#[test]
fn matches_rust_go_and_java_top_level_symbols() {
    let rust = index_matching(
        SourceLanguage::Rust,
        "struct LoadState;\nimpl LoadState { fn load(&self) {} }\npub fn load_data() {}\nfn ignore() {}\n",
        &["^load_.*$"],
    );
    assert!(rust.contains("pub load_data()"));
    assert!(!rust.contains("LoadState"));
    assert!(!rust.contains("ignore"));

    let go = index_matching(
        SourceLanguage::Go,
        "package main\ntype Service struct{}\nfunc (Service) Load() {}\nfunc LoadData() {}\nfunc Ignore() {}\n",
        &["^Load.*$"],
    );
    assert!(go.contains("LoadData()"));
    assert!(!go.contains("Service"));
    assert!(!go.contains("Ignore"));

    let java = index_matching(
        SourceLanguage::Java,
        "class Service { void run() {} }\ninterface ServiceShape {}\nrecord Point(int x, int y) {}\nclass Ignore {}\n",
        &["^Serv.*$", "^Point$"],
    );
    assert!(java.contains("class Service"));
    assert!(java.contains("void run()"));
    assert!(java.contains("record Point(int x, int y)"));
    assert!(!java.contains("ServiceShape"));
    assert!(!java.contains("Ignore"));
}

#[test]
fn no_symbol_matches_produce_an_empty_skeleton() {
    assert!(index_matching(SourceLanguage::Rust, "fn present() {}\n", &["missing"]).is_empty());
}

#[test]
fn symbol_regexps_are_case_sensitive_unless_requested() {
    let source = "fn LoadData() {}\n";
    assert!(index_matching(SourceLanguage::Rust, source, &["^loaddata$"]).is_empty());
    assert!(
        index_matching_with_case(SourceLanguage::Rust, source, &["^loaddata$"], true)
            .contains("LoadData")
    );
}

#[test]
fn skeleton_of_an_empty_file_is_empty() {
    assert_eq!(index(SourceLanguage::Rust, ""), "");
    assert_eq!(index(SourceLanguage::Python, "\n\n"), "");
}

#[test]
fn skeleton_sections_are_separated_by_blank_lines_and_end_with_a_newline() {
    let output = index(
        SourceLanguage::Rust,
        "use std::fmt;\nconst LIMIT: usize = 3;\nfn run() {}\n",
    );
    assert_eq!(
        output,
        "imports: [1]\n  std::fmt\n\nconsts:\n  LIMIT: usize [2]\n\nfns:\n  run() [3]\n"
    );
}

#[test]
fn module_docs_and_tests_are_shown_as_ranges() {
    let output = index(
        SourceLanguage::Rust,
        "//! Crate docs.\n//! More.\nfn run() {}\n#[test]\nfn first() {}\n#[cfg(test)]\nmod tests {}\n",
    );
    assert!(output.starts_with("module doc: [1-2]\n\n"));
    assert!(output.contains("fns:\n  run() [3]"));
    assert!(output.ends_with("tests: [5-7]\n"));
    assert!(!output.contains("first"));
}

#[test]
fn doc_comments_extend_the_range_of_the_next_declaration() {
    let output = index(SourceLanguage::Rust, "/// Runs.\n/// Twice.\nfn run() {}\n");
    assert_eq!(output, "fns:\n  run() [1-3]\n");
}

#[test]
fn matching_drops_module_docs_tests_and_other_sections() {
    let source = "//! Docs.\nuse std::fmt;\nstruct Load;\nfn load() {}\n#[test]\nfn check() {}\n";
    let output = index_matching(SourceLanguage::Rust, source, &["oad"]);
    assert_eq!(output, "types:\n  struct Load [3]\n\nfns:\n  load() [4]\n");
    let output = index_matching(SourceLanguage::Rust, source, &["^load$"]);
    assert_eq!(output, "fns:\n  load() [4]\n");
}

#[test]
fn import_output_does_not_depend_on_import_order() {
    let first = index(SourceLanguage::Python, "import b.c\nimport a\nimport b.a\n");
    let second = index(SourceLanguage::Python, "import a\nimport b.a\nimport b.c\n");
    assert_eq!(first, second);
    assert!(first.contains("  a\n  b.{a, c}"));
}

#[test]
fn filters_output_by_section_kind() {
    let source = "const LIMIT = 10;\ntype Id = string;\nclass Service {}\nfunction load(): void {}\n";
    let root = parse_source(source.as_bytes(), SourceLanguage::TypeScript).unwrap();
    let kinds = parse_kinds("fns,classes").unwrap();
    let output = skeleton_selected(
        SourceLanguage::TypeScript,
        &root,
        source.as_bytes(),
        &Vec::new(),
        false,
        Some(&kinds),
    );
    assert!(output.contains("classes:"));
    assert!(output.contains("  Service ["));
    assert!(output.contains("fns:"));
    assert!(output.contains("load(): void"));
    assert!(!output.contains("consts:"));
    assert!(!output.contains("types:"));
}

#[test]
fn matching_imports_keeps_the_matching_paths() {
    let source = "use std::{collections::HashSet, fmt};\nfn run() {}\n";
    let root = parse_source(source.as_bytes(), SourceLanguage::Rust).unwrap();
    let patterns = vec![SymbolPattern::new("^std::collections::HashSet$", false).unwrap()];
    let output = skeleton_matching_imports(
        SourceLanguage::Rust,
        &root,
        source.as_bytes(),
        &patterns,
        true,
    );
    assert_eq!(output, "imports: [1]\n  std::collections::HashSet\n");
    let without = skeleton_matching_imports(
        SourceLanguage::Rust,
        &root,
        source.as_bytes(),
        &patterns,
        false,
    );
    assert!(without.is_empty());
}

fn import_entry(line: usize, keyword: Option<&str>, paths: &[&[&str]]) -> Entry {
    Entry {
        section: Section::Import,
        symbol_name: None,
        line_start: line,
        line_end: line,
        text: String::new(),
        import_paths: paths
            .iter()
            .map(|path| path.iter().map(|segment| segment.to_string()).collect())
            .collect(),
        import_keyword: keyword.map(|keyword| keyword.to_string()),
        attrs: Vec::new(),
        children: Vec::new(),
        child_style: ChildStyle::Detailed,
    }
}

#[test]
fn renders_imports_grouped_by_keyword() {
    let first = import_entry(3, None, &[&["std", "io"], &["std", "fmt"]]);
    let second = import_entry(1, Some("export"), &[&["a", "b"]]);
    let third = import_entry(5, None, &[&["std", "io"], &["core"]]);
    let items = vec![&first, &second, &third];
    assert_eq!(
        render_imports(&items, "::"),
        "imports: [1-5]\n  export: a::b\n  core\n  std::{fmt, io}"
    );
}

#[test]
fn path_inference_names_the_extension_or_the_path() {
    assert_eq!(
        SourceLanguage::from_path(Path::new("data.json")),
        Err("unsupported file extension: .json".to_string())
    );
    assert_eq!(
        SourceLanguage::from_path(Path::new("Makefile")),
        Err("cannot infer language from Makefile".to_string())
    );
    assert_eq!(
        SourceLanguage::from_path(Path::new("docs/README.md")),
        Ok(SourceLanguage::Markdown)
    );
    assert_eq!(
        SourceLanguage::from_path(Path::new("notes.markdown")),
        Ok(SourceLanguage::Markdown)
    );
}
