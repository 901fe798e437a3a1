use treesitter_index::indexer::skeleton;
use treesitter_index::language::SourceLanguage;
use treesitter_index::syntax::parse_source;

fn skeleton_of(source: &str, language: SourceLanguage) -> String {
    let root = parse_source(source.as_bytes(), language).unwrap();
    skeleton(language, &root, source.as_bytes())
}

fn assert_contains_all(output: &str, expected: &[&str]) {
    for part in expected {
        assert!(output.contains(part), "missing {part:?} in:\n{output}");
    }
}

#[test]
fn tuple_struct_fields_past_the_threshold_show_only_public_ones() {
    let output = skeleton_of(
        "pub struct Wide(u8, u8, u8, u8, u8, u8, u8, u8, u16, pub u32);\n",
        SourceLanguage::Rust,
    );
    assert_contains_all(&output, &["pub struct Wide", "pub u32 [1]", "[2 more truncated]"]);
    assert!(!output.contains("u16"), "{output}");
}

#[test]
fn enum_variants_are_named_briefly_with_a_count() {
    let output = skeleton_of(
        "enum Letter { A, B, C, D, E, F, G, H, I, J }\n",
        SourceLanguage::Rust,
    );
    assert_contains_all(
        &output,
        &["enum Letter [1]", "A [1], B [1], C [1], D [1], E [1], F [1], G [1], H [1]", "[2 more truncated]"],
    );
    assert!(!output.contains("I [1]"), "{output}");
}

#[test]
fn negative_impls_keep_their_bang() {
    let output = skeleton_of("impl !Send for Token {}\n", SourceLanguage::Rust);
    assert_contains_all(&output, &["impls:", "!Send for Token [1]"]);
}

#[test]
fn statics_show_their_mutability() {
    let output = skeleton_of("pub static mut COUNTER: u32 = 0;\n", SourceLanguage::Rust);
    assert_contains_all(&output, &["consts:", "pub static mut COUNTER: u32 [1]"]);
}

#[test]
fn go_variables_list_all_names_with_their_type() {
    let output = skeleton_of("package p\nvar a, b int\nconst Limit = 3\n", SourceLanguage::Go);
    assert_contains_all(&output, &["var a, b int [2]", "Limit [3]"]);
}

#[test]
fn go_methods_show_their_receiver() {
    let output = skeleton_of(
        "package p\nfunc (s *Store) Get(key string) string { return key }\n",
        SourceLanguage::Go,
    );
    assert_contains_all(&output, &["impls:", "(s *Store) Get(key string) string [2]"]);
}

#[test]
fn python_decorated_methods_keep_their_decorators() {
    let output = skeleton_of(
        "class Repo:\n    @staticmethod\n    def build(x):\n        return x\n",
        SourceLanguage::Python,
    );
    assert_contains_all(&output, &["Repo [1-4]", "@staticmethod", "build(x) [3-4]"]);
    assert!(!output.contains("return x"), "{output}");
}

#[test]
fn python_from_imports_list_each_name_after_the_module() {
    let output = skeleton_of("from a.b import c, d\n", SourceLanguage::Python);
    assert_contains_all(&output, &["imports:", "a.b.{c, d}"]);
}

#[test]
fn default_exports_are_marked_as_such() {
    let output = skeleton_of(
        "export default function main(): void { run(); }\n",
        SourceLanguage::TypeScript,
    );
    assert_contains_all(&output, &["fns:", "export default main(): void [1]"]);
    assert!(!output.contains("run();"), "{output}");
}

#[test]
fn typescript_variables_show_function_values_by_signature() {
    let output = skeleton_of(
        "const add = (a: number, b: number): number => a + b;\nlet limit: number = 10;\n",
        SourceLanguage::TypeScript,
    );
    assert_contains_all(
        &output,
        &["add = (a: number, b: number): number => [1]", "limit: number = 10 [2]"],
    );
}

#[test]
fn java_interfaces_list_constants_and_methods() {
    let output = skeleton_of(
        "interface Shape { double PI = 3.14; double area(); }\n",
        SourceLanguage::Java,
    );
    assert_contains_all(&output, &["interface Shape", "double PI [1]", "double area() [1]"]);
    assert!(!output.contains("3.14"), "{output}");
}
