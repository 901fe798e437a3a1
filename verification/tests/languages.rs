use treesitter_index::indexer::{skeleton, skeleton_matching};
use treesitter_index::language::SourceLanguage;
use treesitter_index::pattern::SymbolPattern;
use treesitter_index::syntax::{grammar_load_outcome, parse_outcome, parse_source, syntax_sexp};

fn index(source: &str, language: SourceLanguage) -> String {
    let root = parse_source(source.as_bytes(), language).unwrap();
    skeleton(language, &root, source.as_bytes())
}

fn index_matching(source: &str, patterns: &[&str]) -> String {
    let language = SourceLanguage::Go;
    let root = parse_source(source.as_bytes(), language).unwrap();
    let regexps: Vec<SymbolPattern> = patterns
        .iter()
        .map(|pattern| SymbolPattern::new(pattern, false).unwrap())
        .collect();
    skeleton_matching(language, &root, source.as_bytes(), &regexps)
}

#[test]
fn extracts_go_declarations_and_elides_function_bodies() {
    let output = index(
        "package api\n\
         import (\n\
           \"fmt\"\n\
           alias \"example.com/project/pkg\"\n\
           . \"example.com/project/dot\"\n\
           _ \"example.com/project/blank\"\n\
         )\n\
         const ( A = 1; B string = \"b\" )\n\
         var Global int\n\
         type Point struct { X, Y int; Name string }\n\
         type Reader interface { Read(p []byte) (int, error); ~int | ~string }\n\
         type Alias = map[string]int\n\
         func Load[T any](value T) error { return nil }\n\
         func (p *Point) Distance() float64 { return 0 }",
        SourceLanguage::Go,
    );

    for expected in [
        "mod: [1]",
        "  api",
        "fmt",
        "example.com/project/{blank, dot, pkg}",
        "A",
        "B string",
        "var Global int",
        "struct Point",
        "X, Y int",
        "interface Reader",
        "Read(p []byte) (int, error)",
        "type Alias = map[string]int",
        "Load[T any](value T) error",
        "(p *Point) Distance() float64",
    ] {
        assert!(
            output.contains(expected),
            "missing {expected:?} in:\n{output}"
        );
    }
    assert!(!output.contains("return nil"));
    assert!(!output.contains("return 0"));
}

#[test]
fn ranges_members_and_truncates_struct_fields() {
    let output = index(
        "package p\n\
         type Many struct {\n\
           A int\nB int\nC int\nD int\nE int\nF int\nG int\nH int\nI int\n\
         }\n\
         type Store interface {\n\
           Get(key string) (string, error)\n\
         }",
        SourceLanguage::Go,
    );

    assert!(output.contains("A int [3]"));
    assert!(output.contains("[1 more truncated]"));
    assert!(output.contains("Get(key string) (string, error) [14]"));
}

#[test]
fn preserves_embedded_pointer_fields_and_field_truncation() {
    let output = index(
        "package p\n\
         type Record struct {\n\
           *Base\n\
           *pkg.Remote `json:\"remote\"`\n\
           Plain\n\
           pkg.Value\n\
           *Generic[int]\n\
           X, Y *Base\n\
           _ int\n\
           Named string `json:\"name\"`\n\
           *Hidden\n\
         }",
        SourceLanguage::Go,
    );
    for expected in [
        "*Base [3]",
        "*pkg.Remote [4]",
        "Plain [5]",
        "pkg.Value [6]",
        "*Generic[int] [7]",
        "X, Y *Base [8]",
        "_ int [9]",
        "Named string [10]",
        "[1 more truncated]",
    ] {
        assert!(
            output.contains(expected),
            "missing {expected:?} in:\n{output}"
        );
    }
    assert!(!output.contains("_ Base"));
    assert!(!output.contains("_ Plain"));
    assert!(!output.contains("json:"));
    assert!(!output.contains("Hidden"));
}

#[test]
fn extracts_java_declarations_and_elides_implementations() {
    let output = index(
        "package com.example;\n\
         import java.util.List;\n\
         import static java.util.Collections.emptyList;\n\
         public class Service<T> extends Base implements Runnable {\n\
           private final String name = makeName();\n\
           public Service(String name) throws IOException { this.name = name; }\n\
           @Override public <R> R convert(T value) throws IOException { return work(value); }\n\
         }\n\
         public interface Handler<T> extends Comparable<T> { int LIMIT = compute(); void run() throws Exception; }\n\
         public enum Direction implements Displayable { UP, DOWN }\n\
         public record Point<T>(T x, T y) implements Serializable {}\n\
         public @interface Marker {}",
        SourceLanguage::Java,
    );

    assert!(output.contains("com.example"));
    assert!(output.contains("java.util.List"));
    assert!(output.contains("static java.util.Collections.emptyList"));
    assert!(output.contains("public class Service<T> extends Base implements Runnable"));
    assert!(output.contains("private final String name"));
    assert!(output.contains("public Service(String name) throws IOException"));
    assert!(output.contains("@Override public <R> R convert(T value) throws IOException"));
    assert!(output.contains("public interface Handler<T> extends Comparable<T>"));
    assert!(output.contains("int LIMIT"));
    assert!(output.contains("public enum Direction implements Displayable"));
    assert!(output.contains("UP, DOWN"));
    assert!(output.contains("public record Point<T>(T x, T y) implements Serializable"));
    assert!(output.contains("public @interface Marker"));
    assert!(!output.contains("makeName"));
    assert!(!output.contains("this.name"));
    assert!(!output.contains("work(value)"));
    assert!(!output.contains("compute()"));
}

#[test]
fn truncates_class_fields_after_eight_declarations() {
    let output = index(
        "class Many {\n\
           int one; int two; int three; int four; int five;\n\
           int six; int seven; int eight; int nine;\n\
         }",
        SourceLanguage::Java,
    );

    assert!(output.contains("int eight"));
    assert!(!output.contains("int nine"));
    assert!(output.contains("[1 more truncated]"));
}

#[test]
fn extracts_python_sections_and_elides_bodies() {
    let output = index(
        "import os.path, collections.abc as abc\n\
         from typing import Optional, Iterable as Items\n\
         MAX_RETRIES: int = 3\n\
         type Result[T] = tuple[T, Exception | None]\n\
         @registered('worker')\n\
         async def process(data: list[int]) -> dict[str, int]:\n\
             \"\"\"Process some data.\"\"\"\n\
             return {'size': len(data)}\n",
        SourceLanguage::Python,
    );

    assert!(output.contains("os.path"));
    assert!(output.contains("collections.abc as abc"));
    assert!(output.contains("typing.{Iterable as Items, Optional}"));
    assert!(output.contains("MAX_RETRIES = 3"));
    assert!(output.contains("type Result[T] = tuple[T, Exception | None]"));
    assert!(output.contains("@registered('worker')"));
    assert!(output.contains("async process(data: list[int]) -> dict[str, int]"));
    assert!(!output.contains("return {'size'"));
}

#[test]
fn extracts_class_bases_methods_and_fields_with_ranges() {
    let output = index(
        "class Repo[T](Base, Protocol):\n    url: str = 'local'\n    @classmethod\n    async def connect(cls, url: str) -> None:\n        \"\"\"Connect to the repository.\"\"\"\n        await open(url)\n",
        SourceLanguage::Python,
    );

    assert!(output.contains("Repo[T](Base, Protocol)"));
    assert!(output.contains("url: str = 'local' [2]"));
    assert!(output.contains("@classmethod"));
    assert!(output.contains("async connect(cls, url: str) -> None [4-6]"));
    assert!(!output.contains("await open"));
}

#[test]
fn expands_nested_uses_and_elides_bodies() {
    let output = index(
        "use std::{fs, io::{self, Read as Reader}, net::*};\n\
         pub async fn load<T>(value: T) -> Result<T> where T: Send { todo!() }",
        SourceLanguage::Rust,
    );

    assert!(output.contains("std::{fs, io::{Read as Reader, self}, net::*}"));
    assert!(output.contains("pub async load<T>(value: T) -> Result<T> where T: Send"));
    assert!(!output.contains("todo!"));
}

#[test]
fn extracts_type_headers_and_ranged_members() {
    let output = index(
        "#[derive(Debug)]\n\
         pub struct Item<T> where T: Copy { pub value: T }\n\
         trait Build<T>: Send where T: Copy { fn build(value: T) -> Self; }\n\
         impl<T> Build<T> for Item<T> where T: Copy { pub fn new(value: T) -> Self { Self { value } } }",
        SourceLanguage::Rust,
    );

    assert!(output.contains("#[derive(Debug)]"));
    assert!(output.contains("pub struct Item<T> where T: Copy"));
    assert!(output.contains("pub value: T [2]"));
    assert!(output.contains("Build<T>: Send where T: Copy"));
    assert!(output.contains("<T> Build<T> for Item<T> where T: Copy"));
    assert!(output.contains("pub new(value: T) -> Self [4]"));
    assert!(!output.contains("Self { value }"));
}

#[test]
fn extracts_typescript_declarations_and_elides_bodies() {
    let output = index(
        "import { A } from './api/client';\n\
         export interface Config { port: number; run(x: string): void; }\n\
         export type ID = string | number;\n\
         export enum Direction { Up, Down }\n\
         export const handler = (value: string): number => { return value.length; };\n\
         export class Service { private value: string = 'x'; run(): void { work(); } }\n\
         export function load(path: string): Promise<void> { return open(path); }",
        SourceLanguage::TypeScript,
    );

    assert!(output.contains("{ A } from './api/client'"));
    assert!(output.contains("export interface Config"));
    assert!(output.contains("run(x: string): void"));
    assert!(output.contains("export handler = (value: string): number =>"));
    assert!(output.contains("private value: string"));
    assert!(output.contains("export load(path: string): Promise<void>"));
    assert!(!output.contains("return value.length"));
    assert!(!output.contains("work();"));
}

#[test]
fn handles_javascript_signatures_without_type_nodes() {
    let output = index(
        "export const render = async (value) => value;\n\
         export function* values(items) { yield* items; }\n\
         export class View { field = 1; draw(target) { target.paint(); } }",
        SourceLanguage::JavaScript,
    );

    assert!(output.contains("export render = async (value) =>"));
    assert!(output.contains("export *values(items)"));
    assert!(output.contains("draw(target)"));
    assert!(!output.contains("yield* items"));
    assert!(!output.contains("target.paint"));
}

#[test]
fn extracts_reexports_abstract_classes_and_modules() {
    let output = index(
        "export { Client } from './api/client';\n\
         export namespace API { export const version = 1; }\n\
         @sealed\nexport abstract class Base { abstract run(): void; }\n\
         declare module 'virtual' { export function open(): void; }",
        SourceLanguage::TypeScript,
    );

    assert!(output.contains("export: { Client } from './api/client'"));
    assert!(output.contains("export namespace API"));
    assert!(output.contains("@sealed"));
    assert!(output.contains("export abstract Base"));
    assert!(output.contains("abstract run(): void"));
    assert!(output.contains("declare module 'virtual'"));
}

#[test]
fn filters_interface_methods_by_bare_name() {
    let source = "package p\n\
        type Store interface {\n\
            Get(\n\
                key string,\n\
            ) (string, error)\n\
            Put(key, value string) error\n\
            Base\n\
        }";
    for pattern in ["^Get$", "^(Store|Get)$"] {
        let output = index_matching(source, &[pattern]);
        assert!(output.contains("interface Store [2-8]"), "{output}");
        assert!(
            output.contains("Get( key string, ) (string, error) [3-5]"),
            "{output}"
        );
        assert!(!output.contains("Put("));
        assert!(!output.contains("Base"));
    }
    let parent = index_matching(source, &["^Store$"]);
    assert!(parent.contains("interface Store [2-8]"), "{parent}");
    assert!(!parent.contains("Get("));
    assert!(!parent.contains("Put("));
    assert!(!parent.contains("Base"));
    assert!(index_matching(source, &["^key$"]).is_empty());
}

#[test]
fn classes_are_kept_for_their_matching_methods() {
    let root_source = "class Repo:\n    @cached\n    def load(self): pass\n    def save(self): pass\n";
    let root = parse_source(root_source.as_bytes(), SourceLanguage::Python).unwrap();
    let patterns = vec![SymbolPattern::new("^load$", false).unwrap()];
    let output = skeleton_matching(SourceLanguage::Python, &root, root_source.as_bytes(), &patterns);
    assert!(output.contains("classes:\n  Repo [1-4]"), "{output}");
    assert!(output.contains("@cached"), "{output}");
    assert!(output.contains("load(self) [3]"), "{output}");
    assert!(!output.contains("save"), "{output}");
}

#[test]
fn refused_grammar_message_names_the_language_and_reason() {
    assert_eq!(grammar_load_outcome(SourceLanguage::Go, None), Ok(()));
    assert_eq!(
        grammar_load_outcome(SourceLanguage::Go, Some("bad version")),
        Err("failed to load go grammar: bad version".to_string())
    );
}

#[test]
fn missing_tree_is_reported() {
    assert_eq!(
        parse_outcome(None).err(),
        Some("parser returned no syntax tree".to_string())
    );
}

#[test]
fn sexp_shows_the_parsed_tree() {
    let sexp = syntax_sexp(b"fn main() {}", SourceLanguage::Rust).unwrap();
    assert!(sexp.starts_with("(source_file (function_item"));
}
