use treesitter_index::entries::{prefixed, split_on};
use treesitter_index::go::strip_quotes;
use treesitter_index::language::SourceLanguage;
use treesitter_index::pattern::SymbolPattern;
use treesitter_index::python::segmented_path;
use treesitter_index::rust::{path_segments, relevant_attrs};
use treesitter_index::skeleton::{wrap_csv, Entry};
use treesitter_index::syntax::{lossy, parse_source, span};
use treesitter_index::text::{compact_whitespace, format_range, truncate};
use treesitter_index::trie::ImportTrie;
use treesitter_index::typescript::segment_path;

fn strings(values: &[&str]) -> Vec<String> {
    values.iter().map(|value| value.to_string()).collect()
}

#[test]
fn formats_single_lines_and_ranges() {
    assert_eq!(format_range(7, 7), "[7]");
    assert_eq!(format_range(3, 12), "[3-12]");
    assert_eq!(format_range(0, 0), "[0]");
}

#[test]
fn compacts_runs_of_whitespace() {
    assert_eq!(compact_whitespace("  fn  run(\n  a,\tb )  "), "fn run( a, b )");
    assert_eq!(compact_whitespace(" \n\t "), "");
    assert_eq!(compact_whitespace("x\u{3000}y"), "x y");
}

#[test]
fn truncates_long_texts_at_character_boundaries() {
    assert_eq!(truncate("short", 10), "short");
    assert_eq!(truncate("abcdefghijklmnop", 15), "abcd[truncated]");
    assert_eq!(truncate("ab\ncdefghijklmnop", 15), "ab\nc\n[truncated]");
    assert_eq!(truncate("ééééééééé", 15), "éé[truncated]");
    assert_eq!(truncate("abcdefghijkl", 5), "[truncated]");
}

#[test]
fn truncated_texts_stay_within_one_byte_of_the_limit() {
    for maximum in 11..40 {
        let out = truncate("line one\nline two\nline three\nline four", maximum);
        assert!(out.len() <= maximum + 1, "{maximum}: {out:?}");
    }
}

#[test]
fn wraps_comma_separated_items_before_the_threshold() {
    let items = strings(&["alpha", "beta"]);
    assert_eq!(wrap_csv(&items, "  "), ["  alpha, beta"]);
    let long: Vec<String> = (0..30).map(|index| format!("item{index:02}")).collect();
    let lines = wrap_csv(&long, "    ");
    assert!(lines.len() > 1);
    for line in &lines {
        assert!(line.starts_with("    "));
        assert!(line.len() <= 120);
    }
    assert!(wrap_csv(&Vec::new(), "  ").is_empty());
}

#[test]
fn import_tries_group_paths_by_shared_prefix() {
    let mut trie = ImportTrie::new();
    trie.insert(&strings(&["std", "io", "Read"]), 0);
    trie.insert(&strings(&["std", "fs"]), 0);
    trie.insert(&strings(&["std", "io"]), 0);
    trie.insert(&strings(&["serde"]), 0);
    trie.insert(&strings(&["std", "fs"]), 0);
    assert_eq!(trie.render("::"), ["serde", "std::{fs, io, io::Read}"]);
}

#[test]
fn import_tries_do_not_depend_on_insertion_order() {
    let paths = [
        strings(&["a", "b", "c"]),
        strings(&["a", "d"]),
        strings(&["e"]),
        strings(&["a", "b"]),
    ];
    let mut forward = ImportTrie::new();
    for path in &paths {
        forward.insert(path, 0);
    }
    let mut backward = ImportTrie::new();
    for path in paths.iter().rev() {
        backward.insert(path, 0);
    }
    assert_eq!(forward.render("/"), backward.render("/"));
}

#[test]
fn splits_paths_into_segments() {
    assert_eq!(split_on("a/b//c", '/'), ["a", "b", "", "c"]);
    assert_eq!(path_segments(" ::std :: io "), ["", "std", "io"]);
    assert_eq!(segmented_path("os . path"), ["os", "path"]);
    assert_eq!(segment_path(" ./api / client "), [".", "api", "client"]);
    assert_eq!(strip_quotes("\"fmt\""), "fmt");
    assert_eq!(strip_quotes("`raw`"), "raw");
    assert_eq!(strip_quotes("\"open"), "\"open");
}

#[test]
fn keeps_only_derive_and_cfg_attributes() {
    let attrs = strings(&["#[derive(Debug)]", "#[inline]", "#[cfg(unix)]"]);
    assert_eq!(relevant_attrs(&attrs), ["#[derive(Debug)]", "#[cfg(unix)]"]);
    assert_eq!(prefixed("", "x"), "x");
    assert_eq!(prefixed("pub", "x"), "pub x");
}

#[test]
fn language_names_round_trip() {
    for language in [
        SourceLanguage::Python,
        SourceLanguage::JavaScript,
        SourceLanguage::Jsx,
        SourceLanguage::TypeScript,
        SourceLanguage::Tsx,
        SourceLanguage::Rust,
        SourceLanguage::Go,
        SourceLanguage::Java,
    ] {
        assert_eq!(SourceLanguage::from_name(language.name()).unwrap(), language);
    }
    assert_eq!(
        SourceLanguage::from_name("cobol").unwrap_err(),
        "unsupported language: cobol"
    );
    assert_eq!(
        SourceLanguage::from_extension("toml").unwrap_err(),
        "unsupported file extension: .toml"
    );
}

#[test]
fn source_spans_decode_only_valid_utf8() {
    let source = b"ok \xff end";
    assert_eq!(span(source, 0, 2), "ok");
    assert_eq!(span(source, 0, 5), "");
    assert_eq!(span(source, 4, 2), "");
    assert_eq!(lossy(source, 0, 5), "ok \u{fffd} ");
}

#[test]
fn parsing_gives_a_tree_with_one_based_lines() {
    let root = parse_source(b"fn a() {}\nfn b() {}\n", SourceLanguage::Rust).unwrap();
    assert_eq!(root.kind, "source_file");
    assert_eq!(root.children.len(), 2);
    assert_eq!(root.children[1].start_line, 2);
    assert!(!root.has_error);
}

#[test]
fn invalid_patterns_are_reported() {
    let error = SymbolPattern::new("(", false).err().unwrap();
    assert!(error.starts_with("invalid regular expression \"(\": "));
    let pattern = SymbolPattern::new("^ab+c$", false).unwrap();
    assert!(pattern.is_match("abbc"));
    assert!(!pattern.is_match("ac"));
    assert_eq!(pattern.as_str(), "^ab+c$");
}

#[test]
fn new_entries_start_without_children() {
    let root = parse_source(b"package p\n", SourceLanguage::Go).unwrap();
    let entry: Entry = treesitter_index::entries::new_entry(
        treesitter_index::skeleton::Section::Module,
        &root,
        "p".to_string(),
    );
    assert_eq!(entry.line_start, 1);
    assert!(entry.children.is_empty());
}
