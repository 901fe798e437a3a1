//! From a syntax tree to a skeleton: the top-level declarations are handed
//! to the extractor of their language, and the entries rendered.
use crate::entries::named_symbols;
use crate::language::SourceLanguage;
use crate::pattern::{any_match, any_matches, SymbolPattern};
use crate::render::{groups_of, in_section, lemma_rendered_unique, render_skeleton, rendered, ImportGroup};
use crate::skeleton::{child_views, entry_views, texts, ChildV, Entry, EntryChild, EntryV, Extracted, Section, join};
use crate::syntax::{node_text, text_of, SyntaxNode};
use crate::text::{chars_of, has_prefix, has_suffix};
use vstd::prelude::*;

verus! {

/// The separator shown between the segments of an import path.
pub open spec fn separator_of(language: SourceLanguage) -> Seq<char> {
    match language {
        SourceLanguage::Python | SourceLanguage::Java => "."@,
        SourceLanguage::Rust => "::"@,
        _ => "/"@,
    }
}

/// Whether a top-level node is a documentation comment, which belongs to the
/// declaration after it.
pub open spec fn doc_comment(language: SourceLanguage, node: SyntaxNode, source: Seq<u8>) -> bool {
    let text = text_of(node, source);
    match language {
        SourceLanguage::Python => false,
        SourceLanguage::JavaScript | SourceLanguage::Jsx | SourceLanguage::TypeScript
        | SourceLanguage::Tsx => node.kind@ == "comment"@ && has_prefix(text, "/**"@),
        SourceLanguage::Rust => node.kind@ == "line_comment"@ && has_prefix(text, "///"@)
            && !has_prefix(text, "////"@),
        SourceLanguage::Go => node.kind@ == "comment"@,
        SourceLanguage::Java => node.kind@ == "block_comment"@ && has_prefix(text, "/**"@),
        SourceLanguage::Markdown => false,
    }
}

/// Whether a top-level node documents the whole module.
pub open spec fn module_doc_node(language: SourceLanguage, node: SyntaxNode, source: Seq<u8>) -> bool {
    match language {
        SourceLanguage::Python => node.kind@ == "expression_statement"@ && node.children@.len() > 0
            && node.children@[0].kind@ == "string"@ && has_prefix(
            text_of(node.children@[0], source),
            "\"\"\""@,
        ),
        SourceLanguage::Rust => node.kind@ == "line_comment"@ && has_prefix(
            text_of(node, source),
            "//!"@,
        ),
        _ => false,
    }
}

/// Whether a top-level node is an attribute of the declaration after it.
pub open spec fn attr_node(language: SourceLanguage, node: SyntaxNode) -> bool {
    language == SourceLanguage::Rust && node.kind@ == "attribute_item"@
}

/// Whether an attribute marks a test.
pub open spec fn test_attr(attr: Seq<char>) -> bool {
    attr == "#[test]"@ || attr == "#[cfg(test)]"@ || has_suffix(attr, "::test]"@)
}

/// Whether a declaration with attributes `attrs` is test code, which the
/// skeleton only counts.
pub open spec fn test_node(language: SourceLanguage, node: SyntaxNode, attrs: Seq<Seq<char>>) -> bool {
    &&& language == SourceLanguage::Rust
    &&& (node.kind@ == "mod_item"@ || node.kind@ == "function_item"@)
    &&& exists|k: int| 0 <= k < attrs.len() && test_attr(#[trigger] attrs[k])
}

/// The last line of a module doc: its end row, counted from 1, unless the
/// node ends at the start of a line.
pub open spec fn doc_end_line(node: SyntaxNode) -> usize {
    if node.end_column == 0 && node.end_line > 0 {
        (node.end_line - 1) as usize
    } else {
        node.end_line
    }
}

/// The range of the module docs among `nodes` from `i` on, given the range
/// `acc` of those before; attributes and extras may stand between them.
pub open spec fn module_doc_from(
    language: SourceLanguage,
    nodes: Seq<SyntaxNode>,
    source: Seq<u8>,
    i: int,
    acc: Option<(usize, usize)>,
) -> Option<(usize, usize)>
    decreases nodes.len() - i,
{
    if i < 0 || i >= nodes.len() {
        acc
    } else if module_doc_node(language, nodes[i], source) {
        let start = match acc {
            Some((s, _)) => s,
            None => nodes[i].start_line,
        };
        module_doc_from(language, nodes, source, i + 1, Some((start, doc_end_line(nodes[i]))))
    } else if !attr_node(language, nodes[i]) && !nodes[i].extra {
        acc
    } else {
        module_doc_from(language, nodes, source, i + 1, acc)
    }
}

/// The texts of the attributes right before `nodes[i]`, in order.
pub open spec fn attrs_before(language: SourceLanguage, nodes: Seq<SyntaxNode>, source: Seq<u8>, i: int) -> Seq<Seq<char>>
    decreases i,
{
    if i <= 0 || i > nodes.len() {
        seq![]
    } else if attr_node(language, nodes[i - 1]) {
        attrs_before(language, nodes, source, i - 1).push(text_of(nodes[i - 1], source))
    } else {
        seq![]
    }
}

/// The first line of the documentation comments right before `nodes[i]`
/// (attributes may stand among them).
pub open spec fn doc_start_before(language: SourceLanguage, nodes: Seq<SyntaxNode>, source: Seq<u8>, i: int) -> Option<usize>
    decreases i,
{
    if i <= 0 || i > nodes.len() {
        None
    } else if attr_node(language, nodes[i - 1]) {
        doc_start_before(language, nodes, source, i - 1)
    } else if doc_comment(language, nodes[i - 1], source) {
        match doc_start_before(language, nodes, source, i - 1) {
            Some(s) => Some(s),
            None => Some(nodes[i - 1].start_line),
        }
    } else {
        None
    }
}

/// Whether `nodes[i]` is a declaration the extractors see (not an attribute
/// or a doc comment).
pub open spec fn declaration_at(language: SourceLanguage, nodes: Seq<SyntaxNode>, source: Seq<u8>, i: int) -> bool {
    !attr_node(language, nodes[i]) && !doc_comment(language, nodes[i], source)
}

/// The first lines of the test declarations among the first `n` nodes.
pub open spec fn test_lines_of(language: SourceLanguage, nodes: Seq<SyntaxNode>, source: Seq<u8>, n: int) -> Seq<usize>
    decreases n,
{
    if n <= 0 || n > nodes.len() {
        seq![]
    } else {
        let rest = test_lines_of(language, nodes, source, n - 1);
        if declaration_at(language, nodes, source, n - 1) && test_node(
            language,
            nodes[n - 1],
            attrs_before(language, nodes, source, n - 1),
        ) {
            rest.push(nodes[n - 1].start_line)
        } else {
            rest
        }
    }
}

fn starts_with_text(s: &str, prefix: &str) -> (r: bool)
    ensures
        r == has_prefix(s@, prefix@),
{
    let a = chars_of(s);
    let b = chars_of(prefix);
    crate::text::starts_with(a.as_slice(), b.as_slice())
}

fn ends_with_text(s: &str, suffix: &str) -> (r: bool)
    ensures
        r == has_suffix(s@, suffix@),
{
    let a = chars_of(s);
    let b = chars_of(suffix);
    crate::text::ends_with(a.as_slice(), b.as_slice())
}

/// See `doc_comment`.
pub fn is_doc_comment(language: SourceLanguage, node: &SyntaxNode, source: &[u8]) -> (r: bool)
    ensures
        r == doc_comment(language, *node, source@),
{
    let text = node_text(node, source);
    match language {
        SourceLanguage::Python => false,
        SourceLanguage::JavaScript | SourceLanguage::Jsx | SourceLanguage::TypeScript
        | SourceLanguage::Tsx => crate::syntax::is_kind(node, "comment") && starts_with_text(
            text.as_str(),
            "/**",
        ),
        SourceLanguage::Rust => crate::syntax::is_kind(node, "line_comment") && starts_with_text(
            text.as_str(),
            "///",
        ) && !starts_with_text(text.as_str(), "////"),
        SourceLanguage::Go => crate::syntax::is_kind(node, "comment"),
        SourceLanguage::Java => crate::syntax::is_kind(node, "block_comment") && starts_with_text(
            text.as_str(),
            "/**",
        ),
        SourceLanguage::Markdown => false,
    }
}

/// See `module_doc_node`.
pub fn is_module_doc(language: SourceLanguage, node: &SyntaxNode, source: &[u8]) -> (r: bool)
    ensures
        r == module_doc_node(language, *node, source@),
{
    match language {
        SourceLanguage::Python => {
            if crate::syntax::is_kind(node, "expression_statement") && node.children.len() > 0 {
                let first = &node.children[0];
                crate::syntax::is_kind(first, "string") && starts_with_text(
                    node_text(first, source).as_str(),
                    "\"\"\"",
                )
            } else {
                false
            }
        },
        SourceLanguage::Rust => crate::syntax::is_kind(node, "line_comment") && starts_with_text(
            node_text(node, source).as_str(),
            "//!",
        ),
        _ => false,
    }
}

/// See `attr_node`.
pub fn is_attr(language: SourceLanguage, node: &SyntaxNode) -> (r: bool)
    ensures
        r == attr_node(language, *node),
{
    language == SourceLanguage::Rust && crate::syntax::is_kind(node, "attribute_item")
}

/// See `test_node`.
pub fn is_test_node(language: SourceLanguage, node: &SyntaxNode, attrs: &Vec<String>) -> (r: bool)
    ensures
        r == test_node(language, *node, texts(attrs@)),
{
    if !(language == SourceLanguage::Rust && (crate::syntax::is_kind(node, "mod_item")
        || crate::syntax::is_kind(node, "function_item"))) {
        return false;
    }
    let ghost v = texts(attrs@);
    let mut i: usize = 0;
    while i < attrs.len()
        invariant
            i <= attrs@.len(),
            v == texts(attrs@),
            language == SourceLanguage::Rust,
            node.kind@ == "mod_item"@ || node.kind@ == "function_item"@,
            forall|k: int| 0 <= k < i ==> !test_attr(#[trigger] v[k]),
        decreases attrs@.len() - i,
    {
        let attr = attrs[i].as_str();
        if crate::text::same_text(attr, "#[test]") || crate::text::same_text(attr, "#[cfg(test)]")
            || ends_with_text(attr, "::test]") {
            assert(test_attr(v[i as int]));
            return true;
        }
        i = i + 1;
    }
    false
}

/// The line range of the module docs at the top of the file (see
/// `module_doc_from`).
pub fn detect_module_doc(language: SourceLanguage, root: &SyntaxNode, source: &[u8]) -> (r: Option<(usize, usize)>)
    ensures
        r == module_doc_from(language, root.children@, source@, 0, None),
{
    let mut range: Option<(usize, usize)> = None;
    let mut i: usize = 0;
    while i < root.children.len()
        invariant
            i <= root.children@.len(),
            module_doc_from(language, root.children@, source@, 0, None) == module_doc_from(
                language,
                root.children@,
                source@,
                i as int,
                range,
            ),
        decreases root.children@.len() - i,
    {
        let c = &root.children[i];
        if is_module_doc(language, c, source) {
            let end = if c.end_column == 0 && c.end_line > 0 {
                c.end_line - 1
            } else {
                c.end_line
            };
            let start = match range {
                Some((s, _)) => s,
                None => c.start_line,
            };
            range = Some((start, end));
        } else if !is_attr(language, c) && !c.extra {
            return range;
        }
        i = i + 1;
    }
    range
}

/// The texts of the attributes right before `nodes[i]` (see `attrs_before`).
pub fn collect_preceding_attrs(language: SourceLanguage, nodes: &Vec<SyntaxNode>, i: usize, source: &[u8]) -> (out: Vec<String>)
    requires
        i <= nodes@.len(),
    ensures
        texts(out@) == attrs_before(language, nodes@, source@, i as int),
{
    let mut first: usize = i;
    while first > 0 && is_attr(language, &nodes[first - 1])
        invariant
            first <= i <= nodes@.len(),
            attrs_before(language, nodes@, source@, i as int) == attrs_before(
                language,
                nodes@,
                source@,
                first as int,
            ) + Seq::new(
                (i - first) as nat,
                |k: int| text_of(nodes@[first + k], source@),
            ),
        decreases first,
    {
        assert(Seq::new((i - (first - 1)) as nat, |k: int| text_of(nodes@[first - 1 + k], source@))
            =~= seq![text_of(nodes@[first - 1], source@)] + Seq::new(
            (i - first) as nat,
            |k: int| text_of(nodes@[first + k], source@),
        ));
        first = first - 1;
    }
    assert(attrs_before(language, nodes@, source@, first as int) == Seq::<Seq<char>>::empty());
    let mut out: Vec<String> = Vec::new();
    let mut j: usize = first;
    while j < i
        invariant
            first <= j <= i <= nodes@.len(),
            texts(out@) == Seq::new((j - first) as nat, |k: int| text_of(nodes@[first + k], source@)),
        decreases i - j,
    {
        let ghost prev = out@;
        out.push(node_text(&nodes[j], source));
        assert(texts(out@) =~= texts(prev).push(text_of(nodes@[j as int], source@)));
        j = j + 1;
        assert(texts(out@) =~= Seq::new((j - first) as nat, |k: int| text_of(nodes@[first + k], source@)));
    }
    assert(attrs_before(language, nodes@, source@, i as int) =~= texts(out@));
    out
}

/// The first line of the doc comments right before `nodes[i]` (see
/// `doc_start_before`).
pub fn doc_comment_start_line(language: SourceLanguage, nodes: &Vec<SyntaxNode>, i: usize, source: &[u8]) -> (r: Option<usize>)
    requires
        i <= nodes@.len(),
    ensures
        r == doc_start_before(language, nodes@, source@, i as int),
{
    let mut earliest: Option<usize> = None;
    let mut p: usize = i;
    while p > 0
        invariant
            p <= i <= nodes@.len(),
            doc_start_before(language, nodes@, source@, i as int) == match doc_start_before(
                language,
                nodes@,
                source@,
                p as int,
            ) {
                Some(s) => Some(s),
                None => earliest,
            },
        decreases p,
    {
        let c = &nodes[p - 1];
        if is_attr(language, c) {
            p = p - 1;
        } else if is_doc_comment(language, c, source) {
            earliest = Some(c.start_line);
            p = p - 1;
        } else {
            return earliest;
        }
    }
    earliest
}

/// The sections the declarations of `language` give.
pub open spec fn language_section(language: SourceLanguage, section: Section) -> bool {
    match language {
        SourceLanguage::Python => section == Section::Import || section == Section::Class
            || section == Section::Function || section == Section::Constant || section
            == Section::Type,
        SourceLanguage::JavaScript | SourceLanguage::Jsx | SourceLanguage::TypeScript
        | SourceLanguage::Tsx => crate::typescript::script_section(section),
        SourceLanguage::Rust => section != Section::Class,
        SourceLanguage::Go => section == Section::Module || section == Section::Import || section
            == Section::Constant || section == Section::Type || section == Section::Function
            || section == Section::Impl,
        SourceLanguage::Java => section == Section::Module || section == Section::Import
            || section == Section::Class || section == Section::Trait || section == Section::Type,
        SourceLanguage::Markdown => section == Section::Heading,
    }
}

/// Whether the entries lie in sections of `language` and name their
/// functions and classes.
pub open spec fn language_entries(language: SourceLanguage, out: Seq<Entry>) -> bool {
    &&& forall|i: int| 0 <= i < out.len() ==> language_section(language, (#[trigger] out[i]).section)
    &&& named_symbols(out)
}

/// The entries the extractor of `language` gives for one declaration, with
/// the attributes `attrs` written before it.
pub open spec fn declared_views(language: SourceLanguage, node: SyntaxNode, source: Seq<u8>, attrs: Seq<
    Seq<char>,
>) -> Seq<EntryV> {
    match language {
        SourceLanguage::Python => one_entry(crate::python::python_entry(node, source, attrs)),
        SourceLanguage::JavaScript | SourceLanguage::Jsx | SourceLanguage::TypeScript
        | SourceLanguage::Tsx => crate::typescript::statement_views(node, source, attrs),
        SourceLanguage::Rust => one_entry(crate::rust::rust_entry(node, source, attrs)),
        SourceLanguage::Go => crate::go::go_entries(node, source),
        SourceLanguage::Java => one_entry(crate::java::java_entry(node, source)),
        SourceLanguage::Markdown => crate::markdown::heading_views(node, source),
    }
}

/// The entry, if any, as a sequence.
pub open spec fn one_entry(e: Option<EntryV>) -> Seq<EntryV> {
    match e {
        Some(x) => seq![x],
        None => seq![],
    }
}

/// `entries` with the first one starting at the doc comment's first line
/// `doc`, when there is one and it comes earlier.
pub open spec fn with_doc_start(entries: Seq<EntryV>, doc: Option<usize>) -> Seq<EntryV> {
    match doc {
        Some(d) => if entries.len() > 0 && d < entries[0].line_start {
            entries.update(0, EntryV { line_start: d, ..entries[0] })
        } else {
            entries
        },
        None => entries,
    }
}

/// The entries of the first `n` top-level nodes: each declaration that is
/// not test code gives what its extractor gives, the first entry reaching
/// back to the doc comments before it.
pub open spec fn entries_upto(language: SourceLanguage, nodes: Seq<SyntaxNode>, source: Seq<u8>, n: int) -> Seq<
    EntryV,
>
    decreases n,
{
    if n <= 0 || n > nodes.len() {
        seq![]
    } else {
        let rest = entries_upto(language, nodes, source, n - 1);
        let attrs = attrs_before(language, nodes, source, n - 1);
        if declaration_at(language, nodes, source, n - 1) && !test_node(language, nodes[n - 1], attrs) {
            rest + with_doc_start(
                declared_views(language, nodes[n - 1], source, attrs),
                doc_start_before(language, nodes, source, n - 1),
            )
        } else {
            rest
        }
    }
}

/// The entries, module doc range, test lines and import separator of a file.
pub fn extract(language: SourceLanguage, root: &SyntaxNode, source: &[u8]) -> (x: Extracted)
    ensures
        x.import_separator@ == separator_of(language),
        x.module_doc == module_doc_from(language, root.children@, source@, 0, None),
        x.test_lines@ == test_lines_of(language, root.children@, source@, root.children@.len() as int),
        language_entries(language, x.entries@),
        entry_views(x.entries@) == entries_upto(language, root.children@, source@, root.children@.len() as int),
{
    let mut entries: Vec<Entry> = Vec::new();
    let mut test_lines: Vec<usize> = Vec::new();
    let module_doc = detect_module_doc(language, root, source);
    let nodes = &root.children;
    let mut i: usize = 0;
    while i < nodes.len()
        invariant
            i <= nodes@.len(),
            nodes@ == root.children@,
            test_lines@ == test_lines_of(language, nodes@, source@, i as int),
            language_entries(language, entries@),
            entry_views(entries@) == entries_upto(language, nodes@, source@, i as int),
        decreases nodes@.len() - i,
    {
        let c = &nodes[i];
        if !is_attr(language, c) && !is_doc_comment(language, c, source) {
            let attrs = collect_preceding_attrs(language, nodes, i, source);
            if is_test_node(language, c, &attrs) {
                test_lines.push(c.start_line);
            } else {
                let mut found = documented_declaration(language, nodes, i, source, &attrs);
                let ghost prev = entries@;
                let ghost added = found@;
                entries.append(&mut found);
                assert(entry_views(entries@) =~= entry_views(prev) + entry_views(added));
                assert forall|k: int| 0 <= k < entries@.len() implies language_section(
                    language,
                    (#[trigger] entries@[k]).section,
                ) && ((entries@[k].section == Section::Function || entries@[k].section
                    == Section::Class) ==> entries@[k].symbol_name is Some) by {
                    if k >= prev.len() {
                        assert(entries@[k] == added[k - prev.len()]);
                    } else {
                        assert(entries@[k] == prev[k]);
                    }
                }
            }
        }
        i = i + 1;
    }
    let import_separator = match language {
        SourceLanguage::Python | SourceLanguage::Java => String::from_str("."),
        SourceLanguage::Rust => String::from_str("::"),
        _ => String::from_str("/"),
    };
    Extracted { entries, module_doc, test_lines, import_separator }
}

/// The entries of the declaration `nodes[i]`, with `attrs` written before
/// it, the first reaching back to the doc comments before it.
fn documented_declaration(language: SourceLanguage, nodes: &Vec<SyntaxNode>, i: usize, source: &[u8], attrs: &Vec<String>) -> (out: Vec<Entry>)
    requires
        i < nodes@.len(),
    ensures
        language_entries(language, out@),
        entry_views(out@) == with_doc_start(
            declared_views(language, nodes@[i as int], source@, texts(attrs@)),
            doc_start_before(language, nodes@, source@, i as int),
        ),
{
    let mut found = extract_declaration(language, &nodes[i], source, attrs);
    let ghost plain = entry_views(found@);
    let doc = doc_comment_start_line(language, nodes, i, source);
    if found.len() > 0 {
        if let Some(doc_start) = doc {
            let ghost before = found@;
            let mut first = found.remove(0);
            if doc_start < first.line_start {
                first.line_start = doc_start;
            }
            found.insert(0, first);
            assert forall|k: int| 0 <= k < found@.len() implies (#[trigger] found@[k]).section
                == before[k].section && found@[k].symbol_name == before[k].symbol_name by {
                if k > 0 {
                    assert(found@[k] == before[k]);
                }
            }
            assert(entry_views(found@) =~= with_doc_start(plain, doc));
        } else {
            assert(entry_views(found@) == with_doc_start(plain, doc));
        }
    } else {
        assert(entry_views(found@) =~= with_doc_start(plain, doc));
    }
    found
}

/// The entries the extractor of `language` finds in one declaration.
fn extract_declaration(language: SourceLanguage, node: &SyntaxNode, source: &[u8], attrs: &Vec<String>) -> (out: Vec<Entry>)
    ensures
        language_entries(language, out@),
        entry_views(out@) == declared_views(language, *node, source@, texts(attrs@)),
{
    match language {
        SourceLanguage::Python => crate::python::extract(node, source, attrs),
        SourceLanguage::JavaScript | SourceLanguage::Jsx | SourceLanguage::TypeScript
        | SourceLanguage::Tsx => crate::typescript::extract(node, source, attrs),
        SourceLanguage::Rust => crate::rust::extract(node, source, attrs),
        SourceLanguage::Go => crate::go::extract(node, source),
        SourceLanguage::Java => crate::java::extract(node, source),
        SourceLanguage::Markdown => crate::markdown::extract(node, source),
    }
}

/// Whether some pattern matches the symbol name `name`.
pub open spec fn name_matched(name: Option<Seq<char>>, patterns: Seq<SymbolPattern>) -> bool {
    name matches Some(n) && any_matches(patterns, n)
}

/// The members that belong to a symbol some pattern matches, in order.
pub open spec fn matching_children(children: Seq<ChildV>, patterns: Seq<SymbolPattern>) -> Seq<ChildV>
    decreases children.len(),
{
    if children.len() == 0 {
        seq![]
    } else {
        let rest = matching_children(children.drop_last(), patterns);
        if name_matched(children.last().symbol_name, patterns) {
            rest.push(children.last())
        } else {
            rest
        }
    }
}

/// What symbol patterns keep of an entry: a function whose name matches; a
/// class whose name matches, whole, or else narrowed to the methods of
/// matching symbols when there are any (patterns select classes and class
/// methods); a type whose name or some member's symbol matches, narrowed to
/// the members of matching symbols; nothing else.
pub open spec fn pattern_choice(e: EntryV, patterns: Seq<SymbolPattern>) -> Option<EntryV> {
    let named = name_matched(e.symbol_name, patterns);
    let members = matching_children(e.children, patterns);
    if e.section == Section::Function {
        if named {
            Some(e)
        } else {
            None
        }
    } else if e.section == Section::Class {
        if named {
            Some(e)
        } else if members.len() > 0 {
            Some(EntryV { children: members, ..e })
        } else {
            None
        }
    } else if e.section == Section::Type {
        if named || members.len() > 0 {
            Some(EntryV { children: members, ..e })
        } else {
            None
        }
    } else if e.section == Section::Heading {
        if named {
            Some(e)
        } else {
            None
        }
    } else {
        None
    }
}

/// Whether symbol patterns keep something of an entry.
pub open spec fn kept_by(e: EntryV, patterns: Seq<SymbolPattern>) -> bool {
    pattern_choice(e, patterns) is Some
}

/// What `patterns` keep of the entries, in order.
pub open spec fn kept_entries(entries: Seq<EntryV>, patterns: Seq<SymbolPattern>) -> Seq<EntryV>
    decreases entries.len(),
{
    if entries.len() == 0 {
        seq![]
    } else {
        let rest = kept_entries(entries.drop_last(), patterns);
        match pattern_choice(entries.last(), patterns) {
            Some(k) => rest.push(k),
            None => rest,
        }
    }
}

/// A copy of a member.
fn clone_child(c: &EntryChild) -> (out: EntryChild)
    ensures
        out@ == c@,
{
    let symbol_name = match &c.symbol_name {
        Some(n) => Some(crate::skeleton::clone_string(n)),
        None => None,
    };
    EntryChild { text: crate::skeleton::clone_string(&c.text), range: c.range, symbol_name }
}

/// The members that belong to a symbol some pattern matches (see
/// `matching_children`).
fn matching_members(children: &Vec<EntryChild>, patterns: &Vec<SymbolPattern>) -> (out: Vec<EntryChild>)
    ensures
        child_views(out@) == matching_children(child_views(children@), patterns@),
{
    let ghost all = child_views(children@);
    let mut out: Vec<EntryChild> = Vec::new();
    let mut i: usize = 0;
    while i < children.len()
        invariant
            i <= children@.len(),
            all == child_views(children@),
            child_views(out@) == matching_children(all.take(i as int), patterns@),
        decreases children@.len() - i,
    {
        assert(all.take(i + 1).drop_last() =~= all.take(i as int));
        assert(all.take(i + 1).last() == children@[i as int]@);
        let c = &children[i];
        let named = match &c.symbol_name {
            Some(n) => any_match(patterns, n.as_str()),
            None => false,
        };
        if named {
            let ghost prev = out@;
            out.push(clone_child(c));
            assert(child_views(out@) =~= child_views(prev).push(all[i as int]));
        }
        i = i + 1;
    }
    assert(all.take(i as int) =~= all);
    out
}

/// What patterns keep of an entry (see `pattern_choice`).
pub fn choose_entry(e: Entry, patterns: &Vec<SymbolPattern>) -> (out: Option<Entry>)
    ensures
        match out {
            Some(k) => pattern_choice(e@, patterns@) == Some(k@),
            None => pattern_choice(e@, patterns@).is_none(),
        },
{
    let named = match &e.symbol_name {
        Some(n) => any_match(patterns, n.as_str()),
        None => false,
    };
    assert(named == name_matched(e@.symbol_name, patterns@));
    if e.section == Section::Function || e.section == Section::Heading {
        if named {
            Some(e)
        } else {
            None
        }
    } else if e.section == Section::Class || e.section == Section::Type {
        if e.section == Section::Class && named {
            return Some(e);
        }
        let members = matching_members(&e.children, patterns);
        if named || members.len() > 0 {
            let ghost ev = e@;
            let mut k = e;
            k.children = members;
            assert(k@ == (EntryV { children: matching_children(ev.children, patterns@), ..ev }));
            Some(k)
        } else {
            None
        }
    } else {
        None
    }
}

/// Keeps what `patterns` select of the entries (see `pattern_choice`), in
/// order.
pub fn retain_matching(entries: &mut Vec<Entry>, patterns: &Vec<SymbolPattern>)
    ensures
        entry_views(final(entries)@) == kept_entries(entry_views(old(entries)@), patterns@),
{
    let mut all: Vec<Entry> = Vec::new();
    all.append(entries);
    let count = all.len();
    let ghost start = entry_views(all@);
    assert(start == entry_views(old(entries)@));
    assert(entry_views(entries@) =~= kept_entries(start.take(0), patterns@));
    let mut i: usize = 0;
    while all.len() > 0
        invariant
            i + all@.len() == start.len(),
            start.len() <= usize::MAX,
            entry_views(all@) == start.skip(i as int),
            entry_views(entries@) == kept_entries(start.take(i as int), patterns@),
        decreases all@.len(),
    {
        let ghost prev_all = all@;
        assert(entry_views(prev_all)[0] == prev_all[0]@);
        let e = all.remove(0);
        assert(start.take(i + 1).drop_last() =~= start.take(i as int));
        assert(start.skip(i as int)[0] == e@);
        assert(entry_views(all@) =~= entry_views(prev_all).skip(1));
        assert(entry_views(all@) =~= start.skip(i + 1));
        match choose_entry(e, patterns) {
            Some(k) => {
                let ghost prev = entries@;
                let ghost kv = k@;
                entries.push(k);
                assert(entry_views(entries@) =~= entry_views(prev).push(kv));
            },
            None => {},
        }
        i = i + 1;
    }
    assert(start.take(i as int) =~= start);
}

/// What the skeleton shows when `patterns` select symbols: only the kept
/// entries; no module doc and no tests.
pub open spec fn selected(x: Extracted, patterns: Seq<SymbolPattern>, y: Extracted) -> bool {
    if patterns.len() == 0 {
        y == x
    } else {
        &&& entry_views(y.entries@) == kept_entries(entry_views(x.entries@), patterns)
        &&& y.module_doc.is_none()
        &&& y.test_lines@.len() == 0
        &&& y.import_separator == x.import_separator
    }
}

/// Keeps what `patterns` select (see `selected`).
pub fn select_matching(x: Extracted, patterns: &Vec<SymbolPattern>) -> (y: Extracted)
    ensures
        selected(x, patterns@, y),
{
    if patterns.len() == 0 {
        return x;
    }
    let mut y = x;
    retain_matching(&mut y.entries, patterns);
    y.module_doc = None;
    y.test_lines = Vec::new();
    y
}

/// Whether `out` is the skeleton of some extraction `x` of the file made
/// with `language`, after `patterns` selected from it.
pub open spec fn skeleton_of(
    language: SourceLanguage,
    root: SyntaxNode,
    source: Seq<u8>,
    patterns: Seq<SymbolPattern>,
    out: Seq<char>,
) -> bool {
    exists|x: Extracted, y: Extracted, groups: Seq<ImportGroup>|
        {
            &&& x.import_separator@ == separator_of(language)
            &&& x.module_doc == module_doc_from(language, root.children@, source, 0, None)
            &&& x.test_lines@ == test_lines_of(language, root.children@, source, root.children@.len() as int)
            &&& language_entries(language, x.entries@)
            &&& entry_views(x.entries@) == entries_upto(language, root.children@, source, root.children@.len() as int)
            &&& selected(x, patterns, y)
            &&& groups_of(groups, in_section(entry_views(y.entries@), Section::Import))
            &&& out == rendered(y, groups)
        }
}

/// A file has one skeleton for given patterns: any two texts that
/// `skeleton_of` accepts are the same. So `skeleton_matching` with no patterns
/// gives exactly what `skeleton` gives.
pub proof fn lemma_skeleton_unique(
    language: SourceLanguage,
    root: SyntaxNode,
    source: Seq<u8>,
    patterns: Seq<SymbolPattern>,
    out1: Seq<char>,
    out2: Seq<char>,
)
    requires
        skeleton_of(language, root, source, patterns, out1),
        skeleton_of(language, root, source, patterns, out2),
    ensures
        out1 == out2,
{
    let (x1, y1, g1) = choose|x: Extracted, y: Extracted, groups: Seq<ImportGroup>|
        {
            &&& x.import_separator@ == separator_of(language)
            &&& x.module_doc == module_doc_from(language, root.children@, source, 0, None)
            &&& x.test_lines@ == test_lines_of(language, root.children@, source, root.children@.len() as int)
            &&& language_entries(language, x.entries@)
            &&& entry_views(x.entries@) == entries_upto(language, root.children@, source, root.children@.len() as int)
            &&& selected(x, patterns, y)
            &&& groups_of(groups, in_section(entry_views(y.entries@), Section::Import))
            &&& out1 == rendered(y, groups)
        };
    let (x2, y2, g2) = choose|x: Extracted, y: Extracted, groups: Seq<ImportGroup>|
        {
            &&& x.import_separator@ == separator_of(language)
            &&& x.module_doc == module_doc_from(language, root.children@, source, 0, None)
            &&& x.test_lines@ == test_lines_of(language, root.children@, source, root.children@.len() as int)
            &&& language_entries(language, x.entries@)
            &&& entry_views(x.entries@) == entries_upto(language, root.children@, source, root.children@.len() as int)
            &&& selected(x, patterns, y)
            &&& groups_of(groups, in_section(entry_views(y.entries@), Section::Import))
            &&& out2 == rendered(y, groups)
        };
    assert(entry_views(y1.entries@) == entry_views(y2.entries@));
    assert(y1.module_doc == y2.module_doc);
    assert(y1.test_lines@ =~= y2.test_lines@);
    assert(y1.import_separator@ == y2.import_separator@);
    assert(rendered(y2, g2) == rendered(y1, g2));
    lemma_rendered_unique(y1, g1, g2);
}

/// The skeleton of a file: its declarations by section, with line ranges.
pub fn skeleton(language: SourceLanguage, root: &SyntaxNode, source: &[u8]) -> (out: String)
    ensures
        skeleton_of(language, *root, source@, seq![], out@),
{
    let patterns: Vec<SymbolPattern> = Vec::new();
    skeleton_matching(language, root, source, &patterns)
}

/// The skeleton of a file, keeping only the functions and classes that some
/// pattern matches when patterns are given.
pub fn skeleton_matching(language: SourceLanguage, root: &SyntaxNode, source: &[u8], patterns: &Vec<SymbolPattern>) -> (out: String)
    ensures
        skeleton_of(language, *root, source@, patterns@, out@),
{
    let x = extract(language, root, source);
    let ghost xv = x;
    let y = select_matching(x, patterns);
    let out = render_skeleton(&y);
    let ghost groups = choose|groups: Seq<ImportGroup>|
        groups_of(groups, in_section(entry_views(y.entries@), Section::Import)) && out@ == rendered(y, groups);
    assert(selected(xv, patterns@, y));
    assert(groups_of(groups, in_section(entry_views(y.entries@), Section::Import)) && out@ == rendered(y, groups));
    out
}

/// The import paths of `paths` that some pattern matches, written with `sep`
/// between their segments.
pub open spec fn matching_paths(paths: Seq<Seq<Seq<char>>>, patterns: Seq<SymbolPattern>, sep: Seq<char>) -> Seq<Seq<Seq<char>>>
    decreases paths.len(),
{
    if paths.len() == 0 {
        seq![]
    } else {
        let rest = matching_paths(paths.drop_last(), patterns, sep);
        if any_matches(patterns, join(paths.last(), sep)) {
            rest.push(paths.last())
        } else {
            rest
        }
    }
}

/// What selection with imports keeps of an entry: an import with its
/// matching paths (none when no path matches), or an entry `kept_by` keeps.
pub open spec fn selected_entry(e: EntryV, patterns: Seq<SymbolPattern>, sep: Seq<char>) -> Option<EntryV> {
    if e.section == Section::Import {
        let paths = matching_paths(e.import_paths, patterns, sep);
        if paths.len() > 0 {
            Some(EntryV { import_paths: paths, ..e })
        } else {
            None
        }
    } else {
        pattern_choice(e, patterns)
    }
}

/// The entries that selection with imports keeps, in order.
pub open spec fn selected_with_imports(entries: Seq<EntryV>, patterns: Seq<SymbolPattern>, sep: Seq<char>) -> Seq<EntryV>
    decreases entries.len(),
{
    if entries.len() == 0 {
        seq![]
    } else {
        let rest = selected_with_imports(entries.drop_last(), patterns, sep);
        match selected_entry(entries.last(), patterns, sep) {
            Some(e) => rest.push(e),
            None => rest,
        }
    }
}

/// The views of import paths.
pub open spec fn path_views(paths: Seq<Vec<String>>) -> Seq<Seq<Seq<char>>> {
    Seq::new(paths.len(), |i: int| texts(paths[i]@))
}

/// Keeps the import paths that some pattern matches (see `matching_paths`).
fn retain_matching_paths(paths: Vec<Vec<String>>, patterns: &Vec<SymbolPattern>, sep: &str) -> (out: Vec<Vec<String>>)
    ensures
        path_views(out@) == matching_paths(path_views(paths@), patterns@, sep@),
{
    let ghost all = path_views(paths@);
    let mut out: Vec<Vec<String>> = Vec::new();
    let mut i: usize = 0;
    while i < paths.len()
        invariant
            i <= paths@.len(),
            all == path_views(paths@),
            path_views(out@) == matching_paths(all.take(i as int), patterns@, sep@),
        decreases paths@.len() - i,
    {
        assert(all.take(i + 1).drop_last() =~= all.take(i as int));
        assert(all.take(i + 1).last() == texts(paths@[i as int]@));
        let text = crate::skeleton::join_strings(&paths[i], sep);
        if any_match(patterns, text.as_str()) {
            let ghost prev = out@;
            out.push(crate::entries::clone_strings(&paths[i]));
            assert(path_views(out@) =~= path_views(prev).push(all[i as int]));
        }
        i = i + 1;
    }
    assert(all.take(i as int) =~= all);
    out
}

/// Keeps what selection with imports keeps (see `selected_with_imports`).
pub fn retain_matching_with_imports(entries: &mut Vec<Entry>, patterns: &Vec<SymbolPattern>, sep: &str)
    ensures
        entry_views(final(entries)@) == selected_with_imports(entry_views(old(entries)@), patterns@, sep@),
{
    let mut all: Vec<Entry> = Vec::new();
    all.append(entries);
    let count = all.len();
    let ghost start = entry_views(all@);
    assert(start == entry_views(old(entries)@));
    assert(entry_views(entries@) =~= selected_with_imports(start.take(0), patterns@, sep@));
    let mut i: usize = 0;
    while all.len() > 0
        invariant
            i + all@.len() == start.len(),
            start.len() <= usize::MAX,
            entry_views(all@) == start.skip(i as int),
            entry_views(entries@) == selected_with_imports(start.take(i as int), patterns@, sep@),
        decreases all@.len(),
    {
        let ghost prev_all = all@;
        assert(entry_views(prev_all)[0] == prev_all[0]@);
        let mut e = all.remove(0);
        assert(start.take(i + 1).drop_last() =~= start.take(i as int));
        assert(start.skip(i as int)[0] == e@);
        assert(entry_views(all@) =~= entry_views(prev_all).skip(1));
        assert(entry_views(all@) =~= start.skip(i + 1));
        let ghost ev = e@;
        if e.section == Section::Import {
            let mut paths: Vec<Vec<String>> = Vec::new();
            std::mem::swap(&mut paths, &mut e.import_paths);
            assert(path_views(paths@) == ev.import_paths);
            let kept = retain_matching_paths(paths, patterns, sep);
            if kept.len() > 0 {
                e.import_paths = kept;
                assert(e@ == (EntryV { import_paths: path_views(kept@), ..ev }));
                let ghost prev = entries@;
                entries.push(e);
                assert(entry_views(entries@) =~= entry_views(prev).push(e@));
            }
        } else {
            match choose_entry(e, patterns) {
                Some(k) => {
                    let ghost prev = entries@;
                    let ghost kv = k@;
                    entries.push(k);
                    assert(entry_views(entries@) =~= entry_views(prev).push(kv));
                },
                None => {},
            }
        }
        i = i + 1;
    }
    assert(start.take(i as int) =~= start);
}

/// What selection by `patterns` keeps: with `match_imports`, the matching
/// functions, classes and import paths (see `selected_with_imports`), else as
/// `selected` says.
pub open spec fn patterns_selected(x: Extracted, patterns: Seq<SymbolPattern>, match_imports: bool, y: Extracted) -> bool {
    if match_imports && patterns.len() > 0 {
        &&& entry_views(y.entries@) == selected_with_imports(
            entry_views(x.entries@),
            patterns,
            x.import_separator@,
        )
        &&& y.module_doc.is_none()
        &&& y.test_lines@.len() == 0
        &&& y.import_separator == x.import_separator
    } else {
        selected(x, patterns, y)
    }
}

/// Keeps what `patterns` select (see `patterns_selected`).
pub fn select_patterns(x: Extracted, patterns: &Vec<SymbolPattern>, match_imports: bool) -> (y: Extracted)
    ensures
        patterns_selected(x, patterns@, match_imports, y),
{
    if !match_imports || patterns.len() == 0 {
        return select_matching(x, patterns);
    }
    let mut y = x;
    let sep = crate::skeleton::clone_string(&y.import_separator);
    retain_matching_with_imports(&mut y.entries, patterns, sep.as_str());
    y.module_doc = None;
    y.test_lines = Vec::new();
    y
}

/// The entries whose section is among `kinds`, in order.
pub open spec fn in_kinds(entries: Seq<EntryV>, kinds: Seq<Section>) -> Seq<EntryV>
    decreases entries.len(),
{
    if entries.len() == 0 {
        seq![]
    } else {
        let rest = in_kinds(entries.drop_last(), kinds);
        if kinds.contains(entries.last().section) {
            rest.push(entries.last())
        } else {
            rest
        }
    }
}

/// Selecting by section keeps exactly the entries whose section is named,
/// in their order.
pub proof fn lemma_kinds_filter(entries: Seq<EntryV>, kinds: Seq<Section>)
    ensures
        in_kinds(entries, kinds) == entries.filter(|e: EntryV| kinds.contains(e.section)),
    decreases entries.len(),
{
    reveal(Seq::filter);
    if entries.len() > 0 {
        lemma_kinds_filter(entries.drop_last(), kinds);
    }
}

/// What selection by section keeps: all when no sections are named, else
/// the entries of the named sections, without module doc and test lines.
pub open spec fn kinds_selected(x: Extracted, kinds: Option<Seq<Section>>, y: Extracted) -> bool {
    match kinds {
        None => y == x,
        Some(k) => {
            &&& entry_views(y.entries@) == in_kinds(entry_views(x.entries@), k)
            &&& y.module_doc.is_none()
            &&& y.test_lines@.len() == 0
            &&& y.import_separator == x.import_separator
        },
    }
}

fn contains_section(kinds: &Vec<Section>, s: Section) -> (r: bool)
    ensures
        r == kinds@.contains(s),
{
    let mut i: usize = 0;
    while i < kinds.len()
        invariant
            i <= kinds@.len(),
            forall|k: int| 0 <= k < i ==> kinds@[k] != s,
        decreases kinds@.len() - i,
    {
        if kinds[i] == s {
            return true;
        }
        i = i + 1;
    }
    false
}

/// Keeps the entries of the sections `kinds` names (see `kinds_selected`).
pub fn select_kinds(x: Extracted, kinds: Option<&Vec<Section>>) -> (y: Extracted)
    ensures
        kinds_selected(
            x,
            match kinds {
                Some(k) => Some(k@),
                None => None,
            },
            y,
        ),
{
    let k = match kinds {
        Some(k) => k,
        None => {
            return x;
        },
    };
    let mut y = x;
    let mut all: Vec<Entry> = Vec::new();
    all.append(&mut y.entries);
    let count = all.len();
    let ghost start = entry_views(all@);
    assert(start == entry_views(x.entries@));
    assert(entry_views(y.entries@) =~= in_kinds(start.take(0), k@));
    let mut i: usize = 0;
    while all.len() > 0
        invariant
            i + all@.len() == start.len(),
            start.len() <= usize::MAX,
            entry_views(all@) == start.skip(i as int),
            entry_views(y.entries@) == in_kinds(start.take(i as int), k@),
            y.import_separator == x.import_separator,
        decreases all@.len(),
    {
        let ghost prev_all = all@;
        assert(entry_views(prev_all)[0] == prev_all[0]@);
        let e = all.remove(0);
        assert(start.take(i + 1).drop_last() =~= start.take(i as int));
        assert(start.skip(i as int)[0] == e@);
        assert(entry_views(all@) =~= entry_views(prev_all).skip(1));
        assert(entry_views(all@) =~= start.skip(i + 1));
        if contains_section(k, e.section) {
            let ghost prev = y.entries@;
            y.entries.push(e);
            assert(entry_views(y.entries@) =~= entry_views(prev).push(start[i as int]));
        }
        i = i + 1;
    }
    assert(start.take(i as int) =~= start);
    y.module_doc = None;
    y.test_lines = Vec::new();
    y
}

/// Whether `out` is the skeleton of an extraction `x` of the file, after
/// selection by patterns and then by sections.
pub open spec fn selected_skeleton(
    language: SourceLanguage,
    root: SyntaxNode,
    source: Seq<u8>,
    patterns: Seq<SymbolPattern>,
    match_imports: bool,
    kinds: Option<Seq<Section>>,
    out: Seq<char>,
) -> bool {
    exists|x: Extracted, y: Extracted, z: Extracted, groups: Seq<ImportGroup>|
        {
            &&& x.import_separator@ == separator_of(language)
            &&& x.module_doc == module_doc_from(language, root.children@, source, 0, None)
            &&& x.test_lines@ == test_lines_of(language, root.children@, source, root.children@.len() as int)
            &&& language_entries(language, x.entries@)
            &&& entry_views(x.entries@) == entries_upto(language, root.children@, source, root.children@.len() as int)
            &&& patterns_selected(x, patterns, match_imports, y)
            &&& kinds_selected(y, kinds, z)
            &&& groups_of(groups, in_section(entry_views(z.entries@), Section::Import))
            &&& out == rendered(z, groups)
        }
}

/// The skeleton of a file as the command line asks for it: `patterns`
/// select functions, classes, types and headings (and, with `match_imports`, import paths);
/// `kinds` keep only the entries of the sections it names.
pub fn skeleton_selected(
    language: SourceLanguage,
    root: &SyntaxNode,
    source: &[u8],
    patterns: &Vec<SymbolPattern>,
    match_imports: bool,
    kinds: Option<&Vec<Section>>,
) -> (out: String)
    ensures
        selected_skeleton(
            language,
            *root,
            source@,
            patterns@,
            match_imports,
            match kinds {
                Some(k) => Some(k@),
                None => None,
            },
            out@,
        ),
{
    let x = extract(language, root, source);
    let ghost xv = x;
    let y = select_patterns(x, patterns, match_imports);
    let ghost yv = y;
    let z = select_kinds(y, kinds);
    let out = render_skeleton(&z);
    let ghost groups = choose|groups: Seq<ImportGroup>|
        groups_of(groups, in_section(entry_views(z.entries@), Section::Import)) && out@ == rendered(z, groups);
    assert(patterns_selected(xv, patterns@, match_imports, yv));
    assert(groups_of(groups, in_section(entry_views(z.entries@), Section::Import)) && out@ == rendered(z, groups));
    out
}

/// The skeleton of a file, keeping the matching functions and classes and,
/// when `match_imports`, the matching import paths.
pub fn skeleton_matching_imports(language: SourceLanguage, root: &SyntaxNode, source: &[u8], patterns: &Vec<SymbolPattern>, match_imports: bool) -> (out: String)
    ensures
        selected_skeleton(language, *root, source@, patterns@, match_imports, None, out@),
{
    skeleton_selected(language, root, source, patterns, match_imports, None)
}

/// Whatever patterns keep of an entry is a function, class, type or heading
/// whose name or some member's symbol matches; it keeps the entry's section,
/// name, range and text, and its members or those of matching symbols.
pub proof fn lemma_pattern_choice(e: EntryV, patterns: Seq<SymbolPattern>)
    ensures
        pattern_choice(e, patterns) matches Some(k) ==> {
            &&& k.section == Section::Function || k.section == Section::Class || k.section
                == Section::Type || k.section == Section::Heading
            &&& name_matched(e.symbol_name, patterns) || matching_children(e.children, patterns).len()
                > 0
            &&& (k.section == Section::Function ==> name_matched(e.symbol_name, patterns))
            &&& (k.section == Section::Heading ==> name_matched(e.symbol_name, patterns))
            &&& k.section == e.section && k.symbol_name == e.symbol_name && k.text == e.text
            &&& k.line_start == e.line_start && k.line_end == e.line_end
            &&& k.children == e.children || k.children == matching_children(e.children, patterns)
        },
{
}

/// Selecting by patterns keeps, in order, what `pattern_choice` keeps of each
/// entry, and something of every entry that it keeps anything of.
pub proof fn lemma_kept_entries(entries: Seq<EntryV>, patterns: Seq<SymbolPattern>)
    ensures
        forall|i: int|
            #![trigger kept_entries(entries, patterns)[i]]
            0 <= i < kept_entries(entries, patterns).len() ==> exists|j: int|
                0 <= j < entries.len() && pattern_choice(#[trigger] entries[j], patterns) == Some(
                    kept_entries(entries, patterns)[i],
                ),
        kept_entries(entries, patterns).len() <= entries.len(),
        forall|j: int|
            0 <= j < entries.len() && kept_by(#[trigger] entries[j], patterns) ==> kept_entries(
                entries,
                patterns,
            ).contains(pattern_choice(entries[j], patterns)->0),
    decreases entries.len(),
{
    if entries.len() > 0 {
        let init = entries.drop_last();
        lemma_kept_entries(init, patterns);
        let k = kept_entries(entries, patterns);
        let r = kept_entries(init, patterns);
        assert forall|i: int|
            #![trigger k[i]]
            0 <= i < k.len() implies exists|j: int|
            0 <= j < entries.len() && pattern_choice(#[trigger] entries[j], patterns) == Some(k[i]) by {
            if i < r.len() {
                assert(k[i] == r[i]);
                let j = choose|j: int| 0 <= j < init.len() && pattern_choice(#[trigger] init[j], patterns) == Some(r[i]);
                assert(entries[j] == init[j]);
            } else {
                assert(pattern_choice(entries[entries.len() - 1], patterns) == Some(k[i]));
            }
        }
        assert forall|j: int| 0 <= j < entries.len() && kept_by(#[trigger] entries[j], patterns) implies k.contains(
            pattern_choice(entries[j], patterns)->0,
        ) by {
            if j < init.len() {
                assert(init[j] == entries[j]);
                assert(kept_by(init[j], patterns));
                assert(r.contains(pattern_choice(init[j], patterns)->0));
                let m = choose|m: int| 0 <= m < r.len() && r[m] == pattern_choice(init[j], patterns)->0;
                assert(k[m] == r[m]);
            } else {
                assert(k[k.len() - 1] == pattern_choice(entries[j], patterns)->0);
            }
        }
    }
}

/// When patterns are given and they keep nothing of any entry, the skeleton
/// is empty.
pub proof fn lemma_no_match_is_empty(x: Extracted, patterns: Seq<SymbolPattern>, y: Extracted, groups: Seq<ImportGroup>)
    requires
        patterns.len() > 0,
        selected(x, patterns, y),
        forall|i: int| 0 <= i < x.entries@.len() ==> !kept_by(#[trigger] x.entries@[i]@, patterns),
    ensures
        rendered(y, groups).len() == 0,
{
    let v = entry_views(x.entries@);
    lemma_kept_entries(v, patterns);
    if kept_entries(v, patterns).len() > 0 {
        let e = kept_entries(v, patterns)[0];
        let j = choose|j: int| 0 <= j < v.len() && pattern_choice(#[trigger] v[j], patterns) == Some(e);
        assert(v[j] == x.entries@[j]@);
    }
    assert(entry_views(y.entries@).len() == 0);
    assert(y.entries@.len() == 0);
    crate::render::lemma_skeleton_empty(
        entry_views(y.entries@),
        y.module_doc,
        y.test_lines@,
        groups,
        y.import_separator@,
    );
}

proof fn lemma_matching_children_idempotent(children: Seq<ChildV>, patterns: Seq<SymbolPattern>)
    ensures
        matching_children(matching_children(children, patterns), patterns) == matching_children(
            children,
            patterns,
        ),
    decreases children.len(),
{
    if children.len() > 0 {
        let init = children.drop_last();
        lemma_matching_children_idempotent(init, patterns);
        let m = matching_children(children, patterns);
        if name_matched(children.last().symbol_name, patterns) {
            assert(m.drop_last() =~= matching_children(init, patterns));
        }
    }
}

/// Selecting by the same patterns again changes nothing: selection is
/// idempotent.
pub proof fn lemma_selection_idempotent(entries: Seq<EntryV>, patterns: Seq<SymbolPattern>)
    ensures
        kept_entries(kept_entries(entries, patterns), patterns) == kept_entries(entries, patterns),
    decreases entries.len(),
{
    if entries.len() > 0 {
        let init = entries.drop_last();
        lemma_selection_idempotent(init, patterns);
        let e = entries.last();
        lemma_matching_children_idempotent(e.children, patterns);
        match pattern_choice(e, patterns) {
            Some(k) => {
                let members = matching_children(e.children, patterns);
                assert(pattern_choice(k, patterns) == Some(k));
                assert(kept_entries(entries, patterns).drop_last() =~= kept_entries(init, patterns));
            },
            None => {},
        }
    }
}

} // verus!
