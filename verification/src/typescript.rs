//! The declarations of JavaScript and TypeScript source files.
use crate::entries::{
    clone_strings, item_view, named_symbols, new_entry, new_import_entry, new_symbol_entry,
    opt_view, ranged_child, ranged_symbol_child, ranged_view, split_on, split_text, trim_text,
    truncate_child_count, with_count,
};
use crate::python::decorators_from;
use crate::skeleton::{
    child_views, entry_views, texts, ChildStyle, ChildV, Entry, EntryV, Section,
    FIELD_TRUNCATE_THRESHOLD,
};
use crate::syntax::{
    child_by_field, field_child, field_is, find_child, find_named_child, first_from, is_field,
    is_kind, kind_child, lossy, lossy_span, named_kind_child, node_text, text_of, SyntaxNode,
};
use crate::text::{
    chars_of, compact, compact_chars, compact_whitespace, has_prefix, string_of, trim, trim_chars,
    trim_end_set, trim_end_set_chars, truncate, truncated,
};
use vstd::prelude::*;

verus! {

/// Signatures longer than this many bytes are truncated.
pub const SIGNATURE_LIMIT: usize = 160;

/// Whether a section is one that JavaScript and TypeScript declarations give.
pub open spec fn script_section(section: Section) -> bool {
    section == Section::Import || section == Section::Module || section == Section::Class
        || section == Section::Function || section == Section::Type || section
        == Section::Constant
}

/// Whether every entry lies in a section of scripts, and imports come only
/// from import and export statements.
pub open spec fn script_entries(kind: Seq<char>, out: Seq<Entry>) -> bool {
    forall|i: int|
        0 <= i < out.len() ==> script_section((#[trigger] out[i]).section) && (out[i].section
            == Section::Import ==> kind == "import_statement"@ || kind == "export_statement"@)
}

/// Whether a node of kind `kind` is a function declaration.
pub open spec fn is_function_kind(kind: Seq<char>) -> bool {
    kind == "function_declaration"@ || kind == "generator_function_declaration"@ || kind
        == "function_signature"@
}

/// An entry without a symbol name, of `section`, spanning `node`.
pub open spec fn unnamed_view(section: Section, node: SyntaxNode, text: Seq<char>, attrs: Seq<
    Seq<char>,
>, children: Seq<ChildV>) -> EntryV {
    EntryV {
        section,
        symbol_name: None,
        line_start: node.start_line,
        line_end: node.end_line,
        text,
        import_paths: seq![],
        import_keyword: None,
        attrs,
        children,
        child_style: ChildStyle::Detailed,
    }
}

/// The entry, if any, as a sequence.
pub open spec fn one_view(e: Option<EntryV>) -> Seq<EntryV> {
    match e {
        Some(x) => seq![x],
        None => seq![],
    }
}

/// The import entry of a statement that lists `path`.
pub open spec fn import_entry_view(node: SyntaxNode, path: Seq<Seq<char>>, keyword: Option<Seq<char>>) -> EntryV {
    EntryV {
        section: Section::Import,
        symbol_name: None,
        line_start: node.start_line,
        line_end: node.end_line,
        text: seq![],
        import_paths: seq![path],
        import_keyword: keyword,
        attrs: seq![],
        children: seq![],
        child_style: ChildStyle::Detailed,
    }
}

/// The entry of an import statement: its path split at `/`.
pub open spec fn import_view(node: SyntaxNode, source: Seq<u8>) -> Option<EntryV> {
    let cleaned = statement_path(text_of(node, source), "import"@);
    if cleaned.len() > 0 {
        Some(import_entry_view(node, slash_segments(cleaned), None))
    } else {
        None
    }
}

/// Whether a node of kind `kind` is a declaration that an export or
/// `declare` can wrap.
pub open spec fn declaration_kind(kind: Seq<char>) -> bool {
    ||| kind == "class_declaration"@
    ||| kind == "abstract_class_declaration"@
    ||| kind == "function_declaration"@
    ||| kind == "generator_function_declaration"@
    ||| kind == "function_signature"@
    ||| kind == "interface_declaration"@
    ||| kind == "type_alias_declaration"@
    ||| kind == "enum_declaration"@
    ||| kind == "internal_module"@
    ||| kind == "module"@
    ||| kind == "lexical_declaration"@
    ||| kind == "variable_declaration"@
    ||| kind == "ambient_declaration"@
}

/// Whether a node is a named declaration that can be wrapped.
pub open spec fn wraps_declaration() -> spec_fn(SyntaxNode) -> bool {
    |n: SyntaxNode| n.named && declaration_kind(n.kind@)
}

/// The position of the declaration a node wraps: the child held under
/// `declaration`, else the first named child that is a declaration.
pub open spec fn declaration_index(node: SyntaxNode) -> Option<int> {
    match first_from(node.children@, field_is("declaration"@), 0) {
        Some(i) => Some(i),
        None => first_from(node.children@, wraps_declaration(), 0),
    }
}

/// The source of a node up to the start of `end` (or to its own end),
/// trimmed and compacted (see `signature_text`).
pub open spec fn text_before(node: SyntaxNode, end: Option<SyntaxNode>, source: Seq<u8>) -> Seq<char> {
    signature_text(
        source,
        node.start_byte,
        match end {
            Some(e) => e.start_byte,
            None => node.end_byte,
        },
    )
}

/// The signature of a member: its source up to its body (for a field, up to
/// its value and without the trailing ` =`), truncated.
pub open spec fn member_signature_text(node: SyntaxNode, source: Seq<u8>, omit_value: bool) -> Seq<char> {
    if omit_value {
        truncated(
            trim_end_set(text_before(node, field_child(node, "value"@), source), " ="@),
            SIGNATURE_LIMIT as nat,
        )
    } else {
        truncated(text_before(node, field_child(node, "body"@), source), SIGNATURE_LIMIT as nat)
    }
}

/// Whether a class member of kind `kind` is a method.
pub open spec fn method_kind(kind: Seq<char>) -> bool {
    kind == "method_definition"@ || kind == "method_signature"@ || kind
        == "abstract_method_signature"@
}

/// Whether a class member of kind `kind` is a field.
pub open spec fn field_kind(kind: Seq<char>) -> bool {
    ||| kind == "public_field_definition"@
    ||| kind == "property_definition"@
    ||| kind == "field_definition"@
    ||| kind == "property_signature"@
    ||| kind == "index_signature"@
}

/// Whether a class member counts as a field.
pub open spec fn class_field(m: SyntaxNode) -> bool {
    m.named && !method_kind(m.kind@) && field_kind(m.kind@)
}

/// What one class member adds after `count` fields: a method by its named
/// signature; a field while there are no more than the threshold.
pub open spec fn class_member_children(m: SyntaxNode, count: nat, source: Seq<u8>) -> Seq<ChildV> {
    if !m.named {
        seq![]
    } else if method_kind(m.kind@) {
        let signature = member_signature_text(m, source, false);
        if signature.len() > 0 {
            match field_child(m, "name"@) {
                Some(n) => seq![
                    ChildV {
                        text: signature,
                        range: Some((m.start_line, m.end_line)),
                        symbol_name: Some(text_of(n, source)),
                    },
                ],
                None => seq![],
            }
        } else {
            seq![]
        }
    } else if field_kind(m.kind@) && count + 1 <= FIELD_TRUNCATE_THRESHOLD {
        let signature = member_signature_text(m, source, true);
        if signature.len() > 0 {
            seq![ranged_view(signature, m)]
        } else {
            seq![]
        }
    } else {
        seq![]
    }
}

/// The members of a class body from position `i` on, after `count` fields.
pub open spec fn class_members(body: SyntaxNode, i: int, count: nat, source: Seq<u8>) -> Seq<ChildV>
    decreases body.children@.len() - i,
{
    if i < 0 || i >= body.children@.len() {
        seq![]
    } else {
        let m = body.children@[i];
        class_member_children(m, count, source) + class_members(
            body,
            i + 1,
            if class_field(m) {
                count + 1
            } else {
                count
            },
            source,
        )
    }
}

/// The number of fields of a class body from position `i` on.
pub open spec fn class_field_count(body: SyntaxNode, i: int) -> nat
    decreases body.children@.len() - i,
{
    if i < 0 || i >= body.children@.len() {
        0
    } else if class_field(body.children@[i]) {
        class_field_count(body, i + 1) + 1
    } else {
        class_field_count(body, i + 1)
    }
}

/// The header of a class after `prefix`: `abstract` for an abstract class,
/// the name, type parameters and heritage, compacted and truncated.
pub open spec fn class_header(node: SyntaxNode, name: SyntaxNode, source: Seq<u8>, prefix: Seq<char>) -> Seq<
    char,
> {
    truncated(
        compact(
            prefix + (if node.kind@ == "abstract_class_declaration"@ {
                "abstract "@
            } else {
                seq![]
            }) + text_of(name, source) + field_text_or(node, "type_parameters"@, source, seq![])
                + match named_kind_child(node, "class_heritage"@) {
                Some(h) => " "@ + text_of(h, source),
                None => seq![],
            },
        ),
        SIGNATURE_LIMIT as nat,
    )
}

/// The entry of a class shown after `prefix`, spanning `range_node`, with
/// `attrs` and its decorators.
pub open spec fn class_view(node: SyntaxNode, source: Seq<u8>, prefix: Seq<char>, range_node: SyntaxNode, attrs: Seq<
    Seq<char>,
>) -> Option<EntryV> {
    match (field_child(node, "name"@), field_child(node, "body"@)) {
        (Some(name), Some(body)) => Some(
            item_view(
                Section::Class,
                range_node,
                text_of(name, source),
                class_header(node, name, source, prefix),
                decorators_from(attrs, node, 0, source),
                with_count(class_members(body, 0, 0, source), class_field_count(body, 0)),
                ChildStyle::Detailed,
            ),
        ),
        _ => None,
    }
}

/// The entry of a function shown after `prefix`.
pub open spec fn function_view(node: SyntaxNode, source: Seq<u8>, prefix: Seq<char>, range_node: SyntaxNode, attrs: Seq<
    Seq<char>,
>) -> Option<EntryV> {
    match (field_child(node, "name"@), function_text(node, source, prefix)) {
        (Some(name), Some(header)) => Some(
            item_view(
                Section::Function,
                range_node,
                text_of(name, source),
                header,
                decorators_from(attrs, node, 0, source),
                seq![],
                ChildStyle::Detailed,
            ),
        ),
        _ => None,
    }
}

/// Whether an interface member of kind `kind` is shown.
pub open spec fn interface_member_kind(kind: Seq<char>) -> bool {
    ||| kind == "property_signature"@
    ||| kind == "method_signature"@
    ||| kind == "call_signature"@
    ||| kind == "construct_signature"@
    ||| kind == "index_signature"@
}

/// The members of an interface body from position `i` on, after `seen`
/// members: the first ones by their signatures, ranged.
pub open spec fn interface_members(body: SyntaxNode, i: int, seen: nat, source: Seq<u8>) -> Seq<ChildV>
    decreases body.children@.len() - i,
{
    if i < 0 || i >= body.children@.len() {
        seq![]
    } else {
        let m = body.children@[i];
        if m.named && interface_member_kind(m.kind@) {
            let signature = member_signature_text(m, source, false);
            (if seen + 1 <= FIELD_TRUNCATE_THRESHOLD && signature.len() > 0 {
                seq![ranged_view(signature, m)]
            } else {
                seq![]
            }) + interface_members(body, i + 1, seen + 1, source)
        } else {
            interface_members(body, i + 1, seen, source)
        }
    }
}

/// The number of members of an interface body from position `i` on.
pub open spec fn interface_member_count(body: SyntaxNode, i: int) -> nat
    decreases body.children@.len() - i,
{
    if i < 0 || i >= body.children@.len() {
        0
    } else if body.children@[i].named && interface_member_kind(body.children@[i].kind@) {
        interface_member_count(body, i + 1) + 1
    } else {
        interface_member_count(body, i + 1)
    }
}

/// The entry of an interface shown after `prefix`: its header, its first
/// members and a count of all.
pub open spec fn interface_view(node: SyntaxNode, source: Seq<u8>, prefix: Seq<char>, range_node: SyntaxNode, attrs: Seq<
    Seq<char>,
>) -> Option<EntryV> {
    match (field_child(node, "name"@), field_child(node, "body"@)) {
        (Some(name), Some(body)) => Some(
            unnamed_view(
                Section::Type,
                range_node,
                truncated(
                    compact(
                        prefix + "interface "@ + text_of(name, source) + field_text_or(
                            node,
                            "type_parameters"@,
                            source,
                            seq![],
                        ) + match named_kind_child(node, "extends_type_clause"@) {
                            Some(e) => " "@ + text_of(e, source),
                            None => seq![],
                        },
                    ),
                    SIGNATURE_LIMIT as nat,
                ),
                decorators_from(attrs, node, 0, source),
                with_count(interface_members(body, 0, 0, source), interface_member_count(body, 0)),
            ),
        ),
        _ => None,
    }
}

/// The entry of a type alias shown after `prefix`: its name, type
/// parameters and (truncated) value.
pub open spec fn type_alias_view(node: SyntaxNode, source: Seq<u8>, prefix: Seq<char>, range_node: SyntaxNode, attrs: Seq<
    Seq<char>,
>) -> Option<EntryV> {
    match field_child(node, "name"@) {
        Some(name) => Some(
            unnamed_view(
                Section::Type,
                range_node,
                prefix + "type "@ + text_of(name, source) + field_text_or(
                    node,
                    "type_parameters"@,
                    source,
                    seq![],
                ) + match field_child(node, "value"@) {
                    Some(v) => " = "@ + truncated(compact(text_of(v, source)), 80),
                    None => seq![],
                },
                decorators_from(attrs, node, 0, source),
                seq![],
            ),
        ),
        None => None,
    }
}

/// The entry of an enum shown after `prefix`, by name.
pub open spec fn enum_view(node: SyntaxNode, source: Seq<u8>, prefix: Seq<char>, range_node: SyntaxNode, attrs: Seq<
    Seq<char>,
>) -> Option<EntryV> {
    match field_child(node, "name"@) {
        Some(name) => Some(
            unnamed_view(
                Section::Type,
                range_node,
                prefix + "enum "@ + text_of(name, source),
                decorators_from(attrs, node, 0, source),
                seq![],
            ),
        ),
        None => None,
    }
}

/// The entry of a namespace or module shown after `prefix`, by its header.
pub open spec fn module_view(node: SyntaxNode, source: Seq<u8>, prefix: Seq<char>, range_node: SyntaxNode, attrs: Seq<
    Seq<char>,
>) -> Option<EntryV> {
    match field_child(node, "name"@) {
        Some(_) => Some(
            unnamed_view(
                Section::Module,
                range_node,
                truncated(
                    prefix + text_before(node, field_child(node, "body"@), source),
                    SIGNATURE_LIMIT as nat,
                ),
                decorators_from(attrs, node, 0, source),
                seq![],
            ),
        ),
        None => None,
    }
}

/// Whether a value of kind `kind` is a function, shown by its signature.
pub open spec fn function_value_kind(kind: Seq<char>) -> bool {
    kind == "arrow_function"@ || kind == "function_expression"@ || kind == "generator_function"@
}

/// How a variable is shown after `prefix`: its name, type annotation and
/// value (a function by its signature, anything else truncated).
pub open spec fn variable_text(declarator: SyntaxNode, name: SyntaxNode, source: Seq<u8>, prefix: Seq<
    char,
>) -> Seq<char> {
    let typed = match field_child(declarator, "type"@) {
        Some(t) => annotation_text(text_of(t, source)),
        None => seq![],
    };
    let value = match field_child(declarator, "value"@) {
        Some(v) => " = "@ + if function_value_kind(v.kind@) {
            text_before(v, field_child(v, "body"@), source)
        } else {
            truncated(compact(text_of(v, source)), 60)
        },
        None => seq![],
    };
    truncated(compact(prefix + text_of(name, source) + typed + value), SIGNATURE_LIMIT as nat)
}

/// The entries of the variables of a declaration from position `i` on; the
/// first of all carries `attrs` and the decorators.
pub open spec fn variable_views(
    node: SyntaxNode,
    i: int,
    first: bool,
    source: Seq<u8>,
    prefix: Seq<char>,
    range_node: SyntaxNode,
    attrs: Seq<Seq<char>>,
) -> Seq<EntryV>
    decreases node.children@.len() - i,
{
    if i < 0 || i >= node.children@.len() {
        seq![]
    } else {
        let d = node.children@[i];
        if d.named && d.kind@ == "variable_declarator"@ {
            match field_child(d, "name"@) {
                Some(name) => seq![
                    unnamed_view(
                        Section::Constant,
                        range_node,
                        variable_text(d, name, source, prefix),
                        if first {
                            decorators_from(attrs, node, 0, source)
                        } else {
                            seq![]
                        },
                        seq![],
                    ),
                ] + variable_views(node, i + 1, false, source, prefix, range_node, attrs),
                None => variable_views(node, i + 1, first, source, prefix, range_node, attrs),
            }
        } else {
            variable_views(node, i + 1, first, source, prefix, range_node, attrs)
        }
    }
}

/// The entries of an ambient (`declare`) declaration shown after `prefix`:
/// those of the declaration it wraps, after `declare`, or else its header as
/// a module.
pub open spec fn ambient_views(
    node: SyntaxNode,
    source: Seq<u8>,
    prefix: Seq<char>,
    range_node: SyntaxNode,
    attrs: Seq<Seq<char>>,
) -> Seq<EntryV>
    decreases node, 0int,
{
    match declaration_index(node) {
        Some(i) => if 0 <= i < node.children@.len() {
            declaration_views(node.children@[i], source, prefix + "declare "@, range_node, attrs)
        } else {
            seq![]
        },
        None => {
            let header = text_before(node, kind_child(node, "statement_block"@), source);
            if header.len() > 0 {
                seq![
                    unnamed_view(
                        Section::Module,
                        range_node,
                        truncated(prefix + header, SIGNATURE_LIMIT as nat),
                        seq![],
                        seq![],
                    ),
                ]
            } else {
                seq![]
            }
        },
    }
}

/// The entries of a declaration shown after `prefix`, spanning
/// `range_node`, with `attrs`.
pub open spec fn declaration_views(
    node: SyntaxNode,
    source: Seq<u8>,
    prefix: Seq<char>,
    range_node: SyntaxNode,
    attrs: Seq<Seq<char>>,
) -> Seq<EntryV>
    decreases node, 1int,
{
    let kind = node.kind@;
    if kind == "class_declaration"@ || kind == "abstract_class_declaration"@ || kind == "class"@ {
        one_view(class_view(node, source, prefix, range_node, attrs))
    } else if is_function_kind(kind) {
        one_view(function_view(node, source, prefix, range_node, attrs))
    } else if kind == "interface_declaration"@ {
        one_view(interface_view(node, source, prefix, range_node, attrs))
    } else if kind == "type_alias_declaration"@ {
        one_view(type_alias_view(node, source, prefix, range_node, attrs))
    } else if kind == "enum_declaration"@ {
        one_view(enum_view(node, source, prefix, range_node, attrs))
    } else if kind == "internal_module"@ || kind == "module"@ {
        one_view(module_view(node, source, prefix, range_node, attrs))
    } else if kind == "lexical_declaration"@ || kind == "variable_declaration"@ {
        variable_views(node, 0, true, source, prefix, range_node, attrs)
    } else if kind == "ambient_declaration"@ {
        ambient_views(node, source, prefix, range_node, attrs)
    } else {
        seq![]
    }
}

/// The entries of an export statement: a re-export (as an `export` import),
/// or the exported declaration after `export` (or `export default`).
pub open spec fn export_views(node: SyntaxNode, source: Seq<u8>, attrs: Seq<Seq<char>>) -> Seq<EntryV> {
    if field_child(node, "source"@) is Some {
        let cleaned = statement_path(text_of(node, source), "export"@);
        if cleaned.len() == 0 {
            seq![]
        } else {
            seq![import_entry_view(node, slash_segments(cleaned), Some("export"@))]
        }
    } else {
        match declaration_index(node) {
            Some(i) => if 0 <= i < node.children@.len() {
                let d = node.children@[i];
                let prefix = if crate::entries::has_word(
                    lossy_span(source, node.start_byte as int, d.start_byte as int),
                    "default"@,
                ) {
                    "export default "@
                } else {
                    "export "@
                };
                let outer = decorators_from(attrs, node, 0, source);
                if d.kind@ == "ambient_declaration"@ {
                    ambient_views(d, source, prefix, node, outer)
                } else {
                    declaration_views(d, source, prefix, node, outer)
                }
            } else {
                seq![]
            },
            None => seq![],
        }
    }
}

/// The entries of one top-level statement, with `attrs` that apply to it.
pub open spec fn statement_views(node: SyntaxNode, source: Seq<u8>, attrs: Seq<Seq<char>>) -> Seq<
    EntryV,
> {
    let kind = node.kind@;
    if kind == "import_statement"@ {
        one_view(import_view(node, source))
    } else if kind == "export_statement"@ {
        export_views(node, source, attrs)
    } else if kind == "ambient_declaration"@ {
        ambient_views(node, source, ""@, node, attrs)
    } else {
        declaration_views(node, source, ""@, node, attrs)
    }
}

/// The entries of one top-level statement; `attrs` are decorators that apply
/// to it. The statement gives the entries that `statement_views` describes:
/// a function declaration, for one, gives one entry, shown by its header,
/// when it has a name.
pub fn extract(node: &SyntaxNode, source: &[u8], attrs: &Vec<String>) -> (out: Vec<Entry>)
    ensures
        script_entries(node.kind@, out@),
        named_symbols(out@),
        is_function_kind(node.kind@) ==> (out@.len() == 1 <==> function_text(*node, source@, ""@)
            is Some) && (out@.len() == 1 ==> function_entry(out@[0], *node, *node, source@, ""@)),
        entry_views(out@) == statement_views(*node, source@, texts(attrs@)),
{
    proof {
        reveal_strlit("import_statement");
        reveal_strlit("export_statement");
        reveal_strlit("ambient_declaration");
        reveal_strlit("function_declaration");
        reveal_strlit("generator_function_declaration");
        reveal_strlit("function_signature");
        assert("import_statement"@.len() == 16 && "export_statement"@.len() == 16);
        assert("ambient_declaration"@.len() == 19 && "function_declaration"@.len() == 20);
        assert("generator_function_declaration"@.len() == 30 && "function_signature"@.len() == 18);
        assert("import_statement"@[0] == 'i' && "export_statement"@[0] == 'e');
    }
    if is_kind(node, "import_statement") {
        one(extract_import(node, source))
    } else if is_kind(node, "export_statement") {
        extract_export(node, source, attrs)
    } else if is_kind(node, "ambient_declaration") {
        extract_ambient(node, source, "", node, attrs)
    } else {
        extract_declaration(node, source, "", node, attrs)
    }
}

/// `text` without `prefix` when it starts with it.
pub open spec fn strip_prefix_text(text: Seq<char>, prefix: Seq<char>) -> Seq<char> {
    if has_prefix(text, prefix) {
        text.skip(prefix.len() as int)
    } else {
        text
    }
}

/// The path of an import or re-export statement: its compacted text after
/// the keyword, trimmed, without trailing semicolons.
pub open spec fn statement_path(text: Seq<char>, keyword: Seq<char>) -> Seq<char> {
    trim(trim_end_set(trim(strip_prefix_text(compact(text), keyword)), ";"@))
}

pub(crate) fn statement_path_of(node: &SyntaxNode, source: &[u8], keyword: &str) -> (out: String)
    ensures
        out@ == statement_path(crate::syntax::text_of(*node, source@), keyword@),
{
    let text = compact_whitespace(node_text(node, source).as_str());
    let chars = chars_of(text.as_str());
    let k = chars_of(keyword);
    let rest = if crate::text::starts_with(chars.as_slice(), k.as_slice()) {
        let mut r: Vec<char> = Vec::new();
        let mut i: usize = k.len();
        while i < chars.len()
            invariant
                k@.len() <= i <= chars@.len(),
                r@ == chars@.subrange(k@.len() as int, i as int),
            decreases chars@.len() - i,
        {
            r.push(chars[i]);
            i = i + 1;
        }
        assert(r@ =~= chars@.skip(k@.len() as int));
        r
    } else {
        chars
    };
    let trimmed = trim_chars(rest.as_slice());
    let semicolon = chars_of(";");
    let cut = trim_end_set_chars(trimmed.as_slice(), semicolon.as_slice());
    let again = trim_chars(cut.as_slice());
    string_of(again.as_slice())
}

/// The segments of an import path: its trimmed parts between `/`.
pub open spec fn slash_segments(value: Seq<char>) -> Seq<Seq<char>> {
    let parts = split_text(value, '/');
    Seq::new(parts.len(), |i: int| trim(parts[i]))
}

/// See `slash_segments`.
pub fn segment_path(value: &str) -> (out: Vec<String>)
    ensures
        texts(out@) == slash_segments(value@),
{
    let parts = split_on(value, '/');
    let mut out: Vec<String> = Vec::new();
    let mut i: usize = 0;
    while i < parts.len()
        invariant
            i <= parts@.len(),
            texts(out@) == Seq::new(i as nat, |k: int| trim(texts(parts@)[k])),
        decreases parts@.len() - i,
    {
        let ghost prev = out@;
        out.push(trim_text(parts[i].as_str()));
        assert(texts(out@) =~= texts(prev).push(trim(parts@[i as int]@)));
        i = i + 1;
        assert(texts(out@) =~= Seq::new(i as nat, |k: int| trim(texts(parts@)[k])));
    }
    out
}

/// The import entry of a statement that lists the segments of `cleaned`.
fn path_entry(node: &SyntaxNode, cleaned: &String) -> (e: Entry)
    ensures
        e@ == import_entry_view(*node, slash_segments(cleaned@), None),
        e.section == Section::Import,
{
    let mut paths: Vec<Vec<String>> = Vec::new();
    let segments = segment_path(cleaned.as_str());
    let ghost shown = texts(segments@);
    paths.push(segments);
    let e = new_import_entry(node, paths);
    assert(e@.import_paths =~= seq![shown]);
    assert(e@.attrs =~= seq![]);
    assert(e@.children =~= seq![]);
    assert(e@.text =~= seq![]);
    e
}

/// An import statement, as one path (see `import_view`).
fn extract_import(node: &SyntaxNode, source: &[u8]) -> (out: Option<Entry>)
    ensures
        out matches Some(e) ==> e.section == Section::Import,
        opt_view(out) == import_view(*node, source@),
{
    let cleaned = statement_path_of(node, source, "import");
    if cleaned.as_str().is_empty() {
        return None;
    }
    Some(path_entry(node, &cleaned))
}

/// An export statement: a re-export (as an `export` import), or the exported
/// declaration (see `export_views`).
fn extract_export(node: &SyntaxNode, source: &[u8], attrs: &Vec<String>) -> (out: Vec<Entry>)
    ensures
        script_entries("export_statement"@, out@),
        named_symbols(out@),
        entry_views(out@) == export_views(*node, source@, texts(attrs@)),
{
    if child_by_field(node, "source").is_some() {
        let mut out: Vec<Entry> = Vec::new();
        let cleaned = statement_path_of(node, source, "export");
        if cleaned.as_str().is_empty() {
            assert(entry_views(out@) == Seq::<EntryV>::empty());
            return out;
        }
        let mut entry = path_entry(node, &cleaned);
        entry.import_keyword = Some(String::from_str("export"));
        proof {
            reveal_strlit("export");
        }
        let ghost v = entry@;
        assert(v == import_entry_view(*node, slash_segments(cleaned@), Some("export"@)));
        out.push(entry);
        assert(entry_views(out@) == seq![v]);
        return out;
    }
    let index = match declaration_child(node) {
        Some(i) => i,
        None => {
            let out: Vec<Entry> = Vec::new();
            assert(entry_views(out@) == Seq::<EntryV>::empty());
            return out;
        },
    };
    let declaration = &node.children[index];
    let before = lossy(source, node.start_byte, declaration.start_byte);
    let prefix = if crate::entries::contains_word(before.as_str(), "default") {
        "export default "
    } else {
        "export "
    };
    let outer_attrs = combined_attrs(attrs, node, source);
    if is_kind(declaration, "ambient_declaration") {
        extract_ambient(declaration, source, prefix, node, &outer_attrs)
    } else {
        extract_declaration(declaration, source, prefix, node, &outer_attrs)
    }
}

/// An ambient (`declare`) declaration: the declaration it wraps, or its
/// header as a module.
fn extract_ambient(node: &SyntaxNode, source: &[u8], prefix: &str, range_node: &SyntaxNode, attrs: &Vec<String>) -> (out: Vec<Entry>)
    ensures
        forall|i: int| 0 <= i < out@.len() ==> script_section((#[trigger] out@[i]).section) && out@[i].section != Section::Import,
        named_symbols(out@),
        entry_views(out@) == ambient_views(*node, source@, prefix@, *range_node, texts(attrs@)),
    decreases *node, 0int,
{
    if let Some(index) = declaration_child(node) {
        let mut declared = String::from_str(prefix);
        declared.append("declare ");
        return extract_declaration(&node.children[index], source, declared.as_str(), range_node, attrs);
    }
    let header = signature_before(node, find_child(node, "statement_block"), source);
    let mut out: Vec<Entry> = Vec::new();
    if !header.as_str().is_empty() {
        let mut text = String::from_str(prefix);
        text.append(header.as_str());
        out.push(new_entry(Section::Module, range_node, truncate(text.as_str(), SIGNATURE_LIMIT)));
        assert(entry_views(out@) == seq![out@[0]@]);
    } else {
        assert(entry_views(out@) == Seq::<EntryV>::empty());
    }
    out
}

/// The entries of a declaration, shown after `prefix` and ranged by
/// `range_node`.
fn extract_declaration(node: &SyntaxNode, source: &[u8], prefix: &str, range_node: &SyntaxNode, attrs: &Vec<String>) -> (out: Vec<Entry>)
    ensures
        forall|i: int| 0 <= i < out@.len() ==> script_section((#[trigger] out@[i]).section) && out@[i].section != Section::Import,
        named_symbols(out@),
        is_function_kind(node.kind@) ==> (out@.len() == 1 <==> function_text(*node, source@, prefix@)
            is Some) && (out@.len() == 1 ==> function_entry(
            out@[0],
            *node,
            *range_node,
            source@,
            prefix@,
        )),
        entry_views(out@) == declaration_views(*node, source@, prefix@, *range_node, texts(attrs@)),
    decreases *node, 1int,
{
    proof {
        reveal_strlit("class_declaration");
        reveal_strlit("abstract_class_declaration");
        reveal_strlit("class");
        reveal_strlit("function_declaration");
        reveal_strlit("generator_function_declaration");
        reveal_strlit("function_signature");
        assert("class_declaration"@.len() == 17 && "abstract_class_declaration"@.len() == 26);
        assert("class"@.len() == 5 && "function_declaration"@.len() == 20);
        assert("generator_function_declaration"@.len() == 30 && "function_signature"@.len() == 18);
    }
    if is_kind(node, "class_declaration") || is_kind(node, "abstract_class_declaration") || is_kind(
        node,
        "class",
    ) {
        one(extract_class(node, source, prefix, range_node, attrs))
    } else if is_kind(node, "function_declaration") || is_kind(
        node,
        "generator_function_declaration",
    ) || is_kind(node, "function_signature") {
        one(extract_function(node, source, prefix, range_node, attrs))
    } else if is_kind(node, "interface_declaration") {
        one(extract_interface(node, source, prefix, range_node, attrs))
    } else if is_kind(node, "type_alias_declaration") {
        one(extract_type_alias(node, source, prefix, range_node, attrs))
    } else if is_kind(node, "enum_declaration") {
        one(extract_enum(node, source, prefix, range_node, attrs))
    } else if is_kind(node, "internal_module") || is_kind(node, "module") {
        one(extract_module(node, source, prefix, range_node, attrs))
    } else if is_kind(node, "lexical_declaration") || is_kind(node, "variable_declaration") {
        extract_variables(node, source, prefix, range_node, attrs)
    } else if is_kind(node, "ambient_declaration") {
        extract_ambient(node, source, prefix, range_node, attrs)
    } else {
        Vec::new()
    }
}

/// The entry, if any, as a vector.
fn one(entry: Option<Entry>) -> (out: Vec<Entry>)
    ensures
        match entry {
            Some(e) => out@ == seq![e],
            None => out@.len() == 0,
        },
        entry_views(out@) == one_view(opt_view(entry)),
{
    let mut out: Vec<Entry> = Vec::new();
    if let Some(e) = entry {
        out.push(e);
    }
    assert(entry_views(out@) =~= one_view(opt_view(entry)));
    out
}

/// Whether a class member is a method.
fn is_method_member(member: &SyntaxNode) -> (r: bool)
    ensures
        r == (member.kind@ == "method_definition"@ || member.kind@ == "method_signature"@
            || member.kind@ == "abstract_method_signature"@),
{
    is_kind(member, "method_definition") || is_kind(member, "method_signature") || is_kind(
        member,
        "abstract_method_signature",
    )
}

/// Whether a class member is a field.
fn is_field_member(member: &SyntaxNode) -> (r: bool)
    ensures
        r == (member.kind@ == "public_field_definition"@ || member.kind@ == "property_definition"@
            || member.kind@ == "field_definition"@ || member.kind@ == "property_signature"@
            || member.kind@ == "index_signature"@),
{
    is_kind(member, "public_field_definition") || is_kind(member, "property_definition")
        || is_kind(member, "field_definition") || is_kind(member, "property_signature")
        || is_kind(member, "index_signature")
}

/// Adds what one class member shows (see `class_member_children`).
fn add_class_member(entry: &mut Entry, member: &SyntaxNode, count: usize, source: &[u8])
    ensures
        final(entry)@ == old(entry)@.with_children(
            child_views(old(entry).children@) + class_member_children(*member, count as nat, source@),
        ),
{
    let ghost before = child_views(entry.children@);
    let mut added = false;
    if member.named {
        if is_method_member(member) {
            let signature = member_signature(member, source, false);
            if !signature.as_str().is_empty() {
                if let Some(name) = child_by_field(member, "name") {
                    entry.children.push(
                        ranged_symbol_child(signature, member, node_text(name, source)),
                    );
                    added = true;
                }
            }
        } else if is_field_member(member) && count < FIELD_TRUNCATE_THRESHOLD {
            let signature = member_signature(member, source, true);
            if !signature.as_str().is_empty() {
                entry.children.push(ranged_child(signature, member));
                added = true;
            }
        }
    }
    if added {
        assert(child_views(entry.children@) == before + seq![entry.children@.last()@]);
    } else {
        assert(child_views(entry.children@) == before + Seq::<ChildV>::empty());
    }
}

/// A class: its header, its method signatures, its first fields and a count
/// of the rest (see `class_view`).
fn extract_class(node: &SyntaxNode, source: &[u8], prefix: &str, range_node: &SyntaxNode, attrs: &Vec<String>) -> (out: Option<Entry>)
    ensures
        out matches Some(e) ==> e.section == Section::Class && e.symbol_name is Some,
        opt_view(out) == class_view(*node, source@, prefix@, *range_node, texts(attrs@)),
{
    let name = child_by_field(node, "name")?;
    let body = child_by_field(node, "body")?;
    let mut text = String::from_str(prefix);
    if is_kind(node, "abstract_class_declaration") {
        text.append("abstract ");
    }
    let ghost lead = text@;
    text.append(node_text(name, source).as_str());
    append_field(&mut text, node, "type_parameters", source);
    let ghost head = text@;
    if let Some(heritage) = find_named_child(node, "class_heritage") {
        text.append(" ");
        text.append(node_text(heritage, source).as_str());
        assert(text@ == head + (" "@ + text_of(*heritage, source@)));
    } else {
        assert(text@ == head + Seq::<char>::empty());
    }
    let header = truncate(compact_whitespace(text.as_str()).as_str(), SIGNATURE_LIMIT);
    let mut entry = new_symbol_entry(Section::Class, range_node, node_text(name, source), header);
    entry.attrs = combined_attrs(attrs, node, source);
    let ghost start = entry@;
    let mut field_count: usize = 0;
    let mut i: usize = 0;
    while i < body.children.len()
        invariant
            field_count <= i <= body.children@.len(),
            child_views(entry.children@) + class_members(*body, i as int, field_count as nat, source@)
                == class_members(*body, 0, 0, source@),
            field_count + class_field_count(*body, i as int) == class_field_count(*body, 0),
            entry@ == start.with_children(child_views(entry.children@)),
            entry.section == Section::Class,
            entry.symbol_name is Some,
        decreases body.children@.len() - i,
    {
        let member = &body.children[i];
        let ghost before = child_views(entry.children@);
        let ghost added = class_member_children(*member, field_count as nat, source@);
        add_class_member(&mut entry, member, field_count, source);
        let counts = member.named && !is_method_member(member) && is_field_member(member);
        let next = if counts {
            field_count + 1
        } else {
            field_count
        };
        assert(before + (added + class_members(*body, i + 1, next as nat, source@)) == before
            + added + class_members(*body, i + 1, next as nat, source@));
        field_count = next;
        i = i + 1;
    }
    assert(child_views(entry.children@) + Seq::<ChildV>::empty() == child_views(entry.children@));
    truncate_child_count(&mut entry.children, field_count);
    Some(entry)
}

/// A type annotation as shown after a signature: with `: ` unless the
/// annotation's text starts with a colon.
pub open spec fn annotation_text(text: Seq<char>) -> Seq<char> {
    if has_prefix(text, ":"@) {
        text
    } else {
        ": "@ + text
    }
}

/// The text of the child of `node` held under `field`, or `fallback`.
pub open spec fn field_text_or(node: SyntaxNode, field: Seq<char>, source: Seq<u8>, fallback: Seq<char>) -> Seq<char> {
    match crate::syntax::field_child(node, field) {
        Some(child) => crate::syntax::text_of(child, source),
        None => fallback,
    }
}

/// The header of a function after `prefix`: `async` when that word comes
/// before the name, `*` for a generator, then the name, type parameters,
/// parameters (or `()`) and return type, compacted and truncated; none
/// without a name.
pub open spec fn function_text(node: SyntaxNode, source: Seq<u8>, prefix: Seq<char>) -> Option<Seq<char>> {
    match crate::syntax::field_child(node, "name"@) {
        None => None,
        Some(name) => {
            let before = lossy_span(source, node.start_byte as int, name.start_byte as int);
            let asynchronous = if crate::entries::has_word(before, "async"@) {
                "async "@
            } else {
                seq![]
            };
            let star = if node.kind@ == "generator_function_declaration"@ {
                "*"@
            } else {
                seq![]
            };
            let return_type = match crate::syntax::field_child(node, "return_type"@) {
                Some(r) => annotation_text(crate::syntax::text_of(r, source)),
                None => seq![],
            };
            Some(
                truncated(
                    compact(
                        prefix + asynchronous + star + crate::syntax::text_of(name, source)
                            + field_text_or(node, "type_parameters"@, source, seq![])
                            + field_text_or(node, "parameters"@, source, "()"@) + return_type,
                    ),
                    SIGNATURE_LIMIT as nat,
                ),
            )
        },
    }
}

/// The entry of a function `node` shown after `prefix` and spanning
/// `range_node`: named by its name, shown by its header.
pub open spec fn function_entry(e: Entry, node: SyntaxNode, range_node: SyntaxNode, source: Seq<u8>, prefix: Seq<char>) -> bool {
    &&& function_text(node, source, prefix) is Some
    &&& e.section == Section::Function
    &&& e.line_start == range_node.start_line
    &&& e.line_end == range_node.end_line
    &&& e.text@ == function_text(node, source, prefix)->0
    &&& e.children@.len() == 0
    &&& e.symbol_name matches Some(n) && n@ == crate::syntax::text_of(
        crate::syntax::field_child(node, "name"@)->0,
        source,
    )
}

/// A function: its modifiers, name, type parameters, parameters and return
/// type (see `function_text`).
fn extract_function(node: &SyntaxNode, source: &[u8], prefix: &str, range_node: &SyntaxNode, attrs: &Vec<String>) -> (out: Option<Entry>)
    ensures
        out is Some <==> function_text(*node, source@, prefix@) is Some,
        out matches Some(e) ==> function_entry(e, *node, *range_node, source@, prefix@),
        opt_view(out) == function_view(*node, source@, prefix@, *range_node, texts(attrs@)),
{
    let name = child_by_field(node, "name")?;
    let mut text = String::from_str(prefix);
    let modifiers = lossy(source, node.start_byte, name.start_byte);
    if crate::entries::contains_word(modifiers.as_str(), "async") {
        text.append("async ");
    }
    if is_kind(node, "generator_function_declaration") {
        text.append("*");
    }
    text.append(node_text(name, source).as_str());
    append_field(&mut text, node, "type_parameters", source);
    let parameters = crate::entries::text_or(child_by_field(node, "parameters"), "()", source);
    text.append(parameters.as_str());
    let ghost before_return = text@;
    if let Some(return_type) = child_by_field(node, "return_type") {
        append_return_type(&mut text, return_type, source);
    }
    proof {
        let return_type = match crate::syntax::field_child(*node, "return_type"@) {
            Some(r) => annotation_text(crate::syntax::text_of(r, source@)),
            None => seq![],
        };
        assert(text@ == before_return + return_type);
    }
    let header = truncate(compact_whitespace(text.as_str()).as_str(), SIGNATURE_LIMIT);
    let mut entry = new_symbol_entry(Section::Function, range_node, node_text(name, source), header);
    entry.attrs = combined_attrs(attrs, node, source);
    Some(entry)
}

/// Whether an interface member is a signature the skeleton shows.
fn is_interface_member(member: &SyntaxNode) -> (r: bool)
    ensures
        r == (member.kind@ == "property_signature"@ || member.kind@ == "method_signature"@
            || member.kind@ == "call_signature"@ || member.kind@ == "construct_signature"@
            || member.kind@ == "index_signature"@),
{
    is_kind(member, "property_signature") || is_kind(member, "method_signature") || is_kind(
        member,
        "call_signature",
    ) || is_kind(member, "construct_signature") || is_kind(member, "index_signature")
}

/// An interface: its header, its first members and a count of the rest (see
/// `interface_view`).
fn extract_interface(node: &SyntaxNode, source: &[u8], prefix: &str, range_node: &SyntaxNode, attrs: &Vec<String>) -> (out: Option<Entry>)
    ensures
        out matches Some(e) ==> e.section == Section::Type,
        opt_view(out) == interface_view(*node, source@, prefix@, *range_node, texts(attrs@)),
{
    let name = child_by_field(node, "name")?;
    let body = child_by_field(node, "body")?;
    let mut text = String::from_str(prefix);
    text.append("interface ");
    text.append(node_text(name, source).as_str());
    append_field(&mut text, node, "type_parameters", source);
    let ghost head = text@;
    if let Some(extends) = find_named_child(node, "extends_type_clause") {
        text.append(" ");
        text.append(node_text(extends, source).as_str());
        assert(text@ == head + (" "@ + text_of(*extends, source@)));
    } else {
        assert(text@ == head + Seq::<char>::empty());
    }
    let header = truncate(compact_whitespace(text.as_str()).as_str(), SIGNATURE_LIMIT);
    let mut entry = new_entry(Section::Type, range_node, header);
    entry.attrs = combined_attrs(attrs, node, source);
    let ghost start = entry@;
    let mut total: usize = 0;
    let mut i: usize = 0;
    while i < body.children.len()
        invariant
            total <= i <= body.children@.len(),
            child_views(entry.children@) + interface_members(*body, i as int, total as nat, source@)
                == interface_members(*body, 0, 0, source@),
            total + interface_member_count(*body, i as int) == interface_member_count(*body, 0),
            entry@ == start.with_children(child_views(entry.children@)),
            entry.section == Section::Type,
        decreases body.children@.len() - i,
    {
        let member = &body.children[i];
        let ghost before = child_views(entry.children@);
        if member.named && is_interface_member(member) {
            let ghost rest = interface_members(*body, i + 1, (total + 1) as nat, source@);
            total = total + 1;
            let mut added = false;
            if total <= FIELD_TRUNCATE_THRESHOLD {
                let signature = member_signature(member, source, false);
                if !signature.as_str().is_empty() {
                    entry.children.push(ranged_child(signature, member));
                    added = true;
                }
            }
            if added {
                let ghost c = entry.children@.last()@;
                assert(child_views(entry.children@) == before.push(c));
                assert(before + (seq![c] + rest) == before.push(c) + rest);
            } else {
                assert(before + (Seq::<ChildV>::empty() + rest) == before + rest);
            }
        }
        i = i + 1;
    }
    assert(child_views(entry.children@) + Seq::<ChildV>::empty() == child_views(entry.children@));
    truncate_child_count(&mut entry.children, total);
    Some(entry)
}

/// A type alias: its name, type parameters and (truncated) value.
fn extract_type_alias(node: &SyntaxNode, source: &[u8], prefix: &str, range_node: &SyntaxNode, attrs: &Vec<String>) -> (out: Option<Entry>)
    ensures
        out matches Some(e) ==> e.section == Section::Type,
        opt_view(out) == type_alias_view(*node, source@, prefix@, *range_node, texts(attrs@)),
{
    let name = child_by_field(node, "name")?;
    let mut text = String::from_str(prefix);
    text.append("type ");
    text.append(node_text(name, source).as_str());
    append_field(&mut text, node, "type_parameters", source);
    let ghost head = text@;
    if let Some(value) = child_by_field(node, "value") {
        let compacted = compact_whitespace(node_text(value, source).as_str());
        text.append(" = ");
        text.append(truncate(compacted.as_str(), 80).as_str());
        assert(text@ == head + (" = "@ + truncated(compact(text_of(*value, source@)), 80)));
    } else {
        assert(text@ == head + Seq::<char>::empty());
    }
    let mut entry = new_entry(Section::Type, range_node, text);
    entry.attrs = combined_attrs(attrs, node, source);
    Some(entry)
}

/// An enum, by name.
fn extract_enum(node: &SyntaxNode, source: &[u8], prefix: &str, range_node: &SyntaxNode, attrs: &Vec<String>) -> (out: Option<Entry>)
    ensures
        out matches Some(e) ==> e.section == Section::Type,
        opt_view(out) == enum_view(*node, source@, prefix@, *range_node, texts(attrs@)),
{
    let name = child_by_field(node, "name")?;
    let mut text = String::from_str(prefix);
    text.append("enum ");
    text.append(node_text(name, source).as_str());
    let mut entry = new_entry(Section::Type, range_node, text);
    entry.attrs = combined_attrs(attrs, node, source);
    Some(entry)
}

/// A namespace or module, by its header.
fn extract_module(node: &SyntaxNode, source: &[u8], prefix: &str, range_node: &SyntaxNode, attrs: &Vec<String>) -> (out: Option<Entry>)
    ensures
        out matches Some(e) ==> e.section == Section::Module,
        opt_view(out) == module_view(*node, source@, prefix@, *range_node, texts(attrs@)),
{
    child_by_field(node, "name")?;
    let header = signature_before(node, child_by_field(node, "body"), source);
    let mut text = String::from_str(prefix);
    text.append(header.as_str());
    let mut entry = new_entry(Section::Module, range_node, truncate(text.as_str(), SIGNATURE_LIMIT));
    entry.attrs = combined_attrs(attrs, node, source);
    Some(entry)
}

/// Whether a value is a function, shown by its signature.
fn is_function_value(node: &SyntaxNode) -> (r: bool)
    ensures
        r == (node.kind@ == "arrow_function"@ || node.kind@ == "function_expression"@
            || node.kind@ == "generator_function"@),
{
    is_kind(node, "arrow_function") || is_kind(node, "function_expression") || is_kind(
        node,
        "generator_function",
    )
}

/// How a variable is shown after `prefix` (see `variable_text`).
fn variable_line(declarator: &SyntaxNode, name: &SyntaxNode, source: &[u8], prefix: &str) -> (out: String)
    ensures
        out@ == variable_text(*declarator, *name, source@, prefix@),
{
    let mut text = String::from_str(prefix);
    text.append(node_text(name, source).as_str());
    let ghost named = text@;
    if let Some(type_node) = child_by_field(declarator, "type") {
        append_return_type(&mut text, type_node, source);
    } else {
        assert(text@ == named + Seq::<char>::empty());
    }
    let ghost typed = text@;
    if let Some(value) = child_by_field(declarator, "value") {
        text.append(" = ");
        if is_function_value(value) {
            let body = child_by_field(value, "body");
            let signature = signature_before(value, body, source);
            assert(signature@ == text_before(*value, field_child(*value, "body"@), source@));
            text.append(signature.as_str());
            assert(text@ == typed + (" = "@ + text_before(
                *value,
                field_child(*value, "body"@),
                source@,
            )));
        } else {
            let compacted = compact_whitespace(node_text(value, source).as_str());
            text.append(truncate(compacted.as_str(), 60).as_str());
            assert(text@ == typed + (" = "@ + truncated(compact(text_of(*value, source@)), 60)));
        }
    } else {
        assert(text@ == typed + Seq::<char>::empty());
    }
    truncate(compact_whitespace(text.as_str()).as_str(), SIGNATURE_LIMIT)
}

/// The variables of a declaration, one constant entry each; the first
/// carries the decorators (see `variable_views`).
fn extract_variables(node: &SyntaxNode, source: &[u8], prefix: &str, range_node: &SyntaxNode, attrs: &Vec<String>) -> (out: Vec<Entry>)
    ensures
        forall|i: int| 0 <= i < out@.len() ==> (#[trigger] out@[i]).section == Section::Constant,
        entry_views(out@) == variable_views(*node, 0, true, source@, prefix@, *range_node, texts(attrs@)),
{
    let mut entries: Vec<Entry> = Vec::new();
    let mut i: usize = 0;
    while i < node.children.len()
        invariant
            i <= node.children@.len(),
            forall|k: int| 0 <= k < entries@.len() ==> (#[trigger] entries@[k]).section == Section::Constant,
            entry_views(entries@) + variable_views(
                *node,
                i as int,
                entries@.len() == 0,
                source@,
                prefix@,
                *range_node,
                texts(attrs@),
            ) == variable_views(*node, 0, true, source@, prefix@, *range_node, texts(attrs@)),
        decreases node.children@.len() - i,
    {
        let declarator = &node.children[i];
        let ghost before = entry_views(entries@);
        if declarator.named && is_kind(declarator, "variable_declarator") {
            if let Some(name) = child_by_field(declarator, "name") {
                let ghost rest = variable_views(
                    *node,
                    i + 1,
                    false,
                    source@,
                    prefix@,
                    *range_node,
                    texts(attrs@),
                );
                let shown = variable_line(declarator, name, source, prefix);
                let mut entry = new_entry(Section::Constant, range_node, shown);
                if entries.len() == 0 {
                    entry.attrs = combined_attrs(attrs, node, source);
                }
                let ghost v = entry@;
                entries.push(entry);
                assert(entry_views(entries@) == before.push(v));
                assert(before + (seq![v] + rest) == before.push(v) + rest);
            }
        }
        i = i + 1;
    }
    assert(entry_views(entries@) + Seq::<EntryV>::empty() == entry_views(entries@));
    entries
}

/// See `declaration_kind`.
fn is_declaration_kind(node: &SyntaxNode) -> (r: bool)
    ensures
        r == declaration_kind(node.kind@),
{
    is_kind(node, "class_declaration") || is_kind(node, "abstract_class_declaration") || is_kind(
        node,
        "function_declaration",
    ) || is_kind(node, "generator_function_declaration") || is_kind(node, "function_signature")
        || is_kind(node, "interface_declaration") || is_kind(node, "type_alias_declaration")
        || is_kind(node, "enum_declaration") || is_kind(node, "internal_module") || is_kind(
        node,
        "module",
    ) || is_kind(node, "lexical_declaration") || is_kind(node, "variable_declaration")
        || is_kind(node, "ambient_declaration")
}

/// The position of the declaration a node wraps (see `declaration_index`).
fn declaration_child(node: &SyntaxNode) -> (r: Option<usize>)
    ensures
        r matches Some(i) ==> i < node.children@.len(),
        match r {
            Some(i) => declaration_index(*node) == Some(i as int),
            None => declaration_index(*node) is None,
        },
{
    let mut i: usize = 0;
    while i < node.children.len()
        invariant
            i <= node.children@.len(),
            first_from(node.children@, field_is("declaration"@), 0) == first_from(
                node.children@,
                field_is("declaration"@),
                i as int,
            ),
        decreases node.children@.len() - i,
    {
        if is_field(&node.children[i], "declaration") {
            return Some(i);
        }
        i = i + 1;
    }
    let mut j: usize = 0;
    while j < node.children.len()
        invariant
            j <= node.children@.len(),
            first_from(node.children@, field_is("declaration"@), 0) is None,
            first_from(node.children@, wraps_declaration(), 0) == first_from(
                node.children@,
                wraps_declaration(),
                j as int,
            ),
        decreases node.children@.len() - j,
    {
        let c = &node.children[j];
        if c.named && is_declaration_kind(c) {
            return Some(j);
        }
        j = j + 1;
    }
    None
}

/// Appends the text of the child held under `field`, if there is one.
fn append_field(text: &mut String, node: &SyntaxNode, field: &str, source: &[u8])
    ensures
        final(text)@ == old(text)@ + match crate::syntax::field_child(*node, field@) {
            Some(value) => crate::syntax::text_of(value, source@),
            None => seq![],
        },
{
    if let Some(value) = child_by_field(node, field) {
        text.append(node_text(value, source).as_str());
    } else {
        assert(text@ =~= old(text)@ + Seq::<char>::empty());
    }
}

/// Appends a type annotation, adding `: ` unless the node's text has it.
fn append_return_type(text: &mut String, node: &SyntaxNode, source: &[u8])
    ensures
        final(text)@ == old(text)@ + annotation_text(crate::syntax::text_of(*node, source@)),
{
    let value = node_text(node, source);
    let chars = chars_of(value.as_str());
    let colon = chars_of(":");
    if !crate::text::starts_with(chars.as_slice(), colon.as_slice()) {
        text.append(": ");
    }
    text.append(value.as_str());
}

/// See `member_signature_text`.
fn member_signature(node: &SyntaxNode, source: &[u8], omit_value: bool) -> (out: String)
    ensures
        out@ == member_signature_text(*node, source@, omit_value),
{
    let end = if omit_value {
        child_by_field(node, "value")
    } else {
        child_by_field(node, "body")
    };
    let signature = signature_before(node, end, source);
    if omit_value {
        let chars = chars_of(signature.as_str());
        let set = chars_of(" =");
        let cut = trim_end_set_chars(chars.as_slice(), set.as_slice());
        truncate(string_of(cut.as_slice()).as_str(), SIGNATURE_LIMIT)
    } else {
        truncate(signature.as_str(), SIGNATURE_LIMIT)
    }
}

/// The source of a node up to `end` (or its own end): trimmed, without
/// trailing `;` and `,`, and compacted.
pub open spec fn signature_text(source: Seq<u8>, start: usize, end: usize) -> Seq<char> {
    compact(trim(trim_end_set(trim(lossy_span(source, start as int, end as int)), ";,"@)))
}

fn signature_before(node: &SyntaxNode, end: Option<&SyntaxNode>, source: &[u8]) -> (out: String)
    ensures
        out@ == signature_text(
            source@,
            node.start_byte,
            match end {
                Some(e) => e.start_byte,
                None => node.end_byte,
            },
        ),
{
    let end_byte = match end {
        Some(e) => e.start_byte,
        None => node.end_byte,
    };
    let raw = lossy(source, node.start_byte, end_byte);
    let chars = chars_of(raw.as_str());
    let trimmed = trim_chars(chars.as_slice());
    let set = chars_of(";,");
    let cut = trim_end_set_chars(trimmed.as_slice(), set.as_slice());
    let again = trim_chars(cut.as_slice());
    let compacted = compact_chars(again.as_slice());
    string_of(compacted.as_slice())
}

/// `attrs`, then each decorator of `node` (compacted) not already among them
/// (see `decorators_from`).
fn combined_attrs(attrs: &Vec<String>, node: &SyntaxNode, source: &[u8]) -> (out: Vec<String>)
    ensures
        texts(out@) == decorators_from(texts(attrs@), *node, 0, source@),
{
    crate::python::decorators(attrs, node, source)
}

} // verus!
