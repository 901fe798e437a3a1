//! The declarations of Go source files.
use crate::entries::{
    field_texts, field_texts_of, item_view, named_symbols, new_entry, new_import_entry,
    new_symbol_entry, opt_view, ranged_child, ranged_symbol_child, ranged_view, split_on,
    split_text, text_or, trim_text, truncate_child_count, with_count,
};
use crate::skeleton::{
    child_views, entry_views, join, join_strings, texts, ChildStyle, ChildV, Entry, EntryV,
    Section, FIELD_TRUNCATE_THRESHOLD,
};
use crate::syntax::{
    child_by_field, field_child, find_child, is_kind, kind_child, node_text, text_of, SyntaxNode,
};
use crate::text::{chars_of, compact, compact_whitespace, string_of, trim, truncate, truncated};
use vstd::prelude::*;

verus! {

/// Type texts longer than this many bytes are truncated.
pub const TYPE_LIMIT: usize = 60;

/// The section of the entries a top-level Go declaration of kind `kind` gives.
pub open spec fn go_section(kind: Seq<char>) -> Option<Section> {
    if kind == "package_clause"@ {
        Some(Section::Module)
    } else if kind == "import_declaration"@ {
        Some(Section::Import)
    } else if kind == "const_declaration"@ || kind == "var_declaration"@ {
        Some(Section::Constant)
    } else if kind == "type_declaration"@ {
        Some(Section::Type)
    } else if kind == "function_declaration"@ {
        Some(Section::Function)
    } else if kind == "method_declaration"@ {
        Some(Section::Impl)
    } else {
        None
    }
}

/// Whether every entry of `out` lies in `section` (none when it is `None`).
pub open spec fn all_in(out: Seq<Entry>, section: Option<Section>) -> bool {
    match section {
        Some(s) => forall|i: int| 0 <= i < out.len() ==> (#[trigger] out[i]).section == s,
        None => out.len() == 0,
    }
}

fn one(entry: Option<Entry>) -> (out: Vec<Entry>)
    ensures
        match entry {
            Some(e) => out@ == seq![e],
            None => out@.len() == 0,
        },
        entry_views(out@) == one_view(opt_view(entry)),
{
    let mut out: Vec<Entry> = Vec::new();
    match entry {
        Some(e) => {
            out.push(e);
        },
        None => {},
    }
    assert(entry_views(out@) =~= one_view(opt_view(entry)));
    out
}

/// The entry, if any, as a sequence.
pub open spec fn one_view(e: Option<EntryV>) -> Seq<EntryV> {
    match e {
        Some(x) => seq![x],
        None => seq![],
    }
}

/// The nodes that references point to.
pub open spec fn derefs<'a>(s: Seq<&'a SyntaxNode>) -> Seq<SyntaxNode> {
    Seq::new(s.len(), |i: int| *s[i])
}

/// The named nodes of kind `spec_kind` among `children` from position `j` on.
pub open spec fn items_of(children: Seq<SyntaxNode>, j: int, spec_kind: Seq<char>) -> Seq<SyntaxNode>
    decreases children.len() - j,
{
    if j < 0 || j >= children.len() {
        seq![]
    } else if children[j].named && children[j].kind@ == spec_kind {
        seq![children[j]] + items_of(children, j + 1, spec_kind)
    } else {
        items_of(children, j + 1, spec_kind)
    }
}

/// The specs of a declaration among `children` from position `i` on: the
/// named children of kind `spec_kind`, and those inside the named children
/// of kind `list_kind`, in order.
pub open spec fn specs_from(
    children: Seq<SyntaxNode>,
    i: int,
    spec_kind: Seq<char>,
    list_kind: Seq<char>,
) -> Seq<SyntaxNode>
    decreases children.len() - i,
{
    if i < 0 || i >= children.len() {
        seq![]
    } else {
        let c = children[i];
        let rest = specs_from(children, i + 1, spec_kind, list_kind);
        if c.named && c.kind@ == spec_kind {
            seq![c] + rest
        } else if c.named && c.kind@ == list_kind {
            items_of(c.children@, 0, spec_kind) + rest
        } else {
            rest
        }
    }
}

/// The specs of a declaration (see `specs_from`).
pub open spec fn specs_in(node: SyntaxNode, spec_kind: Seq<char>, list_kind: Seq<char>) -> Seq<
    SyntaxNode,
> {
    specs_from(node.children@, 0, spec_kind, list_kind)
}

/// The entry of a package clause, named by its identifier.
pub open spec fn package_view(node: SyntaxNode, source: Seq<u8>) -> Option<EntryV> {
    match kind_child(node, "package_identifier"@) {
        Some(name) => Some(
            item_view(
                Section::Module,
                node,
                text_of(name, source),
                text_of(name, source),
                seq![],
                seq![],
                ChildStyle::Detailed,
            ),
        ),
        None => None,
    }
}

/// The path of an import spec, unquoted and split at `/`; none when it is
/// empty.
pub open spec fn import_path(spec: SyntaxNode, source: Seq<u8>) -> Option<Seq<Seq<char>>> {
    match field_child(spec, "path"@) {
        Some(path) => {
            let value = unquoted(trim(text_of(path, source)));
            if value.len() > 0 {
                Some(split_text(value, '/'))
            } else {
                None
            }
        },
        None => None,
    }
}

/// The paths of the import specs, in order.
pub open spec fn import_paths_of(specs: Seq<SyntaxNode>, source: Seq<u8>) -> Seq<Seq<Seq<char>>>
    decreases specs.len(),
{
    if specs.len() == 0 {
        seq![]
    } else {
        let rest = import_paths_of(specs.drop_last(), source);
        match import_path(specs.last(), source) {
            Some(path) => rest.push(path),
            None => rest,
        }
    }
}

/// The entry of an import declaration: the paths of its specs, if any.
pub open spec fn import_view(node: SyntaxNode, source: Seq<u8>) -> Option<EntryV> {
    let paths = import_paths_of(specs_in(node, "import_spec"@, "import_spec_list"@), source);
    if paths.len() > 0 {
        Some(
            EntryV {
                section: Section::Import,
                symbol_name: None,
                line_start: node.start_line,
                line_end: node.end_line,
                text: seq![],
                import_paths: paths,
                import_keyword: None,
                attrs: seq![],
                children: seq![],
                child_style: ChildStyle::Detailed,
            },
        )
    } else {
        None
    }
}

/// How a constant or variable spec is shown: `var` for a variable, its
/// names and its type.
pub open spec fn value_text(spec: SyntaxNode, source: Seq<u8>, is_var: bool) -> Seq<char> {
    let names = field_texts_of(spec.children@, "name"@, source);
    let lead = if is_var {
        "var "@
    } else {
        seq![]
    };
    let value_type = match field_child(spec, "type"@) {
        Some(t) => " "@ + text_of(t, source),
        None => seq![],
    };
    compact(lead + join(names, ", "@) + value_type)
}

/// The entry of a constant or variable spec, named by its first name; none
/// without a name.
pub open spec fn value_view(spec: SyntaxNode, source: Seq<u8>, is_var: bool) -> Option<EntryV> {
    let names = field_texts_of(spec.children@, "name"@, source);
    if names.len() > 0 {
        Some(
            item_view(
                Section::Constant,
                spec,
                names[0],
                value_text(spec, source, is_var),
                seq![],
                seq![],
                ChildStyle::Detailed,
            ),
        )
    } else {
        None
    }
}

/// The entries of constant or variable specs, in order.
pub open spec fn value_views(specs: Seq<SyntaxNode>, source: Seq<u8>, is_var: bool) -> Seq<EntryV>
    decreases specs.len(),
{
    if specs.len() == 0 {
        seq![]
    } else {
        let rest = value_views(specs.drop_last(), source, is_var);
        match value_view(specs.last(), source, is_var) {
            Some(e) => rest.push(e),
            None => rest,
        }
    }
}

/// The entries of a `const` or `var` declaration.
pub open spec fn values_view(node: SyntaxNode, source: Seq<u8>, is_var: bool) -> Seq<EntryV> {
    if is_var {
        value_views(specs_in(node, "var_spec"@, "var_spec_list"@), source, true)
    } else {
        value_views(specs_in(node, "const_spec"@, "const_spec_list"@), source, false)
    }
}

/// `s`, sorted by start byte, with `x` placed after the nodes that do not
/// start after it.
pub open spec fn placed_by_start(s: Seq<SyntaxNode>, x: SyntaxNode) -> Seq<SyntaxNode>
    decreases s.len(),
{
    if s.len() == 0 || s.last().start_byte <= x.start_byte {
        s.push(x)
    } else {
        placed_by_start(s.drop_last(), x).push(s.last())
    }
}

/// `s` stably sorted by start byte.
pub open spec fn by_start(s: Seq<SyntaxNode>) -> Seq<SyntaxNode>
    decreases s.len(),
{
    if s.len() == 0 {
        seq![]
    } else {
        placed_by_start(by_start(s.drop_last()), s.last())
    }
}

/// The entry of `type Name = Type`.
pub open spec fn alias_view(node: SyntaxNode, source: Seq<u8>) -> Option<EntryV> {
    match (field_child(node, "name"@), field_child(node, "type"@)) {
        (Some(name), Some(value)) => Some(
            item_view(
                Section::Type,
                node,
                text_of(name, source),
                compact("type "@ + text_of(name, source) + " = "@ + text_of(value, source)),
                seq![],
                seq![],
                ChildStyle::Detailed,
            ),
        ),
        _ => None,
    }
}

/// How a struct field is shown: its names and type, or its embedded type
/// (with `*` for a pointer).
pub open spec fn struct_field_text(field: SyntaxNode, source: Seq<u8>) -> Seq<char> {
    let names = field_texts_of(field.children@, "name"@, source);
    let field_type = match field_child(field, "type"@) {
        Some(t) => text_of(t, source),
        None => "_"@,
    };
    compact(
        if names.len() == 0 {
            if kind_child(field, "*"@) is Some {
                "*"@ + field_type
            } else {
                field_type
            }
        } else {
            join(names, ", "@) + " "@ + field_type
        },
    )
}

/// The members shown for the fields of a struct body from position `j` on,
/// after `seen` fields: the first fields, ranged.
pub open spec fn struct_fields(body: SyntaxNode, j: int, seen: nat, source: Seq<u8>) -> Seq<ChildV>
    decreases body.children@.len() - j,
{
    if j < 0 || j >= body.children@.len() {
        seq![]
    } else if body.children@[j].named && body.children@[j].kind@ == "field_declaration"@ {
        let rest = struct_fields(body, j + 1, seen + 1, source);
        if seen < FIELD_TRUNCATE_THRESHOLD {
            seq![ranged_view(struct_field_text(body.children@[j], source), body.children@[j])] + rest
        } else {
            rest
        }
    } else {
        struct_fields(body, j + 1, seen, source)
    }
}

/// The number of fields of a struct body from position `j` on.
pub open spec fn struct_field_total(body: SyntaxNode, j: int) -> nat
    decreases body.children@.len() - j,
{
    if j < 0 || j >= body.children@.len() {
        0
    } else if body.children@[j].named && body.children@[j].kind@ == "field_declaration"@ {
        struct_field_total(body, j + 1) + 1
    } else {
        struct_field_total(body, j + 1)
    }
}

/// The members of a struct type: its first fields and a count of all.
pub open spec fn struct_members(struct_type: SyntaxNode, source: Seq<u8>) -> Seq<ChildV> {
    match kind_child(struct_type, "field_declaration_list"@) {
        Some(body) => with_count(struct_fields(body, 0, 0, source), struct_field_total(body, 0)),
        None => seq![],
    }
}

/// How a member of an interface is shown: a method by its signature, a type
/// element by its (truncated) text.
pub open spec fn member_text(member: SyntaxNode, source: Seq<u8>) -> Option<Seq<char>> {
    if member.kind@ == "method_elem"@ {
        signature_text(member, source)
    } else if member.kind@ == "type_elem"@ {
        Some(truncated(compact(text_of(member, source)), TYPE_LIMIT as nat))
    } else {
        None
    }
}

/// The members of an interface type from position `j` on: each method and
/// type element, ranged, and named by its name when it has one.
pub open spec fn interface_members(interface_type: SyntaxNode, j: int, source: Seq<u8>) -> Seq<
    ChildV,
>
    decreases interface_type.children@.len() - j,
{
    if j < 0 || j >= interface_type.children@.len() {
        seq![]
    } else {
        let m = interface_type.children@[j];
        let rest = interface_members(interface_type, j + 1, source);
        if m.named {
            match member_text(m, source) {
                Some(text) => seq![
                    ChildV {
                        text,
                        range: Some((m.start_line, m.end_line)),
                        symbol_name: match field_child(m, "name"@) {
                            Some(name) => Some(text_of(name, source)),
                            None => None,
                        },
                    },
                ] + rest,
                None => rest,
            }
        } else {
            rest
        }
    }
}

/// A type's name as shown: with its type parameters.
pub open spec fn shown_name(node: SyntaxNode, name: SyntaxNode, source: Seq<u8>) -> Seq<char> {
    text_of(name, source) + match field_child(node, "type_parameters"@) {
        Some(p) => text_of(p, source),
        None => seq![],
    }
}

/// How a type spec is shown: `struct` or `interface` and the name, or the
/// name and the (truncated) definition.
pub open spec fn type_spec_text(node: SyntaxNode, name: SyntaxNode, value: SyntaxNode, source: Seq<
    u8,
>) -> Seq<char> {
    let shown = shown_name(node, name, source);
    if value.kind@ == "struct_type"@ {
        "struct "@ + shown
    } else if value.kind@ == "interface_type"@ {
        "interface "@ + shown
    } else {
        shown + " "@ + truncated(compact(text_of(value, source)), TYPE_LIMIT as nat)
    }
}

/// The members of a type spec's definition: a struct's fields or an
/// interface's members.
pub open spec fn type_spec_members(value: SyntaxNode, source: Seq<u8>) -> Seq<ChildV> {
    if value.kind@ == "struct_type"@ {
        struct_members(value, source)
    } else if value.kind@ == "interface_type"@ {
        interface_members(value, 0, source)
    } else {
        seq![]
    }
}

/// The entry of a type spec.
pub open spec fn type_spec_view(node: SyntaxNode, source: Seq<u8>) -> Option<EntryV> {
    match (field_child(node, "name"@), field_child(node, "type"@)) {
        (Some(name), Some(value)) => Some(
            item_view(
                Section::Type,
                node,
                text_of(name, source),
                type_spec_text(node, name, value, source),
                seq![],
                type_spec_members(value, source),
                ChildStyle::Detailed,
            ),
        ),
        _ => None,
    }
}

/// A generic type is shown with its type parameters right after its name:
/// `struct Name[T any]`, `interface Name[T any]`, or the name and parameters
/// followed by the definition.
pub proof fn lemma_type_parameters_follow_name(node: SyntaxNode, source: Seq<u8>)
    requires
        field_child(node, "name"@) is Some,
        field_child(node, "type"@) is Some,
        field_child(node, "type_parameters"@) is Some,
    ensures
        type_spec_view(node, source) matches Some(e) && {
            let name = text_of(field_child(node, "name"@)->0, source);
            let params = text_of(field_child(node, "type_parameters"@)->0, source);
            let value = field_child(node, "type"@)->0;
            &&& e.symbol_name == Some(name)
            &&& value.kind@ == "struct_type"@ ==> e.text == "struct "@ + name + params
            &&& value.kind@ == "interface_type"@ ==> e.text == "interface "@ + name + params
            &&& exists|at: int| #[trigger] appears_at(e.text, name + params, at)
        },
{
    let name = text_of(field_child(node, "name"@)->0, source);
    let params = text_of(field_child(node, "type_parameters"@)->0, source);
    let value = field_child(node, "type"@)->0;
    let e = type_spec_view(node, source)->0;
    let shown = name + params;
    reveal_strlit("struct_type");
    reveal_strlit("interface_type");
    assert("struct_type"@[0] != "interface_type"@[0]);
    if value.kind@ == "struct_type"@ {
        assert(e.text == "struct "@ + shown);
        assert(e.text.subrange(e.text.len() - shown.len(), e.text.len() as int) =~= shown);
        assert(appears_at(e.text, shown, e.text.len() - shown.len()));
    } else if value.kind@ == "interface_type"@ {
        assert(e.text == "interface "@ + shown);
        assert(e.text.subrange(e.text.len() - shown.len(), e.text.len() as int) =~= shown);
        assert(appears_at(e.text, shown, e.text.len() - shown.len()));
    } else {
        assert(e.text.subrange(0, shown.len() as int) =~= shown);
        assert(appears_at(e.text, shown, 0));
    }
}

/// `part` stands in `text` from position `at` on.
pub open spec fn appears_at(text: Seq<char>, part: Seq<char>, at: int) -> bool {
    0 <= at && at + part.len() <= text.len() && text.subrange(at, at + part.len()) == part
}

/// The entry of one type declaration: an alias or a type spec.
pub open spec fn type_view(declaration: SyntaxNode, source: Seq<u8>) -> Option<EntryV> {
    if declaration.kind@ == "type_alias"@ {
        alias_view(declaration, source)
    } else if declaration.kind@ == "type_spec"@ {
        type_spec_view(declaration, source)
    } else {
        None
    }
}

/// The entries of type declarations, in order.
pub open spec fn type_views(declarations: Seq<SyntaxNode>, source: Seq<u8>) -> Seq<EntryV>
    decreases declarations.len(),
{
    if declarations.len() == 0 {
        seq![]
    } else {
        let rest = type_views(declarations.drop_last(), source);
        match type_view(declarations.last(), source) {
            Some(e) => rest.push(e),
            None => rest,
        }
    }
}

/// The entries of a `type` declaration: its specs and aliases in source
/// order.
pub open spec fn types_view(node: SyntaxNode, source: Seq<u8>) -> Seq<EntryV> {
    type_views(
        by_start(
            specs_in(node, "type_spec"@, "type_spec_list"@) + specs_in(
                node,
                "type_alias"@,
                "type_spec_list"@,
            ),
        ),
        source,
    )
}

/// The entry of a function: its signature.
pub open spec fn function_view(node: SyntaxNode, source: Seq<u8>) -> Option<EntryV> {
    match (field_child(node, "name"@), signature_text(node, source)) {
        (Some(name), Some(signature)) => Some(
            item_view(
                Section::Function,
                node,
                text_of(name, source),
                signature,
                seq![],
                seq![],
                ChildStyle::Detailed,
            ),
        ),
        _ => None,
    }
}

/// The entry of a method: its receiver and its signature.
pub open spec fn method_view(node: SyntaxNode, source: Seq<u8>) -> Option<EntryV> {
    match (field_child(node, "name"@), signature_text(node, source)) {
        (Some(name), Some(signature)) => Some(
            item_view(
                Section::Impl,
                node,
                text_of(name, source),
                compact(
                    match field_child(node, "receiver"@) {
                        Some(receiver) => text_of(receiver, source) + " "@ + signature,
                        None => signature,
                    },
                ),
                seq![],
                seq![],
                ChildStyle::Detailed,
            ),
        ),
        _ => None,
    }
}

/// The entries of one top-level Go declaration.
pub open spec fn go_entries(node: SyntaxNode, source: Seq<u8>) -> Seq<EntryV> {
    let kind = node.kind@;
    if kind == "package_clause"@ {
        one_view(package_view(node, source))
    } else if kind == "import_declaration"@ {
        one_view(import_view(node, source))
    } else if kind == "const_declaration"@ {
        values_view(node, source, false)
    } else if kind == "var_declaration"@ {
        values_view(node, source, true)
    } else if kind == "type_declaration"@ {
        types_view(node, source)
    } else if kind == "function_declaration"@ {
        one_view(function_view(node, source))
    } else if kind == "method_declaration"@ {
        one_view(method_view(node, source))
    } else {
        seq![]
    }
}

/// The entry of a function: named by its name, spanning its node, shown by
/// its signature.
pub open spec fn function_entry(e: Entry, node: SyntaxNode, source: Seq<u8>) -> bool {
    &&& signature_text(node, source) is Some
    &&& crate::entries::fresh_entry(e, Section::Function, node, signature_text(node, source)->0)
    &&& e.symbol_name matches Some(n) && n@ == crate::syntax::text_of(
        crate::syntax::field_child(node, "name"@)->0,
        source,
    )
}

/// The entries of one top-level Go declaration, as `go_entries` describes
/// them; a function declaration, for one, gives one entry, shown by its
/// signature, when it has a name.
pub fn extract(node: &SyntaxNode, source: &[u8]) -> (out: Vec<Entry>)
    ensures
        entry_views(out@) == go_entries(*node, source@),
        all_in(out@, go_section(node.kind@)),
        named_symbols(out@),
        node.kind@ == "function_declaration"@ ==> (out@.len() == 1 <==> signature_text(
            *node,
            source@,
        ) is Some) && (out@.len() == 1 ==> function_entry(out@[0], *node, source@)),
{
    proof {
        reveal_strlit("package_clause");
        reveal_strlit("import_declaration");
        reveal_strlit("const_declaration");
        reveal_strlit("var_declaration");
        reveal_strlit("type_declaration");
        reveal_strlit("function_declaration");
        assert("package_clause"@.len() == 14 && "import_declaration"@.len() == 18);
        assert("const_declaration"@.len() == 17 && "var_declaration"@.len() == 15);
        assert("type_declaration"@.len() == 16 && "function_declaration"@.len() == 20);
        assert("const_declaration"@[0] == 'c' && "function_declaration"@[0] == 'f');
    }
    let out = if is_kind(node, "package_clause") {
        one(extract_package(node, source))
    } else if is_kind(node, "import_declaration") {
        one(extract_import(node, source))
    } else if is_kind(node, "const_declaration") {
        extract_values(node, source, false)
    } else if is_kind(node, "var_declaration") {
        extract_values(node, source, true)
    } else if is_kind(node, "type_declaration") {
        extract_types(node, source)
    } else if is_kind(node, "function_declaration") {
        one(extract_function(node, source))
    } else if is_kind(node, "method_declaration") {
        one(extract_method(node, source))
    } else {
        Vec::new()
    };
    proof {
        let views = entry_views(out@);
        assert(views == go_entries(*node, source@));
        if node.kind@ == "const_declaration"@ {
            lemma_value_sections(specs_in(*node, "const_spec"@, "const_spec_list"@), source@, false);
        } else if node.kind@ == "var_declaration"@ {
            lemma_value_sections(specs_in(*node, "var_spec"@, "var_spec_list"@), source@, true);
        } else if node.kind@ == "type_declaration"@ {
            lemma_type_sections(
                by_start(
                    specs_in(*node, "type_spec"@, "type_spec_list"@) + specs_in(
                        *node,
                        "type_alias"@,
                        "type_spec_list"@,
                    ),
                ),
                source@,
            );
        }
        assert forall|i: int| 0 <= i < out@.len() implies #[trigger] out@[i].section
            == views[i].section && (out@[i].symbol_name is Some <==> views[i].symbol_name is Some) by {
            assert(views[i] == out@[i]@);
        }
    }
    out
}

/// Every entry of constant or variable specs is a constant.
proof fn lemma_value_sections(specs: Seq<SyntaxNode>, source: Seq<u8>, is_var: bool)
    ensures
        forall|i: int|
            0 <= i < value_views(specs, source, is_var).len() ==> (#[trigger] value_views(
                specs,
                source,
                is_var,
            )[i]).section == Section::Constant,
    decreases specs.len(),
{
    if specs.len() > 0 {
        lemma_value_sections(specs.drop_last(), source, is_var);
    }
}

/// Every entry of type declarations is a type.
proof fn lemma_type_sections(declarations: Seq<SyntaxNode>, source: Seq<u8>)
    ensures
        forall|i: int|
            0 <= i < type_views(declarations, source).len() ==> (#[trigger] type_views(
                declarations,
                source,
            )[i]).section == Section::Type,
    decreases declarations.len(),
{
    if declarations.len() > 0 {
        lemma_type_sections(declarations.drop_last(), source);
    }
}

/// The package clause, named by its identifier.
fn extract_package(node: &SyntaxNode, source: &[u8]) -> (out: Option<Entry>)
    ensures
        opt_view(out) == package_view(*node, source@),
{
    let name = find_child(node, "package_identifier")?;
    Some(new_symbol_entry(Section::Module, node, node_text(name, source), node_text(name, source)))
}

/// An import declaration: the path of each spec, split at `/`.
fn extract_import(node: &SyntaxNode, source: &[u8]) -> (out: Option<Entry>)
    ensures
        opt_view(out) == import_view(*node, source@),
{
    let specs = collect_specs(node, "import_spec", "import_spec_list");
    let ghost all = derefs(specs@);
    let mut paths: Vec<Vec<String>> = Vec::new();
    let mut i: usize = 0;
    while i < specs.len()
        invariant
            i <= specs@.len(),
            all == derefs(specs@),
            crate::rust::path_views(paths@) == import_paths_of(all.take(i as int), source@),
        decreases specs@.len() - i,
    {
        assert(all.take(i + 1).drop_last() == all.take(i as int));
        assert(all.take(i + 1).last() == *specs@[i as int]);
        let ghost before = paths@;
        if let Some(path) = child_by_field(specs[i], "path") {
            let trimmed = trim_text(node_text(path, source).as_str());
            let value = strip_quotes(trimmed.as_str());
            if !value.as_str().is_empty() {
                paths.push(split_on(value.as_str(), '/'));
                assert(crate::rust::path_views(paths@) == crate::rust::path_views(before).push(
                    texts(paths@.last()@),
                ));
            }
        }
        i = i + 1;
    }
    assert(all.take(i as int) == all);
    if paths.len() > 0 {
        let e = new_import_entry(node, paths);
        assert(e@.import_paths =~= crate::rust::path_views(e.import_paths@));
        assert(e@.attrs =~= seq![]);
        assert(e@.children =~= seq![]);
        assert(e@.text =~= seq![]);
        Some(e)
    } else {
        None
    }
}

/// Whether `c` opens a quoted Go literal.
pub open spec fn is_quote(c: char) -> bool {
    c == '\'' || c == '"' || c == '`'
}

/// `value` without its enclosing quotes, when it starts and ends with the
/// same quote character.
pub open spec fn unquoted(value: Seq<char>) -> Seq<char> {
    if value.len() >= 2 && is_quote(value[0]) && value.last() == value[0] {
        value.subrange(1, value.len() - 1)
    } else {
        value
    }
}

/// See `unquoted`.
pub fn strip_quotes(value: &str) -> (out: String)
    ensures
        out@ == unquoted(value@),
{
    let chars = chars_of(value);
    let n = chars.len();
    if n >= 2 && (chars[0] == '\'' || chars[0] == '"' || chars[0] == '`') && chars[n - 1]
        == chars[0] {
        let mut inner: Vec<char> = Vec::new();
        let mut i: usize = 1;
        while i < n - 1
            invariant
                1 <= i <= n - 1,
                n == chars@.len(),
                inner@ == chars@.subrange(1, i as int),
            decreases n - 1 - i,
        {
            inner.push(chars[i]);
            i = i + 1;
        }
        string_of(inner.as_slice())
    } else {
        string_of(chars.as_slice())
    }
}

/// The constants or variables of a declaration, one entry per spec (see
/// `values_view`).
fn extract_values(node: &SyntaxNode, source: &[u8], is_var: bool) -> (out: Vec<Entry>)
    ensures
        entry_views(out@) == values_view(*node, source@, is_var),
{
    let specs = if is_var {
        collect_specs(node, "var_spec", "var_spec_list")
    } else {
        collect_specs(node, "const_spec", "const_spec_list")
    };
    let ghost all = derefs(specs@);
    let mut out: Vec<Entry> = Vec::new();
    let mut i: usize = 0;
    while i < specs.len()
        invariant
            i <= specs@.len(),
            all == derefs(specs@),
            entry_views(out@) == value_views(all.take(i as int), source@, is_var),
        decreases specs@.len() - i,
    {
        assert(all.take(i + 1).drop_last() == all.take(i as int));
        assert(all.take(i + 1).last() == *specs@[i as int]);
        let spec = specs[i];
        let names = field_texts(spec, "name", source);
        let ghost before = out@;
        if names.len() > 0 {
            let mut text = if is_var {
                String::from_str("var ")
            } else {
                String::new()
            };
            let ghost lead = text@;
            let joined = join_strings(&names, ", ");
            text.append(joined.as_str());
            let ghost with_names = text@;
            if let Some(value_type) = child_by_field(spec, "type") {
                text.append(" ");
                text.append(node_text(value_type, source).as_str());
                assert(text@ == with_names + (" "@ + text_of(*value_type, source@)));
            } else {
                assert(text@ == with_names + Seq::<char>::empty());
            }
            let name = crate::skeleton::clone_string(&names[0]);
            assert(texts(names@)[0] == names@[0]@);
            out.push(
                new_symbol_entry(Section::Constant, spec, name, compact_whitespace(text.as_str())),
            );
            assert(entry_views(out@) == entry_views(before).push(out@.last()@));
        }
        i = i + 1;
    }
    assert(all.take(i as int) == all);
    out
}

/// Placing `x` at `p`, after the nodes that do not start after it, is
/// `placed_by_start`.
proof fn lemma_placed_at(s: Seq<SyntaxNode>, x: SyntaxNode, p: int)
    requires
        0 <= p <= s.len(),
        forall|k: int| p <= k < s.len() ==> (#[trigger] s[k]).start_byte > x.start_byte,
        p == 0 || s[p - 1].start_byte <= x.start_byte,
    ensures
        placed_by_start(s, x) == s.take(p).push(x) + s.skip(p),
    decreases s.len(),
{
    if p == s.len() {
        assert(s.take(p) == s);
        assert(s.skip(p) == Seq::<SyntaxNode>::empty());
    } else {
        let init = s.drop_last();
        lemma_placed_at(init, x, p);
        assert(init.take(p) == s.take(p));
        assert(init.skip(p).push(s.last()) == s.skip(p));
        assert(init.take(p).push(x) + init.skip(p).push(s.last()) == (init.take(p).push(x)
            + init.skip(p)).push(s.last()));
    }
}

/// Inserts `node` after the nodes that do not start after it (see
/// `placed_by_start`).
fn insert_by_start<'a>(nodes: &mut Vec<&'a SyntaxNode>, node: &'a SyntaxNode)
    ensures
        derefs(final(nodes)@) == placed_by_start(derefs(old(nodes)@), *node),
{
    let ghost s = derefs(nodes@);
    let mut p: usize = nodes.len();
    while p > 0 && nodes[p - 1].start_byte > node.start_byte
        invariant
            p <= nodes@.len(),
            s == derefs(nodes@),
            nodes@ == old(nodes)@,
            forall|k: int| p <= k < s.len() ==> (#[trigger] s[k]).start_byte > node.start_byte,
        decreases p,
    {
        assert(s[p - 1] == *nodes@[p - 1]);
        p = p - 1;
    }
    proof {
        if p > 0 {
            assert(s[p - 1] == *nodes@[p - 1]);
        }
        lemma_placed_at(s, *node, p as int);
    }
    nodes.insert(p, node);
    assert(derefs(nodes@) == s.take(p as int).push(*node) + s.skip(p as int));
}

/// The type declarations, in source order (see `types_view`).
fn extract_types(node: &SyntaxNode, source: &[u8]) -> (out: Vec<Entry>)
    ensures
        entry_views(out@) == types_view(*node, source@),
{
    let specs = collect_specs(node, "type_spec", "type_spec_list");
    let aliases = collect_specs(node, "type_alias", "type_spec_list");
    let ghost all = derefs(specs@) + derefs(aliases@);
    let mut declarations: Vec<&SyntaxNode> = Vec::new();
    let mut i: usize = 0;
    while i < specs.len()
        invariant
            i <= specs@.len(),
            all == derefs(specs@) + derefs(aliases@),
            derefs(declarations@) == by_start(all.take(i as int)),
        decreases specs@.len() - i,
    {
        assert(all.take(i + 1).drop_last() == all.take(i as int));
        assert(all.take(i + 1).last() == *specs@[i as int]);
        insert_by_start(&mut declarations, specs[i]);
        i = i + 1;
    }
    let mut j: usize = 0;
    while j < aliases.len()
        invariant
            j <= aliases@.len(),
            specs@.len() <= all.len(),
            all == derefs(specs@) + derefs(aliases@),
            derefs(declarations@) == by_start(all.take(specs@.len() + j)),
        decreases aliases@.len() - j,
    {
        assert(all.take(specs@.len() + j + 1).drop_last() == all.take(specs@.len() + j));
        assert(all.take(specs@.len() + j + 1).last() == *aliases@[j as int]);
        insert_by_start(&mut declarations, aliases[j]);
        j = j + 1;
    }
    assert(all.take(specs@.len() + j) == all);
    let ghost ordered = derefs(declarations@);
    let mut out: Vec<Entry> = Vec::new();
    let mut k: usize = 0;
    while k < declarations.len()
        invariant
            k <= declarations@.len(),
            ordered == derefs(declarations@),
            entry_views(out@) == type_views(ordered.take(k as int), source@),
        decreases declarations@.len() - k,
    {
        assert(ordered.take(k + 1).drop_last() == ordered.take(k as int));
        assert(ordered.take(k + 1).last() == *declarations@[k as int]);
        let declaration = declarations[k];
        let entry = if is_kind(declaration, "type_alias") {
            extract_type_alias(declaration, source)
        } else if is_kind(declaration, "type_spec") {
            extract_type_spec(declaration, source)
        } else {
            None
        };
        let ghost before = out@;
        if let Some(e) = entry {
            out.push(e);
            assert(entry_views(out@) == entry_views(before).push(e@));
        }
        k = k + 1;
    }
    assert(ordered.take(k as int) == ordered);
    out
}

/// `type Name = Type`.
fn extract_type_alias(node: &SyntaxNode, source: &[u8]) -> (out: Option<Entry>)
    ensures
        opt_view(out) == alias_view(*node, source@),
{
    let name = child_by_field(node, "name")?;
    let value = child_by_field(node, "type")?;
    let mut text = String::from_str("type ");
    text.append(node_text(name, source).as_str());
    text.append(" = ");
    text.append(node_text(value, source).as_str());
    Some(new_symbol_entry(Section::Type, node, node_text(name, source), compact_whitespace(text.as_str())))
}

/// A type spec: a struct with its fields, an interface with its members, or
/// another type with its (truncated) definition.
fn extract_type_spec(node: &SyntaxNode, source: &[u8]) -> (out: Option<Entry>)
    ensures
        opt_view(out) == type_spec_view(*node, source@),
{
    let name_node = child_by_field(node, "name")?;
    let value = child_by_field(node, "type")?;
    let symbol_name = node_text(name_node, source);
    let mut name = node_text(name_node, source);
    if let Some(parameters) = child_by_field(node, "type_parameters") {
        name.append(node_text(parameters, source).as_str());
    } else {
        assert(name@ == text_of(*name_node, source@) + Seq::<char>::empty());
    }
    assert(name@ == shown_name(*node, *name_node, source@));
    let mut entry = if is_kind(value, "struct_type") {
        extract_struct(node, value, source, name.as_str())
    } else if is_kind(value, "interface_type") {
        extract_interface(node, value, source, name.as_str())
    } else {
        let compacted = compact_whitespace(node_text(value, source).as_str());
        let mut text = name;
        text.append(" ");
        text.append(truncate(compacted.as_str(), TYPE_LIMIT).as_str());
        new_entry(Section::Type, node, text)
    };
    entry.symbol_name = Some(symbol_name);
    Some(entry)
}

/// The text of one struct field (see `struct_field_text`).
fn field_text(field: &SyntaxNode, source: &[u8]) -> (out: String)
    ensures
        out@ == struct_field_text(*field, source@),
{
    let names = field_texts(field, "name", source);
    let field_type = text_or(child_by_field(field, "type"), "_", source);
    let text = if names.len() == 0 {
        if find_child(field, "*").is_some() {
            let mut t = String::from_str("*");
            t.append(field_type.as_str());
            t
        } else {
            field_type
        }
    } else {
        let mut t = join_strings(&names, ", ");
        t.append(" ");
        t.append(field_type.as_str());
        t
    };
    compact_whitespace(text.as_str())
}

/// `struct Name` with its first fields, ranged, and the count of the rest.
fn extract_struct(declaration: &SyntaxNode, struct_type: &SyntaxNode, source: &[u8], name: &str) -> (e: Entry)
    ensures
        e@ == crate::entries::fresh_view(Section::Type, *declaration, None, "struct "@ + name@).with_children(
            struct_members(*struct_type, source@),
        ),
{
    let mut text = String::from_str("struct ");
    text.append(name);
    let mut entry = new_entry(Section::Type, declaration, text);
    let ghost start = entry@;
    let body = match find_child(struct_type, "field_declaration_list") {
        Some(b) => b,
        None => {
            return entry;
        },
    };
    let mut total: usize = 0;
    let mut i: usize = 0;
    while i < body.children.len()
        invariant
            total <= i <= body.children@.len(),
            total + struct_field_total(*body, i as int) == struct_field_total(*body, 0),
            child_views(entry.children@) + struct_fields(*body, i as int, total as nat, source@)
                == struct_fields(*body, 0, 0, source@),
            entry@ == start.with_children(child_views(entry.children@)),
        decreases body.children@.len() - i,
    {
        let field = &body.children[i];
        let ghost before = child_views(entry.children@);
        let ghost rest = struct_fields(*body, i + 1, (total + 1) as nat, source@);
        if field.named && is_kind(field, "field_declaration") {
            total = total + 1;
            if total <= FIELD_TRUNCATE_THRESHOLD {
                let text = field_text(field, source);
                entry.children.push(ranged_child(text, field));
                assert(child_views(entry.children@) == before.push(ranged_view(text@, *field)));
                assert(before + (seq![ranged_view(text@, *field)] + rest) == before.push(
                    ranged_view(text@, *field),
                ) + rest);
            }
        }
        i = i + 1;
    }
    assert(child_views(entry.children@) + Seq::<ChildV>::empty() == child_views(entry.children@));
    truncate_child_count(&mut entry.children, total);
    entry
}

/// `interface Name` with its methods and type elements, ranged.
fn extract_interface(declaration: &SyntaxNode, interface_type: &SyntaxNode, source: &[u8], name: &str) -> (e: Entry)
    ensures
        e@ == crate::entries::fresh_view(Section::Type, *declaration, None, "interface "@ + name@).with_children(
            interface_members(*interface_type, 0, source@),
        ),
{
    let mut text = String::from_str("interface ");
    text.append(name);
    let mut entry = new_entry(Section::Type, declaration, text);
    let ghost start = entry@;
    let mut i: usize = 0;
    while i < interface_type.children.len()
        invariant
            i <= interface_type.children@.len(),
            child_views(entry.children@) + interface_members(*interface_type, i as int, source@)
                == interface_members(*interface_type, 0, source@),
            entry@ == start.with_children(child_views(entry.children@)),
        decreases interface_type.children@.len() - i,
    {
        let member = &interface_type.children[i];
        let ghost before = child_views(entry.children@);
        let ghost rest = interface_members(*interface_type, i + 1, source@);
        if member.named {
            let text = if is_kind(member, "method_elem") {
                signature(member, source)
            } else if is_kind(member, "type_elem") {
                let compacted = compact_whitespace(node_text(member, source).as_str());
                Some(truncate(compacted.as_str(), TYPE_LIMIT))
            } else {
                None
            };
            if let Some(t) = text {
                match child_by_field(member, "name") {
                    Some(name) => entry.children.push(
                        ranged_symbol_child(t, member, node_text(name, source)),
                    ),
                    None => entry.children.push(ranged_child(t, member)),
                }
                let ghost added = entry.children@.last()@;
                assert(child_views(entry.children@) == before.push(added));
                assert(before + (seq![added] + rest) == before.push(added) + rest);
            }
        }
        i = i + 1;
    }
    assert(child_views(entry.children@) + Seq::<ChildV>::empty() == child_views(entry.children@));
    entry
}

/// A function, named by its name and shown by its signature.
fn extract_function(node: &SyntaxNode, source: &[u8]) -> (out: Option<Entry>)
    ensures
        out is Some <==> signature_text(*node, source@) is Some,
        out matches Some(e) ==> function_entry(e, *node, source@),
        opt_view(out) == function_view(*node, source@),
{
    let name = child_by_field(node, "name")?;
    let text = signature(node, source)?;
    Some(new_symbol_entry(Section::Function, node, node_text(name, source), text))
}

/// A method: its receiver, then its signature.
fn extract_method(node: &SyntaxNode, source: &[u8]) -> (out: Option<Entry>)
    ensures
        opt_view(out) == method_view(*node, source@),
{
    let name = child_by_field(node, "name")?;
    let signature_text = signature(node, source)?;
    let text = match child_by_field(node, "receiver") {
        Some(receiver) => {
            let mut t = node_text(receiver, source);
            t.append(" ");
            t.append(signature_text.as_str());
            assert(t@ == text_of(*receiver, source@) + " "@ + signature_text@);
            t
        },
        None => signature_text,
    };
    Some(new_symbol_entry(Section::Impl, node, node_text(name, source), compact_whitespace(text.as_str())))
}

/// The signature of a function, method or method element: name, type
/// parameters, parameters (or `()`) and result, whitespace compacted.
pub open spec fn signature_text(node: SyntaxNode, source: Seq<u8>) -> Option<Seq<char>> {
    match crate::syntax::field_child(node, "name"@) {
        Some(name) => {
            let type_parameters = match crate::syntax::field_child(node, "type_parameters"@) {
                Some(p) => crate::syntax::text_of(p, source),
                None => seq![],
            };
            let parameters = match crate::syntax::field_child(node, "parameters"@) {
                Some(p) => crate::syntax::text_of(p, source),
                None => "()"@,
            };
            let result = match crate::syntax::field_child(node, "result"@) {
                Some(r) => " "@ + crate::syntax::text_of(r, source),
                None => seq![],
            };
            Some(
                crate::text::compact(
                    crate::syntax::text_of(name, source) + type_parameters + parameters + result,
                ),
            )
        },
        None => None,
    }
}

/// See `signature_text`.
fn signature(node: &SyntaxNode, source: &[u8]) -> (out: Option<String>)
    ensures
        match out {
            Some(s) => signature_text(*node, source@) == Some(s@),
            None => signature_text(*node, source@).is_none(),
        },
{
    let name = child_by_field(node, "name")?;
    let mut text = node_text(name, source);
    let type_parameters = match child_by_field(node, "type_parameters") {
        Some(p) => node_text(p, source),
        None => String::new(),
    };
    text.append(type_parameters.as_str());
    let parameters = text_or(child_by_field(node, "parameters"), "()", source);
    text.append(parameters.as_str());
    let result = match child_by_field(node, "result") {
        Some(r) => {
            let mut t = String::from_str(" ");
            t.append(node_text(r, source).as_str());
            t
        },
        None => String::new(),
    };
    text.append(result.as_str());
    Some(compact_whitespace(text.as_str()))
}

/// The specs of a declaration (see `specs_in`).
fn collect_specs<'a>(node: &'a SyntaxNode, spec_kind: &str, list_kind: &str) -> (out: Vec<&'a SyntaxNode>)
    ensures
        derefs(out@) == specs_in(*node, spec_kind@, list_kind@),
{
    let ghost target = specs_in(*node, spec_kind@, list_kind@);
    let mut out: Vec<&'a SyntaxNode> = Vec::new();
    let mut i: usize = 0;
    while i < node.children.len()
        invariant
            i <= node.children@.len(),
            target == specs_in(*node, spec_kind@, list_kind@),
            derefs(out@) + specs_from(node.children@, i as int, spec_kind@, list_kind@) == target,
        decreases node.children@.len() - i,
    {
        let c = &node.children[i];
        let ghost rest = specs_from(node.children@, i + 1, spec_kind@, list_kind@);
        let ghost before = derefs(out@);
        if c.named {
            if is_kind(c, spec_kind) {
                out.push(c);
                assert(derefs(out@) == before.push(*c));
                assert(before + (seq![*c] + rest) == before.push(*c) + rest);
            } else if is_kind(c, list_kind) {
                let mut j: usize = 0;
                while j < c.children.len()
                    invariant
                        j <= c.children@.len(),
                        derefs(out@) + items_of(c.children@, j as int, spec_kind@) + rest
                            == target,
                    decreases c.children@.len() - j,
                {
                    let item = &c.children[j];
                    let ghost so_far = derefs(out@);
                    let ghost after = items_of(c.children@, j + 1, spec_kind@);
                    if item.named && is_kind(item, spec_kind) {
                        out.push(item);
                        assert(derefs(out@) == so_far.push(*item));
                        assert(so_far + (seq![*item] + after) == so_far.push(*item) + after);
                    }
                    j = j + 1;
                }
                assert(derefs(out@) + Seq::<SyntaxNode>::empty() == derefs(out@));
            }
        }
        i = i + 1;
    }
    assert(derefs(out@) + Seq::<SyntaxNode>::empty() == derefs(out@));
    out
}

} // verus!
