//! The declarations of Java source files.
use crate::entries::{
    child, item_view, named_symbols, new_import_entry, new_symbol_entry, opt_view, ranged_child,
    ranged_symbol_child, ranged_view, split_on, split_text, trim_text, truncate_child_count,
    with_count,
};
use crate::rust::trimmed_nonempty;
use crate::skeleton::{
    child_views, entry_views, join, join_strings, texts, ChildStyle, ChildV, Entry, EntryChild,
    EntryV, Section, FIELD_TRUNCATE_THRESHOLD,
};
use crate::syntax::{
    child_by_field, field_child, find_child, is_kind, kind_child, node_text, text_of, SyntaxNode,
};
use crate::text::{compact, compact_whitespace, trim, truncate, truncated};
use crate::typescript::{statement_path, statement_path_of};
use vstd::prelude::*;

verus! {

/// Signatures longer than this many bytes are truncated.
pub const SIGNATURE_LIMIT: usize = 160;

/// The section of the entry a top-level Java declaration of kind `kind` gives.
pub open spec fn java_section(kind: Seq<char>) -> Option<Section> {
    if kind == "package_declaration"@ {
        Some(Section::Module)
    } else if kind == "import_declaration"@ {
        Some(Section::Import)
    } else if kind == "class_declaration"@ || kind == "record_declaration"@ {
        Some(Section::Class)
    } else if kind == "interface_declaration"@ {
        Some(Section::Trait)
    } else if kind == "enum_declaration"@ || kind == "annotation_type_declaration"@ {
        Some(Section::Type)
    } else {
        None
    }
}

/// The modifiers followed by a space, or nothing.
pub open spec fn declaration_prefix_of(node: SyntaxNode, source: Seq<u8>) -> Seq<char> {
    if modifiers_of(node, source).len() == 0 {
        seq![]
    } else {
        modifiers_of(node, source) + " "@
    }
}

/// The modifiers as the first part of a signature, or no part.
pub open spec fn prefix_parts(node: SyntaxNode, source: Seq<u8>) -> Seq<Seq<char>> {
    if modifiers_of(node, source).len() == 0 {
        seq![]
    } else {
        seq![modifiers_of(node, source)]
    }
}

/// The text of the child held under `field` as a part of its own, or no
/// part.
pub open spec fn field_parts(node: SyntaxNode, field: Seq<char>, source: Seq<u8>) -> Seq<Seq<char>> {
    match field_child(node, field) {
        Some(value) => seq![text_of(value, source)],
        None => seq![],
    }
}

/// The text of the first `throws` clause as a part of its own, or no part.
pub open spec fn throws_parts(node: SyntaxNode, source: Seq<u8>) -> Seq<Seq<char>> {
    match kind_child(node, "throws"@) {
        Some(t) => seq![text_of(t, source)],
        None => seq![],
    }
}

/// Signature parts joined by spaces, compacted and truncated.
pub open spec fn joined_signature(parts: Seq<Seq<char>>) -> Seq<char> {
    truncated(compact(join(parts, " "@)), SIGNATURE_LIMIT as nat)
}

/// A method's signature: modifiers, type parameters, return type, name with
/// parameters and dimensions, and `throws`; none without a return type, name
/// or parameters.
pub open spec fn method_signature_text(node: SyntaxNode, source: Seq<u8>) -> Option<Seq<char>> {
    match (field_child(node, "type"@), field_child(node, "name"@), field_child(node, "parameters"@)) {
        (Some(return_type), Some(name), Some(parameters)) => Some(
            joined_signature(
                prefix_parts(node, source) + field_parts(node, "type_parameters"@, source) + seq![
                    text_of(return_type, source),
                ] + seq![
                    text_of(name, source) + text_of(parameters, source) + field_part(
                        node,
                        "dimensions"@,
                        source,
                        false,
                    ),
                ] + throws_parts(node, source),
            ),
        ),
        _ => None,
    }
}

/// A constructor's signature: modifiers, type parameters, name with
/// parameters, and `throws`; none without a name or parameters.
pub open spec fn constructor_signature_text(node: SyntaxNode, source: Seq<u8>) -> Option<Seq<char>> {
    match (field_child(node, "name"@), field_child(node, "parameters"@)) {
        (Some(name), Some(parameters)) => Some(
            joined_signature(
                prefix_parts(node, source) + field_parts(node, "type_parameters"@, source) + seq![
                    text_of(name, source) + text_of(parameters, source),
                ] + throws_parts(node, source),
            ),
        ),
        _ => None,
    }
}

/// A field's signature: modifiers, type, and the first declarator's name
/// with dimensions; none without them.
pub open spec fn field_signature_text(node: SyntaxNode, source: Seq<u8>) -> Option<Seq<char>> {
    match (field_child(node, "type"@), field_child(node, "declarator"@)) {
        (Some(field_type), Some(declarator)) => match field_child(declarator, "name"@) {
            Some(name) => Some(
                joined_signature(
                    prefix_parts(node, source) + seq![text_of(field_type, source)] + seq![
                        text_of(name, source) + field_part(declarator, "dimensions"@, source, false),
                    ],
                ),
            ),
            None => None,
        },
        _ => None,
    }
}

/// Whether a member of a class (or of an interface) is one of its fields.
pub open spec fn counts_as_field(m: SyntaxNode, interface: bool) -> bool {
    m.named && ((m.kind@ == "field_declaration"@ && !interface) || (m.kind@
        == "constant_declaration"@ && interface))
}

/// A member shown by its signature with the range of `m`, named `name`.
pub open spec fn named_member(signature: Seq<char>, m: SyntaxNode, name: Seq<char>) -> ChildV {
    ChildV { text: signature, range: Some((m.start_line, m.end_line)), symbol_name: Some(name) }
}

/// What one member of a body adds after `count` fields: a method, or a
/// constructor of a class, by its named signature; a field while there are
/// no more than the threshold.
pub open spec fn member_entry(m: SyntaxNode, count: nat, interface: bool, source: Seq<u8>) -> Seq<
    ChildV,
> {
    if !m.named {
        seq![]
    } else if m.kind@ == "method_declaration"@ {
        match (field_child(m, "name"@), method_signature_text(m, source)) {
            (Some(name), Some(signature)) => seq![named_member(signature, m, text_of(name, source))],
            _ => seq![],
        }
    } else if m.kind@ == "constructor_declaration"@ && !interface {
        match (field_child(m, "name"@), constructor_signature_text(m, source)) {
            (Some(name), Some(signature)) => seq![named_member(signature, m, text_of(name, source))],
            _ => seq![],
        }
    } else if counts_as_field(m, interface) && count + 1 <= FIELD_TRUNCATE_THRESHOLD {
        match field_signature_text(m, source) {
            Some(signature) => seq![ranged_view(signature, m)],
            None => seq![],
        }
    } else {
        seq![]
    }
}

/// The members of a body from position `i` on, after `count` fields.
pub open spec fn body_members(body: SyntaxNode, i: int, count: nat, interface: bool, source: Seq<u8>) -> Seq<
    ChildV,
>
    decreases body.children@.len() - i,
{
    if i < 0 || i >= body.children@.len() {
        seq![]
    } else {
        let m = body.children@[i];
        member_entry(m, count, interface, source) + body_members(
            body,
            i + 1,
            if counts_as_field(m, interface) {
                count + 1
            } else {
                count
            },
            interface,
            source,
        )
    }
}

/// The number of fields of a body from position `i` on.
pub open spec fn field_count_of(body: SyntaxNode, i: int, interface: bool) -> nat
    decreases body.children@.len() - i,
{
    if i < 0 || i >= body.children@.len() {
        0
    } else if counts_as_field(body.children@[i], interface) {
        field_count_of(body, i + 1, interface) + 1
    } else {
        field_count_of(body, i + 1, interface)
    }
}

/// The members of a class or interface body, then a count of the fields
/// left out.
pub open spec fn members_of(body: SyntaxNode, interface: bool, source: Seq<u8>) -> Seq<ChildV> {
    with_count(body_members(body, 0, 0, interface, source), field_count_of(body, 0, interface))
}

/// The members of a declaration's body, if it has one.
pub open spec fn body_members_of(node: SyntaxNode, interface: bool, source: Seq<u8>) -> Seq<ChildV> {
    match field_child(node, "body"@) {
        Some(body) => members_of(body, interface, source),
        None => seq![],
    }
}

/// The entry of a package declaration, named by the package.
pub open spec fn package_view(node: SyntaxNode, source: Seq<u8>) -> Option<EntryV> {
    let package = statement_path(text_of(node, source), "package"@);
    if package.len() > 0 {
        Some(item_view(Section::Module, node, package, package, seq![], seq![], ChildStyle::Detailed))
    } else {
        None
    }
}

/// The entry of an import declaration: the path of its dotted name.
pub open spec fn import_view(node: SyntaxNode, source: Seq<u8>) -> Option<EntryV> {
    let import = statement_path(text_of(node, source), "import"@);
    let path = trimmed_nonempty(split_text(import, '.'));
    if import.len() > 0 && path.len() > 0 {
        Some(
            EntryV {
                section: Section::Import,
                symbol_name: None,
                line_start: node.start_line,
                line_end: node.end_line,
                text: seq![],
                import_paths: seq![path],
                import_keyword: None,
                attrs: seq![],
                children: seq![],
                child_style: ChildStyle::Detailed,
            },
        )
    } else {
        None
    }
}

/// The entry of a class: its header and members.
pub open spec fn class_view(node: SyntaxNode, source: Seq<u8>) -> Option<EntryV> {
    match (field_child(node, "name"@), class_header(node, source)) {
        (Some(name), Some(header)) => Some(
            item_view(
                Section::Class,
                node,
                text_of(name, source),
                header,
                seq![],
                body_members_of(node, false, source),
                ChildStyle::Detailed,
            ),
        ),
        _ => None,
    }
}

/// The header of an interface: modifiers, `interface`, name, type
/// parameters and what it extends.
pub open spec fn interface_header(node: SyntaxNode, name: SyntaxNode, source: Seq<u8>) -> Seq<char> {
    truncated(
        compact(
            declaration_prefix_of(node, source) + "interface "@ + text_of(name, source) + field_part(
                node,
                "type_parameters"@,
                source,
                false,
            ) + match kind_child(node, "extends_interfaces"@) {
                Some(e) => " "@ + text_of(e, source),
                None => seq![],
            },
        ),
        SIGNATURE_LIMIT as nat,
    )
}

/// The entry of an interface: its header and members.
pub open spec fn interface_view(node: SyntaxNode, source: Seq<u8>) -> Option<EntryV> {
    match field_child(node, "name"@) {
        Some(name) => Some(
            item_view(
                Section::Trait,
                node,
                text_of(name, source),
                interface_header(node, name, source),
                seq![],
                body_members_of(node, true, source),
                ChildStyle::Detailed,
            ),
        ),
        None => None,
    }
}

/// The constants of an enum body from position `i` on, by name.
pub open spec fn enum_constants(body: SyntaxNode, i: int, source: Seq<u8>) -> Seq<ChildV>
    decreases body.children@.len() - i,
{
    if i < 0 || i >= body.children@.len() {
        seq![]
    } else {
        let v = body.children@[i];
        let rest = enum_constants(body, i + 1, source);
        if v.named && v.kind@ == "enum_constant"@ {
            match field_child(v, "name"@) {
                Some(c) => seq![ChildV { text: text_of(c, source), range: None, symbol_name: None }]
                    + rest,
                None => rest,
            }
        } else {
            rest
        }
    }
}

/// The entry of an enum: its header and, briefly, its constants.
pub open spec fn enum_view(node: SyntaxNode, source: Seq<u8>) -> Option<EntryV> {
    match field_child(node, "name"@) {
        Some(name) => Some(
            item_view(
                Section::Type,
                node,
                text_of(name, source),
                truncated(
                    compact(
                        declaration_prefix_of(node, source) + "enum "@ + text_of(name, source)
                            + field_part(node, "interfaces"@, source, true),
                    ),
                    SIGNATURE_LIMIT as nat,
                ),
                seq![],
                match field_child(node, "body"@) {
                    Some(body) => enum_constants(body, 0, source),
                    None => seq![],
                },
                if field_child(node, "body"@) is Some {
                    ChildStyle::Brief
                } else {
                    ChildStyle::Detailed
                },
            ),
        ),
        None => None,
    }
}

/// The entry of a record: its header with its components.
pub open spec fn record_view(node: SyntaxNode, source: Seq<u8>) -> Option<EntryV> {
    match (field_child(node, "name"@), field_child(node, "parameters"@)) {
        (Some(name), Some(parameters)) => Some(
            item_view(
                Section::Class,
                node,
                text_of(name, source),
                truncated(
                    compact(
                        declaration_prefix_of(node, source) + "record "@ + text_of(name, source)
                            + field_part(node, "type_parameters"@, source, false) + text_of(
                            parameters,
                            source,
                        ) + field_part(node, "interfaces"@, source, true),
                    ),
                    SIGNATURE_LIMIT as nat,
                ),
                seq![],
                seq![],
                ChildStyle::Detailed,
            ),
        ),
        _ => None,
    }
}

/// The entry of an annotation type.
pub open spec fn annotation_view(node: SyntaxNode, source: Seq<u8>) -> Option<EntryV> {
    match field_child(node, "name"@) {
        Some(name) => Some(
            item_view(
                Section::Type,
                node,
                text_of(name, source),
                truncated(
                    compact(declaration_prefix_of(node, source) + "@interface "@ + text_of(name, source)),
                    SIGNATURE_LIMIT as nat,
                ),
                seq![],
                seq![],
                ChildStyle::Detailed,
            ),
        ),
        None => None,
    }
}

/// The entry of a top-level Java declaration.
pub open spec fn java_entry(node: SyntaxNode, source: Seq<u8>) -> Option<EntryV> {
    let kind = node.kind@;
    if kind == "package_declaration"@ {
        package_view(node, source)
    } else if kind == "import_declaration"@ {
        import_view(node, source)
    } else if kind == "class_declaration"@ {
        class_view(node, source)
    } else if kind == "interface_declaration"@ {
        interface_view(node, source)
    } else if kind == "enum_declaration"@ {
        enum_view(node, source)
    } else if kind == "record_declaration"@ {
        record_view(node, source)
    } else if kind == "annotation_type_declaration"@ {
        annotation_view(node, source)
    } else {
        None
    }
}

/// The entries of one top-level Java declaration: the entry that
/// `java_entry` describes, if any. A class declaration, for one, gives one
/// entry, shown by its header, when it has a name.
pub fn extract(node: &SyntaxNode, source: &[u8]) -> (out: Vec<Entry>)
    ensures
        out@.len() <= 1,
        forall|i: int|
            0 <= i < out@.len() ==> Some((#[trigger] out@[i]).section) == java_section(node.kind@),
        named_symbols(out@),
        node.kind@ == "class_declaration"@ ==> (out@.len() == 1 <==> class_header(*node, source@)
            is Some) && (out@.len() == 1 ==> out@[0].text@ == class_header(*node, source@)->0
            && out@[0].line_start == node.start_line && out@[0].line_end == node.end_line),
        entry_views(out@) == match java_entry(*node, source@) {
            Some(e) => seq![e],
            None => seq![],
        },
{
    proof {
        reveal_strlit("package_declaration");
        assert("package_declaration"@.len() == 19);
        reveal_strlit("import_declaration");
        assert("import_declaration"@.len() == 18);
        reveal_strlit("class_declaration");
        assert("class_declaration"@.len() == 17);
        reveal_strlit("interface_declaration");
        assert("interface_declaration"@.len() == 21);
        reveal_strlit("enum_declaration");
        assert("enum_declaration"@.len() == 16);
        reveal_strlit("record_declaration");
        assert("record_declaration"@.len() == 18);
        reveal_strlit("annotation_type_declaration");
        assert("annotation_type_declaration"@.len() == 27);
    }
    let entry = if is_kind(node, "package_declaration") {
        extract_package(node, source)
    } else if is_kind(node, "import_declaration") {
        extract_import(node, source)
    } else if is_kind(node, "class_declaration") {
        extract_class(node, source)
    } else if is_kind(node, "interface_declaration") {
        extract_interface(node, source)
    } else if is_kind(node, "enum_declaration") {
        extract_enum(node, source)
    } else if is_kind(node, "record_declaration") {
        extract_record(node, source)
    } else if is_kind(node, "annotation_type_declaration") {
        extract_annotation_type(node, source)
    } else {
        None
    };
    assert(opt_view(entry) == java_entry(*node, source@));
    let mut out: Vec<Entry> = Vec::new();
    if let Some(e) = entry {
        out.push(e);
    }
    assert(entry_views(out@) =~= match opt_view(entry) {
        Some(e) => seq![e],
        None => seq![],
    });
    out
}

/// A package declaration, named by the package.
fn extract_package(node: &SyntaxNode, source: &[u8]) -> (out: Option<Entry>)
    ensures
        opt_view(out) == package_view(*node, source@),
{
    let package = statement_path_of(node, source, "package");
    if package.as_str().is_empty() {
        return None;
    }
    let name = crate::skeleton::clone_string(&package);
    Some(new_symbol_entry(Section::Module, node, name, package))
}

/// An import declaration, as the path of its dotted name.
fn extract_import(node: &SyntaxNode, source: &[u8]) -> (out: Option<Entry>)
    ensures
        opt_view(out) == import_view(*node, source@),
{
    let import = statement_path_of(node, source, "import");
    if import.as_str().is_empty() {
        return None;
    }
    let parts = split_on(import.as_str(), '.');
    let mut path: Vec<String> = Vec::new();
    let mut i: usize = 0;
    while i < parts.len()
        invariant
            i <= parts@.len(),
            texts(path@) == trimmed_nonempty(texts(parts@).take(i as int)),
        decreases parts@.len() - i,
    {
        assert(texts(parts@).take(i + 1).drop_last() =~= texts(parts@).take(i as int));
        let part = trim_text(parts[i].as_str());
        if !part.as_str().is_empty() {
            let ghost prev = path@;
            path.push(part);
            assert(texts(path@) =~= texts(prev).push(trim(parts@[i as int]@)));
        }
        i = i + 1;
    }
    assert(texts(parts@).take(i as int) =~= texts(parts@));
    if path.len() == 0 {
        return None;
    }
    let ghost p = path;
    let mut paths: Vec<Vec<String>> = Vec::new();
    paths.push(path);
    let e = new_import_entry(node, paths);
    assert(e.import_paths@[0] == p);
    assert(e@.import_paths =~= seq![texts(p@)]);
    assert(e@.attrs =~= seq![]);
    assert(e@.children =~= seq![]);
    assert(e@.text =~= seq![]);
    Some(e)
}

/// The text of the child of `node` held under `field` (after a space when
/// `spaced`), or nothing.
pub open spec fn field_part(node: SyntaxNode, field: Seq<char>, source: Seq<u8>, spaced: bool) -> Seq<char> {
    match crate::syntax::field_child(node, field) {
        Some(value) => if spaced {
            " "@ + crate::syntax::text_of(value, source)
        } else {
            crate::syntax::text_of(value, source)
        },
        None => seq![],
    }
}

/// The header of a class: its modifiers, `class`, name, type parameters,
/// superclass and interfaces, compacted and truncated; none without a name.
pub open spec fn class_header(node: SyntaxNode, source: Seq<u8>) -> Option<Seq<char>> {
    match crate::syntax::field_child(node, "name"@) {
        None => None,
        Some(name) => {
            let modifiers = modifiers_of(node, source);
            let prefix = if modifiers.len() == 0 {
                seq![]
            } else {
                modifiers + " "@
            };
            Some(
                crate::text::truncated(
                    crate::text::compact(
                        prefix + "class "@ + crate::syntax::text_of(name, source) + field_part(
                            node,
                            "type_parameters"@,
                            source,
                            false,
                        ) + field_part(node, "superclass"@, source, true) + field_part(
                            node,
                            "interfaces"@,
                            source,
                            true,
                        ),
                    ),
                    SIGNATURE_LIMIT as nat,
                ),
            )
        },
    }
}

/// A class: its header (see `class_header`), named by its name; its members.
fn extract_class(node: &SyntaxNode, source: &[u8]) -> (out: Option<Entry>)
    ensures
        out is Some <==> class_header(*node, source@) is Some,
        out matches Some(e) ==> e.section == Section::Class && e.symbol_name is Some
            && e.text@ == class_header(*node, source@)->0 && e.line_start == node.start_line
            && e.line_end == node.end_line,
        opt_view(out) == class_view(*node, source@),
{
    let name = child_by_field(node, "name")?;
    let mut label = declaration_prefix(node, source);
    label.append("class ");
    label.append(node_text(name, source).as_str());
    append_field(&mut label, node, "type_parameters", source, false);
    append_field(&mut label, node, "superclass", source, true);
    append_field(&mut label, node, "interfaces", source, true);
    let text = truncate(compact_whitespace(label.as_str()).as_str(), SIGNATURE_LIMIT);
    let mut entry = new_symbol_entry(Section::Class, node, node_text(name, source), text);
    if let Some(body) = child_by_field(node, "body") {
        entry.children = extract_members(body, source, false);
    }
    Some(entry)
}

/// An interface: its header and members.
fn extract_interface(node: &SyntaxNode, source: &[u8]) -> (out: Option<Entry>)
    ensures
        opt_view(out) == interface_view(*node, source@),
{
    let name = child_by_field(node, "name")?;
    let mut label = declaration_prefix(node, source);
    label.append("interface ");
    label.append(node_text(name, source).as_str());
    append_field(&mut label, node, "type_parameters", source, false);
    let ghost with_parameters = label@;
    if let Some(extends) = find_child(node, "extends_interfaces") {
        label.append(" ");
        label.append(node_text(extends, source).as_str());
        assert(label@ == with_parameters + (" "@ + text_of(*extends, source@)));
    } else {
        assert(label@ == with_parameters + Seq::<char>::empty());
    }
    let text = truncate(compact_whitespace(label.as_str()).as_str(), SIGNATURE_LIMIT);
    let mut entry = new_symbol_entry(Section::Trait, node, node_text(name, source), text);
    if let Some(body) = child_by_field(node, "body") {
        entry.children = extract_members(body, source, true);
    }
    Some(entry)
}

/// An enum: its header and, briefly, its constants.
fn extract_enum(node: &SyntaxNode, source: &[u8]) -> (out: Option<Entry>)
    ensures
        opt_view(out) == enum_view(*node, source@),
{
    let name = child_by_field(node, "name")?;
    let mut label = declaration_prefix(node, source);
    label.append("enum ");
    label.append(node_text(name, source).as_str());
    append_field(&mut label, node, "interfaces", source, true);
    let text = truncate(compact_whitespace(label.as_str()).as_str(), SIGNATURE_LIMIT);
    let mut entry = new_symbol_entry(Section::Type, node, node_text(name, source), text);
    let ghost start = entry@;
    if let Some(body) = child_by_field(node, "body") {
        let mut i: usize = 0;
        while i < body.children.len()
            invariant
                i <= body.children@.len(),
                child_views(entry.children@) + enum_constants(*body, i as int, source@)
                    == enum_constants(*body, 0, source@),
                entry@ == start.with_children(child_views(entry.children@)),
            decreases body.children@.len() - i,
        {
            let variant = &body.children[i];
            let ghost before = child_views(entry.children@);
            let ghost rest = enum_constants(*body, i + 1, source@);
            if variant.named && is_kind(variant, "enum_constant") {
                if let Some(constant) = child_by_field(variant, "name") {
                    entry.children.push(child(node_text(constant, source)));
                    let ghost c = entry.children@.last()@;
                    assert(child_views(entry.children@) == before.push(c));
                    assert(before + (seq![c] + rest) == before.push(c) + rest);
                }
            }
            i = i + 1;
        }
        assert(child_views(entry.children@) + Seq::<ChildV>::empty() == child_views(entry.children@));
        entry.child_style = ChildStyle::Brief;
    }
    Some(entry)
}

/// A record: its header with its components.
fn extract_record(node: &SyntaxNode, source: &[u8]) -> (out: Option<Entry>)
    ensures
        opt_view(out) == record_view(*node, source@),
{
    let name = child_by_field(node, "name")?;
    let parameters = child_by_field(node, "parameters")?;
    let mut label = declaration_prefix(node, source);
    label.append("record ");
    label.append(node_text(name, source).as_str());
    append_field(&mut label, node, "type_parameters", source, false);
    label.append(node_text(parameters, source).as_str());
    append_field(&mut label, node, "interfaces", source, true);
    let text = truncate(compact_whitespace(label.as_str()).as_str(), SIGNATURE_LIMIT);
    Some(new_symbol_entry(Section::Class, node, node_text(name, source), text))
}

/// An annotation type.
fn extract_annotation_type(node: &SyntaxNode, source: &[u8]) -> (out: Option<Entry>)
    ensures
        opt_view(out) == annotation_view(*node, source@),
{
    let name = child_by_field(node, "name")?;
    let mut label = declaration_prefix(node, source);
    label.append("@interface ");
    label.append(node_text(name, source).as_str());
    let text = truncate(compact_whitespace(label.as_str()).as_str(), SIGNATURE_LIMIT);
    Some(new_symbol_entry(Section::Type, node, node_text(name, source), text))
}

/// Adds what one member of a body shows (see `member_entry`).
fn add_member(members: &mut Vec<EntryChild>, member: &SyntaxNode, count: usize, interface: bool, source: &[u8])
    ensures
        child_views(final(members)@) == child_views(old(members)@) + member_entry(
            *member,
            count as nat,
            interface,
            source@,
        ),
{
    proof {
        reveal_strlit("method_declaration");
        reveal_strlit("constructor_declaration");
        reveal_strlit("field_declaration");
        reveal_strlit("constant_declaration");
        assert("method_declaration"@.len() == 18 && "constructor_declaration"@.len() == 23);
        assert("field_declaration"@.len() == 17 && "constant_declaration"@.len() == 20);
        assert("method_declaration"@[0] == 'm' && "field_declaration"@[0] == 'f');
    }
    let ghost before = child_views(members@);
    let mut added = false;
    if member.named {
        if is_kind(member, "method_declaration") {
            if let Some(name) = child_by_field(member, "name") {
                if let Some(signature) = method_signature(member, source) {
                    members.push(ranged_symbol_child(signature, member, node_text(name, source)));
                    added = true;
                }
            }
        } else if is_kind(member, "constructor_declaration") && !interface {
            if let Some(name) = child_by_field(member, "name") {
                if let Some(signature) = constructor_signature(member, source) {
                    members.push(ranged_symbol_child(signature, member, node_text(name, source)));
                    added = true;
                }
            }
        } else if ((is_kind(member, "field_declaration") && !interface) || (is_kind(
            member,
            "constant_declaration",
        ) && interface)) && count < FIELD_TRUNCATE_THRESHOLD {
            if let Some(signature) = field_signature(member, source) {
                members.push(ranged_child(signature, member));
                added = true;
            }
        }
    }
    if added {
        assert(child_views(members@) == before + seq![members@.last()@]);
    } else {
        assert(child_views(members@) == before + Seq::<ChildV>::empty());
    }
}

/// The members of a class or interface body: methods, constructors (of
/// classes), and the first fields (constants of interfaces), ranged, then a
/// count of the fields left out (see `members_of`).
fn extract_members(body: &SyntaxNode, source: &[u8], interface: bool) -> (members: Vec<EntryChild>)
    ensures
        child_views(members@) == members_of(*body, interface, source@),
{
    let mut members: Vec<EntryChild> = Vec::new();
    let mut field_count: usize = 0;
    let mut i: usize = 0;
    while i < body.children.len()
        invariant
            field_count <= i <= body.children@.len(),
            child_views(members@) + body_members(
                *body,
                i as int,
                field_count as nat,
                interface,
                source@,
            ) == body_members(*body, 0, 0, interface, source@),
            field_count + field_count_of(*body, i as int, interface) == field_count_of(
                *body,
                0,
                interface,
            ),
        decreases body.children@.len() - i,
    {
        let member = &body.children[i];
        let ghost before = child_views(members@);
        let ghost added = member_entry(*member, field_count as nat, interface, source@);
        add_member(&mut members, member, field_count, interface, source);
        let counts = member.named && ((is_kind(member, "field_declaration") && !interface) || (
        is_kind(member, "constant_declaration") && interface));
        let next = if counts {
            field_count + 1
        } else {
            field_count
        };
        assert(before + (added + body_members(*body, i + 1, next as nat, interface, source@))
            == before + added + body_members(*body, i + 1, next as nat, interface, source@));
        field_count = next;
        i = i + 1;
    }
    assert(child_views(members@) + Seq::<ChildV>::empty() == child_views(members@));
    truncate_child_count(&mut members, field_count);
    members
}

/// Pushes the text of the child held under `field`, if there is one.
fn push_field(parts: &mut Vec<String>, node: &SyntaxNode, field: &str, source: &[u8])
    ensures
        texts(final(parts)@) == texts(old(parts)@) + field_parts(*node, field@, source@),
{
    if let Some(value) = child_by_field(node, field) {
        let ghost before = texts(parts@);
        parts.push(node_text(value, source));
        assert(texts(parts@) == before + seq![text_of(*value, source@)]);
    } else {
        assert(texts(parts@) == texts(parts@) + Seq::<Seq<char>>::empty());
    }
}

/// Pushes the text of the first `throws` clause, if there is one.
fn push_throws(parts: &mut Vec<String>, node: &SyntaxNode, source: &[u8])
    ensures
        texts(final(parts)@) == texts(old(parts)@) + throws_parts(*node, source@),
{
    if let Some(throws) = find_child(node, "throws") {
        let ghost before = texts(parts@);
        parts.push(node_text(throws, source));
        assert(texts(parts@) == before + seq![text_of(*throws, source@)]);
    } else {
        assert(texts(parts@) == texts(parts@) + Seq::<Seq<char>>::empty());
    }
}

/// Pushes one part.
fn push_part(parts: &mut Vec<String>, part: String)
    ensures
        texts(final(parts)@) == texts(old(parts)@) + seq![part@],
{
    let ghost before = texts(parts@);
    let ghost p = part@;
    parts.push(part);
    assert(texts(parts@) == before + seq![p]);
}

/// See `method_signature_text`.
fn method_signature(node: &SyntaxNode, source: &[u8]) -> (out: Option<String>)
    ensures
        match out {
            Some(t) => method_signature_text(*node, source@) == Some(t@),
            None => method_signature_text(*node, source@) is None,
        },
{
    let return_type = child_by_field(node, "type")?;
    let name = child_by_field(node, "name")?;
    let parameters = child_by_field(node, "parameters")?;
    let mut parts = signature_prefix(node, source);
    push_field(&mut parts, node, "type_parameters", source);
    push_part(&mut parts, node_text(return_type, source));
    let mut declarator = node_text(name, source);
    declarator.append(node_text(parameters, source).as_str());
    append_field(&mut declarator, node, "dimensions", source, false);
    push_part(&mut parts, declarator);
    push_throws(&mut parts, node, source);
    let joined = join_strings(&parts, " ");
    Some(truncate(compact_whitespace(joined.as_str()).as_str(), SIGNATURE_LIMIT))
}

/// See `constructor_signature_text`.
fn constructor_signature(node: &SyntaxNode, source: &[u8]) -> (out: Option<String>)
    ensures
        match out {
            Some(t) => constructor_signature_text(*node, source@) == Some(t@),
            None => constructor_signature_text(*node, source@) is None,
        },
{
    let name = child_by_field(node, "name")?;
    let parameters = child_by_field(node, "parameters")?;
    let mut parts = signature_prefix(node, source);
    push_field(&mut parts, node, "type_parameters", source);
    let mut declarator = node_text(name, source);
    declarator.append(node_text(parameters, source).as_str());
    push_part(&mut parts, declarator);
    push_throws(&mut parts, node, source);
    let joined = join_strings(&parts, " ");
    Some(truncate(compact_whitespace(joined.as_str()).as_str(), SIGNATURE_LIMIT))
}

/// See `field_signature_text`.
fn field_signature(node: &SyntaxNode, source: &[u8]) -> (out: Option<String>)
    ensures
        match out {
            Some(t) => field_signature_text(*node, source@) == Some(t@),
            None => field_signature_text(*node, source@) is None,
        },
{
    let field_type = child_by_field(node, "type")?;
    let declarator = child_by_field(node, "declarator")?;
    let name = child_by_field(declarator, "name")?;
    let mut parts = signature_prefix(node, source);
    push_part(&mut parts, node_text(field_type, source));
    let mut declarator_text = node_text(name, source);
    append_field(&mut declarator_text, declarator, "dimensions", source, false);
    push_part(&mut parts, declarator_text);
    let joined = join_strings(&parts, " ");
    Some(truncate(compact_whitespace(joined.as_str()).as_str(), SIGNATURE_LIMIT))
}

/// The modifiers followed by a space, or nothing.
fn declaration_prefix(node: &SyntaxNode, source: &[u8]) -> (out: String)
    ensures
        out@ == declaration_prefix_of(*node, source@),
{
    let modifiers = modifiers_text(node, source);
    if modifiers.as_str().is_empty() {
        String::new()
    } else {
        let mut out = modifiers;
        out.append(" ");
        out
    }
}

/// The modifiers as the first part of a signature, or no part.
fn signature_prefix(node: &SyntaxNode, source: &[u8]) -> (out: Vec<String>)
    ensures
        texts(out@) == prefix_parts(*node, source@),
{
    let modifiers = modifiers_text(node, source);
    let mut out: Vec<String> = Vec::new();
    if !modifiers.as_str().is_empty() {
        let ghost m = modifiers@;
        out.push(modifiers);
        assert(texts(out@) =~= seq![m]);
    }
    out
}

/// Whether a modifier is shown: an annotation, or a keyword of access,
/// storage or inheritance.
pub open spec fn shown_modifier(kind: Seq<char>, text: Seq<char>) -> bool {
    ||| kind == "marker_annotation"@
    ||| kind == "annotation"@
    ||| text == "public"@
    ||| text == "private"@
    ||| text == "protected"@
    ||| text == "static"@
    ||| text == "final"@
    ||| text == "abstract"@
    ||| text == "default"@
    ||| text == "synchronized"@
}

/// The texts of the shown modifiers among `nodes`.
pub open spec fn shown_modifiers(nodes: Seq<SyntaxNode>, source: Seq<u8>) -> Seq<Seq<char>>
    decreases nodes.len(),
{
    if nodes.len() == 0 {
        seq![]
    } else {
        let rest = shown_modifiers(nodes.drop_last(), source);
        let m = nodes.last();
        let text = crate::syntax::text_of(m, source);
        if shown_modifier(m.kind@, text) {
            rest.push(text)
        } else {
            rest
        }
    }
}

/// Whether a modifier keyword is one a declaration is shown with.
pub open spec fn kept_keyword(text: Seq<char>) -> bool {
    text == "public"@ || text == "private"@ || text == "protected"@ || text == "static"@
        || text == "final"@ || text == "abstract"@ || text == "default"@ || text
        == "synchronized"@
}

/// The modifiers shown are, in order, the texts of every annotation and of
/// every modifier that is `public`, `private`, `protected`, `static`,
/// `final`, `abstract`, `default` or `synchronized`; no other modifier is
/// shown.
pub proof fn lemma_shown_modifiers_kept(nodes: Seq<SyntaxNode>, source: Seq<u8>)
    ensures
        shown_modifiers(nodes, source) == nodes.filter(
            |m: SyntaxNode|
                m.kind@ == "marker_annotation"@ || m.kind@ == "annotation"@ || kept_keyword(
                    crate::syntax::text_of(m, source),
                ),
        ).map_values(|m: SyntaxNode| crate::syntax::text_of(m, source)),
    decreases nodes.len(),
{
    let p = |m: SyntaxNode|
        m.kind@ == "marker_annotation"@ || m.kind@ == "annotation"@ || kept_keyword(
            crate::syntax::text_of(m, source),
        );
    let f = |m: SyntaxNode| crate::syntax::text_of(m, source);
    reveal(Seq::filter);
    if nodes.len() == 0 {
        assert(nodes.filter(p).map_values(f) =~= Seq::<Seq<char>>::empty());
    } else {
        lemma_shown_modifiers_kept(nodes.drop_last(), source);
        let sub = nodes.drop_last().filter(p);
        if p(nodes.last()) {
            assert(sub.push(nodes.last()).map_values(f) =~= sub.map_values(f).push(f(nodes.last())));
        }
    }
}

/// The shown modifiers of a declaration, separated by spaces.
pub open spec fn modifiers_of(node: SyntaxNode, source: Seq<u8>) -> Seq<char> {
    match crate::syntax::kind_child(node, "modifiers"@) {
        Some(m) => crate::skeleton::join(shown_modifiers(m.children@, source), " "@),
        None => seq![],
    }
}

fn modifiers_text(node: &SyntaxNode, source: &[u8]) -> (out: String)
    ensures
        out@ == modifiers_of(*node, source@),
{
    let modifiers = match find_child(node, "modifiers") {
        Some(m) => m,
        None => {
            return String::new();
        },
    };
    let mut parts: Vec<String> = Vec::new();
    let mut i: usize = 0;
    while i < modifiers.children.len()
        invariant
            i <= modifiers.children@.len(),
            texts(parts@) == shown_modifiers(modifiers.children@.take(i as int), source@),
        decreases modifiers.children@.len() - i,
    {
        assert(modifiers.children@.take(i + 1).drop_last() =~= modifiers.children@.take(i as int));
        let modifier = &modifiers.children[i];
        let text = node_text(modifier, source);
        let t = text.as_str();
        let shown = is_kind(modifier, "marker_annotation") || is_kind(modifier, "annotation")
            || crate::text::same_text(t, "public") || crate::text::same_text(t, "private")
            || crate::text::same_text(t, "protected") || crate::text::same_text(t, "static")
            || crate::text::same_text(t, "final") || crate::text::same_text(t, "abstract")
            || crate::text::same_text(t, "default") || crate::text::same_text(t, "synchronized");
        if shown {
            let ghost prev = parts@;
            let ghost tv = text@;
            parts.push(text);
            assert(texts(parts@) =~= texts(prev).push(tv));
        }
        i = i + 1;
    }
    assert(modifiers.children@.take(i as int) =~= modifiers.children@);
    join_strings(&parts, " ")
}

/// Appends the text of the child held under `field` (after a space when
/// `spaced`), if there is one.
fn append_field(text: &mut String, node: &SyntaxNode, field: &str, source: &[u8], spaced: bool)
    ensures
        final(text)@ == old(text)@ + field_part(*node, field@, source@, spaced),
{
    if let Some(value) = child_by_field(node, field) {
        if spaced {
            text.append(" ");
        }
        text.append(node_text(value, source).as_str());
    } else {
        assert(text@ =~= old(text)@ + Seq::<char>::empty());
    }
}

} // verus!
