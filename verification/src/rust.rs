//! The declarations of Rust source files.
use crate::entries::{
    item_view, named_symbols, contains_seq, contains_text, contains_word, new_import_entry,
    new_symbol_entry, opt_view, prefixed, prefixed_text, ranged_child, ranged_view, split_from,
    split_on_text, trim_text, truncate_child_count, with_count,
};
use crate::skeleton::{
    child_views, clone_string, texts, ChildStyle, ChildV, Entry, EntryV, Section,
    FIELD_TRUNCATE_THRESHOLD,
};
use crate::syntax::{
    child_by_field, field_child, find_child, has_field, is_field, is_kind, kind_child, lossy,
    lossy_span, node_text, text_of, SyntaxNode,
};
use crate::text::{
    chars_of, compact, compact_whitespace, has_prefix, has_suffix, string_of, trim, trim_chars,
    trim_end, trim_end_chars, trim_end_set_chars, truncate,
};
use vstd::prelude::*;

verus! {

/// Signatures longer than this many bytes are truncated.
pub const SIGNATURE_LIMIT: usize = 160;

/// The section of the entries a top-level Rust item of kind `kind` gives.
pub open spec fn rust_section(kind: Seq<char>) -> Option<Section> {
    if kind == "use_declaration"@ {
        Some(Section::Import)
    } else if kind == "mod_item"@ {
        Some(Section::Module)
    } else if kind == "const_item"@ || kind == "static_item"@ {
        Some(Section::Constant)
    } else if kind == "type_item"@ || kind == "struct_item"@ || kind == "enum_item"@ || kind
        == "union_item"@ {
        Some(Section::Type)
    } else if kind == "trait_item"@ {
        Some(Section::Trait)
    } else if kind == "impl_item"@ {
        Some(Section::Impl)
    } else if kind == "function_item"@ || kind == "function_signature_item"@ {
        Some(Section::Function)
    } else if kind == "macro_definition"@ {
        Some(Section::Macro)
    } else {
        None
    }
}

/// The entry of a function: named by its name, spanning its node, shown by
/// its signature.
pub open spec fn function_entry(e: Entry, node: SyntaxNode, source: Seq<u8>) -> bool {
    &&& signature_text(node, source, true) is Some
    &&& crate::entries::fresh_entry(e, Section::Function, node, signature_text(node, source, true)->0)
    &&& e.symbol_name matches Some(n) && n@ == text_of(
        crate::syntax::field_child(node, "name"@)->0,
        source,
    )
}

/// The entries of one top-level Rust item; `attrs` are the attributes
/// written before it. The item gives the entry that `rust_entry` describes,
/// if any: a function, for one, is shown by its signature; a `use`
/// declaration lists the paths it brings in.
pub fn extract(node: &SyntaxNode, source: &[u8], attrs: &Vec<String>) -> (out: Vec<Entry>)
    ensures
        out@.len() <= 1,
        forall|i: int|
            0 <= i < out@.len() ==> Some((#[trigger] out@[i]).section) == rust_section(node.kind@),
        named_symbols(out@),
        node.kind@ == "function_item"@ || node.kind@ == "function_signature_item"@ ==> (out@.len()
            == 1 <==> signature_text(*node, source@, true) is Some) && (out@.len() == 1
            ==> function_entry(out@[0], *node, source@)),
        crate::skeleton::entry_views(out@) == match rust_entry(*node, source@, texts(attrs@)) {
            Some(e) => seq![e],
            None => seq![],
        },
{
    proof {
        reveal_strlit("use_declaration");
        reveal_strlit("mod_item");
        reveal_strlit("const_item");
        reveal_strlit("static_item");
        reveal_strlit("type_item");
        reveal_strlit("struct_item");
        reveal_strlit("enum_item");
        reveal_strlit("union_item");
        reveal_strlit("trait_item");
        reveal_strlit("impl_item");
        reveal_strlit("function_item");
        reveal_strlit("function_signature_item");
        assert("use_declaration"@.len() == 15 && "mod_item"@.len() == 8);
        assert("const_item"@.len() == 10 && "static_item"@.len() == 11);
        assert("type_item"@.len() == 9 && "struct_item"@.len() == 11);
        assert("enum_item"@.len() == 9 && "union_item"@.len() == 10);
        assert("trait_item"@.len() == 10 && "impl_item"@.len() == 9);
        assert("function_item"@.len() == 13 && "function_signature_item"@.len() == 23);
        assert("static_item"@[0] == 's' && "struct_item"@[1] == 't' && "static_item"@[2] == 'a');
        assert("type_item"@[0] == 't' && "enum_item"@[0] == 'e');
        assert("const_item"@[0] == 'c' && "union_item"@[0] == 'u' && "trait_item"@[0] == 't');
        assert("trait_item"@[1] == 'r');
    }
    let entry = if is_kind(node, "use_declaration") {
        extract_use(node, source)
    } else if is_kind(node, "mod_item") {
        extract_module(node, source)
    } else if is_kind(node, "const_item") || is_kind(node, "static_item") {
        extract_constant(node, source)
    } else if is_kind(node, "type_item") {
        extract_type_alias(node, source, attrs)
    } else if is_kind(node, "struct_item") || is_kind(node, "enum_item") || is_kind(
        node,
        "union_item",
    ) {
        extract_data_type(node, source, attrs)
    } else if is_kind(node, "trait_item") {
        extract_trait(node, source)
    } else if is_kind(node, "impl_item") {
        extract_impl(node, source)
    } else if is_kind(node, "function_item") || is_kind(node, "function_signature_item") {
        extract_function(node, source)
    } else if is_kind(node, "macro_definition") {
        extract_macro(node, source)
    } else {
        None
    };
    assert(opt_view(entry) == rust_entry(*node, source@, texts(attrs@)));
    let mut out: Vec<Entry> = Vec::new();
    if let Some(e) = entry {
        out.push(e);
    }
    assert(crate::skeleton::entry_views(out@) =~= match opt_view(entry) {
        Some(e) => seq![e],
        None => seq![],
    });
    out
}

/// The paths of a list of paths, as views.
pub open spec fn path_views(v: Seq<Vec<String>>) -> Seq<Seq<Seq<char>>> {
    Seq::new(v.len(), |i: int| texts(v[i]@))
}

/// `path` with `as alias` after its last segment, when it has one.
pub open spec fn aliased(path: Seq<Seq<char>>, alias: Option<SyntaxNode>, source: Seq<u8>) -> Seq<
    Seq<char>,
> {
    match alias {
        Some(a) => if path.len() > 0 {
            path.drop_last().push(path.last() + " as "@ + text_of(a, source))
        } else {
            path
        },
        None => path,
    }
}

/// A path on its own, unless it is empty.
pub open spec fn single_path(path: Seq<Seq<char>>) -> Seq<Seq<Seq<char>>> {
    if path.len() > 0 {
        seq![path]
    } else {
        seq![]
    }
}

/// The paths that a use tree brings in, each after `prefix`: a scoped list
/// adds its own path (or a root segment) to the prefix of its list; a list
/// gives the paths of its named items in order; `path as alias` gives the
/// path with the alias after its last segment; anything else is a path.
pub open spec fn use_paths(node: SyntaxNode, prefix: Seq<Seq<char>>, source: Seq<u8>) -> Seq<
    Seq<Seq<char>>,
>
    decreases node, 1int, 0int,
{
    if node.kind@ == "scoped_use_list"@ {
        let next = match crate::syntax::field_child(node, "path"@) {
            Some(path) => prefix + segments_of(text_of(path, source)),
            None => if has_prefix(crate::text::trim_start(text_of(node, source)), "::"@) {
                prefix.push(seq![])
            } else {
                prefix
            },
        };
        list_paths(node, 0, next, source)
    } else if node.kind@ == "use_list"@ {
        item_paths(node, 0, prefix, source)
    } else if node.kind@ == "use_as_clause"@ {
        match crate::syntax::field_child(node, "path"@) {
            Some(path) => single_path(
                aliased(
                    prefix + segments_of(text_of(path, source)),
                    crate::syntax::field_child(node, "alias"@),
                    source,
                ),
            ),
            None => seq![],
        }
    } else {
        single_path(prefix + segments_of(text_of(node, source)))
    }
}

/// The paths of the first child from the `k`-th on held under `list`.
pub open spec fn list_paths(node: SyntaxNode, k: int, prefix: Seq<Seq<char>>, source: Seq<u8>) -> Seq<
    Seq<Seq<char>>,
>
    decreases node, 0int, node.children@.len() - k,
{
    if k < 0 || k >= node.children@.len() {
        seq![]
    } else if crate::syntax::has_field(node.children@[k], "list"@) {
        use_paths(node.children@[k], prefix, source)
    } else {
        list_paths(node, k + 1, prefix, source)
    }
}

/// The paths of the named children from the `k`-th on, in order.
pub open spec fn item_paths(node: SyntaxNode, k: int, prefix: Seq<Seq<char>>, source: Seq<u8>) -> Seq<
    Seq<Seq<char>>,
>
    decreases node, 0int, node.children@.len() - k,
{
    if k < 0 || k >= node.children@.len() {
        seq![]
    } else if node.children@[k].named {
        use_paths(node.children@[k], prefix, source) + item_paths(node, k + 1, prefix, source)
    } else {
        item_paths(node, k + 1, prefix, source)
    }
}

/// The paths a `use` declaration brings in.
pub open spec fn declared_paths(node: SyntaxNode, source: Seq<u8>) -> Seq<Seq<Seq<char>>> {
    match crate::syntax::field_child(node, "argument"@) {
        Some(argument) => use_paths(argument, seq![], source),
        None => seq![],
    }
}

/// A `use` declaration, with every path it brings in; none when it brings
/// in no path.
fn extract_use(node: &SyntaxNode, source: &[u8]) -> (out: Option<Entry>)
    ensures
        out is Some <==> declared_paths(*node, source@).len() > 0,
        out matches Some(e) ==> e.section == Section::Import && e.import_paths@.len() > 0
            && path_views(e.import_paths@) == declared_paths(*node, source@) && e.line_start
            == node.start_line && e.line_end == node.end_line && e.text@.len() == 0
            && e.symbol_name is None && e.import_keyword is None,
        opt_view(out) == use_view(*node, source@),
{
    let argument = child_by_field(node, "argument")?;
    let mut paths: Vec<Vec<String>> = Vec::new();
    let prefix: Vec<String> = Vec::new();
    assert(texts(prefix@) == Seq::<Seq<char>>::empty());
    expand_use(argument, source, &prefix, &mut paths);
    assert(path_views(paths@) == path_views(Seq::<Vec<String>>::empty()) + use_paths(
        *argument,
        seq![],
        source@,
    ));
    if paths.len() > 0 {
        let e = new_import_entry(node, paths);
        assert(e@.import_paths =~= path_views(e.import_paths@));
        assert(e@.attrs =~= seq![]);
        assert(e@.children =~= seq![]);
        assert(e@.text =~= seq![]);
        Some(e)
    } else {
        None
    }
}

/// `prefix` followed by `rest`.
fn concat_strings(prefix: &Vec<String>, rest: &Vec<String>) -> (out: Vec<String>)
    ensures
        texts(out@) == texts(prefix@) + texts(rest@),
{
    let mut out = crate::entries::clone_strings(prefix);
    let mut i: usize = 0;
    while i < rest.len()
        invariant
            i <= rest@.len(),
            texts(out@) == texts(prefix@) + texts(rest@.take(i as int)),
        decreases rest@.len() - i,
    {
        let ghost prev = out@;
        out.push(clone_string(&rest[i]));
        assert(texts(out@) =~= texts(prev).push(rest@[i as int]@));
        assert(texts(rest@.take(i + 1)) =~= texts(rest@.take(i as int)).push(rest@[i as int]@));
        i = i + 1;
    }
    assert(rest@.take(i as int) =~= rest@);
    out
}

/// `path` with `as alias` after its last segment (see `aliased`).
fn add_alias(path: &mut Vec<String>, alias: Option<&SyntaxNode>, source: &[u8])
    ensures
        texts(final(path)@) == aliased(
            texts(old(path)@),
            match alias {
                Some(a) => Some(*a),
                None => None,
            },
            source@,
        ),
{
    if let Some(alias) = alias {
        if path.len() > 0 {
            let ghost before = texts(path@);
            let mut last = path.pop().unwrap();
            assert(texts(path@) == before.drop_last());
            last.append(" as ");
            last.append(node_text(alias, source).as_str());
            path.push(last);
            assert(texts(path@) == before.drop_last().push(
                before.last() + " as "@ + text_of(*alias, source@),
            ));
        }
    }
}

/// Adds the paths that a use tree brings in, each after `prefix` (see
/// `use_paths`).
fn expand_use(node: &SyntaxNode, source: &[u8], prefix: &Vec<String>, paths: &mut Vec<Vec<String>>)
    ensures
        path_views(final(paths)@) == path_views(old(paths)@) + use_paths(
            *node,
            texts(prefix@),
            source@,
        ),
    decreases *node,
{
    let ghost start = path_views(paths@);
    if is_kind(node, "scoped_use_list") {
        let mut next = crate::entries::clone_strings(prefix);
        if let Some(path) = child_by_field(node, "path") {
            let segments = path_segments(node_text(path, source).as_str());
            next = concat_strings(&next, &segments);
        } else {
            let text = node_text(node, source);
            let chars = chars_of(text.as_str());
            let start = crate::text::trim_start_chars(chars.as_slice());
            let colons = chars_of("::");
            if crate::text::starts_with(start.as_slice(), colons.as_slice()) {
                let ghost before = texts(next@);
                next.push(String::new());
                assert(texts(next@) == before.push(seq![]));
            }
        }
        let ghost target = list_paths(*node, 0, texts(next@), source@);
        assert(use_paths(*node, texts(prefix@), source@) == target);
        let mut i: usize = 0;
        while i < node.children.len()
            invariant
                i <= node.children@.len(),
                path_views(paths@) == start,
                start == path_views(old(paths)@),
                use_paths(*node, texts(prefix@), source@) == target,
                list_paths(*node, i as int, texts(next@), source@) == target,
            decreases node.children@.len() - i,
        {
            if is_field(&node.children[i], "list") {
                assert(target == use_paths(node.children@[i as int], texts(next@), source@));
                expand_use(&node.children[i], source, &next, paths);
                return;
            }
            i = i + 1;
        }
        assert(path_views(paths@) == start + Seq::<Seq<Seq<char>>>::empty());
    } else if is_kind(node, "use_list") {
        let ghost target = item_paths(*node, 0, texts(prefix@), source@);
        let mut i: usize = 0;
        while i < node.children.len()
            invariant
                i <= node.children@.len(),
                path_views(paths@) + item_paths(*node, i as int, texts(prefix@), source@) == start
                    + target,
                start == path_views(old(paths)@),
                use_paths(*node, texts(prefix@), source@) == target,
            decreases node.children@.len() - i,
        {
            let ghost before = path_views(paths@);
            let ghost rest = item_paths(*node, i + 1, texts(prefix@), source@);
            if node.children[i].named {
                let ghost here = use_paths(node.children@[i as int], texts(prefix@), source@);
                expand_use(&node.children[i], source, prefix, paths);
                assert(before + (here + rest) == before + here + rest);
            }
            i = i + 1;
        }
        assert(path_views(paths@) + Seq::<Seq<Seq<char>>>::empty() == path_views(paths@));
    } else if is_kind(node, "use_as_clause") {
        let path = match child_by_field(node, "path") {
            Some(p) => p,
            None => {
                assert(path_views(paths@) == start + Seq::<Seq<Seq<char>>>::empty());
                return;
            },
        };
        let segments = path_segments(node_text(path, source).as_str());
        let mut result = concat_strings(prefix, &segments);
        add_alias(&mut result, child_by_field(node, "alias"), source);
        if result.len() > 0 {
            let ghost before = paths@;
            paths.push(result);
            assert(path_views(paths@) == path_views(before).push(texts(result@)));
        } else {
            assert(path_views(paths@) == start + Seq::<Seq<Seq<char>>>::empty());
        }
    } else {
        let segments = path_segments(node_text(node, source).as_str());
        let result = concat_strings(prefix, &segments);
        if result.len() > 0 {
            let ghost before = paths@;
            paths.push(result);
            assert(path_views(paths@) == path_views(before).push(texts(result@)));
        } else {
            assert(path_views(paths@) == start + Seq::<Seq<Seq<char>>>::empty());
        }
    }
}

/// The non-empty parts of `parts`, trimmed, in order.
pub open spec fn trimmed_nonempty(parts: Seq<Seq<char>>) -> Seq<Seq<char>>
    decreases parts.len(),
{
    if parts.len() == 0 {
        seq![]
    } else {
        let rest = trimmed_nonempty(parts.drop_last());
        let part = trim(parts.last());
        if part.len() > 0 {
            rest.push(part)
        } else {
            rest
        }
    }
}

/// The segments of a path: the trimmed, non-empty parts between `::`,
/// after an empty segment when the path starts at the root (`::a`).
pub open spec fn segments_of(value: Seq<char>) -> Seq<Seq<char>> {
    let v = trim(value);
    let parts = trimmed_nonempty(split_from(v, "::"@, 0, seq![]));
    if has_prefix(v, "::"@) {
        seq![seq![]] + parts
    } else {
        parts
    }
}

/// See `segments_of`.
pub fn path_segments(value: &str) -> (out: Vec<String>)
    ensures
        texts(out@) == segments_of(value@),
{
    let v = trim_text(value);
    proof {
        reveal_strlit("::");
    }
    let parts = split_on_text(v.as_str(), "::");
    let mut out: Vec<String> = Vec::new();
    let mut i: usize = 0;
    while i < parts.len()
        invariant
            i <= parts@.len(),
            texts(out@) == trimmed_nonempty(texts(parts@).take(i as int)),
        decreases parts@.len() - i,
    {
        assert(texts(parts@).take(i + 1).drop_last() =~= texts(parts@).take(i as int));
        let part = trim_text(parts[i].as_str());
        if !part.as_str().is_empty() {
            let ghost prev = out@;
            out.push(part);
            assert(texts(out@) =~= texts(prev).push(trim(parts@[i as int]@)));
        }
        i = i + 1;
    }
    assert(texts(parts@).take(i as int) =~= texts(parts@));
    let vc = chars_of(v.as_str());
    let colons = chars_of("::");
    if crate::text::starts_with(vc.as_slice(), colons.as_slice()) {
        let ghost prev = out@;
        out.insert(0, String::new());
        assert(texts(out@) =~= seq![seq![]] + texts(prev));
    }
    out
}

/// The text of the child held under `field`, or nothing.
pub open spec fn field_part(node: SyntaxNode, field: Seq<char>, source: Seq<u8>) -> Seq<char> {
    field_text_or(node, field, source, seq![])
}

/// A space and the text of the first child of kind `kind`, or nothing.
pub open spec fn kind_part(node: SyntaxNode, kind: Seq<char>, source: Seq<u8>) -> Seq<char> {
    match kind_child(node, kind) {
        Some(v) => " "@ + text_of(v, source),
        None => seq![],
    }
}

/// The entry of a `use` declaration: the paths it brings in, if any.
pub open spec fn use_view(node: SyntaxNode, source: Seq<u8>) -> Option<EntryV> {
    let paths = declared_paths(node, source);
    if paths.len() > 0 {
        Some(
            EntryV {
                section: Section::Import,
                symbol_name: None,
                line_start: node.start_line,
                line_end: node.end_line,
                text: seq![],
                import_paths: paths,
                import_keyword: None,
                attrs: seq![],
                children: seq![],
                child_style: ChildStyle::Detailed,
            },
        )
    } else {
        None
    }
}

/// The entry of a module: its visibility and name.
pub open spec fn module_view(node: SyntaxNode, source: Seq<u8>) -> Option<EntryV> {
    match field_child(node, "name"@) {
        Some(name) => Some(
            item_view(
                Section::Module,
                node,
                text_of(name, source),
                prefixed_text(visibility_text(node, source), text_of(name, source)),
                seq![],
                seq![],
                ChildStyle::Detailed,
            ),
        ),
        None => None,
    }
}

/// What a static item declares before its name: `static`, then `ref` and
/// `mut` where they are written; nothing for a constant.
pub open spec fn static_qualifiers(node: SyntaxNode, name: SyntaxNode, source: Seq<u8>) -> Seq<char> {
    if node.kind@ == "static_item"@ {
        let written = lossy_span(source, node.start_byte as int, name.start_byte as int);
        "static "@ + (if crate::entries::has_word(written, "ref"@) {
            "ref "@
        } else {
            seq![]
        }) + (if crate::entries::has_word(written, "mut"@) {
            "mut "@
        } else {
            seq![]
        })
    } else {
        seq![]
    }
}

/// The entry of a constant or static: visibility, qualifiers, name and type.
pub open spec fn constant_view(node: SyntaxNode, source: Seq<u8>) -> Option<EntryV> {
    match (field_child(node, "name"@), field_child(node, "type"@)) {
        (Some(name), Some(type_node)) => Some(
            item_view(
                Section::Constant,
                node,
                text_of(name, source),
                header_text(
                    prefixed_text(
                        visibility_text(node, source),
                        static_qualifiers(node, name, source) + text_of(name, source) + ": "@
                            + text_of(type_node, source),
                    ),
                ),
                seq![],
                seq![],
                ChildStyle::Detailed,
            ),
        ),
        _ => None,
    }
}

/// The entry of a type alias: the declaration as written, with the
/// attributes that a type keeps.
pub open spec fn type_alias_view(node: SyntaxNode, source: Seq<u8>, attrs: Seq<Seq<char>>) -> Option<
    EntryV,
> {
    match field_child(node, "name"@) {
        Some(name) => Some(
            item_view(
                Section::Type,
                node,
                text_of(name, source),
                crate::text::truncated(declaration_text(node, source), SIGNATURE_LIMIT as nat),
                relevant(attrs),
                seq![],
                ChildStyle::Detailed,
            ),
        ),
        None => None,
    }
}

/// The keyword of a data type of kind `kind`.
pub open spec fn data_keyword_of(kind: Seq<char>) -> Seq<char> {
    if kind == "struct_item"@ {
        "struct"@
    } else if kind == "enum_item"@ {
        "enum"@
    } else {
        "union"@
    }
}

/// Whether a data type has an enum body, whose members are listed briefly.
pub open spec fn has_variant_body(node: SyntaxNode) -> bool {
    field_child(node, "body"@) matches Some(body) && body.kind@ == "enum_variant_list"@
}

/// The members of a data type: its variants or its fields.
pub open spec fn data_members(node: SyntaxNode, source: Seq<u8>) -> Seq<ChildV> {
    match field_child(node, "body"@) {
        Some(body) => if body.kind@ == "enum_variant_list"@ {
            with_count(variant_members(body, 0, 0, source), variant_total(body, 0))
        } else {
            with_fields(seq![], body, source)
        },
        None => seq![],
    }
}

/// The entry of a struct, enum or union: its header, the attributes that a
/// type keeps, and its members.
pub open spec fn data_view(node: SyntaxNode, source: Seq<u8>, attrs: Seq<Seq<char>>) -> Option<EntryV> {
    match field_child(node, "name"@) {
        Some(name) => Some(
            item_view(
                Section::Type,
                node,
                text_of(name, source),
                header_text(
                    prefixed_text(
                        visibility_text(node, source),
                        data_keyword_of(node.kind@) + " "@ + text_of(name, source) + field_part(
                            node,
                            "type_parameters"@,
                            source,
                        ) + kind_part(node, "where_clause"@, source),
                    ),
                ),
                relevant(attrs),
                data_members(node, source),
                if has_variant_body(node) {
                    ChildStyle::Brief
                } else {
                    ChildStyle::Detailed
                },
            ),
        ),
        None => None,
    }
}

/// The methods of a trait or impl: the signatures in its body.
pub open spec fn body_methods(node: SyntaxNode, include_visibility: bool, source: Seq<u8>) -> Seq<
    ChildV,
> {
    match field_child(node, "body"@) {
        Some(body) => method_members(body, 0, include_visibility, source),
        None => seq![],
    }
}

/// The entry of a trait: its header and its method signatures.
pub open spec fn trait_view(node: SyntaxNode, source: Seq<u8>) -> Option<EntryV> {
    match field_child(node, "name"@) {
        Some(name) => Some(
            item_view(
                Section::Trait,
                node,
                text_of(name, source),
                header_text(
                    prefixed_text(
                        visibility_text(node, source),
                        text_of(name, source) + field_part(node, "type_parameters"@, source)
                            + field_part(node, "bounds"@, source) + kind_part(
                            node,
                            "where_clause"@,
                            source,
                        ),
                    ),
                ),
                seq![],
                body_methods(node, false, source),
                ChildStyle::Detailed,
            ),
        ),
        None => None,
    }
}

/// The header of an impl block: its type parameters, the trait (negated
/// when `!` stands before it) and `for`, the type and the where clause.
pub open spec fn impl_header(node: SyntaxNode, type_node: SyntaxNode, source: Seq<u8>) -> Seq<char> {
    let params = field_part(node, "type_parameters"@, source);
    let lead = if params.len() > 0 {
        params + " "@
    } else {
        params
    };
    let trait_part = match field_child(node, "trait"@) {
        Some(t) => (if has_suffix(
            trim_end(lossy_span(source, node.start_byte as int, t.start_byte as int)),
            "!"@,
        ) {
            "!"@
        } else {
            seq![]
        }) + text_of(t, source) + " for "@,
        None => seq![],
    };
    header_text(lead + trait_part + text_of(type_node, source) + kind_part(node, "where_clause"@, source))
}

/// The entry of an impl block: named by its type, shown by its header, with
/// its method signatures.
pub open spec fn impl_view(node: SyntaxNode, source: Seq<u8>) -> Option<EntryV> {
    match field_child(node, "type"@) {
        Some(type_node) => Some(
            item_view(
                Section::Impl,
                node,
                text_of(type_node, source),
                impl_header(node, type_node, source),
                seq![],
                body_methods(node, true, source),
                ChildStyle::Detailed,
            ),
        ),
        None => None,
    }
}

/// The entry of a function: its signature.
pub open spec fn function_view(node: SyntaxNode, source: Seq<u8>) -> Option<EntryV> {
    match (field_child(node, "name"@), signature_text(node, source, true)) {
        (Some(name), Some(signature)) => Some(
            item_view(
                Section::Function,
                node,
                text_of(name, source),
                signature,
                seq![],
                seq![],
                ChildStyle::Detailed,
            ),
        ),
        _ => None,
    }
}

/// The entry of a macro definition: `name!`.
pub open spec fn macro_view(node: SyntaxNode, source: Seq<u8>) -> Option<EntryV> {
    match field_child(node, "name"@) {
        Some(name) => Some(
            item_view(
                Section::Macro,
                node,
                text_of(name, source),
                text_of(name, source) + "!"@,
                seq![],
                seq![],
                ChildStyle::Detailed,
            ),
        ),
        None => None,
    }
}

/// The entry of a top-level Rust item, with `attrs` written before it; none
/// for an item of another kind or without what its entry needs.
pub open spec fn rust_entry(node: SyntaxNode, source: Seq<u8>, attrs: Seq<Seq<char>>) -> Option<EntryV> {
    let kind = node.kind@;
    if kind == "use_declaration"@ {
        use_view(node, source)
    } else if kind == "mod_item"@ {
        module_view(node, source)
    } else if kind == "const_item"@ || kind == "static_item"@ {
        constant_view(node, source)
    } else if kind == "type_item"@ {
        type_alias_view(node, source, attrs)
    } else if kind == "struct_item"@ || kind == "enum_item"@ || kind == "union_item"@ {
        data_view(node, source, attrs)
    } else if kind == "trait_item"@ {
        trait_view(node, source)
    } else if kind == "impl_item"@ {
        impl_view(node, source)
    } else if kind == "function_item"@ || kind == "function_signature_item"@ {
        function_view(node, source)
    } else if kind == "macro_definition"@ {
        macro_view(node, source)
    } else {
        None
    }
}

/// A module, with its visibility.
fn extract_module(node: &SyntaxNode, source: &[u8]) -> (out: Option<Entry>)
    ensures
        opt_view(out) == module_view(*node, source@),
{
    let name = child_by_field(node, "name")?;
    let vis = visibility(node, source);
    let text = prefixed(vis.as_str(), node_text(name, source).as_str());
    Some(new_symbol_entry(Section::Module, node, node_text(name, source), text))
}

/// A constant or static: its qualifiers, name and type.
fn extract_constant(node: &SyntaxNode, source: &[u8]) -> (out: Option<Entry>)
    ensures
        opt_view(out) == constant_view(*node, source@),
{
    let name = child_by_field(node, "name")?;
    let type_node = child_by_field(node, "type")?;
    let mut declaration = String::new();
    if is_kind(node, "static_item") {
        declaration.append("static ");
        let qualifiers = lossy(source, node.start_byte, name.start_byte);
        if contains_word(qualifiers.as_str(), "ref") {
            declaration.append("ref ");
        }
        if contains_word(qualifiers.as_str(), "mut") {
            declaration.append("mut ");
        }
    }
    declaration.append(node_text(name, source).as_str());
    declaration.append(": ");
    declaration.append(node_text(type_node, source).as_str());
    let vis = visibility(node, source);
    let shown = prefixed(vis.as_str(), declaration.as_str());
    let text = truncate(compact_whitespace(shown.as_str()).as_str(), SIGNATURE_LIMIT);
    Some(new_symbol_entry(Section::Constant, node, node_text(name, source), text))
}

/// A type alias, as written up to its end.
fn extract_type_alias(node: &SyntaxNode, source: &[u8], attrs: &Vec<String>) -> (out: Option<Entry>)
    ensures
        opt_view(out) == type_alias_view(*node, source@, texts(attrs@)),
{
    let name = child_by_field(node, "name")?;
    let declaration = declaration_before(node, source);
    let text = truncate(declaration.as_str(), SIGNATURE_LIMIT);
    let mut entry = new_symbol_entry(Section::Type, node, node_text(name, source), text);
    entry.attrs = relevant_attrs(attrs);
    Some(entry)
}

/// The keyword of a data type item.
fn data_keyword(node: &SyntaxNode) -> (k: &'static str)
    ensures
        k@ == if node.kind@ == "struct_item"@ {
            "struct"@
        } else if node.kind@ == "enum_item"@ {
            "enum"@
        } else {
            "union"@
        },
{
    if is_kind(node, "struct_item") {
        "struct"
    } else if is_kind(node, "enum_item") {
        "enum"
    } else {
        "union"
    }
}

/// A struct, enum or union: its header, its fields or variants.
fn extract_data_type(node: &SyntaxNode, source: &[u8], attrs: &Vec<String>) -> (out: Option<Entry>)
    ensures
        opt_view(out) == data_view(*node, source@, texts(attrs@)),
{
    let name = child_by_field(node, "name")?;
    let mut text = String::from_str(data_keyword(node));
    text.append(" ");
    text.append(node_text(name, source).as_str());
    append_field(&mut text, node, "type_parameters", source);
    append_direct_child(&mut text, node, "where_clause", source);
    let vis = visibility(node, source);
    let shown = prefixed(vis.as_str(), text.as_str());
    let header = truncate(compact_whitespace(shown.as_str()).as_str(), SIGNATURE_LIMIT);
    let mut entry = new_symbol_entry(Section::Type, node, node_text(name, source), header);
    entry.attrs = relevant_attrs(attrs);
    if let Some(body) = child_by_field(node, "body") {
        if is_kind(body, "enum_variant_list") {
            entry.child_style = ChildStyle::Brief;
            extract_variants(body, source, &mut entry);
        } else {
            extract_fields(body, source, &mut entry);
        }
    }
    Some(entry)
}

/// The nearest named child among `children` before position `p`.
pub open spec fn previous_named(children: Seq<SyntaxNode>, p: int) -> Option<SyntaxNode>
    decreases p,
{
    if p <= 0 || p > children.len() {
        None
    } else if children[p - 1].named {
        Some(children[p - 1])
    } else {
        previous_named(children, p - 1)
    }
}

/// Whether a child of a struct or union body is one of its fields: a field
/// declaration of a braced body, or a type of a tuple body.
pub open spec fn is_field_of(body: SyntaxNode, c: SyntaxNode) -> bool {
    if body.kind@ == "field_declaration_list"@ {
        c.named && c.kind@ == "field_declaration"@
    } else {
        has_field(c, "type"@)
    }
}

/// The visibility of the field at position `j` of a body: that of a field
/// declaration, or else the modifier that is the named child just before it.
pub open spec fn field_visibility(body: SyntaxNode, j: int, source: Seq<u8>) -> Seq<char> {
    let field = body.children@[j];
    if field.kind@ == "field_declaration"@ {
        visibility_text(field, source)
    } else {
        match previous_named(body.children@, j) {
            Some(p) => if p.kind@ == "visibility_modifier"@ {
                text_of(p, source)
            } else {
                seq![]
            },
            None => seq![],
        }
    }
}

/// How the field at position `j` reads before it is compacted: its
/// visibility, then name and type (none for a declaration without both), or
/// the type of a tuple field.
pub open spec fn field_line(body: SyntaxNode, j: int, source: Seq<u8>) -> Option<Seq<char>> {
    let field = body.children@[j];
    let vis = field_visibility(body, j, source);
    if field.kind@ == "field_declaration"@ {
        match (field_child(field, "name"@), field_child(field, "type"@)) {
            (Some(name), Some(type_node)) => Some(
                prefixed_text(vis, text_of(name, source) + ": "@ + text_of(type_node, source)),
            ),
            _ => None,
        }
    } else {
        Some(prefixed_text(vis, text_of(field, source)))
    }
}

/// A signature compacted and truncated.
pub open spec fn header_text(shown: Seq<char>) -> Seq<char> {
    crate::text::truncated(compact(shown), SIGNATURE_LIMIT as nat)
}

/// The members shown for the fields from position `j` on, after `index`
/// fields: each field ranged, and past the threshold only those with a
/// visibility.
pub open spec fn field_members(body: SyntaxNode, j: int, index: nat, source: Seq<u8>) -> Seq<ChildV>
    decreases body.children@.len() - j,
{
    if j < 0 || j >= body.children@.len() {
        seq![]
    } else if is_field_of(body, body.children@[j]) {
        let rest = field_members(body, j + 1, index + 1, source);
        if index >= FIELD_TRUNCATE_THRESHOLD && field_visibility(body, j, source).len() == 0 {
            rest
        } else {
            match field_line(body, j, source) {
                Some(t) => seq![ranged_view(header_text(t), body.children@[j])] + rest,
                None => rest,
            }
        }
    } else {
        field_members(body, j + 1, index, source)
    }
}

/// The number of fields from position `j` on.
pub open spec fn field_total(body: SyntaxNode, j: int) -> nat
    decreases body.children@.len() - j,
{
    if j < 0 || j >= body.children@.len() {
        0
    } else if is_field_of(body, body.children@[j]) {
        field_total(body, j + 1) + 1
    } else {
        field_total(body, j + 1)
    }
}

/// The members after `before` that a struct or union body adds: its fields,
/// then a count of all of them when fewer members than fields are shown; a
/// body of another kind adds none.
pub open spec fn with_fields(before: Seq<ChildV>, body: SyntaxNode, source: Seq<u8>) -> Seq<ChildV> {
    if body.kind@ == "field_declaration_list"@ || body.kind@ == "ordered_field_declaration_list"@ {
        let all = before + field_members(body, 0, 0, source);
        if all.len() < field_total(body, 0) {
            with_count(all, field_total(body, 0))
        } else {
            all
        }
    } else {
        before
    }
}

/// The visibility of the tuple field at `index`: the modifier that is the
/// named child just before it, if it is one.
fn ordered_visibility(body: &SyntaxNode, index: usize, source: &[u8]) -> (out: String)
    requires
        index < body.children@.len(),
    ensures
        out@ == match previous_named(body.children@, index as int) {
            Some(p) => if p.kind@ == "visibility_modifier"@ {
                text_of(p, source@)
            } else {
                seq![]
            },
            None => seq![],
        },
{
    let mut p: usize = index;
    while p > 0
        invariant
            p <= index < body.children@.len(),
            previous_named(body.children@, index as int) == previous_named(body.children@, p as int),
        decreases p,
    {
        let previous = &body.children[p - 1];
        if previous.named {
            if is_kind(previous, "visibility_modifier") {
                return node_text(previous, source);
            } else {
                return String::new();
            }
        }
        p = p - 1;
    }
    String::new()
}

/// The fields of a struct or union body, ranged; past the threshold only the
/// public ones, then a count of all (see `with_fields`).
fn extract_fields(body: &SyntaxNode, source: &[u8], entry: &mut Entry)
    ensures
        final(entry)@ == (EntryV {
            children: with_fields(child_views(old(entry).children@), *body, source@),
            ..old(entry)@
        }),
{
    let named = is_kind(body, "field_declaration_list");
    if !named && !is_kind(body, "ordered_field_declaration_list") {
        return;
    }
    let mut total: usize = 0;
    let mut i: usize = 0;
    while i < body.children.len()
        invariant
            total <= i <= body.children@.len(),
            named == (body.kind@ == "field_declaration_list"@),
            total + field_total(*body, i as int) == field_total(*body, 0),
        decreases body.children@.len() - i,
    {
        let c = &body.children[i];
        if named {
            if c.named && is_kind(c, "field_declaration") {
                total = total + 1;
            }
        } else if is_field(c, "type") {
            total = total + 1;
        }
        i = i + 1;
    }
    let ghost start = child_views(entry.children@);
    let ghost target = start + field_members(*body, 0, 0, source@);
    let mut index: usize = 0;
    let mut j: usize = 0;
    while j < body.children.len()
        invariant
            index <= j <= body.children@.len(),
            named == (body.kind@ == "field_declaration_list"@),
            target == start + field_members(*body, 0, 0, source@),
            child_views(entry.children@) + field_members(*body, j as int, index as nat, source@)
                == target,
            entry@ == (EntryV { children: child_views(entry.children@), ..old(entry)@ }),
        decreases body.children@.len() - j,
    {
        let field = &body.children[j];
        let is_field_node = if named {
            field.named && is_kind(field, "field_declaration")
        } else {
            is_field(field, "type")
        };
        let ghost before = child_views(entry.children@);
        let ghost rest = field_members(*body, j + 1, (index + 1) as nat, source@);
        if is_field_node {
            let declared = is_kind(field, "field_declaration");
            let field_visibility = if declared {
                visibility(field, source)
            } else {
                ordered_visibility(body, j, source)
            };
            if !(index >= FIELD_TRUNCATE_THRESHOLD && field_visibility.as_str().is_empty()) {
                let text = if declared {
                    match (child_by_field(field, "name"), child_by_field(field, "type")) {
                        (Some(name), Some(type_node)) => {
                            let mut t = node_text(name, source);
                            t.append(": ");
                            t.append(node_text(type_node, source).as_str());
                            Some(prefixed(field_visibility.as_str(), t.as_str()))
                        },
                        _ => None,
                    }
                } else {
                    Some(prefixed(field_visibility.as_str(), node_text(field, source).as_str()))
                };
                if let Some(t) = text {
                    let shown = truncate(compact_whitespace(t.as_str()).as_str(), SIGNATURE_LIMIT);
                    entry.children.push(ranged_child(shown, field));
                    assert(child_views(entry.children@) == before.push(
                        ranged_view(header_text(t@), *field),
                    ));
                    assert(before + (seq![ranged_view(header_text(t@), *field)] + rest)
                        == before.push(ranged_view(header_text(t@), *field)) + rest);
                }
            }
            index = index + 1;
        }
        j = j + 1;
    }
    assert(child_views(entry.children@) + Seq::<ChildV>::empty() == child_views(entry.children@));
    if entry.children.len() < total {
        truncate_child_count(&mut entry.children, total);
    }
}

/// The members shown for the variants from position `j` on, after `index`
/// variants: the names of the variants below the threshold, ranged.
pub open spec fn variant_members(body: SyntaxNode, j: int, index: nat, source: Seq<u8>) -> Seq<
    ChildV,
>
    decreases body.children@.len() - j,
{
    if j < 0 || j >= body.children@.len() {
        seq![]
    } else if body.children@[j].named && body.children@[j].kind@ == "enum_variant"@ {
        let rest = variant_members(body, j + 1, index + 1, source);
        if index < FIELD_TRUNCATE_THRESHOLD {
            match field_child(body.children@[j], "name"@) {
                Some(name) => seq![ranged_view(text_of(name, source), body.children@[j])] + rest,
                None => rest,
            }
        } else {
            rest
        }
    } else {
        variant_members(body, j + 1, index, source)
    }
}

/// The number of variants from position `j` on.
pub open spec fn variant_total(body: SyntaxNode, j: int) -> nat
    decreases body.children@.len() - j,
{
    if j < 0 || j >= body.children@.len() {
        0
    } else if body.children@[j].named && body.children@[j].kind@ == "enum_variant"@ {
        variant_total(body, j + 1) + 1
    } else {
        variant_total(body, j + 1)
    }
}

/// The variants of an enum body: the first names, ranged, then a count (see
/// `variant_members`).
fn extract_variants(body: &SyntaxNode, source: &[u8], entry: &mut Entry)
    ensures
        final(entry)@ == (EntryV {
            children: with_count(
                child_views(old(entry).children@) + variant_members(*body, 0, 0, source@),
                variant_total(*body, 0),
            ),
            ..old(entry)@
        }),
{
    let ghost start = child_views(entry.children@);
    let mut total: usize = 0;
    let mut i: usize = 0;
    while i < body.children.len()
        invariant
            total <= i <= body.children@.len(),
            total + variant_total(*body, i as int) == variant_total(*body, 0),
            child_views(entry.children@) + variant_members(*body, i as int, total as nat, source@)
                == start + variant_members(*body, 0, 0, source@),
            entry@ == (EntryV { children: child_views(entry.children@), ..old(entry)@ }),
        decreases body.children@.len() - i,
    {
        let variant = &body.children[i];
        let ghost before = child_views(entry.children@);
        let ghost rest = variant_members(*body, i + 1, (total + 1) as nat, source@);
        if variant.named && is_kind(variant, "enum_variant") {
            if total < FIELD_TRUNCATE_THRESHOLD {
                if let Some(name) = child_by_field(variant, "name") {
                    entry.children.push(ranged_child(node_text(name, source), variant));
                    assert(child_views(entry.children@) == before.push(
                        ranged_view(text_of(*name, source@), *variant),
                    ));
                    assert(before + (seq![ranged_view(text_of(*name, source@), *variant)] + rest)
                        == before.push(ranged_view(text_of(*name, source@), *variant)) + rest);
                }
            }
            total = total + 1;
        }
        i = i + 1;
    }
    assert(child_views(entry.children@) + Seq::<ChildV>::empty() == child_views(entry.children@));
    truncate_child_count(&mut entry.children, total);
}

/// A trait: its header and its method signatures.
fn extract_trait(node: &SyntaxNode, source: &[u8]) -> (out: Option<Entry>)
    ensures
        opt_view(out) == trait_view(*node, source@),
{
    let name = child_by_field(node, "name")?;
    let mut text = node_text(name, source);
    append_field(&mut text, node, "type_parameters", source);
    append_field(&mut text, node, "bounds", source);
    append_direct_child(&mut text, node, "where_clause", source);
    let vis = visibility(node, source);
    let shown = prefixed(vis.as_str(), text.as_str());
    let header = truncate(compact_whitespace(shown.as_str()).as_str(), SIGNATURE_LIMIT);
    let mut entry = new_symbol_entry(Section::Trait, node, node_text(name, source), header);
    if let Some(body) = child_by_field(node, "body") {
        extract_methods(body, source, false, &mut entry);
    }
    Some(entry)
}

/// An impl block: its header and its method signatures.
fn extract_impl(node: &SyntaxNode, source: &[u8]) -> (out: Option<Entry>)
    ensures
        opt_view(out) == impl_view(*node, source@),
{
    let type_node = child_by_field(node, "type")?;
    let mut text = String::new();
    append_field(&mut text, node, "type_parameters", source);
    assert(text@ == field_part(*node, "type_parameters"@, source@));
    if !text.as_str().is_empty() {
        text.append(" ");
    }
    let ghost lead = text@;
    if let Some(trait_node) = child_by_field(node, "trait") {
        let ghost before = text@;
        let negative = impl_is_negative(node, trait_node, source);
        if negative {
            text.append("!");
        }
        let ghost bang = text@;
        text.append(node_text(trait_node, source).as_str());
        text.append(" for ");
        assert(text@ == before + ((if negative {
            "!"@
        } else {
            seq![]
        }) + text_of(*trait_node, source@) + " for "@));
    }
    let ghost with_trait = text@;
    text.append(node_text(type_node, source).as_str());
    append_direct_child(&mut text, node, "where_clause", source);
    proof {
        let trait_part = match field_child(*node, "trait"@) {
            Some(t) => (if has_suffix(
                trim_end(lossy_span(source@, node.start_byte as int, t.start_byte as int)),
                "!"@,
            ) {
                "!"@
            } else {
                seq![]
            }) + text_of(t, source@) + " for "@,
            None => seq![],
        };
        assert(with_trait == lead + trait_part);
        assert(text@ == lead + trait_part + text_of(*type_node, source@) + kind_part(
            *node,
            "where_clause"@,
            source@,
        ));
    }
    let header = truncate(compact_whitespace(text.as_str()).as_str(), SIGNATURE_LIMIT);
    let mut entry = new_symbol_entry(Section::Impl, node, node_text(type_node, source), header);
    if let Some(body) = child_by_field(node, "body") {
        extract_methods(body, source, true, &mut entry);
    }
    Some(entry)
}

/// The members shown for the functions of a trait or impl body from
/// position `j` on: their signatures, ranged.
pub open spec fn method_members(body: SyntaxNode, j: int, include_visibility: bool, source: Seq<u8>) -> Seq<
    ChildV,
>
    decreases body.children@.len() - j,
{
    if j < 0 || j >= body.children@.len() {
        seq![]
    } else {
        let m = body.children@[j];
        let rest = method_members(body, j + 1, include_visibility, source);
        if m.named && (m.kind@ == "function_item"@ || m.kind@ == "function_signature_item"@) {
            match signature_text(m, source, include_visibility) {
                Some(signature) => seq![ranged_view(signature, m)] + rest,
                None => rest,
            }
        } else {
            rest
        }
    }
}

/// Whether a member of a trait or impl body declares a method: a named
/// function item, with or without a body, that has a name.
pub open spec fn declares_method(m: SyntaxNode) -> bool {
    &&& m.named
    &&& m.kind@ == "function_item"@ || m.kind@ == "function_signature_item"@
    &&& crate::syntax::field_child(m, "name"@) is Some
}

/// The members of a trait or impl are exactly its method declarations, in
/// order (required methods without a body among them), each shown by its
/// signature over its own lines; so there are as many members as method
/// declarations.
pub proof fn lemma_methods_are_declarations(body: SyntaxNode, include_visibility: bool, source: Seq<u8>)
    ensures
        method_members(body, 0, include_visibility, source) == body.children@.filter(
            |m: SyntaxNode| declares_method(m),
        ).map_values(
            |m: SyntaxNode| ranged_view(signature_text(m, source, include_visibility)->0, m),
        ),
        method_members(body, 0, include_visibility, source).len() == body.children@.filter(
            |m: SyntaxNode| declares_method(m),
        ).len(),
{
    lemma_methods_from(body, 0, include_visibility, source);
    assert(body.children@.skip(0) =~= body.children@);
}

/// A trait lists as its members the signatures of all the methods its body
/// declares, in order, required ones among them; an impl does the same,
/// with each method's visibility.
pub proof fn lemma_trait_and_impl_members(node: SyntaxNode, source: Seq<u8>)
    requires
        crate::syntax::field_child(node, "body"@) is Some,
    ensures
        crate::syntax::field_child(node, "name"@) is Some ==> (trait_view(node, source) matches Some(e)
            && e.children == crate::syntax::field_child(node, "body"@)->0.children@.filter(
            |m: SyntaxNode| declares_method(m),
        ).map_values(|m: SyntaxNode| ranged_view(signature_text(m, source, false)->0, m))),
        crate::syntax::field_child(node, "type"@) is Some ==> (impl_view(node, source) matches Some(e)
            && e.children == crate::syntax::field_child(node, "body"@)->0.children@.filter(
            |m: SyntaxNode| declares_method(m),
        ).map_values(|m: SyntaxNode| ranged_view(signature_text(m, source, true)->0, m))),
{
    let body = crate::syntax::field_child(node, "body"@)->0;
    lemma_methods_are_declarations(body, false, source);
    lemma_methods_are_declarations(body, true, source);
}

proof fn lemma_methods_from(body: SyntaxNode, j: int, include_visibility: bool, source: Seq<u8>)
    requires
        0 <= j <= body.children@.len(),
    ensures
        method_members(body, j, include_visibility, source) == body.children@.skip(j).filter(
            |m: SyntaxNode| declares_method(m),
        ).map_values(
            |m: SyntaxNode| ranged_view(signature_text(m, source, include_visibility)->0, m),
        ),
    decreases body.children@.len() - j,
{
    let p = |m: SyntaxNode| declares_method(m);
    let f = |m: SyntaxNode| ranged_view(signature_text(m, source, include_visibility)->0, m);
    reveal(Seq::filter);
    if j == body.children@.len() {
        assert(body.children@.skip(j) =~= Seq::<SyntaxNode>::empty());
        assert(body.children@.skip(j).filter(p) =~= Seq::<SyntaxNode>::empty());
        assert(body.children@.skip(j).filter(p).map_values(f) =~= Seq::<ChildV>::empty());
    } else {
        lemma_methods_from(body, j + 1, include_visibility, source);
        let m = body.children@[j];
        let tail = body.children@.skip(j + 1);
        assert(body.children@.skip(j) =~= seq![m] + tail);
        Seq::filter_distributes_over_add(seq![m], tail, p);
        assert(seq![m].drop_last() =~= Seq::<SyntaxNode>::empty());
        assert(Seq::<SyntaxNode>::empty().filter(p) =~= Seq::<SyntaxNode>::empty());
        if p(m) {
            assert(seq![m].filter(p) =~= seq![m]);
            assert((seq![m] + tail.filter(p)).map_values(f) =~= seq![f(m)] + tail.filter(p).map_values(f));
        } else {
            assert(seq![m].filter(p) =~= Seq::<SyntaxNode>::empty());
            assert(Seq::<SyntaxNode>::empty() + tail.filter(p) =~= tail.filter(p));
        }
    }
}

/// The signatures of the functions in a trait or impl body, ranged (see
/// `method_members`).
fn extract_methods(body: &SyntaxNode, source: &[u8], include_visibility: bool, entry: &mut Entry)
    ensures
        final(entry)@ == (EntryV {
            children: child_views(old(entry).children@) + method_members(
                *body,
                0,
                include_visibility,
                source@,
            ),
            ..old(entry)@
        }),
{
    let ghost target = child_views(entry.children@) + method_members(
        *body,
        0,
        include_visibility,
        source@,
    );
    let mut i: usize = 0;
    while i < body.children.len()
        invariant
            i <= body.children@.len(),
            child_views(entry.children@) + method_members(
                *body,
                i as int,
                include_visibility,
                source@,
            ) == target,
            entry@ == (EntryV { children: child_views(entry.children@), ..old(entry)@ }),
        decreases body.children@.len() - i,
    {
        let method = &body.children[i];
        let ghost before = child_views(entry.children@);
        let ghost rest = method_members(*body, i + 1, include_visibility, source@);
        if method.named && (is_kind(method, "function_item") || is_kind(
            method,
            "function_signature_item",
        )) {
            if let Some(signature) = function_signature(method, source, include_visibility) {
                entry.children.push(ranged_child(signature, method));
                assert(child_views(entry.children@) == before.push(
                    ranged_view(signature@, *method),
                ));
                assert(before + (seq![ranged_view(signature@, *method)] + rest) == before.push(
                    ranged_view(signature@, *method),
                ) + rest);
            }
        }
        i = i + 1;
    }
    assert(child_views(entry.children@) + Seq::<ChildV>::empty() == child_views(entry.children@));
}

/// A function, shown by its signature.
fn extract_function(node: &SyntaxNode, source: &[u8]) -> (out: Option<Entry>)
    ensures
        out is Some <==> signature_text(*node, source@, true) is Some,
        out matches Some(e) ==> function_entry(e, *node, source@),
        opt_view(out) == function_view(*node, source@),
{
    let name = child_by_field(node, "name")?;
    let signature = function_signature(node, source, true)?;
    Some(new_symbol_entry(Section::Function, node, node_text(name, source), signature))
}

/// `s` without the leading `->` arrows.
pub open spec fn without_arrows(s: Seq<char>) -> Seq<char>
    decreases s.len(),
{
    if s.len() >= 2 && s[0] == '-' && s[1] == '>' {
        without_arrows(s.skip(2))
    } else {
        s
    }
}

#[verifier::spinoff_prover]
fn strip_arrows(s: &str) -> (out: String)
    ensures
        out@ == without_arrows(s@),
{
    let chars = chars_of(s);
    let mut i: usize = 0;
    assert(s@.skip(0) =~= s@);
    while chars.len() - i >= 2 && chars[i] == '-' && chars[i + 1] == '>'
        invariant
            chars@ == s@,
            i <= chars@.len(),
            without_arrows(s@) == without_arrows(s@.skip(i as int)),
        decreases chars@.len() - i,
    {
        assert(s@.skip(i as int).skip(2) =~= s@.skip(i + 2));
        i = i + 2;
    }
    let mut rest: Vec<char> = Vec::new();
    let mut j: usize = i;
    while j < chars.len()
        invariant
            i <= j <= chars@.len(),
            rest@ == chars@.subrange(i as int, j as int),
        decreases chars@.len() - j,
    {
        rest.push(chars[j]);
        j = j + 1;
    }
    assert(rest@ =~= s@.skip(i as int));
    string_of(rest.as_slice())
}

/// The text of the child of `node` held under `field`, or `fallback`.
pub open spec fn field_text_or(node: SyntaxNode, field: Seq<char>, source: Seq<u8>, fallback: Seq<char>) -> Seq<char> {
    match crate::syntax::field_child(node, field) {
        Some(child) => text_of(child, source),
        None => fallback,
    }
}

/// The signature of a function: visibility (when asked), modifiers, name,
/// type parameters, parameters (or `()`), return type and where clause,
/// compacted and truncated; none without a name.
pub open spec fn signature_text(node: SyntaxNode, source: Seq<u8>, include_visibility: bool) -> Option<Seq<char>> {
    match crate::syntax::field_child(node, "name"@) {
        None => None,
        Some(name) => {
            let vis = visibility_text(node, source);
            let visibility = if include_visibility && vis.len() > 0 {
                vis + " "@
            } else {
                seq![]
            };
            let modifiers = match kind_child(node, "function_modifiers"@) {
                Some(m) => text_of(m, source) + " "@,
                None => seq![],
            };
            let return_type = match crate::syntax::field_child(node, "return_type"@) {
                Some(r) => " -> "@ + trim(without_arrows(text_of(r, source))),
                None => seq![],
            };
            let where_clause = match kind_child(node, "where_clause"@) {
                Some(w) => " "@ + text_of(w, source),
                None => seq![],
            };
            Some(
                crate::text::truncated(
                    compact(
                        visibility + modifiers + text_of(name, source) + field_text_or(
                            node,
                            "type_parameters"@,
                            source,
                            seq![],
                        ) + field_text_or(node, "parameters"@, source, "()"@) + return_type
                            + where_clause,
                    ),
                    SIGNATURE_LIMIT as nat,
                ),
            )
        },
    }
}

/// See `signature_text`.
fn function_signature(node: &SyntaxNode, source: &[u8], include_visibility: bool) -> (out: Option<String>)
    ensures
        match out {
            Some(s) => signature_text(*node, source@, include_visibility) == Some(s@),
            None => signature_text(*node, source@, include_visibility).is_none(),
        },
{
    let name = child_by_field(node, "name")?;
    let mut text = String::new();
    if include_visibility {
        let vis = visibility(node, source);
        if !vis.as_str().is_empty() {
            text.append(vis.as_str());
            text.append(" ");
        }
    }
    let ghost visibility_part = text@;
    if let Some(modifiers) = find_child(node, "function_modifiers") {
        text.append(node_text(modifiers, source).as_str());
        text.append(" ");
    }
    let ghost modifiers_part = text@;
    text.append(node_text(name, source).as_str());
    append_field(&mut text, node, "type_parameters", source);
    let parameters = crate::entries::text_or(child_by_field(node, "parameters"), "()", source);
    text.append(parameters.as_str());
    let ghost before_return = text@;
    if let Some(return_type) = child_by_field(node, "return_type") {
        text.append(" -> ");
        let stripped = strip_arrows(node_text(return_type, source).as_str());
        text.append(trim_text(stripped.as_str()).as_str());
    }
    let ghost with_return = text@;
    append_direct_child(&mut text, node, "where_clause", source);
    proof {
        let vis = visibility_text(*node, source@);
        let visibility = if include_visibility && vis.len() > 0 {
            vis + " "@
        } else {
            seq![]
        };
        let modifiers = match kind_child(*node, "function_modifiers"@) {
            Some(m) => text_of(m, source@) + " "@,
            None => seq![],
        };
        let return_type = match crate::syntax::field_child(*node, "return_type"@) {
            Some(r) => " -> "@ + trim(without_arrows(text_of(r, source@))),
            None => seq![],
        };
        assert(visibility_part == visibility);
        assert(modifiers_part == visibility + modifiers);
        assert(with_return == before_return + return_type);
    }
    Some(truncate(compact_whitespace(text.as_str()).as_str(), SIGNATURE_LIMIT))
}

/// A macro definition, shown as `name!`.
fn extract_macro(node: &SyntaxNode, source: &[u8]) -> (out: Option<Entry>)
    ensures
        opt_view(out) == macro_view(*node, source@),
{
    let name = child_by_field(node, "name")?;
    let mut text = node_text(name, source);
    text.append("!");
    Some(new_symbol_entry(Section::Macro, node, node_text(name, source), text))
}

/// The source of a declaration, trimmed, without trailing `;` and `,`, and
/// compacted.
pub open spec fn declaration_text(node: SyntaxNode, source: Seq<u8>) -> Seq<char> {
    let raw = lossy_span(source, node.start_byte as int, node.end_byte as int);
    compact(trim(crate::text::trim_end_set(trim(raw), ";,"@)))
}

fn declaration_before(node: &SyntaxNode, source: &[u8]) -> (out: String)
    ensures
        out@ == declaration_text(*node, source@),
{
    let raw = lossy(source, node.start_byte, node.end_byte);
    let chars = chars_of(raw.as_str());
    let trimmed = trim_chars(chars.as_slice());
    let set = chars_of(";,");
    let cut = trim_end_set_chars(trimmed.as_slice(), set.as_slice());
    let again = trim_chars(cut.as_slice());
    let compacted = crate::text::compact_chars(again.as_slice());
    string_of(compacted.as_slice())
}

/// The text of the visibility modifier among the children of `node`, or
/// nothing.
pub open spec fn visibility_text(node: SyntaxNode, source: Seq<u8>) -> Seq<char> {
    match kind_child(node, "visibility_modifier"@) {
        Some(v) => text_of(v, source),
        None => seq![],
    }
}

fn visibility(node: &SyntaxNode, source: &[u8]) -> (out: String)
    ensures
        out@ == visibility_text(*node, source@),
{
    match find_child(node, "visibility_modifier") {
        Some(v) => node_text(v, source),
        None => String::new(),
    }
}

/// Appends the text of the child held under `field`, if there is one.
fn append_field(text: &mut String, node: &SyntaxNode, field: &str, source: &[u8])
    ensures
        final(text)@ == old(text)@ + match crate::syntax::field_child(*node, field@) {
            Some(value) => text_of(value, source@),
            None => seq![],
        },
{
    if let Some(value) = child_by_field(node, field) {
        text.append(node_text(value, source).as_str());
    } else {
        assert(text@ =~= old(text)@ + Seq::<char>::empty());
    }
}

/// Appends a space and the text of the first child of kind `kind`, if there
/// is one.
fn append_direct_child(text: &mut String, node: &SyntaxNode, kind: &str, source: &[u8])
    ensures
        final(text)@ == old(text)@ + match kind_child(*node, kind@) {
            Some(value) => " "@ + text_of(value, source@),
            None => seq![],
        },
{
    if let Some(value) = find_child(node, kind) {
        text.append(" ");
        text.append(node_text(value, source).as_str());
    } else {
        assert(text@ =~= old(text)@ + Seq::<char>::empty());
    }
}

/// Whether the source before the trait of an impl ends with `!`.
fn impl_is_negative(node: &SyntaxNode, trait_node: &SyntaxNode, source: &[u8]) -> (r: bool)
    ensures
        r == has_suffix(
            trim_end(lossy_span(source@, node.start_byte as int, trait_node.start_byte as int)),
            "!"@,
        ),
{
    let raw = lossy(source, node.start_byte, trait_node.start_byte);
    let chars = chars_of(raw.as_str());
    let trimmed = trim_end_chars(chars.as_slice());
    let bang = chars_of("!");
    crate::text::ends_with(trimmed.as_slice(), bang.as_slice())
}

/// The attributes that a type keeps: those that derive or configure.
pub open spec fn relevant(attrs: Seq<Seq<char>>) -> Seq<Seq<char>>
    decreases attrs.len(),
{
    if attrs.len() == 0 {
        seq![]
    } else {
        let rest = relevant(attrs.drop_last());
        let a = attrs.last();
        if contains_seq(a, "derive"@) || contains_seq(a, "cfg"@) {
            rest.push(a)
        } else {
            rest
        }
    }
}

/// See `relevant`.
pub fn relevant_attrs(attrs: &Vec<String>) -> (out: Vec<String>)
    ensures
        texts(out@) == relevant(texts(attrs@)),
{
    let mut out: Vec<String> = Vec::new();
    let mut i: usize = 0;
    while i < attrs.len()
        invariant
            i <= attrs@.len(),
            texts(out@) == relevant(texts(attrs@).take(i as int)),
        decreases attrs@.len() - i,
    {
        assert(texts(attrs@).take(i + 1).drop_last() =~= texts(attrs@).take(i as int));
        let a = attrs[i].as_str();
        if contains_text(a, "derive") || contains_text(a, "cfg") {
            let ghost prev = out@;
            out.push(clone_string(&attrs[i]));
            assert(texts(out@) =~= texts(prev).push(attrs@[i as int]@));
        }
        i = i + 1;
    }
    assert(texts(attrs@).take(i as int) =~= texts(attrs@));
    out
}

} // verus!
