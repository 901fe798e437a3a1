//! The declarations of Python source files.
use crate::entries::{
    child, clone_strings, item_view, named_symbols, new_import_entry, new_symbol_entry, opt_view,
    ranged_child, ranged_symbol_child, ranged_view, split_on, split_text, symbol_child, trim_text,
    truncate_child_count, with_count,
};
use crate::skeleton::{
    child_views, clone_string, entry_views, texts, ChildStyle, ChildV, Entry, EntryV, Section,
    FIELD_TRUNCATE_THRESHOLD,
};
use crate::syntax::{
    child_by_field, field_child, field_is, find_child, first_from, is_field, is_kind, kind_child,
    lossy, named_kind_child, node_text, text_of, SyntaxNode,
};
use crate::text::{compact, compact_whitespace, trim, truncate, truncated};
use vstd::prelude::*;

verus! {

/// Signatures longer than this many bytes are truncated.
pub const SIGNATURE_LIMIT: usize = 160;

/// Values longer than this many bytes are truncated.
pub const VALUE_LIMIT: usize = 60;

/// The sections a top-level Python statement of kind `kind` may give.
pub open spec fn python_sections(kind: Seq<char>, section: Section) -> bool {
    if kind == "import_statement"@ || kind == "import_from_statement"@ || kind
        == "future_import_statement"@ {
        section == Section::Import
    } else if kind == "class_definition"@ {
        section == Section::Class
    } else if kind == "function_definition"@ {
        section == Section::Function
    } else if kind == "decorated_definition"@ {
        section == Section::Class || section == Section::Function
    } else if kind == "expression_statement"@ {
        section == Section::Constant
    } else if kind == "type_alias_statement"@ {
        section == Section::Type
    } else {
        false
    }
}

/// The entry of a function `node` shown with `attrs` and spanning
/// `range_node`: named by its name, shown by its signature.
pub open spec fn function_entry(e: Entry, node: SyntaxNode, range_node: SyntaxNode, source: Seq<u8>, attrs: Seq<Seq<char>>) -> bool {
    &&& signature_text(node, source) is Some
    &&& e.section == Section::Function
    &&& e.line_start == range_node.start_line
    &&& e.line_end == range_node.end_line
    &&& e.text@ == signature_text(node, source)->0
    &&& texts(e.attrs@) == attrs
    &&& e.children@.len() == 0
    &&& e.symbol_name matches Some(n) && n@ == crate::syntax::text_of(
        crate::syntax::field_child(node, "name"@)->0,
        source,
    )
}

/// The paths of the modules an `import` statement names from position `i`
/// on: each dotted name or aliased import, split at dots.
pub open spec fn import_name_paths(node: SyntaxNode, i: int, source: Seq<u8>) -> Seq<
    Seq<Seq<char>>,
>
    decreases node.children@.len() - i,
{
    if i < 0 || i >= node.children@.len() {
        seq![]
    } else {
        let c = node.children@[i];
        let rest = import_name_paths(node, i + 1, source);
        if c.named && (c.kind@ == "dotted_name"@ || c.kind@ == "aliased_import"@) {
            let path = dotted_segments(text_of(c, source));
            if path.len() > 0 {
                seq![path] + rest
            } else {
                rest
            }
        } else {
            rest
        }
    }
}

/// The position of the module of a `from` import among its children, or the
/// number of children when it names none.
pub open spec fn module_position(node: SyntaxNode) -> int {
    match first_from(node.children@, field_is("module_name"@), 0) {
        Some(i) => i,
        None => node.children@.len() as int,
    }
}

/// The paths of the names a `from` import brings in from position `i` on,
/// each after `base`; the child at `module` is the module itself.
pub open spec fn from_paths(node: SyntaxNode, i: int, module: int, base: Seq<Seq<char>>, source: Seq<
    u8,
>) -> Seq<Seq<Seq<char>>>
    decreases node.children@.len() - i,
{
    if i < 0 || i >= node.children@.len() {
        seq![]
    } else {
        let c = node.children@[i];
        let rest = from_paths(node, i + 1, module, base, source);
        if i != module && c.named && (c.kind@ == "dotted_name"@ || c.kind@ == "aliased_import"@
            || c.kind@ == "wildcard_import"@) {
            let part = compact(text_of(c, source));
            if part.len() > 0 {
                seq![base.push(part)] + rest
            } else {
                rest
            }
        } else {
            rest
        }
    }
}

/// The paths an import statement brings in; none for a `from` import
/// without a module.
pub open spec fn import_paths_of(node: SyntaxNode, source: Seq<u8>) -> Option<Seq<Seq<Seq<char>>>> {
    if node.kind@ == "import_statement"@ {
        Some(import_name_paths(node, 0, source))
    } else if node.kind@ == "future_import_statement"@ {
        Some(from_paths(node, 0, module_position(node), seq!["__future__"@], source))
    } else {
        match field_child(node, "module_name"@) {
            Some(module) => Some(
                from_paths(node, 0, module_position(node), dotted_segments(text_of(module, source)), source),
            ),
            None => None,
        }
    }
}

/// The entry of an import statement: its paths, if any.
pub open spec fn import_view(node: SyntaxNode, source: Seq<u8>) -> Option<EntryV> {
    match import_paths_of(node, source) {
        Some(paths) => if paths.len() > 0 {
            Some(
                EntryV {
                    section: Section::Import,
                    symbol_name: None,
                    line_start: node.start_line,
                    line_end: node.end_line,
                    text: seq![],
                    import_paths: paths,
                    import_keyword: None,
                    attrs: seq![],
                    children: seq![],
                    child_style: ChildStyle::Detailed,
                },
            )
        } else {
            None
        },
        None => None,
    }
}

/// `result`, then the decorators of `node` from position `i` on, compacted,
/// each unless it is already there.
pub open spec fn decorators_from(result: Seq<Seq<char>>, node: SyntaxNode, i: int, source: Seq<u8>) -> Seq<
    Seq<char>,
>
    decreases node.children@.len() - i,
{
    if i < 0 || i >= node.children@.len() {
        result
    } else {
        let c = node.children@[i];
        if c.named && c.kind@ == "decorator"@ {
            let d = compact(text_of(c, source));
            if result.contains(d) {
                decorators_from(result, node, i + 1, source)
            } else {
                decorators_from(result.push(d), node, i + 1, source)
            }
        } else {
            decorators_from(result, node, i + 1, source)
        }
    }
}

/// The header of a class: its name, type parameters and bases.
pub open spec fn class_header(node: SyntaxNode, name: SyntaxNode, source: Seq<u8>) -> Seq<char> {
    truncated(
        compact(
            text_of(name, source) + field_text_or(node, "type_parameters"@, source, seq![])
                + field_text_or(node, "superclasses"@, source, seq![]),
        ),
        SIGNATURE_LIMIT as nat,
    )
}

/// The members a method adds to its class: its decorators, then its ranged
/// signature, each marked as the method's; none without a name.
pub open spec fn method_children(function: SyntaxNode, attrs: Seq<Seq<char>>, source: Seq<u8>) -> Seq<
    ChildV,
> {
    match field_child(function, "name"@) {
        None => seq![],
        Some(n) => {
            let name = text_of(n, source);
            Seq::new(
                attrs.len(),
                |k: int| ChildV { text: attrs[k], range: None, symbol_name: Some(name) },
            ) + match signature_text(function, source) {
                Some(signature) => seq![
                    ChildV {
                        text: signature,
                        range: Some((function.start_line, function.end_line)),
                        symbol_name: Some(name),
                    },
                ],
                None => seq![],
            }
        },
    }
}

/// The method a decorated class member wraps.
pub open spec fn wrapped_method(member: SyntaxNode) -> Option<SyntaxNode> {
    match field_child(member, "definition"@) {
        Some(d) => if d.kind@ == "function_definition"@ {
            Some(d)
        } else {
            kind_child(member, "function_definition"@)
        },
        None => kind_child(member, "function_definition"@),
    }
}

/// The members a decorated class member adds: those of the method it wraps,
/// with its decorators.
pub open spec fn decorated_method_children(member: SyntaxNode, source: Seq<u8>) -> Seq<ChildV> {
    match wrapped_method(member) {
        Some(f) => method_children(f, decorators_from(seq![], member, 0, source), source),
        None => seq![],
    }
}

/// The node itself when it is an assignment, else its first named child
/// that is one.
pub open spec fn assignment_of(node: SyntaxNode) -> Option<SyntaxNode> {
    if node.kind@ == "assignment"@ {
        Some(node)
    } else {
        named_kind_child(node, "assignment"@)
    }
}

/// An assignment as `name[: type][ = value]`, the value truncated, the
/// whole compacted and truncated; none unless the target is a plain
/// identifier (an upper-case one when `constants_only`).
pub open spec fn assignment_line(node: SyntaxNode, source: Seq<u8>, include_type: bool, constants_only: bool) -> Option<
    Seq<char>,
> {
    match field_child(node, "left"@) {
        None => None,
        Some(left) => {
            let name = text_of(left, source);
            if left.kind@ != "identifier"@ || (constants_only && (name.len() == 0 || !constant_name(
                name,
            ))) {
                None
            } else {
                let typed = if include_type {
                    match field_child(node, "type"@) {
                        Some(t) => ": "@ + text_of(t, source),
                        None => seq![],
                    }
                } else {
                    seq![]
                };
                let value = match field_child(node, "right"@) {
                    Some(v) => " = "@ + truncated(compact(text_of(v, source)), VALUE_LIMIT as nat),
                    None => seq![],
                };
                Some(truncated(compact(name + typed + value), SIGNATURE_LIMIT as nat))
            }
        },
    }
}

/// `type Left = Right`, the value truncated, the whole compacted and
/// truncated; none without both sides.
pub open spec fn type_alias_line(node: SyntaxNode, source: Seq<u8>) -> Option<Seq<char>> {
    match (field_child(node, "left"@), field_child(node, "right"@)) {
        (Some(left), Some(right)) => Some(
            truncated(
                compact(
                    "type "@ + text_of(left, source) + " = "@ + truncated(
                        compact(text_of(right, source)),
                        VALUE_LIMIT as nat,
                    ),
                ),
                SIGNATURE_LIMIT as nat,
            ),
        ),
        _ => None,
    }
}

/// Whether a class member counts as a field: an assignment to a plain
/// identifier, or a type alias.
pub open spec fn counts_field(m: SyntaxNode, source: Seq<u8>) -> bool {
    m.named && ((m.kind@ == "expression_statement"@ && (assignment_of(m) matches Some(a)
        && assignment_line(a, source, true, false) is Some)) || m.kind@ == "type_alias_statement"@)
}

/// The members one member of a class body adds after `count` fields: a
/// method (with its decorators), or a field or type alias, ranged, while
/// there are no more than the threshold.
pub open spec fn member_children(m: SyntaxNode, count: nat, source: Seq<u8>) -> Seq<ChildV> {
    if !m.named {
        seq![]
    } else if m.kind@ == "function_definition"@ {
        method_children(m, seq![], source)
    } else if m.kind@ == "decorated_definition"@ {
        decorated_method_children(m, source)
    } else if m.kind@ == "expression_statement"@ {
        match assignment_of(m) {
            Some(a) => match assignment_line(a, source, true, false) {
                Some(t) => if count + 1 <= FIELD_TRUNCATE_THRESHOLD {
                    seq![ranged_view(t, a)]
                } else {
                    seq![]
                },
                None => seq![],
            },
            None => seq![],
        }
    } else if m.kind@ == "type_alias_statement"@ {
        if count + 1 <= FIELD_TRUNCATE_THRESHOLD {
            match type_alias_line(m, source) {
                Some(t) => seq![ranged_view(t, m)],
                None => seq![],
            }
        } else {
            seq![]
        }
    } else {
        seq![]
    }
}

/// The members of a class body from position `i` on, after `count` fields.
pub open spec fn class_members(body: SyntaxNode, i: int, count: nat, source: Seq<u8>) -> Seq<ChildV>
    decreases body.children@.len() - i,
{
    if i < 0 || i >= body.children@.len() {
        seq![]
    } else {
        let m = body.children@[i];
        member_children(m, count, source) + class_members(
            body,
            i + 1,
            if counts_field(m, source) {
                count + 1
            } else {
                count
            },
            source,
        )
    }
}

/// The number of fields and type aliases of a class body from position `i`
/// on.
pub open spec fn class_field_count(body: SyntaxNode, i: int, source: Seq<u8>) -> nat
    decreases body.children@.len() - i,
{
    if i < 0 || i >= body.children@.len() {
        0
    } else if counts_field(body.children@[i], source) {
        class_field_count(body, i + 1, source) + 1
    } else {
        class_field_count(body, i + 1, source)
    }
}

/// The entry of a class with `attrs`, spanning `range_node`: its header,
/// methods and first fields.
pub open spec fn class_view(node: SyntaxNode, range_node: SyntaxNode, attrs: Seq<Seq<char>>, source: Seq<
    u8,
>) -> Option<EntryV> {
    match (field_child(node, "name"@), field_child(node, "body"@)) {
        (Some(name), Some(body)) => Some(
            item_view(
                Section::Class,
                range_node,
                text_of(name, source),
                class_header(node, name, source),
                attrs,
                with_count(class_members(body, 0, 0, source), class_field_count(body, 0, source)),
                ChildStyle::Detailed,
            ),
        ),
        _ => None,
    }
}

/// The entry of a function with `attrs`, spanning `range_node`.
pub open spec fn function_view(node: SyntaxNode, range_node: SyntaxNode, attrs: Seq<Seq<char>>, source: Seq<
    u8,
>) -> Option<EntryV> {
    match (field_child(node, "name"@), signature_text(node, source)) {
        (Some(name), Some(signature)) => Some(
            item_view(
                Section::Function,
                range_node,
                text_of(name, source),
                signature,
                attrs,
                seq![],
                ChildStyle::Detailed,
            ),
        ),
        _ => None,
    }
}

/// The definition a decorated definition wraps.
pub open spec fn decorated_definition_of(node: SyntaxNode) -> Option<SyntaxNode> {
    match field_child(node, "definition"@) {
        Some(d) => Some(d),
        None => match kind_child(node, "class_definition"@) {
            Some(c) => Some(c),
            None => kind_child(node, "function_definition"@),
        },
    }
}

/// The entry of a decorated class or function, with `attrs` and its
/// decorators, spanning the whole decorated definition.
pub open spec fn decorated_view(node: SyntaxNode, attrs: Seq<Seq<char>>, source: Seq<u8>) -> Option<
    EntryV,
> {
    match decorated_definition_of(node) {
        Some(d) => {
            let all = decorators_from(attrs, node, 0, source);
            if d.kind@ == "class_definition"@ {
                class_view(d, node, all, source)
            } else if d.kind@ == "function_definition"@ {
                function_view(d, node, all, source)
            } else {
                None
            }
        },
        None => None,
    }
}

/// The entry of a module-level assignment to an upper-case name.
pub open spec fn constant_view(node: SyntaxNode, source: Seq<u8>) -> Option<EntryV> {
    match assignment_of(node) {
        Some(a) => match (field_child(a, "left"@), assignment_line(a, source, false, true)) {
            (Some(left), Some(text)) => Some(
                item_view(
                    Section::Constant,
                    a,
                    text_of(left, source),
                    text,
                    seq![],
                    seq![],
                    ChildStyle::Detailed,
                ),
            ),
            _ => None,
        },
        None => None,
    }
}

/// The text of the first identifier in `node`, searched depth first.
pub open spec fn first_identifier_in(node: SyntaxNode, source: Seq<u8>) -> Option<Seq<char>>
    decreases node, 1int, 0int,
{
    if node.kind@ == "identifier"@ {
        Some(text_of(node, source))
    } else {
        first_identifier_among(node, 0, source)
    }
}

/// The first identifier in the named children of `node` from position `i`
/// on.
pub open spec fn first_identifier_among(node: SyntaxNode, i: int, source: Seq<u8>) -> Option<Seq<char>>
    decreases node, 0int, node.children@.len() - i,
{
    if i < 0 || i >= node.children@.len() {
        None
    } else if node.children@[i].named && first_identifier_in(node.children@[i], source) is Some {
        first_identifier_in(node.children@[i], source)
    } else {
        first_identifier_among(node, i + 1, source)
    }
}

/// The entry of a `type` statement, named by the first identifier it
/// defines.
pub open spec fn type_alias_view(node: SyntaxNode, source: Seq<u8>) -> Option<EntryV> {
    match field_child(node, "left"@) {
        Some(left) => match (first_identifier_in(left, source), type_alias_line(node, source)) {
            (Some(name), Some(text)) => Some(
                item_view(Section::Type, node, name, text, seq![], seq![], ChildStyle::Detailed),
            ),
            _ => None,
        },
        None => None,
    }
}

/// The entry of a top-level Python statement, with `attrs` that apply to
/// it.
pub open spec fn python_entry(node: SyntaxNode, source: Seq<u8>, attrs: Seq<Seq<char>>) -> Option<
    EntryV,
> {
    let kind = node.kind@;
    if kind == "import_statement"@ || kind == "import_from_statement"@ || kind
        == "future_import_statement"@ {
        import_view(node, source)
    } else if kind == "class_definition"@ {
        class_view(node, node, attrs, source)
    } else if kind == "function_definition"@ {
        function_view(node, node, attrs, source)
    } else if kind == "decorated_definition"@ {
        decorated_view(node, attrs, source)
    } else if kind == "expression_statement"@ {
        constant_view(node, source)
    } else if kind == "type_alias_statement"@ {
        type_alias_view(node, source)
    } else {
        None
    }
}

/// The entries of one top-level Python statement; `attrs` are attributes
/// that apply to it. The statement gives the entry that `python_entry`
/// describes, if any: a function definition, for one, is shown by its
/// signature when it has a name.
pub fn extract(node: &SyntaxNode, source: &[u8], attrs: &Vec<String>) -> (out: Vec<Entry>)
    ensures
        out@.len() <= 1,
        forall|i: int|
            0 <= i < out@.len() ==> python_sections(node.kind@, (#[trigger] out@[i]).section),
        named_symbols(out@),
        node.kind@ == "function_definition"@ ==> (out@.len() == 1 <==> signature_text(*node, source@)
            is Some) && (out@.len() == 1 ==> function_entry(out@[0], *node, *node, source@, texts(attrs@))),
        entry_views(out@) == match python_entry(*node, source@, texts(attrs@)) {
            Some(e) => seq![e],
            None => seq![],
        },
{
    proof {
        reveal_strlit("import_statement");
        reveal_strlit("import_from_statement");
        reveal_strlit("future_import_statement");
        reveal_strlit("class_definition");
        reveal_strlit("function_definition");
        assert("import_statement"@.len() == 16 && "import_from_statement"@.len() == 21);
        assert("future_import_statement"@.len() == 23 && "class_definition"@.len() == 16);
        assert("function_definition"@.len() == 19);
    }
    let entry = if is_kind(node, "import_statement") || is_kind(node, "import_from_statement")
        || is_kind(node, "future_import_statement") {
        extract_import(node, source)
    } else if is_kind(node, "class_definition") {
        extract_class(node, source, node, attrs)
    } else if is_kind(node, "function_definition") {
        extract_function(node, source, node, attrs)
    } else if is_kind(node, "decorated_definition") {
        extract_decorated(node, source, attrs)
    } else if is_kind(node, "expression_statement") {
        extract_constant_statement(node, source)
    } else if is_kind(node, "type_alias_statement") {
        extract_type_alias(node, source)
    } else {
        None
    };
    assert(opt_view(entry) == python_entry(*node, source@, texts(attrs@)));
    let mut out: Vec<Entry> = Vec::new();
    if let Some(e) = entry {
        out.push(e);
    }
    assert(entry_views(out@) =~= match opt_view(entry) {
        Some(e) => seq![e],
        None => seq![],
    });
    out
}

/// An import statement, with the paths it brings in (see `import_view`).
fn extract_import(node: &SyntaxNode, source: &[u8]) -> (out: Option<Entry>)
    ensures
        opt_view(out) == import_view(*node, source@),
{
    let paths = if is_kind(node, "import_statement") {
        let mut paths: Vec<Vec<String>> = Vec::new();
        let mut i: usize = 0;
        while i < node.children.len()
            invariant
                i <= node.children@.len(),
                crate::rust::path_views(paths@) + import_name_paths(*node, i as int, source@)
                    == import_name_paths(*node, 0, source@),
            decreases node.children@.len() - i,
        {
            let c = &node.children[i];
            let ghost before = paths@;
            let ghost rest = import_name_paths(*node, i + 1, source@);
            if c.named && (is_kind(c, "dotted_name") || is_kind(c, "aliased_import")) {
                let path = segmented_path(node_text(c, source).as_str());
                if path.len() > 0 {
                    let ghost shown = texts(path@);
                    paths.push(path);
                    assert(crate::rust::path_views(paths@) == crate::rust::path_views(before).push(
                        shown,
                    ));
                    assert(crate::rust::path_views(before) + (seq![shown] + rest)
                        == crate::rust::path_views(before).push(shown) + rest);
                }
            }
            i = i + 1;
        }
        assert(crate::rust::path_views(paths@) + Seq::<Seq<Seq<char>>>::empty()
            == crate::rust::path_views(paths@));
        paths
    } else if is_kind(node, "future_import_statement") {
        let mut base: Vec<String> = Vec::new();
        base.push(String::from_str("__future__"));
        assert(texts(base@) == seq!["__future__"@]);
        from_import_paths(node, source, &base)
    } else {
        let module = child_by_field(node, "module_name")?;
        let base = segmented_path(node_text(module, source).as_str());
        from_import_paths(node, source, &base)
    };
    if paths.len() > 0 {
        let e = new_import_entry(node, paths);
        assert(e@.import_paths =~= crate::rust::path_views(e.import_paths@));
        assert(e@.attrs =~= seq![]);
        assert(e@.children =~= seq![]);
        assert(e@.text =~= seq![]);
        Some(e)
    } else {
        None
    }
}

/// See `module_position`.
fn module_index(node: &SyntaxNode) -> (r: usize)
    ensures
        r == module_position(*node),
{
    let mut m: usize = 0;
    while m < node.children.len()
        invariant
            m <= node.children@.len(),
            first_from(node.children@, field_is("module_name"@), 0) == first_from(
                node.children@,
                field_is("module_name"@),
                m as int,
            ),
        decreases node.children@.len() - m,
    {
        if is_field(&node.children[m], "module_name") {
            return m;
        }
        m = m + 1;
    }
    node.children.len()
}

/// The names a `from` import brings in, each after `base` (see
/// `from_paths`).
fn from_import_paths(node: &SyntaxNode, source: &[u8], base: &Vec<String>) -> (out: Vec<Vec<String>>)
    ensures
        crate::rust::path_views(out@) == from_paths(
            *node,
            0,
            module_position(*node),
            texts(base@),
            source@,
        ),
{
    let module = module_index(node);
    let mut out: Vec<Vec<String>> = Vec::new();
    let mut i: usize = 0;
    while i < node.children.len()
        invariant
            i <= node.children@.len(),
            module == module_position(*node),
            crate::rust::path_views(out@) + from_paths(
                *node,
                i as int,
                module as int,
                texts(base@),
                source@,
            ) == from_paths(*node, 0, module as int, texts(base@), source@),
        decreases node.children@.len() - i,
    {
        let c = &node.children[i];
        let ghost before = out@;
        let ghost rest = from_paths(*node, i + 1, module as int, texts(base@), source@);
        if i != module && c.named && (is_kind(c, "dotted_name") || is_kind(c, "aliased_import")
            || is_kind(c, "wildcard_import")) {
            let part = compact_whitespace(node_text(c, source).as_str());
            if !part.as_str().is_empty() {
                let mut path = clone_strings(base);
                let ghost p = part@;
                path.push(part);
                assert(texts(path@) == texts(base@).push(p));
                out.push(path);
                assert(crate::rust::path_views(out@) == crate::rust::path_views(before).push(
                    texts(base@).push(p),
                ));
                assert(crate::rust::path_views(before) + (seq![texts(base@).push(p)] + rest)
                    == crate::rust::path_views(before).push(texts(base@).push(p)) + rest);
            }
        }
        i = i + 1;
    }
    assert(crate::rust::path_views(out@) + Seq::<Seq<Seq<char>>>::empty()
        == crate::rust::path_views(out@));
    out
}

/// The compacted, non-empty parts of `parts`, each trimmed first.
pub open spec fn compact_parts(parts: Seq<Seq<char>>) -> Seq<Seq<char>>
    decreases parts.len(),
{
    if parts.len() == 0 {
        seq![]
    } else {
        let rest = compact_parts(parts.drop_last());
        let part = compact(trim(parts.last()));
        if part.len() > 0 {
            rest.push(part)
        } else {
            rest
        }
    }
}

/// The segments of a dotted path: the compacted, non-empty parts between
/// dots.
pub open spec fn dotted_segments(value: Seq<char>) -> Seq<Seq<char>> {
    compact_parts(split_text(value, '.'))
}

/// See `dotted_segments`.
pub fn segmented_path(value: &str) -> (out: Vec<String>)
    ensures
        texts(out@) == dotted_segments(value@),
{
    let parts = split_on(value, '.');
    let mut out: Vec<String> = Vec::new();
    let mut i: usize = 0;
    while i < parts.len()
        invariant
            i <= parts@.len(),
            texts(out@) == compact_parts(texts(parts@).take(i as int)),
        decreases parts@.len() - i,
    {
        assert(texts(parts@).take(i + 1).drop_last() =~= texts(parts@).take(i as int));
        let trimmed = trim_text(parts[i].as_str());
        let part = compact_whitespace(trimmed.as_str());
        if !part.as_str().is_empty() {
            let ghost prev = out@;
            out.push(part);
            assert(texts(out@) =~= texts(prev).push(compact(trim(parts@[i as int]@))));
        }
        i = i + 1;
    }
    assert(texts(parts@).take(i as int) =~= texts(parts@));
    out
}

/// The definition a decorated definition wraps.
fn decorated_target(node: &SyntaxNode) -> (r: Option<&SyntaxNode>)
    ensures
        match crate::syntax::field_child(*node, "definition"@) {
            Some(d) => r == Some(&d),
            None => match crate::syntax::kind_child(*node, "class_definition"@) {
                Some(c) => r == Some(&c),
                None => (match r {
                    Some(f) => Some(*f),
                    None => None,
                }) == crate::syntax::kind_child(*node, "function_definition"@),
            },
        },
{
    if let Some(d) = child_by_field(node, "definition") {
        return Some(d);
    }
    if let Some(d) = find_child(node, "class_definition") {
        return Some(d);
    }
    find_child(node, "function_definition")
}

/// A decorated class or function, with its decorators.
fn extract_decorated(node: &SyntaxNode, source: &[u8], attrs: &Vec<String>) -> (out: Option<Entry>)
    ensures
        opt_view(out) == decorated_view(*node, texts(attrs@), source@),
{
    let definition = decorated_target(node)?;
    let all = decorators(attrs, node, source);
    if is_kind(definition, "class_definition") {
        extract_class(definition, source, node, &all)
    } else if is_kind(definition, "function_definition") {
        extract_function(definition, source, node, &all)
    } else {
        None
    }
}

/// See `wrapped_method`.
fn decorated_method(member: &SyntaxNode) -> (out: Option<&SyntaxNode>)
    ensures
        match out {
            Some(f) => wrapped_method(*member) == Some(*f),
            None => wrapped_method(*member) is None,
        },
{
    if let Some(d) = child_by_field(member, "definition") {
        if is_kind(d, "function_definition") {
            return Some(d);
        }
    }
    find_child(member, "function_definition")
}

/// A class: its name, type parameters and bases; its methods and fields
/// (see `class_view`).
fn extract_class(node: &SyntaxNode, source: &[u8], range_node: &SyntaxNode, attrs: &Vec<String>) -> (out: Option<Entry>)
    ensures
        opt_view(out) == class_view(*node, *range_node, texts(attrs@), source@),
{
    let name = child_by_field(node, "name")?;
    let body = child_by_field(node, "body")?;
    let mut signature = node_text(name, source);
    append_field(&mut signature, node, "type_parameters", source);
    append_field(&mut signature, node, "superclasses", source);
    let text = truncate(compact_whitespace(signature.as_str()).as_str(), SIGNATURE_LIMIT);
    let mut entry = new_symbol_entry(Section::Class, range_node, node_text(name, source), text);
    entry.attrs = clone_strings(attrs);
    let ghost start = entry@;
    assert(child_views(entry.children@) == Seq::<ChildV>::empty());
    let mut field_count: usize = 0;
    let mut i: usize = 0;
    while i < body.children.len()
        invariant
            field_count <= i <= body.children@.len(),
            child_views(entry.children@) + class_members(*body, i as int, field_count as nat, source@)
                == class_members(*body, 0, 0, source@),
            field_count + class_field_count(*body, i as int, source@) == class_field_count(
                *body,
                0,
                source@,
            ),
            entry@ == start.with_children(child_views(entry.children@)),
        decreases body.children@.len() - i,
    {
        let member = &body.children[i];
        let ghost before = child_views(entry.children@);
        let ghost added = member_children(*member, field_count as nat, source@);
        let next = add_member(&mut entry, member, field_count, source);
        assert(before + (added + class_members(*body, i + 1, next as nat, source@)) == before + added
            + class_members(*body, i + 1, next as nat, source@));
        field_count = next;
        i = i + 1;
    }
    assert(child_views(entry.children@) + Seq::<ChildV>::empty() == child_views(entry.children@));
    truncate_child_count(&mut entry.children, field_count);
    Some(entry)
}

/// Adds what one member of a class body shows (see `member_children`), and
/// gives the number of fields after it.
fn add_member(entry: &mut Entry, member: &SyntaxNode, count: usize, source: &[u8]) -> (next: usize)
    requires
        count < usize::MAX,
    ensures
        final(entry)@ == old(entry)@.with_children(
            child_views(old(entry).children@) + member_children(*member, count as nat, source@),
        ),
        next == if counts_field(*member, source@) {
            count + 1
        } else {
            count as int
        },
{
    proof {
        reveal_strlit("function_definition");
        reveal_strlit("decorated_definition");
        reveal_strlit("expression_statement");
        reveal_strlit("type_alias_statement");
        assert("function_definition"@.len() == 19 && "decorated_definition"@.len() == 20);
        assert("expression_statement"@.len() == 20 && "type_alias_statement"@.len() == 20);
        assert("decorated_definition"@[0] == 'd' && "expression_statement"@[0] == 'e');
        assert("type_alias_statement"@[0] == 't');
    }
    let ghost before = child_views(entry.children@);
    if !member.named {
        assert(before + Seq::<ChildV>::empty() == before);
        return count;
    }
    if is_kind(member, "function_definition") {
        let none: Vec<String> = Vec::new();
        assert(texts(none@) == Seq::<Seq<char>>::empty());
        push_method(entry, member, source, &none);
        count
    } else if is_kind(member, "decorated_definition") {
        if let Some(function) = decorated_method(member) {
            let none: Vec<String> = Vec::new();
            assert(texts(none@) == Seq::<Seq<char>>::empty());
            let method_attrs = decorators(&none, member, source);
            push_method(entry, function, source, &method_attrs);
        } else {
            assert(before + Seq::<ChildV>::empty() == before);
        }
        count
    } else if is_kind(member, "expression_statement") {
        if let Some(assignment) = assignment_child(member) {
            if let Some(text) = assignment_text(assignment, source, true, false) {
                if count + 1 <= FIELD_TRUNCATE_THRESHOLD {
                    entry.children.push(ranged_child(text, assignment));
                    assert(child_views(entry.children@) == before + seq![
                        ranged_view(text@, *assignment),
                    ]);
                } else {
                    assert(before + Seq::<ChildV>::empty() == before);
                }
                return count + 1;
            }
        }
        assert(before + Seq::<ChildV>::empty() == before);
        count
    } else if is_kind(member, "type_alias_statement") {
        if count + 1 <= FIELD_TRUNCATE_THRESHOLD {
            if let Some(text) = type_alias_text(member, source) {
                entry.children.push(ranged_child(text, member));
                assert(child_views(entry.children@) == before + seq![ranged_view(text@, *member)]);
            } else {
                assert(before + Seq::<ChildV>::empty() == before);
            }
        } else {
            assert(before + Seq::<ChildV>::empty() == before);
        }
        count + 1
    } else {
        assert(before + Seq::<ChildV>::empty() == before);
        count
    }
}

/// Adds a method: its decorators, then its ranged signature, each marked as
/// belonging to the method (see `method_children`).
fn push_method(entry: &mut Entry, function: &SyntaxNode, source: &[u8], attrs: &Vec<String>)
    ensures
        final(entry)@ == old(entry)@.with_children(
            child_views(old(entry).children@) + method_children(*function, texts(attrs@), source@),
        ),
{
    let name = match child_by_field(function, "name") {
        Some(n) => node_text(n, source),
        None => {
            assert(child_views(entry.children@) + Seq::<ChildV>::empty() == child_views(entry.children@));
            return;
        },
    };
    let ghost start = child_views(entry.children@);
    let mut i: usize = 0;
    while i < attrs.len()
        invariant
            i <= attrs@.len(),
            child_views(entry.children@) == start + Seq::new(
                i as nat,
                |k: int| ChildV { text: texts(attrs@)[k], range: None, symbol_name: Some(name@) },
            ),
            entry@ == old(entry)@.with_children(child_views(entry.children@)),
        decreases attrs@.len() - i,
    {
        let ghost before = child_views(entry.children@);
        entry.children.push(symbol_child(clone_string(&attrs[i]), clone_string(&name)));
        assert(child_views(entry.children@) == before.push(entry.children@.last()@));
        assert(texts(attrs@)[i as int] == attrs@[i as int]@);
        assert(Seq::new(
            (i + 1) as nat,
            |k: int| ChildV { text: texts(attrs@)[k], range: None, symbol_name: Some(name@) },
        ) == Seq::new(
            i as nat,
            |k: int| ChildV { text: texts(attrs@)[k], range: None, symbol_name: Some(name@) },
        ).push(ChildV { text: texts(attrs@)[i as int], range: None, symbol_name: Some(name@) }));
        i = i + 1;
    }
    let ghost with_attrs = child_views(entry.children@);
    let ghost marks = Seq::new(
        attrs@.len(),
        |k: int| ChildV { text: texts(attrs@)[k], range: None, symbol_name: Some(name@) },
    );
    assert(with_attrs == start + marks);
    if let Some(signature) = function_signature(function, source) {
        entry.children.push(ranged_symbol_child(signature, function, name));
        let ghost tail = seq![entry.children@.last()@];
        assert(child_views(entry.children@) == with_attrs + tail);
        assert(start + (marks + tail) == start + marks + tail);
    } else {
        assert(child_views(entry.children@) == with_attrs + Seq::<ChildV>::empty());
        assert(start + (marks + Seq::<ChildV>::empty()) == start + marks);
    }
}

/// A function, with its decorators.
fn extract_function(node: &SyntaxNode, source: &[u8], range_node: &SyntaxNode, attrs: &Vec<String>) -> (out: Option<Entry>)
    ensures
        out is Some <==> signature_text(*node, source@) is Some,
        out matches Some(e) ==> function_entry(e, *node, *range_node, source@, texts(attrs@)),
        opt_view(out) == function_view(*node, *range_node, texts(attrs@), source@),
{
    let name = child_by_field(node, "name")?;
    let signature = function_signature(node, source)?;
    let mut entry = new_symbol_entry(Section::Function, range_node, node_text(name, source), signature);
    entry.attrs = clone_strings(attrs);
    assert(entry@.attrs == texts(attrs@));
    Some(entry)
}

/// The text of the child of `node` held under `field`, or `fallback`.
pub open spec fn field_text_or(node: SyntaxNode, field: Seq<char>, source: Seq<u8>, fallback: Seq<char>) -> Seq<char> {
    match crate::syntax::field_child(node, field) {
        Some(child) => crate::syntax::text_of(child, source),
        None => fallback,
    }
}

/// The signature of a function: `async` when that word comes before the
/// name, then the name, type parameters, parameters (or `()`) and return
/// type, compacted and truncated; none without a name.
pub open spec fn signature_text(node: SyntaxNode, source: Seq<u8>) -> Option<Seq<char>> {
    match crate::syntax::field_child(node, "name"@) {
        None => None,
        Some(name) => {
            let before = crate::syntax::lossy_span(source, node.start_byte as int, name.start_byte as int);
            let prefix = if crate::entries::has_word(before, "async"@) {
                "async "@
            } else {
                seq![]
            };
            let return_type = match crate::syntax::field_child(node, "return_type"@) {
                Some(r) => " -> "@ + crate::syntax::text_of(r, source),
                None => seq![],
            };
            Some(
                crate::text::truncated(
                    compact(
                        prefix + crate::syntax::text_of(name, source) + field_text_or(
                            node,
                            "type_parameters"@,
                            source,
                            seq![],
                        ) + field_text_or(node, "parameters"@, source, "()"@) + return_type,
                    ),
                    SIGNATURE_LIMIT as nat,
                ),
            )
        },
    }
}

/// See `signature_text`.
fn function_signature(node: &SyntaxNode, source: &[u8]) -> (out: Option<String>)
    ensures
        match out {
            Some(s) => signature_text(*node, source@) == Some(s@),
            None => signature_text(*node, source@).is_none(),
        },
{
    let name = child_by_field(node, "name")?;
    let mut signature = String::new();
    let prefix = lossy(source, node.start_byte, name.start_byte);
    if crate::entries::contains_word(prefix.as_str(), "async") {
        signature.append("async ");
    }
    signature.append(node_text(name, source).as_str());
    append_field(&mut signature, node, "type_parameters", source);
    let parameters = crate::entries::text_or(child_by_field(node, "parameters"), "()", source);
    signature.append(parameters.as_str());
    let ghost before_return = signature@;
    if let Some(return_type) = child_by_field(node, "return_type") {
        signature.append(" -> ");
        signature.append(node_text(return_type, source).as_str());
    }
    proof {
        let return_type = match crate::syntax::field_child(*node, "return_type"@) {
            Some(r) => " -> "@ + crate::syntax::text_of(r, source@),
            None => seq![],
        };
        assert(signature@ == before_return + return_type);
    }
    Some(truncate(compact_whitespace(signature.as_str()).as_str(), SIGNATURE_LIMIT))
}

/// A module-level assignment to an upper-case name.
fn extract_constant_statement(node: &SyntaxNode, source: &[u8]) -> (out: Option<Entry>)
    ensures
        opt_view(out) == constant_view(*node, source@),
{
    let assignment = assignment_child(node)?;
    let name = child_by_field(assignment, "left")?;
    let text = assignment_text(assignment, source, false, true)?;
    Some(new_symbol_entry(Section::Constant, assignment, node_text(name, source), text))
}

/// See `assignment_of`.
fn assignment_child(node: &SyntaxNode) -> (out: Option<&SyntaxNode>)
    ensures
        match out {
            Some(a) => assignment_of(*node) == Some(*a),
            None => assignment_of(*node) is None,
        },
{
    if is_kind(node, "assignment") {
        return Some(node);
    }
    crate::syntax::find_named_child(node, "assignment")
}

/// A module-level assignment is listed only as a constant, and only when its
/// target is a non-empty name made of ASCII capitals and `_`: an assignment
/// to a name with a lower-case letter gives no entry.
pub proof fn lemma_constants_are_capitalised(node: SyntaxNode, source: Seq<u8>, attrs: Seq<Seq<char>>)
    requires
        node.kind@ == "expression_statement"@,
    ensures
        python_entry(node, source, attrs) matches Some(e) ==> {
            &&& e.section == Section::Constant
            &&& e.symbol_name matches Some(name)
            &&& name.len() > 0
            &&& forall|k: int| 0 <= k < name.len() ==> name[k] == '_' || ('A' <= #[trigger] name[k] <= 'Z')
        },
        forall|k: int|
            0 <= k < constant_target(node, source).len() && 'a' <= #[trigger] constant_target(node, source)[k] <= 'z'
            ==> python_entry(node, source, attrs) is None,
{
    reveal_strlit("expression_statement");
    reveal_strlit("import_statement");
    reveal_strlit("import_from_statement");
    reveal_strlit("future_import_statement");
    reveal_strlit("class_definition");
    reveal_strlit("function_definition");
    reveal_strlit("decorated_definition");
    assert(node.kind@[0] == 'e');
    assert(python_entry(node, source, attrs) == constant_view(node, source));
}

/// The text of the target of the assignment in a statement, if it has one.
pub open spec fn constant_target(node: SyntaxNode, source: Seq<u8>) -> Seq<char> {
    match assignment_of(node) {
        Some(a) => match field_child(a, "left"@) {
            Some(left) => text_of(left, source),
            None => seq![],
        },
        None => seq![],
    }
}

/// Whether every character is `_` or an ASCII capital.
pub open spec fn constant_name(name: Seq<char>) -> bool {
    forall|k: int| 0 <= k < name.len() ==> name[k] == '_' || ('A' <= #[trigger] name[k] <= 'Z')
}

fn is_constant_name(name: &str) -> (r: bool)
    ensures
        r == constant_name(name@),
{
    let chars = crate::text::chars_of(name);
    let mut i: usize = 0;
    while i < chars.len()
        invariant
            chars@ == name@,
            i <= chars@.len(),
            forall|k: int| 0 <= k < i ==> name@[k] == '_' || ('A' <= #[trigger] name@[k] <= 'Z'),
        decreases chars@.len() - i,
    {
        let c = chars[i];
        if !(c == '_' || ('A' <= c && c <= 'Z')) {
            return false;
        }
        i = i + 1;
    }
    true
}

/// An assignment as `name[: type][ = value]`; `None` unless the target is a
/// plain identifier (an upper-case one when `constants_only`).
fn assignment_text(node: &SyntaxNode, source: &[u8], include_type: bool, constants_only: bool) -> (out: Option<String>)
    ensures
        match out {
            Some(t) => assignment_line(*node, source@, include_type, constants_only) == Some(t@),
            None => assignment_line(*node, source@, include_type, constants_only) is None,
        },
{
    let left = child_by_field(node, "left")?;
    let name = node_text(left, source);
    if !is_kind(left, "identifier") || (constants_only && (name.as_str().is_empty()
        || !is_constant_name(name.as_str()))) {
        return None;
    }
    let mut text = clone_string(&name);
    if include_type {
        if let Some(type_node) = child_by_field(node, "type") {
            text.append(": ");
            text.append(node_text(type_node, source).as_str());
            assert(text@ == name@ + (": "@ + text_of(*type_node, source@)));
        } else {
            assert(text@ == name@ + Seq::<char>::empty());
        }
    } else {
        assert(text@ == name@ + Seq::<char>::empty());
    }
    let ghost typed = text@;
    if let Some(value) = child_by_field(node, "right") {
        text.append(" = ");
        let compacted = compact_whitespace(node_text(value, source).as_str());
        text.append(truncate(compacted.as_str(), VALUE_LIMIT).as_str());
        assert(text@ == typed + (" = "@ + truncated(compact(text_of(*value, source@)), VALUE_LIMIT as nat)));
    } else {
        assert(text@ == typed + Seq::<char>::empty());
    }
    Some(truncate(compact_whitespace(text.as_str()).as_str(), SIGNATURE_LIMIT))
}

/// A `type` statement, named by the first identifier it defines.
fn extract_type_alias(node: &SyntaxNode, source: &[u8]) -> (out: Option<Entry>)
    ensures
        opt_view(out) == type_alias_view(*node, source@),
{
    let left = child_by_field(node, "left")?;
    let name = first_identifier(left, source)?;
    let text = type_alias_text(node, source)?;
    Some(new_symbol_entry(Section::Type, node, name, text))
}

/// The text of the first identifier in `node`, searched depth first.
fn first_identifier(node: &SyntaxNode, source: &[u8]) -> (out: Option<String>)
    ensures
        match out {
            Some(t) => first_identifier_in(*node, source@) == Some(t@),
            None => first_identifier_in(*node, source@) is None,
        },
    decreases *node,
{
    if is_kind(node, "identifier") {
        return Some(node_text(node, source));
    }
    let mut i: usize = 0;
    while i < node.children.len()
        invariant
            i <= node.children@.len(),
            node.kind@ != "identifier"@,
            first_identifier_in(*node, source@) == first_identifier_among(*node, i as int, source@),
        decreases node.children@.len() - i,
    {
        let c = &node.children[i];
        if c.named {
            if let Some(found) = first_identifier(c, source) {
                return Some(found);
            }
        }
        i = i + 1;
    }
    None
}

/// `type Left = Right`, the value truncated.
fn type_alias_text(node: &SyntaxNode, source: &[u8]) -> (out: Option<String>)
    ensures
        match out {
            Some(t) => type_alias_line(*node, source@) == Some(t@),
            None => type_alias_line(*node, source@) is None,
        },
{
    let left = child_by_field(node, "left")?;
    let right = child_by_field(node, "right")?;
    let value = truncate(compact_whitespace(node_text(right, source).as_str()).as_str(), VALUE_LIMIT);
    let mut text = String::from_str("type ");
    text.append(node_text(left, source).as_str());
    text.append(" = ");
    text.append(value.as_str());
    Some(truncate(compact_whitespace(text.as_str()).as_str(), SIGNATURE_LIMIT))
}

/// Appends the text of the child held under `field`, if there is one.
fn append_field(text: &mut String, node: &SyntaxNode, field: &str, source: &[u8])
    ensures
        final(text)@ == old(text)@ + match crate::syntax::field_child(*node, field@) {
            Some(value) => crate::syntax::text_of(value, source@),
            None => seq![],
        },
{
    if let Some(value) = child_by_field(node, field) {
        text.append(node_text(value, source).as_str());
    } else {
        assert(text@ =~= old(text)@ + Seq::<char>::empty());
    }
}

/// `attrs`, then each decorator of `node` (compacted) not already among them
/// (see `decorators_from`).
pub(crate) fn decorators(attrs: &Vec<String>, node: &SyntaxNode, source: &[u8]) -> (out: Vec<String>)
    ensures
        texts(out@) == decorators_from(texts(attrs@), *node, 0, source@),
{
    let mut result = clone_strings(attrs);
    let mut i: usize = 0;
    while i < node.children.len()
        invariant
            i <= node.children@.len(),
            decorators_from(texts(attrs@), *node, 0, source@) == decorators_from(
                texts(result@),
                *node,
                i as int,
                source@,
            ),
        decreases node.children@.len() - i,
    {
        let c = &node.children[i];
        if c.named && is_kind(c, "decorator") {
            let decorator = compact_whitespace(node_text(c, source).as_str());
            let mut present = false;
            let mut j: usize = 0;
            while j < result.len()
                invariant
                    j <= result@.len(),
                    present == exists|k: int| 0 <= k < j && texts(result@)[k] == decorator@,
                decreases result@.len() - j,
            {
                if crate::text::same_text(result[j].as_str(), decorator.as_str()) {
                    present = true;
                }
                assert(texts(result@)[j as int] == result@[j as int]@);
                j = j + 1;
            }
            assert(present == texts(result@).contains(decorator@));
            if !present {
                let ghost prev = result@;
                result.push(decorator);
                assert(texts(result@) =~= texts(prev).push(compact(text_of(*c, source@))));
            }
        }
        i = i + 1;
    }
    result
}

} // verus!
