//! A plain model of a Tree-sitter syntax tree, built from the tree that
//! Tree-sitter's parser returns, and the queries the extractors make on it.
use crate::language::{language_name, SourceLanguage};
use crate::text::same_text;
use tree_sitter::{Language, LanguageError, Node, Parser, Tree};
use vstd::prelude::*;
use vstd::utf8::{decode_utf8, valid_utf8};

verus! {

/// `tree_sitter::Node`, carried through as an opaque value.
#[verifier::external_type_specification]
#[verifier::external_body]
pub struct ExNode<'tree>(Node<'tree>);

/// `tree_sitter::Tree`, carried through as an opaque value.
#[verifier::external_type_specification]
#[verifier::external_body]
pub struct ExTree(Tree);

/// `tree_sitter::Parser`, carried through as an opaque value.
#[verifier::external_type_specification]
#[verifier::external_body]
pub struct ExParser(Parser);

/// `tree_sitter::Language`, carried through as an opaque value.
#[verifier::external_type_specification]
#[verifier::external_body]
pub struct ExLanguage(Language);

/// `tree_sitter::LanguageError`, carried through as an opaque value.
#[verifier::external_type_specification]
#[verifier::external_body]
pub struct ExLanguageError(LanguageError);

/// One node of a syntax tree, with the facts about it that the indexer reads.
/// Lines are 1-based, columns 0-based; byte offsets index the source.
pub struct SyntaxNode {
    pub kind: String,
    /// The field name under which the parent holds this node.
    pub field: Option<String>,
    pub named: bool,
    pub extra: bool,
    pub missing: bool,
    pub error: bool,
    pub has_error: bool,
    pub start_byte: usize,
    pub end_byte: usize,
    pub start_line: usize,
    pub start_column: usize,
    pub end_line: usize,
    pub end_column: usize,
    pub children: Vec<SyntaxNode>,
}

/// The kind that `Node::kind` gives for a node.
pub uninterp spec fn node_kind_of(node: Node) -> Seq<char>;

/// The number of children that `Node::child_count` gives for a node.
pub uninterp spec fn node_child_count_of(node: Node) -> u32;

/// The child that `Node::child` gives at an index.
pub uninterp spec fn node_child_of(node: Node, index: u32) -> Option<Node>;

/// The field name that `Node::field_name_for_child` gives at an index.
pub uninterp spec fn node_field_of(node: Node, index: u32) -> Option<Seq<char>>;

/// What `Node::is_named` gives.
pub uninterp spec fn node_named_of(node: Node) -> bool;

/// What `Node::is_extra` gives.
pub uninterp spec fn node_extra_of(node: Node) -> bool;

/// What `Node::is_missing` gives.
pub uninterp spec fn node_missing_of(node: Node) -> bool;

/// What `Node::is_error` gives.
pub uninterp spec fn node_error_of(node: Node) -> bool;

/// What `Node::has_error` gives.
pub uninterp spec fn node_has_error_of(node: Node) -> bool;

/// What `Node::start_byte` gives.
pub uninterp spec fn node_start_byte_of(node: Node) -> usize;

/// What `Node::end_byte` gives.
pub uninterp spec fn node_end_byte_of(node: Node) -> usize;

/// The `(row, column)` of what `Node::start_position` gives.
pub uninterp spec fn node_start_of(node: Node) -> (usize, usize);

/// The `(row, column)` of what `Node::end_position` gives.
pub uninterp spec fn node_end_of(node: Node) -> (usize, usize);

/// The text that `Node::to_sexp` gives.
pub uninterp spec fn node_sexp_of(node: Node) -> Seq<char>;

/// The node that `Tree::root_node` gives.
pub uninterp spec fn tree_root_of(tree: &Tree) -> Node;

/// Whether `Parser::set_language` accepts a grammar: its ABI version is one
/// this Tree-sitter reads and it can be used for parsing.
pub uninterp spec fn grammar_accepted(language: &Language) -> bool;

/// Which grammar a `Language` is: the path of the grammar constant it was
/// made from, such as `tree_sitter_rust::LANGUAGE`.
pub uninterp spec fn grammar_of(language: &Language) -> Seq<char>;

/// The grammar a parser holds (what `Parser::language` gives), by
/// `grammar_of`, or `None` when it holds none.
pub uninterp spec fn parser_grammar(parser: &Parser) -> Option<Seq<char>>;

/// The content, `depth` levels down, of the root of the tree that
/// Tree-sitter's parser makes of `source` with `grammar`.
pub uninterp spec fn parsed_model(grammar: Seq<char>, source: Seq<u8>, depth: nat) -> NodeModel;

/// The content of a syntax-tree node: what its accessors give (lines 1-based,
/// as `line_of_row` makes them), its S-expression, and its children.
pub struct NodeModel {
    pub kind: Seq<char>,
    pub field: Option<Seq<char>>,
    pub named: bool,
    pub extra: bool,
    pub missing: bool,
    pub error: bool,
    pub has_error: bool,
    pub start_byte: usize,
    pub end_byte: usize,
    pub start_line: usize,
    pub start_column: usize,
    pub end_line: usize,
    pub end_column: usize,
    pub sexp: Seq<char>,
    pub children: Seq<NodeModel>,
}

/// `m` is the content of `node`, held under `field`, `depth` levels down.
pub open spec fn node_is(node: Node, field: Option<Seq<char>>, m: NodeModel, depth: nat) -> bool
    decreases depth,
{
    &&& m.kind == node_kind_of(node)
    &&& m.field == field
    &&& m.named == node_named_of(node)
    &&& m.extra == node_extra_of(node)
    &&& m.missing == node_missing_of(node)
    &&& m.error == node_error_of(node)
    &&& m.has_error == node_has_error_of(node)
    &&& m.start_byte == node_start_byte_of(node)
    &&& m.end_byte == node_end_byte_of(node)
    &&& m.start_line == line_of_row(node_start_of(node).0)
    &&& m.start_column == node_start_of(node).1
    &&& m.end_line == line_of_row(node_end_of(node).0)
    &&& m.end_column == node_end_of(node).1
    &&& m.sexp == node_sexp_of(node)
    &&& if depth == 0 {
        m.children.len() == 0
    } else {
        &&& m.children.len() == node_child_count_of(node)
        &&& forall|i: int|
            0 <= i < m.children.len() ==> node_is(
                node_child_of(node, i as u32)->0,
                node_field_of(node, i as u32),
                #[trigger] m.children[i],
                (depth - 1) as nat,
            )
    }
}

/// The plain node `out` holds the content `m`, `depth` levels down.
pub open spec fn model_is(out: SyntaxNode, m: NodeModel, depth: nat) -> bool
    decreases depth,
{
    &&& out.kind@ == m.kind
    &&& name_text(out.field) == m.field
    &&& out.named == m.named
    &&& out.extra == m.extra
    &&& out.missing == m.missing
    &&& out.error == m.error
    &&& out.has_error == m.has_error
    &&& out.start_byte == m.start_byte
    &&& out.end_byte == m.end_byte
    &&& out.start_line == m.start_line
    &&& out.start_column == m.start_column
    &&& out.end_line == m.end_line
    &&& out.end_column == m.end_column
    &&& out.children@.len() == m.children.len()
    &&& depth > 0 ==> forall|i: int|
        0 <= i < out.children@.len() ==> model_is(
            #[trigger] out.children@[i],
            m.children[i],
            (depth - 1) as nat,
        )
}

/// `Node::kind`.
#[verifier::external_body]
fn node_kind<'tree>(node: &Node<'tree>) -> (r: &'tree str)
    ensures
        r@ == node_kind_of(*node),
{
    node.kind()
}

/// `Node::child_count`.
#[verifier::external_body]
fn node_child_count(node: &Node) -> (r: u32)
    ensures
        r == node_child_count_of(*node),
{
    node.child_count()
}

/// `Node::child`: there is a child at every index below `child_count`.
#[verifier::external_body]
fn node_child<'tree>(node: &Node<'tree>, index: u32) -> (r: Option<Node<'tree>>)
    ensures
        r == node_child_of(*node, index),
        index < node_child_count_of(*node) ==> r is Some,
{
    node.child(index)
}

/// `Node::field_name_for_child`.
#[verifier::external_body]
fn node_field_name_for_child<'tree>(node: &Node<'tree>, index: u32) -> (r: Option<&'tree str>)
    ensures
        r is Some <==> node_field_of(*node, index) is Some,
        r matches Some(name) ==> node_field_of(*node, index) == Some(name@),
{
    node.field_name_for_child(index)
}

/// `Node::is_named`.
#[verifier::external_body]
fn node_is_named(node: &Node) -> (r: bool)
    ensures
        r == node_named_of(*node),
{
    node.is_named()
}

/// `Node::is_extra`.
#[verifier::external_body]
fn node_is_extra(node: &Node) -> (r: bool)
    ensures
        r == node_extra_of(*node),
{
    node.is_extra()
}

/// `Node::is_missing`.
#[verifier::external_body]
fn node_is_missing(node: &Node) -> (r: bool)
    ensures
        r == node_missing_of(*node),
{
    node.is_missing()
}

/// `Node::is_error`.
#[verifier::external_body]
fn node_is_error(node: &Node) -> (r: bool)
    ensures
        r == node_error_of(*node),
{
    node.is_error()
}

/// `Node::has_error`.
#[verifier::external_body]
fn node_has_error(node: &Node) -> (r: bool)
    ensures
        r == node_has_error_of(*node),
{
    node.has_error()
}

/// `Node::start_byte`.
#[verifier::external_body]
fn node_start_byte(node: &Node) -> (r: usize)
    ensures
        r == node_start_byte_of(*node),
{
    node.start_byte()
}

/// `Node::end_byte`.
#[verifier::external_body]
fn node_end_byte(node: &Node) -> (r: usize)
    ensures
        r == node_end_byte_of(*node),
{
    node.end_byte()
}

/// `Node::start_position`, as `(row, column)`.
#[verifier::external_body]
fn node_start_position(node: &Node) -> (r: (usize, usize))
    ensures
        r == node_start_of(*node),
{
    let point = node.start_position();
    (point.row, point.column)
}

/// `Node::end_position`, as `(row, column)`.
#[verifier::external_body]
fn node_end_position(node: &Node) -> (r: (usize, usize))
    ensures
        r == node_end_of(*node),
{
    let point = node.end_position();
    (point.row, point.column)
}

/// `Node::to_sexp`.
#[verifier::external_body]
fn node_to_sexp(node: &Node) -> (r: String)
    ensures
        r@ == node_sexp_of(*node),
{
    node.to_sexp()
}

/// `Tree::root_node`.
#[verifier::external_body]
fn tree_root_node(tree: &Tree) -> (r: Node<'_>)
    ensures
        r == tree_root_of(tree),
{
    tree.root_node()
}

/// `Parser::new`: a parser that holds no grammar yet.
#[verifier::external_body]
fn parser_new() -> Parser {
    Parser::new()
}

/// `Parser::set_language`: it succeeds exactly for an accepted grammar, and
/// the parser then holds that grammar.
#[verifier::external_body]
fn parser_set_language(parser: &mut Parser, language: &Language) -> (r: Result<(), LanguageError>)
    ensures
        r is Ok <==> grammar_accepted(language),
        r is Ok ==> parser_grammar(final(parser)) == Some(grammar_of(language)),
{
    parser.set_language(language)
}

/// `Parser::parse` on a byte slice, without an earlier tree: when the parser
/// holds a grammar it gives a tree, whose content is the parse of `source`
/// with that grammar.
#[verifier::external_body]
fn parser_parse(parser: &mut Parser, source: &[u8]) -> (r: Option<Tree>)
    ensures
        parser_grammar(old(parser)) matches Some(grammar) ==> (r matches Some(tree) && forall|depth: nat|
            node_is(
                tree_root_of(&tree),
                None,
                #[trigger] parsed_model(grammar, source@, depth),
                depth,
            )),
{
    parser.parse(source, None)
}

/// The message of a `LanguageError` (its `Display`).
#[verifier::external_body]
fn language_error_text(error: &LanguageError) -> String {
    error.to_string()
}

/// The text of an optional name.
pub open spec fn name_text(name: Option<String>) -> Option<Seq<char>> {
    match name {
        Some(text) => Some(text@),
        None => None,
    }
}

/// A line number from a 0-based row, as `saturating_add(1)` gives it.
pub open spec fn line_of_row(row: usize) -> usize {
    if row + 1 > usize::MAX {
        usize::MAX
    } else {
        (row + 1) as usize
    }
}

/// `out` is the plain model of `node`, held under `field`, with its
/// descendants copied `depth` levels down: every fact the node's accessors
/// give, and one child model for each of its children, in order (there is a
/// child at every index below the count, as `node_child` states).
pub open spec fn models(out: SyntaxNode, node: Node, field: Option<Seq<char>>, depth: nat) -> bool
    decreases depth,
{
    &&& out.kind@ == node_kind_of(node)
    &&& name_text(out.field) == field
    &&& out.named == node_named_of(node)
    &&& out.extra == node_extra_of(node)
    &&& out.missing == node_missing_of(node)
    &&& out.error == node_error_of(node)
    &&& out.has_error == node_has_error_of(node)
    &&& out.start_byte == node_start_byte_of(node)
    &&& out.end_byte == node_end_byte_of(node)
    &&& out.start_line == line_of_row(node_start_of(node).0)
    &&& out.start_column == node_start_of(node).1
    &&& out.end_line == line_of_row(node_end_of(node).0)
    &&& out.end_column == node_end_of(node).1
    &&& if depth == 0 {
        out.children@.len() == 0
    } else {
        &&& out.children@.len() == node_child_count_of(node)
        &&& forall|i: int|
            0 <= i < out.children@.len() ==> models(
                #[trigger] out.children@[i],
                node_child_of(node, i as u32)->0,
                node_field_of(node, i as u32),
                (depth - 1) as nat,
            )
    }
}

/// Copies one Tree-sitter node, and its descendants up to `depth` levels
/// below it, into the plain model.
fn convert_node(node: &Node, field: Option<String>, depth: usize) -> (out: SyntaxNode)
    ensures
        models(out, *node, name_text(field), depth as nat),
    decreases depth,
{
    let mut children: Vec<SyntaxNode> = Vec::new();
    if depth > 0 {
        let count = node_child_count(node);
        let mut index: u32 = 0;
        while index < count
            invariant
                depth > 0,
                count == node_child_count_of(*node),
                index <= count,
                children@.len() == index,
                forall|i: int|
                    0 <= i < index ==> models(
                        #[trigger] children@[i],
                        node_child_of(*node, i as u32)->0,
                        node_field_of(*node, i as u32),
                        (depth - 1) as nat,
                    ),
            decreases count - index,
        {
            let found = node_child(node, index);
            if let Some(child) = found {
                let child_field = match node_field_name_for_child(node, index) {
                    Some(name) => Some(name.to_owned()),
                    None => None,
                };
                let model = convert_node(&child, child_field, depth - 1);
                assert(node_child_of(*node, (index as int) as u32) == Some(child));
                let ghost before = children@;
                children.push(model);
                assert forall|i: int| 0 <= i < index + 1 implies models(
                    #[trigger] children@[i],
                    node_child_of(*node, i as u32)->0,
                    node_field_of(*node, i as u32),
                    (depth - 1) as nat,
                ) by {
                    if i < index {
                        assert(children@[i] == before[i]);
                    }
                }
            }
            index = index + 1;
        }
    }
    let (start_row, start_column) = node_start_position(node);
    let (end_row, end_column) = node_end_position(node);
    let kind = node_kind(node).to_owned();
    let out = SyntaxNode {
        kind,
        field,
        named: node_is_named(node),
        extra: node_is_extra(node),
        missing: node_is_missing(node),
        error: node_is_error(node),
        has_error: node_has_error(node),
        start_byte: node_start_byte(node),
        end_byte: node_end_byte(node),
        start_line: start_row.saturating_add(1),
        start_column,
        end_line: end_row.saturating_add(1),
        end_column,
        children,
    };
    out
}

/// How many levels below the root a converted tree keeps.
pub const MAX_TREE_DEPTH: usize = 1_000_000;

/// What loading the grammar of `language` into a parser comes to, given the
/// reason the parser gave when it refused the grammar (`None` when it took it).
pub fn grammar_load_outcome(language: SourceLanguage, refusal: Option<&str>) -> (result: Result<(), String>)
    ensures
        refusal is None ==> result is Ok,
        refusal matches Some(reason) ==> (result matches Err(message)
            && message@ == "failed to load "@ + language_name(language) + " grammar: "@ + reason@),
{
    match refusal {
        None => Ok(()),
        Some(reason) => {
            let mut message = String::from_str("failed to load ");
            message.append(language.name());
            message.append(" grammar: ");
            message.append(reason);
            Err(message)
        },
    }
}

/// What parsing comes to, given the tree the parser returned, if any.
pub fn parse_outcome(tree: Option<Tree>) -> (result: Result<Tree, String>)
    ensures
        tree matches Some(t) ==> (result matches Ok(r) && r == t),
        tree is None ==> (result matches Err(message)
            && message@ == "parser returned no syntax tree"@),
{
    match tree {
        Some(t) => Ok(t),
        None => Err(String::from_str("parser returned no syntax tree")),
    }
}

/// The path of the grammar constant that `SourceLanguage::grammar` uses.
pub open spec fn grammar_name(language: SourceLanguage) -> Seq<char> {
    match language {
        SourceLanguage::Python => "tree_sitter_python::LANGUAGE"@,
        SourceLanguage::JavaScript | SourceLanguage::Jsx => "tree_sitter_javascript::LANGUAGE"@,
        SourceLanguage::TypeScript => "tree_sitter_typescript::LANGUAGE_TYPESCRIPT"@,
        SourceLanguage::Tsx => "tree_sitter_typescript::LANGUAGE_TSX"@,
        SourceLanguage::Rust => "tree_sitter_rust::LANGUAGE"@,
        SourceLanguage::Go => "tree_sitter_go::LANGUAGE"@,
        SourceLanguage::Java => "tree_sitter_java::LANGUAGE"@,
        SourceLanguage::Markdown => "tree_sitter_md::LANGUAGE"@,
    }
}

/// `tree` holds the parse of `source` with the grammar of `language`.
pub open spec fn parse_of_source(tree: Tree, language: SourceLanguage, source: Seq<u8>) -> bool {
    forall|depth: nat|
        node_is(
            tree_root_of(&tree),
            None,
            #[trigger] parsed_model(grammar_name(language), source, depth),
            depth,
        )
}

/// A plain model of a node holds the node's content.
proof fn lemma_model_of_node(out: SyntaxNode, node: Node, field: Option<Seq<char>>, m: NodeModel, depth: nat)
    requires
        models(out, node, field, depth),
        node_is(node, field, m, depth),
    ensures
        model_is(out, m, depth),
    decreases depth,
{
    if depth > 0 {
        assert forall|i: int| 0 <= i < out.children@.len() implies model_is(
            #[trigger] out.children@[i],
            m.children[i],
            (depth - 1) as nat,
        ) by {
            lemma_model_of_node(
                out.children@[i],
                node_child_of(node, i as u32)->0,
                node_field_of(node, i as u32),
                m.children[i],
                (depth - 1) as nat,
            );
        }
    }
}

/// Parses `source` with the grammar of `language` into a Tree-sitter tree.
/// Every grammar the library carries is accepted, so this succeeds.
fn parse_tree(source: &[u8], language: SourceLanguage) -> (result: Result<Tree, String>)
    ensures
        result matches Ok(tree) && parse_of_source(tree, language, source@),
{
    let mut parser = parser_new();
    let grammar = language.grammar();
    let loaded = match parser_set_language(&mut parser, &grammar) {
        Ok(()) => grammar_load_outcome(language, None),
        Err(error) => {
            let reason = language_error_text(&error);
            grammar_load_outcome(language, Some(reason.as_str()))
        },
    };
    match loaded {
        Ok(()) => {},
        Err(message) => {
            return Err(message);
        },
    }
    let parsed = parser_parse(&mut parser, source);
    parse_outcome(parsed)
}

/// Parses `source` as `language` into the plain syntax-tree model: the
/// content of the root of its parse with the language's grammar.
pub fn parse_source(source: &[u8], language: SourceLanguage) -> (result: Result<SyntaxNode, String>)
    ensures
        result matches Ok(root) && model_is(
            root,
            parsed_model(grammar_name(language), source@, MAX_TREE_DEPTH as nat),
            MAX_TREE_DEPTH as nat,
        ),
{
    match parse_tree(source, language) {
        Ok(tree) => {
            let root = tree_root_node(&tree);
            let model = convert_node(&root, None, MAX_TREE_DEPTH);
            proof {
                let m = parsed_model(grammar_name(language), source@, MAX_TREE_DEPTH as nat);
                assert(node_is(tree_root_of(&tree), None, m, MAX_TREE_DEPTH as nat));
                lemma_model_of_node(model, root, None, m, MAX_TREE_DEPTH as nat);
            }
            Ok(model)
        },
        Err(message) => Err(message),
    }
}

/// The S-expression that Tree-sitter prints for the tree of `source`.
pub fn syntax_sexp(source: &[u8], language: SourceLanguage) -> (result: Result<String, String>)
    ensures
        result matches Ok(text) && text@ == parsed_model(grammar_name(language), source@, 0).sexp,
{
    match parse_tree(source, language) {
        Ok(tree) => {
            let root = tree_root_node(&tree);
            let text = node_to_sexp(&root);
            assert(node_is(tree_root_of(&tree), None, parsed_model(grammar_name(language), source@, 0), 0));
            Ok(text)
        },
        Err(message) => Err(message),
    }
}

pub open spec fn has_prefix_text(s: Seq<char>, prefix: Seq<char>) -> bool {
    prefix.len() <= s.len() && s.take(prefix.len() as int) == prefix
}

/// `std::str::from_utf8`: the text of a byte slice when it is valid UTF-8.
#[verifier::external_body]
fn utf8_str(bytes: &[u8]) -> (r: Option<&str>)
    ensures
        r is Some <==> valid_utf8(bytes@),
        r matches Some(text) ==> text@ == decode_utf8(bytes@),
{
    std::str::from_utf8(bytes).ok()
}

/// The text that `String::from_utf8_lossy` makes of `bytes`: invalid sequences
/// become U+FFFD.
pub uninterp spec fn lossy_text(bytes: Seq<u8>) -> Seq<char>;

/// `String::from_utf8_lossy`.
#[verifier::external_body]
fn utf8_lossy(bytes: &[u8]) -> (r: String)
    ensures
        r@ == lossy_text(bytes@),
        valid_utf8(bytes@) ==> r@ == decode_utf8(bytes@),
{
    String::from_utf8_lossy(bytes).into_owned()
}

fn copy_bytes(source: &[u8], start: usize, end: usize) -> (out: Vec<u8>)
    requires
        start <= end <= source@.len(),
    ensures
        out@ == source@.subrange(start as int, end as int),
{
    let mut out: Vec<u8> = Vec::new();
    let mut i = start;
    while i < end
        invariant
            start <= i <= end <= source@.len(),
            out@ == source@.subrange(start as int, i as int),
        decreases end - i,
    {
        out.push(source[i]);
        i = i + 1;
    }
    out
}

/// The text of `source[start..end]` decoded as UTF-8, or nothing when the range
/// lies outside the source or does not hold valid UTF-8 (`Node::utf8_text`
/// with `unwrap_or("")`).
pub open spec fn span_text(source: Seq<u8>, start: int, end: int) -> Seq<char> {
    if 0 <= start <= end <= source.len() && valid_utf8(source.subrange(start, end)) {
        decode_utf8(source.subrange(start, end))
    } else {
        seq![]
    }
}

/// The text of `source[start..end]` decoded lossily.
pub open spec fn lossy_span(source: Seq<u8>, start: int, end: int) -> Seq<char> {
    if 0 <= start <= end <= source.len() {
        lossy_text(source.subrange(start, end))
    } else {
        seq![]
    }
}

/// The source text a node covers.
pub open spec fn text_of(node: SyntaxNode, source: Seq<u8>) -> Seq<char> {
    span_text(source, node.start_byte as int, node.end_byte as int)
}

/// `span_text`.
pub fn span(source: &[u8], start: usize, end: usize) -> (out: String)
    ensures
        out@ == span_text(source@, start as int, end as int),
{
    if start <= end && end <= source.len() {
        let bytes = copy_bytes(source, start, end);
        match utf8_str(bytes.as_slice()) {
            Some(text) => text.to_owned(),
            None => String::new(),
        }
    } else {
        String::new()
    }
}

/// `lossy_span`.
pub fn lossy(source: &[u8], start: usize, end: usize) -> (out: String)
    ensures
        out@ == lossy_span(source@, start as int, end as int),
{
    if start <= end && end <= source.len() {
        let bytes = copy_bytes(source, start, end);
        utf8_lossy(bytes.as_slice())
    } else {
        String::new()
    }
}

/// The source text of a node.
pub fn node_text(node: &SyntaxNode, source: &[u8]) -> (out: String)
    ensures
        out@ == text_of(*node, source@),
{
    span(source, node.start_byte, node.end_byte)
}

/// Whether a node is held under the given field name.
pub open spec fn has_field(node: SyntaxNode, field: Seq<char>) -> bool {
    node.field matches Some(name) && name@ == field
}

/// The index of the first node from `i` on for which `p` holds.
pub open spec fn first_from(
    nodes: Seq<SyntaxNode>,
    p: spec_fn(SyntaxNode) -> bool,
    i: int,
) -> Option<int>
    decreases nodes.len() - i,
{
    if i < 0 || i >= nodes.len() {
        None
    } else if p(nodes[i]) {
        Some(i)
    } else {
        first_from(nodes, p, i + 1)
    }
}

/// The first node for which `p` holds.
pub open spec fn first_where(nodes: Seq<SyntaxNode>, p: spec_fn(SyntaxNode) -> bool) -> Option<
    SyntaxNode,
> {
    match first_from(nodes, p, 0) {
        Some(i) => Some(nodes[i]),
        None => None,
    }
}

pub open spec fn field_is(field: Seq<char>) -> spec_fn(SyntaxNode) -> bool {
    |node: SyntaxNode| has_field(node, field)
}

pub open spec fn kind_is(kind: Seq<char>) -> spec_fn(SyntaxNode) -> bool {
    |node: SyntaxNode| node.kind@ == kind
}

pub open spec fn named_kind_is(kind: Seq<char>) -> spec_fn(SyntaxNode) -> bool {
    |node: SyntaxNode| node.named && node.kind@ == kind
}

/// `Node::child_by_field_name`: the first child held under `field`.
pub open spec fn field_child(node: SyntaxNode, field: Seq<char>) -> Option<SyntaxNode> {
    first_where(node.children@, field_is(field))
}

/// The first child of the given kind.
pub open spec fn kind_child(node: SyntaxNode, kind: Seq<char>) -> Option<SyntaxNode> {
    first_where(node.children@, kind_is(kind))
}

/// The first named child of the given kind.
pub open spec fn named_kind_child(node: SyntaxNode, kind: Seq<char>) -> Option<SyntaxNode> {
    first_where(node.children@, named_kind_is(kind))
}

proof fn lemma_first_from_bounds(nodes: Seq<SyntaxNode>, p: spec_fn(SyntaxNode) -> bool, i: int)
    ensures
        first_from(nodes, p, i) matches Some(j) ==> i <= j < nodes.len() && p(nodes[j]),
    decreases nodes.len() - i,
{
    if 0 <= i < nodes.len() && !p(nodes[i]) {
        lemma_first_from_bounds(nodes, p, i + 1);
    }
}

/// Whether the node is held under the field `field`.
pub fn is_field(node: &SyntaxNode, field: &str) -> (r: bool)
    ensures
        r == has_field(*node, field@),
{
    match &node.field {
        Some(name) => same_text(name.as_str(), field),
        None => false,
    }
}

/// Whether the node has the given kind.
pub fn is_kind(node: &SyntaxNode, kind: &str) -> (r: bool)
    ensures
        r == (node.kind@ == kind@),
{
    same_text(node.kind.as_str(), kind)
}

/// `Node::child_by_field_name`.
pub fn child_by_field<'a>(node: &'a SyntaxNode, field: &str) -> (r: Option<&'a SyntaxNode>)
    ensures
        field_child(*node, field@) == match r {
            Some(child) => Some(*child),
            None => None,
        },
{
    let mut i: usize = 0;
    while i < node.children.len()
        invariant
            i <= node.children@.len(),
            first_from(node.children@, field_is(field@), 0) == first_from(
                node.children@,
                field_is(field@),
                i as int,
            ),
        decreases node.children@.len() - i,
    {
        if is_field(&node.children[i], field) {
            return Some(&node.children[i]);
        }
        i = i + 1;
    }
    None
}

/// The first child of the given kind.
pub fn find_child<'a>(node: &'a SyntaxNode, kind: &str) -> (r: Option<&'a SyntaxNode>)
    ensures
        kind_child(*node, kind@) == match r {
            Some(child) => Some(*child),
            None => None,
        },
{
    let mut i: usize = 0;
    while i < node.children.len()
        invariant
            i <= node.children@.len(),
            first_from(node.children@, kind_is(kind@), 0) == first_from(
                node.children@,
                kind_is(kind@),
                i as int,
            ),
        decreases node.children@.len() - i,
    {
        if is_kind(&node.children[i], kind) {
            return Some(&node.children[i]);
        }
        i = i + 1;
    }
    None
}

/// The first named child of the given kind.
pub fn find_named_child<'a>(node: &'a SyntaxNode, kind: &str) -> (r: Option<&'a SyntaxNode>)
    ensures
        named_kind_child(*node, kind@) == match r {
            Some(child) => Some(*child),
            None => None,
        },
{
    let mut i: usize = 0;
    while i < node.children.len()
        invariant
            i <= node.children@.len(),
            first_from(node.children@, named_kind_is(kind@), 0) == first_from(
                node.children@,
                named_kind_is(kind@),
                i as int,
            ),
        decreases node.children@.len() - i,
    {
        if node.children[i].named && is_kind(&node.children[i], kind) {
            return Some(&node.children[i]);
        }
        i = i + 1;
    }
    None
}

} // verus!
