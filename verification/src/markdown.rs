//! Markdown headings. Each heading is an entry that spans its section: the
//! lines up to the next heading of the same or a higher rank in the same
//! container (the document, a block quote or a list item), or else to the end
//! of that container.
use crate::skeleton::{clone_string, entry_views, ChildStyle, Entry, EntryV, Section};
use crate::syntax::{child_by_field, field_child, is_kind, node_text, text_of, SyntaxNode};
use crate::text::{chars_of, compact, compact_chars, string_of, trim_end_set, trim_end_set_chars};
use vstd::prelude::*;

verus! {

/// The level that a marker child gives its heading, or 0 for any other node.
pub open spec fn marker_level(kind: Seq<char>) -> int {
    if kind == "atx_h1_marker"@ || kind == "setext_h1_underline"@ {
        1
    } else if kind == "atx_h2_marker"@ || kind == "setext_h2_underline"@ {
        2
    } else if kind == "atx_h3_marker"@ {
        3
    } else if kind == "atx_h4_marker"@ {
        4
    } else if kind == "atx_h5_marker"@ {
        5
    } else if kind == "atx_h6_marker"@ {
        6
    } else {
        0
    }
}

/// The level of the first marker among `children` from `i` on, or 0.
pub open spec fn level_from(children: Seq<SyntaxNode>, i: int) -> int
    decreases children.len() - i,
{
    if i < 0 || i >= children.len() {
        0
    } else if marker_level(children[i].kind@) > 0 {
        marker_level(children[i].kind@)
    } else {
        level_from(children, i + 1)
    }
}

/// The level of a heading (1 to 6), or 0 when it has no marker.
pub open spec fn heading_level(node: SyntaxNode) -> int {
    level_from(node.children@, 0)
}

/// An ATX heading's content without trailing line whitespace and without its
/// closing run of `#`, which counts only where a space or tab stands before
/// it or nothing does.
pub open spec fn closing_stripped(content: Seq<char>) -> Seq<char> {
    let content = trim_end_set(content, seq![' ', '\t', '\r', '\n']);
    let prefix = trim_end_set(content, seq!['#']);
    if prefix.len() < content.len() && (prefix.len() == 0 || prefix.last() == ' ' || prefix.last()
        == '\t') {
        prefix
    } else {
        content
    }
}

/// The source text of a heading's content, or nothing.
pub open spec fn content_text(node: SyntaxNode, source: Seq<u8>) -> Seq<char> {
    match field_child(node, "heading_content"@) {
        Some(content) => text_of(content, source),
        None => seq![],
    }
}

/// The title of a heading: its content, for an ATX heading without the
/// closing hashes, with whitespace runs compacted.
pub open spec fn heading_title(node: SyntaxNode, source: Seq<u8>) -> Seq<char> {
    let content = content_text(node, source);
    if node.kind@ == "atx_heading"@ {
        compact(closing_stripped(content))
    } else {
        compact(content)
    }
}

/// Whether a node holds headings that end with it.
pub open spec fn is_container(node: SyntaxNode) -> bool {
    node.kind@ == "block_quote"@ || node.kind@ == "list_item"@
}

/// Whether a node is a heading.
pub open spec fn is_heading(node: SyntaxNode) -> bool {
    node.kind@ == "atx_heading"@ || node.kind@ == "setext_heading"@
}

/// The node reached from `node` by taking the last child while there is one.
pub open spec fn last_descendant(node: SyntaxNode) -> SyntaxNode
    decreases node,
{
    if node.children@.len() == 0 {
        node
    } else {
        last_descendant(node.children@[node.children@.len() - 1])
    }
}

/// Where the headings of a container end: at its end, or where its last
/// descendant starts when that is a block continuation reaching the end (a
/// container can end after taking only an outer container's line prefix).
pub open spec fn container_end(scope: SyntaxNode) -> int {
    let last = last_descendant(scope);
    if last.kind@ == "block_continuation"@ && last.end_byte == scope.end_byte {
        last.start_byte as int
    } else {
        scope.end_byte as int
    }
}

/// A heading as the indexer finds it: where it starts, the number of its
/// container and where that container's headings end, its level and title.
pub struct HeadingV {
    pub start_byte: int,
    pub start_column: int,
    pub start_line: int,
    pub scope: nat,
    pub scope_end: int,
    pub level: int,
    pub title: Seq<char>,
}

/// The number the next container gets: containers are numbered in document
/// order, and the numbering stops at the largest `usize`.
pub open spec fn next_number(n: nat) -> nat {
    if n < usize::MAX {
        n + 1
    } else {
        n
    }
}

/// The headings in `node` and below, in document order, with the number of
/// the next container after them. Outside any container below `node` a
/// heading belongs to container `scope`, whose headings end at `scope_end`;
/// `next` is the number of the first container met.
pub open spec fn headings_in(
    node: SyntaxNode,
    scope: nat,
    scope_end: int,
    next: nat,
    source: Seq<u8>,
) -> (Seq<HeadingV>, nat)
    decreases node, 1int, 0int,
{
    let inner = if is_container(node) {
        next
    } else {
        scope
    };
    let inner_end = if is_container(node) {
        container_end(node)
    } else {
        scope_end
    };
    let after = if is_container(node) {
        next_number(next)
    } else {
        next
    };
    let own: Seq<HeadingV> = if is_heading(node) && heading_level(node) > 0 {
        seq![
            HeadingV {
                start_byte: node.start_byte as int,
                start_column: node.start_column as int,
                start_line: node.start_line as int,
                scope: inner,
                scope_end: inner_end,
                level: heading_level(node),
                title: heading_title(node, source),
            },
        ]
    } else {
        seq![]
    };
    let rest = headings_among(node, 0, inner, inner_end, after, source);
    (own + rest.0, rest.1)
}

/// The headings in the children of `node` from the `k`-th on (see
/// `headings_in`).
pub open spec fn headings_among(
    node: SyntaxNode,
    k: int,
    scope: nat,
    scope_end: int,
    next: nat,
    source: Seq<u8>,
) -> (Seq<HeadingV>, nat)
    decreases node, 0int, node.children@.len() - k,
{
    if k < 0 || k >= node.children@.len() {
        (seq![], next)
    } else {
        let first = headings_in(node.children@[k], scope, scope_end, next, source);
        let rest = headings_among(node, k + 1, scope, scope_end, first.1, source);
        (first.0 + rest.0, rest.1)
    }
}

/// The headings of a top-level node, which is itself the outermost container.
pub open spec fn headings_of(node: SyntaxNode, source: Seq<u8>) -> Seq<HeadingV> {
    headings_in(node, 0, container_end(node), 1, source).0
}

/// Where the section of heading `i` ends, looking from heading `j` on: at the
/// start of the line of the first heading in the same container whose level
/// is not deeper, or else where the container's headings end.
pub open spec fn boundary_from(hs: Seq<HeadingV>, i: int, j: int) -> int
    decreases hs.len() - j,
{
    if j < 0 || j >= hs.len() {
        hs[i].scope_end
    } else if hs[j].scope == hs[i].scope && hs[j].level <= hs[i].level {
        hs[j].start_byte - hs[j].start_column
    } else {
        boundary_from(hs, i, j + 1)
    }
}

/// Where the section of heading `i` ends.
pub open spec fn section_end(hs: Seq<HeadingV>, i: int) -> int {
    boundary_from(hs, i, i + 1)
}

/// Whether heading `j` ends the section of heading `i`: it lies in the same
/// container and its level is not deeper.
pub open spec fn closes(hs: Seq<HeadingV>, i: int, j: int) -> bool {
    hs[j].scope == hs[i].scope && hs[j].level <= hs[i].level
}

proof fn lemma_boundary_from(hs: Seq<HeadingV>, i: int, j: int)
    requires
        0 <= i < j <= hs.len(),
        forall|k: int| i < k < j ==> !closes(hs, i, k),
    ensures
        (exists|m: int|
            #![trigger closes(hs, i, m)]
            j <= m < hs.len() && closes(hs, i, m) && (forall|k: int| i < k < m ==> !closes(hs, i, k))
                && boundary_from(hs, i, j) == hs[m].start_byte - hs[m].start_column) || ((forall|
            k: int,
        |
            i < k < hs.len() ==> !closes(hs, i, k)) && boundary_from(hs, i, j) == hs[i].scope_end),
    decreases hs.len() - j,
{
    if j < hs.len() && !closes(hs, i, j) {
        lemma_boundary_from(hs, i, j + 1);
    }
}

/// A heading's section ends at the start of the line of the first later
/// heading in the same container whose level is not deeper: deeper headings
/// and the headings of other containers (a quote, a list item) never end
/// it. Without such a heading it ends where its container's headings end.
pub proof fn lemma_section_end(hs: Seq<HeadingV>, i: int)
    requires
        0 <= i < hs.len(),
    ensures
        (exists|j: int|
            #![trigger closes(hs, i, j)]
            i < j < hs.len() && closes(hs, i, j) && (forall|k: int| i < k < j ==> !closes(hs, i, k))
                && section_end(hs, i) == hs[j].start_byte - hs[j].start_column) || ((forall|
            k: int,
        |
            i < k < hs.len() ==> !closes(hs, i, k)) && section_end(hs, i) == hs[i].scope_end),
{
    lemma_boundary_from(hs, i, i + 1);
}

/// The bytes that `u8::is_ascii_whitespace` accepts.
pub open spec fn ascii_space(b: u8) -> bool {
    b == 9 || b == 10 || b == 12 || b == 13 || b == 32
}

/// The index of the last byte that is not ASCII whitespace, or 0.
pub open spec fn last_content(s: Seq<u8>) -> int
    decreases s.len(),
{
    if s.len() == 0 {
        0
    } else if !ascii_space(s.last()) {
        s.len() - 1
    } else {
        last_content(s.drop_last())
    }
}

/// The number of line feeds in `s`.
pub open spec fn newline_count(s: Seq<u8>) -> nat
    decreases s.len(),
{
    if s.len() == 0 {
        0
    } else {
        newline_count(s.drop_last()) + if s.last() == 10 {
            1nat
        } else {
            0nat
        }
    }
}

/// How many lines a section's content runs past its first: the line feeds
/// before its last non-space byte. A range outside the source has none.
pub open spec fn lines_after(start: int, end: int, source: Seq<u8>) -> nat {
    if 0 <= start <= end <= source.len() {
        let content = source.subrange(start, end);
        newline_count(content.take(last_content(content)))
    } else {
        0
    }
}

/// The last line of the section of a heading that ends at byte `end`.
pub open spec fn end_line(h: HeadingV, end: int, source: Seq<u8>) -> usize {
    let n = h.start_line + lines_after(h.start_byte, end, source);
    if n <= usize::MAX {
        n as usize
    } else {
        usize::MAX as usize
    }
}

/// `level` hashes.
pub open spec fn hashes(level: int) -> Seq<char> {
    Seq::new(level as nat, |_i: int| '#')
}

/// How a heading is shown: its hashes, and its title after a space.
pub open spec fn heading_text(level: int, title: Seq<char>) -> Seq<char> {
    if title.len() == 0 {
        hashes(level)
    } else {
        hashes(level) + seq![' '] + title
    }
}

/// The entry of heading `i` of `hs`: named by its title, shown by its
/// hashes and title, spanning its section.
pub open spec fn heading_view(hs: Seq<HeadingV>, i: int, source: Seq<u8>) -> EntryV {
    let h = hs[i];
    EntryV {
        section: Section::Heading,
        symbol_name: Some(h.title),
        line_start: h.start_line as usize,
        line_end: end_line(h, section_end(hs, i), source),
        text: heading_text(h.level, h.title),
        import_paths: seq![],
        import_keyword: None,
        attrs: seq![],
        children: seq![],
        child_style: ChildStyle::Detailed,
    }
}

/// The entries of the headings of a top-level node.
pub open spec fn heading_views(node: SyntaxNode, source: Seq<u8>) -> Seq<EntryV> {
    let hs = headings_of(node, source);
    Seq::new(hs.len(), |i: int| heading_view(hs, i, source))
}

/// A heading found while walking the tree (see `HeadingV`).
struct Found {
    start_byte: usize,
    start_column: usize,
    start_line: usize,
    scope: usize,
    scope_end: usize,
    level: usize,
    title: String,
}

impl View for Found {
    type V = HeadingV;

    closed spec fn view(&self) -> HeadingV {
        HeadingV {
            start_byte: self.start_byte as int,
            start_column: self.start_column as int,
            start_line: self.start_line as int,
            scope: self.scope as nat,
            scope_end: self.scope_end as int,
            level: self.level as int,
            title: self.title@,
        }
    }
}

spec fn found_views(v: Seq<Found>) -> Seq<HeadingV> {
    Seq::new(v.len(), |i: int| v[i]@)
}

/// See `marker_level`.
fn marker_level_of(node: &SyntaxNode) -> (r: usize)
    ensures
        r == marker_level(node.kind@),
{
    if is_kind(node, "atx_h1_marker") || is_kind(node, "setext_h1_underline") {
        1
    } else if is_kind(node, "atx_h2_marker") || is_kind(node, "setext_h2_underline") {
        2
    } else if is_kind(node, "atx_h3_marker") {
        3
    } else if is_kind(node, "atx_h4_marker") {
        4
    } else if is_kind(node, "atx_h5_marker") {
        5
    } else if is_kind(node, "atx_h6_marker") {
        6
    } else {
        0
    }
}

/// See `heading_level`.
fn level_of(node: &SyntaxNode) -> (r: usize)
    ensures
        r == heading_level(*node),
{
    let mut i: usize = 0;
    while i < node.children.len()
        invariant
            i <= node.children@.len(),
            level_from(node.children@, 0) == level_from(node.children@, i as int),
        decreases node.children@.len() - i,
    {
        let level = marker_level_of(&node.children[i]);
        if level > 0 {
            return level;
        }
        i = i + 1;
    }
    0
}

/// See `closing_stripped`.
fn strip_closing(content: &[char]) -> (out: Vec<char>)
    ensures
        out@ == closing_stripped(content@),
{
    let line_space = [' ', '\t', '\r', '\n'];
    assert(line_space@ == seq![' ', '\t', '\r', '\n']);
    let trimmed = trim_end_set_chars(content, &line_space);
    let hash = ['#'];
    assert(hash@ == seq!['#']);
    let prefix = trim_end_set_chars(trimmed.as_slice(), &hash);
    if prefix.len() < trimmed.len() && (prefix.len() == 0 || prefix[prefix.len() - 1] == ' '
        || prefix[prefix.len() - 1] == '\t') {
        prefix
    } else {
        trimmed
    }
}

/// See `heading_title`.
fn title_of(node: &SyntaxNode, source: &[u8]) -> (out: String)
    ensures
        out@ == heading_title(*node, source@),
{
    let content = match child_by_field(node, "heading_content") {
        Some(c) => node_text(c, source),
        None => String::new(),
    };
    let chars = chars_of(content.as_str());
    let chosen = if is_kind(node, "atx_heading") {
        strip_closing(chars.as_slice())
    } else {
        chars
    };
    string_of(compact_chars(chosen.as_slice()).as_slice())
}

/// See `last_descendant`.
fn last_descendant_of(node: &SyntaxNode) -> (r: &SyntaxNode)
    ensures
        *r == last_descendant(*node),
    decreases *node,
{
    let n = node.children.len();
    if n == 0 {
        node
    } else {
        last_descendant_of(&node.children[n - 1])
    }
}

/// See `container_end`.
fn container_end_of(scope: &SyntaxNode) -> (r: usize)
    ensures
        r as int == container_end(*scope),
{
    let last = last_descendant_of(scope);
    if is_kind(last, "block_continuation") && last.end_byte == scope.end_byte {
        last.start_byte
    } else {
        scope.end_byte
    }
}

/// Appends the headings in `node` and below (see `headings_in`), numbering
/// the containers met from `*next` on.
fn collect(
    node: &SyntaxNode,
    scope: usize,
    scope_end: usize,
    next: &mut usize,
    source: &[u8],
    found: &mut Vec<Found>,
)
    ensures
        found_views(final(found)@) == found_views(old(found)@) + headings_in(
            *node,
            scope as nat,
            scope_end as int,
            *old(next) as nat,
            source@,
        ).0,
        *final(next) as nat == headings_in(
            *node,
            scope as nat,
            scope_end as int,
            *old(next) as nat,
            source@,
        ).1,
    decreases *node,
{
    let ghost start = found_views(found@);
    let container = is_kind(node, "block_quote") || is_kind(node, "list_item");
    let mut inner = scope;
    let mut inner_end = scope_end;
    if container {
        inner = *next;
        inner_end = container_end_of(node);
        if *next < usize::MAX {
            *next = *next + 1;
        }
    }
    if is_kind(node, "atx_heading") || is_kind(node, "setext_heading") {
        let level = level_of(node);
        if level > 0 {
            let title = title_of(node, source);
            let ghost before = found@;
            found.push(
                Found {
                    start_byte: node.start_byte,
                    start_column: node.start_column,
                    start_line: node.start_line,
                    scope: inner,
                    scope_end: inner_end,
                    level,
                    title,
                },
            );
            assert(found_views(found@) == found_views(before).push(found@.last()@));
        }
    }
    let ghost own = found_views(found@).skip(start.len() as int);
    let ghost whole = headings_among(*node, 0, inner as nat, inner_end as int, *next as nat, source@);
    assert(found_views(found@) == start + own);
    let mut k: usize = 0;
    while k < node.children.len()
        invariant
            k <= node.children@.len(),
            found_views(found@) + headings_among(
                *node,
                k as int,
                inner as nat,
                inner_end as int,
                *next as nat,
                source@,
            ).0 == start + own + whole.0,
            headings_among(*node, k as int, inner as nat, inner_end as int, *next as nat, source@).1
                == whole.1,
        decreases node.children@.len() - k,
    {
        let ghost prev = found_views(found@);
        let ghost first = headings_in(
            node.children@[k as int],
            inner as nat,
            inner_end as int,
            *next as nat,
            source@,
        );
        let ghost rest = headings_among(
            *node,
            k + 1,
            inner as nat,
            inner_end as int,
            first.1,
            source@,
        );
        collect(&node.children[k], inner, inner_end, next, source, found);
        assert(prev + (first.0 + rest.0) == prev + first.0 + rest.0);
        k = k + 1;
    }
    assert(headings_among(*node, k as int, inner as nat, inner_end as int, *next as nat, source@).0
        == Seq::<HeadingV>::empty());
    assert(found_views(found@) == start + own + whole.0);
    assert(own + whole.0 == headings_in(
        *node,
        scope as nat,
        scope_end as int,
        *old(next) as nat,
        source@,
    ).0);
}

/// See `section_end`: the end when it is not negative.
fn section_end_of(found: &Vec<Found>, i: usize) -> (r: Option<usize>)
    requires
        i < found@.len(),
    ensures
        match r {
            Some(end) => end as int == section_end(found_views(found@), i as int),
            None => section_end(found_views(found@), i as int) < 0,
        },
{
    let ghost hs = found_views(found@);
    let n = found.len();
    let mut j: usize = i + 1;
    while j < n
        invariant
            i < j <= n,
            n == found@.len(),
            hs == found_views(found@),
            boundary_from(hs, i as int, i + 1) == boundary_from(hs, i as int, j as int),
        decreases found@.len() - j,
    {
        assert(hs[j as int] == found@[j as int]@);
        assert(hs[i as int] == found@[i as int]@);
        if found[j].scope == found[i].scope && found[j].level <= found[i].level {
            return found[j].start_byte.checked_sub(found[j].start_column);
        }
        j = j + 1;
    }
    assert(hs[i as int] == found@[i as int]@);
    Some(found[i].scope_end)
}

/// See `last_content`: for `source[start..end]`.
fn last_content_in(source: &[u8], start: usize, end: usize) -> (r: usize)
    requires
        start <= end <= source@.len(),
    ensures
        r as int == last_content(source@.subrange(start as int, end as int)),
        r <= end - start,
{
    let ghost content = source@.subrange(start as int, end as int);
    let mut p: usize = end;
    assert(content.take((p - start) as int) == content);
    while p > start && (source[p - 1] == 9 || source[p - 1] == 10 || source[p - 1] == 12
        || source[p - 1] == 13 || source[p - 1] == 32)
        invariant
            start <= p <= end <= source@.len(),
            content == source@.subrange(start as int, end as int),
            last_content(content) == last_content(content.take((p - start) as int)),
            content.take((p - start) as int).len() == p - start,
        decreases p,
    {
        assert(content.take((p - start) as int).drop_last() == content.take((p - 1 - start) as int));
        p = p - 1;
    }
    if p == start {
        0
    } else {
        p - 1 - start
    }
}

/// See `newline_count`: for `source[start..end]`.
fn newlines_in(source: &[u8], start: usize, end: usize) -> (r: usize)
    requires
        start <= end <= source@.len(),
    ensures
        r as int == newline_count(source@.subrange(start as int, end as int)),
{
    let mut count: usize = 0;
    let mut q: usize = start;
    while q < end
        invariant
            start <= q <= end <= source@.len(),
            count == newline_count(source@.subrange(start as int, q as int)),
            count <= q - start,
        decreases end - q,
    {
        assert(source@.subrange(start as int, q + 1).drop_last() == source@.subrange(
            start as int,
            q as int,
        ));
        if source[q] == 10 {
            count = count + 1;
        }
        q = q + 1;
    }
    count
}

/// See `end_line`.
fn end_line_of(h: &Found, end: Option<usize>, source: &[u8]) -> (r: usize)
    ensures
        r == end_line(
            h@,
            match end {
                Some(e) => e as int,
                None => -1,
            },
            source@,
        ),
{
    let extra: usize = match end {
        Some(e) => if h.start_byte <= e && e <= source.len() {
            let last = last_content_in(source, h.start_byte, e);
            proof {
                let content = source@.subrange(h.start_byte as int, e as int);
                assert(content.take(last as int) == source@.subrange(
                    h.start_byte as int,
                    h.start_byte + last,
                ));
            }
            newlines_in(source, h.start_byte, h.start_byte + last)
        } else {
            0
        },
        None => 0,
    };
    if extra <= usize::MAX - h.start_line {
        h.start_line + extra
    } else {
        usize::MAX
    }
}

/// See `heading_text`.
fn text_of_heading(level: usize, title: &String) -> (out: String)
    ensures
        out@ == heading_text(level as int, title@),
{
    let mut marks: Vec<char> = Vec::new();
    let mut k: usize = 0;
    while k < level
        invariant
            k <= level,
            marks@ == hashes(k as int),
        decreases level - k,
    {
        marks.push('#');
        k = k + 1;
        assert(marks@ == hashes(k as int));
    }
    if title.as_str().is_empty() {
        string_of(marks.as_slice())
    } else {
        marks.push(' ');
        let mut text = string_of(marks.as_slice());
        text.append(title.as_str());
        text
    }
}

/// The heading entries of one top-level node: each heading in document
/// order, shown by its hashes and title and named by its title, spanning its
/// section (see `heading_entry`).
pub fn extract(node: &SyntaxNode, source: &[u8]) -> (out: Vec<Entry>)
    ensures
        entry_views(out@) == heading_views(*node, source@),
        forall|i: int| 0 <= i < out@.len() ==> (#[trigger] out@[i]).section == Section::Heading,
{
    let mut found: Vec<Found> = Vec::new();
    let mut next: usize = 1;
    let end = container_end_of(node);
    collect(node, 0, end, &mut next, source, &mut found);
    let ghost hs = found_views(found@);
    assert(hs == headings_of(*node, source@));
    let mut out: Vec<Entry> = Vec::new();
    let mut i: usize = 0;
    while i < found.len()
        invariant
            i <= found@.len(),
            hs == found_views(found@),
            out@.len() == i,
            forall|k: int| 0 <= k < i ==> (#[trigger] out@[k])@ == heading_view(hs, k, source@),
            forall|k: int| 0 <= k < i ==> (#[trigger] out@[k]).section == Section::Heading,
        decreases found@.len() - i,
    {
        let h = &found[i];
        assert(hs[i as int] == h@);
        let section_end = section_end_of(&found, i);
        let line_end = end_line_of(h, section_end, source);
        let text = text_of_heading(h.level, &h.title);
        let e = Entry {
            section: Section::Heading,
            symbol_name: Some(clone_string(&h.title)),
            line_start: h.start_line,
            line_end,
            text,
            import_paths: Vec::new(),
            import_keyword: None,
            attrs: Vec::new(),
            children: Vec::new(),
            child_style: ChildStyle::Detailed,
        };
        assert(e@.import_paths =~= seq![]);
        assert(e@.attrs =~= seq![]);
        assert(e@.children =~= seq![]);
        out.push(e);
        i = i + 1;
    }
    assert(entry_views(out@) =~= heading_views(*node, source@));
    out
}

} // verus!
