//! Building entries from syntax nodes, and the small text operations the
//! extractors share.
use crate::skeleton::{
    child_views, clone_string, texts, ChildStyle, ChildV, Entry, EntryChild, EntryV, Section,
    FIELD_TRUNCATE_THRESHOLD,
};
use crate::syntax::{has_field, node_text, text_of, SyntaxNode};
use crate::text::{chars_of, decimal, push_char, push_decimal, string_of, trim, trim_chars};
use vstd::prelude::*;

verus! {

/// Whether `e` is a fresh entry of `section` spanning `node` with `text`.
pub open spec fn fresh_entry(e: Entry, section: Section, node: SyntaxNode, text: Seq<char>) -> bool {
    &&& e.section == section
    &&& e.line_start == node.start_line
    &&& e.line_end == node.end_line
    &&& e.text@ == text
    &&& e.import_paths@.len() == 0
    &&& e.import_keyword.is_none()
    &&& e.attrs@.len() == 0
    &&& e.children@.len() == 0
    &&& e.child_style == ChildStyle::Detailed
}

/// Whether every function and class entry carries the name that patterns
/// match it by.
pub open spec fn named_symbols(out: Seq<Entry>) -> bool {
    forall|i: int|
        0 <= i < out.len() && ((#[trigger] out[i]).section == Section::Function || out[i].section
            == Section::Class) ==> out[i].symbol_name is Some
}

/// An entry of `section` spanning `node`, without a symbol name.
pub fn new_entry(section: Section, node: &SyntaxNode, text: String) -> (e: Entry)
    ensures
        fresh_entry(e, section, *node, text@),
        e.symbol_name.is_none(),
        e@ == fresh_view(section, *node, None, text@),
{
    let e = Entry {
        section,
        symbol_name: None,
        line_start: node.start_line,
        line_end: node.end_line,
        text,
        import_paths: Vec::new(),
        import_keyword: None,
        attrs: Vec::new(),
        children: Vec::new(),
        child_style: ChildStyle::Detailed,
    };
    assert(e@.import_paths =~= seq![]);
    assert(e@.attrs =~= seq![]);
    assert(e@.children =~= seq![]);
    e
}

/// The view of a fresh entry of `section` spanning `node`.
pub open spec fn fresh_view(section: Section, node: SyntaxNode, name: Option<Seq<char>>, text: Seq<
    char,
>) -> EntryV {
    EntryV {
        section,
        symbol_name: name,
        line_start: node.start_line,
        line_end: node.end_line,
        text,
        import_paths: seq![],
        import_keyword: None,
        attrs: seq![],
        children: seq![],
        child_style: ChildStyle::Detailed,
    }
}

/// An entry as a view, or none.
pub open spec fn opt_view(e: Option<Entry>) -> Option<EntryV> {
    match e {
        Some(x) => Some(x@),
        None => None,
    }
}

/// An entry of `section` that spans `node`, named `name` and shown by
/// `text`, with the given attributes and members.
pub open spec fn item_view(
    section: Section,
    node: SyntaxNode,
    name: Seq<char>,
    text: Seq<char>,
    attrs: Seq<Seq<char>>,
    children: Seq<ChildV>,
    style: ChildStyle,
) -> EntryV {
    EntryV {
        section,
        symbol_name: Some(name),
        line_start: node.start_line,
        line_end: node.end_line,
        text,
        import_paths: seq![],
        import_keyword: None,
        attrs,
        children,
        child_style: style,
    }
}

/// An entry of `section` spanning `node`, named `name`.
pub fn new_symbol_entry(section: Section, node: &SyntaxNode, name: String, text: String) -> (e:
    Entry)
    ensures
        fresh_entry(e, section, *node, text@),
        e.symbol_name matches Some(n) && n@ == name@,
        e@ == fresh_view(section, *node, Some(name@), text@),
{
    let mut e = new_entry(section, node, text);
    e.symbol_name = Some(name);
    e
}

/// An import entry spanning `node` that lists `paths`.
pub fn new_import_entry(node: &SyntaxNode, paths: Vec<Vec<String>>) -> (e: Entry)
    ensures
        e.section == Section::Import,
        e.symbol_name.is_none(),
        e.line_start == node.start_line,
        e.line_end == node.end_line,
        e.text@.len() == 0,
        e.import_paths == paths,
        e.import_keyword.is_none(),
        e.attrs@.len() == 0,
        e.children@.len() == 0,
        e.child_style == ChildStyle::Detailed,
{
    let mut e = new_entry(Section::Import, node, String::new());
    e.import_paths = paths;
    e
}

/// A child without a range.
pub fn child(text: String) -> (c: EntryChild)
    ensures
        c.text@ == text@,
        c.range.is_none(),
        c.symbol_name.is_none(),
{
    EntryChild { text, range: None, symbol_name: None }
}

/// A child with the line range of `node`.
pub fn ranged_child(text: String, node: &SyntaxNode) -> (c: EntryChild)
    ensures
        c.text@ == text@,
        c.range == Some((node.start_line, node.end_line)),
        c.symbol_name.is_none(),
{
    EntryChild { text, range: Some((node.start_line, node.end_line)), symbol_name: None }
}

/// A child without a range that belongs to the symbol `name`.
pub fn symbol_child(text: String, name: String) -> (c: EntryChild)
    ensures
        c.text@ == text@,
        c.range.is_none(),
        c.symbol_name matches Some(n) && n@ == name@,
{
    EntryChild { text, range: None, symbol_name: Some(name) }
}

/// A child with the line range of `node` that belongs to the symbol `name`.
pub fn ranged_symbol_child(text: String, node: &SyntaxNode, name: String) -> (c: EntryChild)
    ensures
        c.text@ == text@,
        c.range == Some((node.start_line, node.end_line)),
        c.symbol_name matches Some(n) && n@ == name@,
{
    EntryChild { text, range: Some((node.start_line, node.end_line)), symbol_name: Some(name) }
}

/// The marker that stands for the members left out beyond the threshold.
pub open spec fn truncation_marker(total: nat) -> Seq<char> {
    "["@ + decimal((total - FIELD_TRUNCATE_THRESHOLD) as nat) + " more truncated]"@
}

/// A member shown by `text` with the line range of `node`.
pub open spec fn ranged_view(text: Seq<char>, node: SyntaxNode) -> ChildV {
    ChildV { text, range: Some((node.start_line, node.end_line)), symbol_name: None }
}

/// `children`, then the truncation marker when `total` members exceed the
/// threshold.
pub open spec fn with_count(children: Seq<ChildV>, total: nat) -> Seq<ChildV> {
    if total > FIELD_TRUNCATE_THRESHOLD {
        children.push(ChildV { text: truncation_marker(total), range: None, symbol_name: None })
    } else {
        children
    }
}

/// Adds the truncation marker when `total` members exceed the threshold.
pub fn truncate_child_count(children: &mut Vec<EntryChild>, total: usize)
    ensures
        child_views(final(children)@) == with_count(child_views(old(children)@), total as nat),
        total > FIELD_TRUNCATE_THRESHOLD ==> final(children)@.len() == old(children)@.len() + 1
            && final(children)@.drop_last() == old(children)@ && final(children)@.last().text@
            == truncation_marker(total as nat) && final(children)@.last().range.is_none()
            && final(children)@.last().symbol_name.is_none(),
        total <= FIELD_TRUNCATE_THRESHOLD ==> final(children)@ == old(children)@,
{
    if total > FIELD_TRUNCATE_THRESHOLD {
        let mut text = String::from_str("[");
        push_decimal(&mut text, total - FIELD_TRUNCATE_THRESHOLD);
        text.append(" more truncated]");
        let ghost before = children@;
        children.push(child(text));
        assert(children@.drop_last() == old(children)@);
        assert(child_views(children@) == child_views(before).push(children@.last()@));
    } else {
        assert(child_views(children@) == child_views(old(children)@));
    }
}

/// `prefix` and `text` separated by a space, or `text` alone when `prefix`
/// is empty.
pub open spec fn prefixed_text(prefix: Seq<char>, text: Seq<char>) -> Seq<char> {
    if prefix.len() == 0 {
        text
    } else {
        prefix + " "@ + text
    }
}

/// See `prefixed_text`.
pub fn prefixed(prefix: &str, text: &str) -> (out: String)
    ensures
        out@ == prefixed_text(prefix@, text@),
{
    if prefix.is_empty() {
        text.to_owned()
    } else {
        let mut out = String::from_str(prefix);
        out.append(" ");
        out.append(text);
        out
    }
}

/// `str::trim` on a string.
pub fn trim_text(s: &str) -> (out: String)
    ensures
        out@ == trim(s@),
{
    let chars = chars_of(s);
    let trimmed = trim_chars(chars.as_slice());
    string_of(trimmed.as_slice())
}

/// The parts of `s` between the occurrences of `c` (`str::split` with a
/// character pattern): one more part than there are occurrences.
pub open spec fn split_text(s: Seq<char>, c: char) -> Seq<Seq<char>>
    decreases s.len(),
{
    if s.len() == 0 {
        seq![seq![]]
    } else {
        let parts = split_text(s.drop_last(), c);
        if s.last() == c {
            parts.push(seq![])
        } else {
            parts.update(parts.len() - 1, parts.last().push(s.last()))
        }
    }
}

proof fn lemma_split_text_len(s: Seq<char>, c: char)
    ensures
        split_text(s, c).len() >= 1,
    decreases s.len(),
{
    if s.len() > 0 {
        lemma_split_text_len(s.drop_last(), c);
    }
}

/// See `split_text`.
pub fn split_on(s: &str, c: char) -> (out: Vec<String>)
    ensures
        texts(out@) == split_text(s@, c),
{
    let chars = chars_of(s);
    let mut out: Vec<String> = Vec::new();
    let mut current = String::new();
    let mut i: usize = 0;
    while i < chars.len()
        invariant
            i <= chars@.len(),
            chars@ == s@,
            texts(out@).push(current@) == split_text(s@.take(i as int), c),
        decreases chars@.len() - i,
    {
        proof {
            lemma_split_text_len(s@.take(i as int), c);
        }
        assert(s@.take(i + 1).drop_last() =~= s@.take(i as int));
        let ghost prev = texts(out@).push(current@);
        if chars[i] == c {
            let done = current;
            out.push(done);
            current = String::new();
            assert(texts(out@).push(current@) =~= prev.push(seq![]));
        } else {
            push_char(&mut current, chars[i]);
            assert(texts(out@).push(current@) =~= prev.update(
                prev.len() - 1,
                prev.last().push(chars@[i as int]),
            ));
        }
        i = i + 1;
    }
    assert(s@.take(i as int) =~= s@);
    let ghost before = texts(out@);
    out.push(current);
    assert(texts(out@) =~= before.push(current@));
    out
}

/// The texts of the named children of `node` held under `field`.
pub open spec fn field_texts_of(children: Seq<SyntaxNode>, field: Seq<char>, source: Seq<u8>) -> Seq<
    Seq<char>,
>
    decreases children.len(),
{
    if children.len() == 0 {
        seq![]
    } else {
        let rest = field_texts_of(children.drop_last(), field, source);
        let c = children.last();
        if has_field(c, field) && c.named {
            rest.push(text_of(c, source))
        } else {
            rest
        }
    }
}

/// The texts of the named children of `node` held under `field` (see
/// `field_texts_of`).
pub fn field_texts(node: &SyntaxNode, field: &str, source: &[u8]) -> (out: Vec<String>)
    ensures
        texts(out@) == field_texts_of(node.children@, field@, source@),
{
    let mut out: Vec<String> = Vec::new();
    let mut i: usize = 0;
    while i < node.children.len()
        invariant
            i <= node.children@.len(),
            texts(out@) == field_texts_of(node.children@.take(i as int), field@, source@),
        decreases node.children@.len() - i,
    {
        assert(node.children@.take(i + 1).drop_last() =~= node.children@.take(i as int));
        let c = &node.children[i];
        if crate::syntax::is_field(c, field) && c.named {
            let ghost prev = out@;
            out.push(node_text(c, source));
            assert(texts(out@) =~= texts(prev).push(text_of(*c, source@)));
        }
        i = i + 1;
    }
    assert(node.children@.take(i as int) =~= node.children@);
    out
}

/// A copy of a list of strings.
pub fn clone_strings(v: &Vec<String>) -> (out: Vec<String>)
    ensures
        texts(out@) == texts(v@),
        out@.len() == v@.len(),
{
    let mut out: Vec<String> = Vec::new();
    let mut i: usize = 0;
    while i < v.len()
        invariant
            i <= v@.len(),
            texts(out@) == texts(v@.take(i as int)),
        decreases v@.len() - i,
    {
        let ghost prev = out@;
        out.push(clone_string(&v[i]));
        assert(texts(out@) =~= texts(prev).push(v@[i as int]@));
        assert(texts(v@.take(i + 1)) =~= texts(v@.take(i as int)).push(v@[i as int]@));
        i = i + 1;
    }
    assert(v@.take(i as int) =~= v@);
    out
}

/// The text of the optional node `node`, or `fallback`.
pub fn text_or(node: Option<&SyntaxNode>, fallback: &str, source: &[u8]) -> (out: String)
    ensures
        out@ == match node {
            Some(n) => text_of(*n, source@),
            None => fallback@,
        },
{
    match node {
        Some(n) => node_text(n, source),
        None => fallback.to_owned(),
    }
}

/// Whether `part` occurs somewhere in `s`.
pub open spec fn contains_seq(s: Seq<char>, part: Seq<char>) -> bool {
    exists|at: int| crate::text::occurs_at(s, part, at)
}

/// See `contains_seq`.
pub fn contains_text(s: &str, part: &str) -> (r: bool)
    ensures
        r == contains_seq(s@, part@),
{
    let a = chars_of(s);
    let b = chars_of(part);
    if b.len() > a.len() {
        return false;
    }
    if b.len() == 0 {
        assert(s@.subrange(0, 0) =~= part@);
        assert(crate::text::occurs_at(s@, part@, 0));
        return true;
    }
    let mut at: usize = 0;
    while at <= a.len() - b.len()
        invariant
            a@ == s@,
            b@ == part@,
            0 < b@.len() <= a@.len(),
            forall|k: int| 0 <= k < at ==> !crate::text::occurs_at(s@, part@, k),
        decreases a@.len() - b@.len() + 1 - at,
    {
        if crate::text::matches_at(a.as_slice(), b.as_slice(), at) {
            return true;
        }
        at = at + 1;
    }
    false
}

/// The parts of `s` between the occurrences of `sep`, found left to right
/// from `i` on, the part in progress being `cur` (`str::split` with a string
/// pattern).
pub open spec fn split_from(s: Seq<char>, sep: Seq<char>, i: int, cur: Seq<char>) -> Seq<Seq<char>>
    decreases s.len() - i,
{
    if i < 0 || i >= s.len() || sep.len() == 0 {
        seq![cur]
    } else if crate::text::occurs_at(s, sep, i) {
        seq![cur] + split_from(s, sep, i + sep.len(), seq![])
    } else {
        split_from(s, sep, i + 1, cur.push(s[i]))
    }
}

/// See `split_from`.
pub fn split_on_text(s: &str, sep: &str) -> (out: Vec<String>)
    requires
        sep@.len() > 0,
    ensures
        texts(out@) == split_from(s@, sep@, 0, seq![]),
{
    let a = chars_of(s);
    let b = chars_of(sep);
    let mut out: Vec<String> = Vec::new();
    let mut cur: Vec<char> = Vec::new();
    let mut i: usize = 0;
    while i < a.len()
        invariant
            a@ == s@,
            b@ == sep@,
            b@.len() > 0,
            texts(out@) + split_from(s@, sep@, i as int, cur@) == split_from(s@, sep@, 0, seq![]),
        decreases a@.len() - i,
    {
        if crate::text::matches_at(a.as_slice(), b.as_slice(), i) {
            let ghost prev = out@;
            let ghost old_cur = cur@;
            assert(split_from(s@, sep@, i as int, old_cur) == seq![old_cur] + split_from(
                s@,
                sep@,
                i + sep@.len(),
                seq![],
            ));
            out.push(string_of(cur.as_slice()));
            assert(texts(out@) =~= texts(prev).push(old_cur));
            cur = Vec::new();
            assert(texts(out@) + split_from(s@, sep@, i + sep@.len(), cur@) =~= texts(prev) + (seq![
                old_cur,
            ] + split_from(s@, sep@, i + sep@.len(), seq![])));
            i = i + b.len();
        } else {
            cur.push(a[i]);
            i = i + 1;
        }
    }
    let ghost prev = out@;
    out.push(string_of(cur.as_slice()));
    assert(texts(out@) =~= texts(prev).push(cur@));
    out
}

/// Whether `word` is one of the whitespace-separated words of `text`.
pub open spec fn has_word(text: Seq<char>, word: Seq<char>) -> bool {
    contains_seq(" "@ + crate::text::compact(text) + " "@, " "@ + word + " "@)
}

/// See `has_word`.
pub fn contains_word(text: &str, word: &str) -> (r: bool)
    ensures
        r == has_word(text@, word@),
{
    let mut padded = String::from_str(" ");
    padded.append(crate::text::compact_whitespace(text).as_str());
    padded.append(" ");
    let mut w = String::from_str(" ");
    w.append(word);
    w.append(" ");
    contains_text(padded.as_str(), w.as_str())
}

} // verus!
