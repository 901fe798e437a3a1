//! The entries an extractor finds, and how they are rendered as a skeleton.
use crate::text::{
    byte_len, char_width, chars_of, is_whitespace, is_ws, push_char, push_chars, range_text,
    string_of, trim, trim_chars, format_range,
};
use vstd::prelude::*;

verus! {

/// Classes, structs and the like keep at most this many fields.
pub const FIELD_TRUNCATE_THRESHOLD: usize = 8;

/// Comma-separated lists wrap before a line would pass this many bytes.
pub const LINE_WRAP_THRESHOLD: usize = 120;

/// The section of the skeleton an entry belongs to.
#[derive(Clone, Copy, Debug, PartialEq, Eq, Structural)]
pub enum Section {
    Import,
    Module,
    Constant,
    Type,
    Trait,
    Impl,
    Function,
    Class,
    Macro,
    Heading,
}

/// How the children of an entry are laid out.
#[derive(Clone, Copy, Debug, PartialEq, Eq, Structural)]
pub enum ChildStyle {
    /// One child per line.
    Detailed,
    /// Children as a wrapped comma-separated list.
    Brief,
}

/// A member of an entry (a field, a method, a variant); members that belong
/// to a named symbol (a method and its decorators) carry its name.
pub struct EntryChild {
    pub text: String,
    pub range: Option<(usize, usize)>,
    pub symbol_name: Option<String>,
}

/// One top-level item of a source file.
pub struct Entry {
    pub section: Section,
    pub symbol_name: Option<String>,
    pub line_start: usize,
    pub line_end: usize,
    pub text: String,
    pub import_paths: Vec<Vec<String>>,
    pub import_keyword: Option<String>,
    pub attrs: Vec<String>,
    pub children: Vec<EntryChild>,
    pub child_style: ChildStyle,
}

/// What an extractor finds in a whole file.
pub struct Extracted {
    pub entries: Vec<Entry>,
    pub module_doc: Option<(usize, usize)>,
    pub test_lines: Vec<usize>,
    pub import_separator: String,
}

/// The texts of a sequence of strings.
pub open spec fn texts(v: Seq<String>) -> Seq<Seq<char>> {
    Seq::new(v.len(), |i: int| v[i]@)
}

/// The text of an optional string.
pub open spec fn opt_text(v: Option<String>) -> Option<Seq<char>> {
    match v {
        Some(s) => Some(s@),
        None => None,
    }
}

pub struct ChildV {
    pub text: Seq<char>,
    pub range: Option<(usize, usize)>,
    pub symbol_name: Option<Seq<char>>,
}

pub struct EntryV {
    pub section: Section,
    pub symbol_name: Option<Seq<char>>,
    pub line_start: usize,
    pub line_end: usize,
    pub text: Seq<char>,
    pub import_paths: Seq<Seq<Seq<char>>>,
    pub import_keyword: Option<Seq<char>>,
    pub attrs: Seq<Seq<char>>,
    pub children: Seq<ChildV>,
    pub child_style: ChildStyle,
}

impl View for EntryChild {
    type V = ChildV;

    open spec fn view(&self) -> ChildV {
        ChildV { text: self.text@, range: self.range, symbol_name: opt_text(self.symbol_name) }
    }
}

/// The views of a sequence of children.
pub open spec fn child_views(v: Seq<EntryChild>) -> Seq<ChildV> {
    Seq::new(v.len(), |i: int| v[i]@)
}

impl View for Entry {
    type V = EntryV;

    open spec fn view(&self) -> EntryV {
        EntryV {
            section: self.section,
            symbol_name: opt_text(self.symbol_name),
            line_start: self.line_start,
            line_end: self.line_end,
            text: self.text@,
            import_paths: Seq::new(
                self.import_paths@.len(),
                |i: int| texts(self.import_paths@[i]@),
            ),
            import_keyword: opt_text(self.import_keyword),
            attrs: texts(self.attrs@),
            children: child_views(self.children@),
            child_style: self.child_style,
        }
    }
}

impl EntryV {
    /// The same entry with other members.
    pub open spec fn with_children(self, children: Seq<ChildV>) -> EntryV {
        EntryV { children, ..self }
    }
}

/// The views of a sequence of entries.
pub open spec fn entry_views(v: Seq<Entry>) -> Seq<EntryV> {
    Seq::new(v.len(), |i: int| v[i]@)
}

/// `parts.join(sep)`.
pub open spec fn join(parts: Seq<Seq<char>>, sep: Seq<char>) -> Seq<char>
    decreases parts.len(),
{
    if parts.len() == 0 {
        seq![]
    } else if parts.len() == 1 {
        parts[0]
    } else {
        join(parts.drop_last(), sep) + sep + parts.last()
    }
}

/// Joins strings with a separator.
pub fn join_strings(parts: &Vec<String>, sep: &str) -> (out: String)
    ensures
        out@ == join(texts(parts@), sep@),
{
    let mut out = String::new();
    let mut i: usize = 0;
    while i < parts.len()
        invariant
            i <= parts@.len(),
            out@ == join(texts(parts@.take(i as int)), sep@),
        decreases parts@.len() - i,
    {
        let ghost before = texts(parts@.take(i as int));
        assert(texts(parts@.take(i + 1)).drop_last() =~= before);
        if i > 0 {
            out.append(sep);
        }
        out.append(parts[i].as_str());
        i = i + 1;
        assert(texts(parts@.take(i as int)).last() == parts@[i - 1]@);
    }
    assert(parts@.take(parts@.len() as int) == parts@);
    out
}

/// The line without a final carriage return.
pub open spec fn strip_cr(line: Seq<char>) -> Seq<char> {
    if line.len() > 0 && line.last() == '\r' {
        line.drop_last()
    } else {
        line
    }
}

/// The index of the first occurrence of `c` in `s`, or -1.
pub open spec fn first_index_of(s: Seq<char>, c: char) -> int
    decreases s.len(),
{
    if s.len() == 0 {
        -1
    } else if s[0] == c {
        0
    } else {
        let rest = first_index_of(s.drop_first(), c);
        if rest < 0 {
            -1
        } else {
            rest + 1
        }
    }
}

/// `str::lines`: the text split at `\n` or `\r\n`, without a final empty line.
pub open spec fn str_lines(s: Seq<char>) -> Seq<Seq<char>>
    decreases s.len(),
{
    if s.len() == 0 {
        seq![]
    } else {
        let k = first_index_of(s, '\n');
        if k < 0 {
            seq![s]
        } else {
            proof {
                lemma_first_index_of_bounds(s, '\n');
            }
            seq![strip_cr(s.take(k))] + str_lines(s.skip(k + 1))
        }
    }
}

pub proof fn lemma_first_index_of_bounds(s: Seq<char>, c: char)
    ensures
        -1 <= first_index_of(s, c) < s.len(),
        first_index_of(s, c) >= 0 ==> s[first_index_of(s, c)] == c,
        forall|j: int| 0 <= j < s.len() && (first_index_of(s, c) < 0 || j < first_index_of(s, c))
            ==> s[j] != c,
    decreases s.len(),
{
    if s.len() > 0 && s[0] != c {
        lemma_first_index_of_bounds(s.drop_first(), c);
        assert forall|j: int|
            0 <= j < s.len() && (first_index_of(s, c) < 0 || j < first_index_of(s, c)) implies s[j]
            != c by {
            if j > 0 {
                assert(s[j] == s.drop_first()[j - 1]);
            }
        }
    }
}

proof fn lemma_first_index_of_is(s: Seq<char>, c: char, k: int)
    requires
        0 <= k < s.len(),
        s[k] == c,
        forall|j: int| 0 <= j < k ==> s[j] != c,
    ensures
        first_index_of(s, c) == k,
    decreases s.len(),
{
    if k > 0 {
        assert forall|j: int| 0 <= j < k - 1 implies s.drop_first()[j] != c by {
            assert(s.drop_first()[j] == s[j + 1]);
        }
        lemma_first_index_of_is(s.drop_first(), c, k - 1);
    }
}

proof fn lemma_first_index_of_none(s: Seq<char>, c: char)
    requires
        forall|j: int| 0 <= j < s.len() ==> s[j] != c,
    ensures
        first_index_of(s, c) == -1,
    decreases s.len(),
{
    if s.len() > 0 {
        assert forall|j: int| 0 <= j < s.len() - 1 implies s.drop_first()[j] != c by {
            assert(s.drop_first()[j] == s[j + 1]);
        }
        lemma_first_index_of_none(s.drop_first(), c);
    }
}

fn copy_chars(s: &[char], from: usize, to: usize) -> (out: Vec<char>)
    requires
        from <= to <= s@.len(),
    ensures
        out@ == s@.subrange(from as int, to as int),
{
    let mut out: Vec<char> = Vec::new();
    let mut j = from;
    while j < to
        invariant
            from <= j <= to <= s@.len(),
            out@ == s@.subrange(from as int, j as int),
        decreases to - j,
    {
        out.push(s[j]);
        j = j + 1;
    }
    out
}

/// `str::lines` over characters.
pub fn lines_of(s: &[char]) -> (out: Vec<Vec<char>>)
    ensures
        out@.len() == str_lines(s@).len(),
        forall|i: int| 0 <= i < out@.len() ==> out@[i]@ == str_lines(s@)[i],
{
    let mut out: Vec<Vec<char>> = Vec::new();
    let mut pos: usize = 0;
    let ghost mut done: Seq<Seq<char>> = seq![];
    assert(s@.skip(0) == s@);
    while pos < s.len()
        invariant
            pos <= s@.len(),
            out@.len() == done.len(),
            forall|i: int| 0 <= i < out@.len() ==> out@[i]@ == done[i],
            str_lines(s@) == done + str_lines(s@.skip(pos as int)),
        decreases s@.len() - pos,
    {
        let ghost rest = s@.skip(pos as int);
        let mut end = pos;
        while end < s.len() && s[end] != '\n'
            invariant
                pos <= end <= s@.len(),
                forall|j: int| pos <= j < end ==> s@[j] != '\n',
            decreases s@.len() - end,
        {
            end = end + 1;
        }
        let mut line_end = end;
        if line_end > pos && s[line_end - 1] == '\r' && end < s.len() {
            line_end = line_end - 1;
        }
        let line = copy_chars(s, pos, line_end);
        proof {
            if end < s@.len() {
                lemma_first_index_of_is(rest, '\n', end - pos);
                assert(rest.take(end - pos) == s@.subrange(pos as int, end as int));
                assert(rest.skip(end - pos + 1) == s@.skip(end + 1));
                assert(line@ == strip_cr(rest.take(end - pos)));
                assert(str_lines(rest) == seq![line@] + str_lines(s@.skip(end + 1)));
                assert(done.push(line@) + str_lines(s@.skip(end + 1)) =~= done + (seq![line@]
                    + str_lines(s@.skip(end + 1))));
            } else {
                assert forall|j: int| 0 <= j < rest.len() implies rest[j] != '\n' by {
                    assert(rest[j] == s@[pos + j]);
                }
                lemma_first_index_of_none(rest, '\n');
                assert(rest == s@.subrange(pos as int, end as int));
                assert(s@.skip(end as int).len() == 0);
                assert(str_lines(s@.skip(end as int)) == Seq::<Seq<char>>::empty());
                assert(line@ == rest);
                assert(str_lines(rest) == seq![line@]);
                assert(done.push(line@) =~= done + seq![line@]);
                assert(done.push(line@) + str_lines(s@.skip(end as int)) =~= done.push(line@));
            }
            done = done.push(line@);
        }
        out.push(line);
        if end < s.len() {
            pos = end + 1;
        } else {
            pos = end;
        }
    }
    assert(s@.skip(pos as int).len() == 0);
    out
}

/// The leading whitespace of `s`.
pub open spec fn leading_ws(s: Seq<char>) -> Seq<char>
    decreases s.len(),
{
    if s.len() > 0 && is_ws(s[0]) {
        seq![s[0]] + leading_ws(s.drop_first())
    } else {
        seq![]
    }
}

/// The lines `push_ranged` adds: the first line of `body` followed by its
/// range, then the other lines indented like the first.
pub open spec fn ranged_lines(body: Seq<char>, start: usize, end: usize) -> Seq<Seq<char>> {
    let ls = str_lines(body);
    if ls.len() == 0 {
        seq![]
    } else {
        seq![ls[0] + seq![' '] + range_text(start as nat, end as nat)] + Seq::new(
            (ls.len() - 1) as nat,
            |i: int| leading_ws(body) + ls[i + 1],
        )
    }
}

fn leading_ws_of(s: &[char]) -> (out: Vec<char>)
    ensures
        out@ == leading_ws(s@),
{
    let mut i: usize = 0;
    assert(s@.skip(0) == s@);
    while i < s.len() && is_whitespace(s[i])
        invariant
            i <= s@.len(),
            leading_ws(s@) == s@.take(i as int) + leading_ws(s@.skip(i as int)),
        decreases s@.len() - i,
    {
        assert(s@.skip(i as int).drop_first() == s@.skip(i + 1));
        assert(s@.take(i + 1) == s@.take(i as int) + seq![s@[i as int]]);
        i = i + 1;
    }
    copy_chars(s, 0, i)
}

/// Adds `body` with its range (see `ranged_lines`).
pub fn push_ranged(lines: &mut Vec<String>, body: &str, start: usize, end: usize)
    ensures
        texts(final(lines)@) == texts(old(lines)@) + ranged_lines(body@, start, end),
{
    let chars = chars_of(body);
    let body_lines = lines_of(chars.as_slice());
    if body_lines.len() == 0 {
        assert(texts(lines@) == texts(old(lines)@) + ranged_lines(body@, start, end));
        return;
    }
    let ghost ls = str_lines(body@);
    let mut first = string_of(body_lines[0].as_slice());
    push_char(&mut first, ' ');
    let range = format_range(start, end);
    first.append(range.as_str());
    assert(body_lines@[0]@ == ls[0]);
    assert(first@ =~= ls[0] + seq![' '] + range_text(start as nat, end as nat));
    let ghost before = lines@;
    lines.push(first);
    assert(texts(lines@) =~= texts(before).push(first@));
    assert(ranged_lines(body@, start, end).take(1) =~= seq![first@]);
    assert(texts(lines@) =~= texts(old(lines)@) + ranged_lines(body@, start, end).take(1));
    let indent = leading_ws_of(chars.as_slice());
    let mut i: usize = 1;
    while i < body_lines.len()
        invariant
            1 <= i <= body_lines@.len(),
            body_lines@.len() == ls.len(),
            forall|k: int| 0 <= k < body_lines@.len() ==> body_lines@[k]@ == ls[k],
            indent@ == leading_ws(body@),
            ls == str_lines(body@),
            ls.len() > 0,
            texts(lines@) == texts(old(lines)@) + ranged_lines(body@, start, end).take(i as int),
        decreases body_lines@.len() - i,
    {
        let mut line = string_of(indent.as_slice());
        push_chars(&mut line, body_lines[i].as_slice());
        assert(ranged_lines(body@, start, end)[i as int] == line@);
        assert(ranged_lines(body@, start, end).take(i + 1) =~= ranged_lines(body@, start, end).take(
            i as int,
        ).push(line@));
        let ghost prev = lines@;
        lines.push(line);
        assert(texts(lines@) =~= texts(prev).push(line@));
        i = i + 1;
        assert(texts(lines@) =~= texts(old(lines)@) + ranged_lines(body@, start, end).take(
            i as int,
        ));
    }
    assert(ranged_lines(body@, start, end).take(i as int) == ranged_lines(body@, start, end));
}

/// The lines and the open line after `wrap_csv` has placed `items`.
pub open spec fn wrap_state(items: Seq<Seq<char>>, indent: Seq<char>) -> (Seq<Seq<char>>, Seq<char>)
    decreases items.len(),
{
    if items.len() == 0 {
        (seq![], indent)
    } else {
        let (lines, current) = wrap_state(items.drop_last(), indent);
        let item = items.last();
        let first = items.len() == 1;
        let addition = if first { item } else { ", "@ + item };
        if !first && byte_len(current) + byte_len(addition) > LINE_WRAP_THRESHOLD {
            (lines.push(current), indent + item)
        } else {
            (lines, current + addition)
        }
    }
}

/// `items` as a comma-separated list that wraps before lines pass
/// `LINE_WRAP_THRESHOLD` bytes; each line starts with `indent`.
pub open spec fn wrapped(items: Seq<Seq<char>>, indent: Seq<char>) -> Seq<Seq<char>> {
    let (lines, current) = wrap_state(items, indent);
    if trim(current).len() > 0 {
        lines.push(current)
    } else {
        lines
    }
}

/// `min(byte_len(s), cap)`.
fn byte_len_capped(s: &[char], cap: usize) -> (r: usize)
    requires
        cap > 0,
    ensures
        r == if byte_len(s@) < cap { byte_len(s@) } else { cap as nat },
{
    let mut used: usize = 0;
    let mut i: usize = 0;
    while i < s.len()
        invariant
            i <= s@.len(),
            used == byte_len(s@.take(i as int)),
            used < cap,
        decreases s@.len() - i,
    {
        let w = char_width_of(s[i]);
        proof {
            assert(s@.take(i + 1).drop_last() == s@.take(i as int));
        }
        if cap - used <= w {
            proof {
                lemma_byte_len_prefix(s@, i + 1);
            }
            return cap;
        }
        used = used + w;
        i = i + 1;
    }
    assert(s@.take(i as int) == s@);
    used
}

fn char_width_of(c: char) -> (w: usize)
    ensures
        w == char_width(c),
{
    let u = c as u32;
    if u < 0x80 {
        1
    } else if u < 0x800 {
        2
    } else if u < 0x10000 {
        3
    } else {
        4
    }
}

proof fn lemma_byte_len_prefix(s: Seq<char>, k: int)
    requires
        0 <= k <= s.len(),
    ensures
        byte_len(s.take(k)) <= byte_len(s),
    decreases s.len() - k,
{
    if k < s.len() {
        lemma_byte_len_prefix(s, k + 1);
        assert(s.take(k + 1).drop_last() == s.take(k));
    } else {
        assert(s.take(k) == s);
    }
}

/// Lays out `items` as a wrapped comma-separated list (see `wrapped`).
pub fn wrap_csv(items: &Vec<String>, indent: &str) -> (out: Vec<String>)
    ensures
        texts(out@) == wrapped(texts(items@), indent@),
{
    let mut lines: Vec<String> = Vec::new();
    let mut current: Vec<char> = chars_of(indent);
    let mut i: usize = 0;
    while i < items.len()
        invariant
            i <= items@.len(),
            (texts(lines@), current@) == wrap_state(texts(items@.take(i as int)), indent@),
        decreases items@.len() - i,
    {
        let ghost prefix = texts(items@.take(i as int));
        assert(texts(items@.take(i + 1)).drop_last() =~= prefix);
        assert(texts(items@.take(i + 1)).last() == items@[i as int]@);
        let item = chars_of(items[i].as_str());
        let mut addition: Vec<char> = Vec::new();
        if i > 0 {
            addition.push(',');
            addition.push(' ');
        }
        proof {
            reveal_strlit(", ");
            assert(item@.take(0) =~= Seq::<char>::empty());
            if i > 0 {
                assert(addition@ =~= ", "@ + item@.take(0));
            } else {
                assert(addition@ =~= seq![] + item@.take(0));
            }
        }
        let mut k: usize = 0;
        while k < item.len()
            invariant
                k <= item@.len(),
                addition@ == (if i > 0 { ", "@ } else { seq![] }) + item@.take(k as int),
            decreases item@.len() - k,
        {
            addition.push(item[k]);
            k = k + 1;
            assert(item@.take(k as int) == item@.take(k - 1).push(item@[k - 1]));
        }
        proof {
            reveal_strlit(", ");
            assert(item@.take(item@.len() as int) == item@);
            if i > 0 {
                assert(addition@ =~= ", "@ + item@);
            } else {
                assert(addition@ =~= item@);
            }
        }
        let a = byte_len_capped(current.as_slice(), 121);
        let b = byte_len_capped(addition.as_slice(), 121);
        if i > 0 && a + b > LINE_WRAP_THRESHOLD {
            let ghost prev = lines@;
            lines.push(string_of(current.as_slice()));
            assert(texts(lines@) =~= texts(prev).push(current@));
            let mut next = chars_of(indent);
            let mut k: usize = 0;
            while k < item.len()
                invariant
                    k <= item@.len(),
                    next@ == indent@ + item@.take(k as int),
                decreases item@.len() - k,
            {
                next.push(item[k]);
                k = k + 1;
                assert(item@.take(k as int) == item@.take(k - 1).push(item@[k - 1]));
            }
            assert(item@.take(item@.len() as int) == item@);
            current = next;
        } else {
            let mut k: usize = 0;
            let ghost old_current = current@;
            while k < addition.len()
                invariant
                    k <= addition@.len(),
                    current@ == old_current + addition@.take(k as int),
                decreases addition@.len() - k,
            {
                current.push(addition[k]);
                k = k + 1;
                assert(addition@.take(k as int) == addition@.take(k - 1).push(addition@[k - 1]));
            }
            assert(addition@.take(addition@.len() as int) == addition@);
        }
        i = i + 1;
    }
    assert(items@.take(items@.len() as int) == items@);
    let trimmed = trim_chars(current.as_slice());
    if trimmed.len() > 0 {
        let ghost prev = lines@;
        lines.push(string_of(current.as_slice()));
        assert(texts(lines@) =~= texts(prev).push(current@));
    }
    lines
}

/// The lines of one child in the detailed layout.
pub open spec fn detailed_child_lines(c: ChildV) -> Seq<Seq<char>> {
    match c.range {
        Some((start, end)) => ranged_lines("    "@ + c.text, start, end),
        None => seq!["    "@ + c.text],
    }
}

/// The lines of children in the detailed layout, one or more per child.
pub open spec fn detailed_lines(children: Seq<ChildV>) -> Seq<Seq<char>>
    decreases children.len(),
{
    if children.len() == 0 {
        seq![]
    } else {
        detailed_lines(children.drop_last()) + detailed_child_lines(children.last())
    }
}

/// Whether the last child is the `[N more truncated]` marker.
pub open spec fn ends_with_truncation(children: Seq<ChildV>) -> bool {
    children.len() > 0 && children.last().range is None && crate::text::has_suffix(
        children.last().text,
        " more truncated]"@,
    )
}

/// A child as an item of the brief layout.
pub open spec fn brief_value(c: ChildV) -> Seq<char> {
    match c.range {
        Some((start, end)) => c.text + seq![' '] + range_text(start as nat, end as nat),
        None => c.text,
    }
}

/// The lines of children in the brief layout: a wrapped list, then the
/// truncation marker on its own line.
pub open spec fn brief_lines(children: Seq<ChildV>) -> Seq<Seq<char>> {
    let marker = ends_with_truncation(children);
    let listed = if marker { children.drop_last() } else { children };
    let values = Seq::new(listed.len(), |i: int| brief_value(listed[i]));
    wrapped(values, "    "@) + if marker {
        seq!["    "@ + children.last().text]
    } else {
        seq![]
    }
}

/// The lines of an entry's children.
pub open spec fn children_lines(e: EntryV) -> Seq<Seq<char>> {
    match e.child_style {
        ChildStyle::Detailed => detailed_lines(e.children),
        ChildStyle::Brief => brief_lines(e.children),
    }
}

fn prefixed_string(prefix: &str, text: &str) -> (out: String)
    ensures
        out@ == prefix@ + text@,
{
    let mut out = String::from_str(prefix);
    out.append(text);
    out
}

fn ends_with_text(s: &str, suffix: &str) -> (r: bool)
    ensures
        r == crate::text::has_suffix(s@, suffix@),
{
    let a = chars_of(s);
    let b = chars_of(suffix);
    crate::text::ends_with(a.as_slice(), b.as_slice())
}

/// Adds the lines of an entry's children (see `children_lines`).
pub fn render_children(lines: &mut Vec<String>, entry: &Entry)
    ensures
        texts(final(lines)@) == texts(old(lines)@) + children_lines(entry@),
{
    let ghost cs = child_views(entry.children@);
    match entry.child_style {
        ChildStyle::Detailed => {
            let mut i: usize = 0;
            while i < entry.children.len()
                invariant
                    i <= entry.children@.len(),
                    cs == child_views(entry.children@),
                    texts(lines@) == texts(old(lines)@) + detailed_lines(cs.take(i as int)),
                decreases entry.children@.len() - i,
            {
                let child = &entry.children[i];
                assert(cs.take(i + 1).drop_last() =~= cs.take(i as int));
                assert(cs.take(i + 1).last() == child@);
                let body = prefixed_string("    ", child.text.as_str());
                match child.range {
                    Some((start, end)) => {
                        push_ranged(lines, body.as_str(), start, end);
                    },
                    None => {
                        let ghost prev = lines@;
                        lines.push(body);
                        assert(texts(lines@) =~= texts(prev).push(("    "@ + child.text@)));
                    },
                }
                i = i + 1;
                assert(texts(lines@) =~= texts(old(lines)@) + detailed_lines(cs.take(i as int)));
            }
            assert(cs.take(i as int) =~= cs);
        },
        ChildStyle::Brief => {
            let n = entry.children.len();
            let marker = n > 0 && entry.children[n - 1].range.is_none() && ends_with_text(
                entry.children[n - 1].text.as_str(),
                " more truncated]",
            );
            assert(marker == ends_with_truncation(cs));
            let listed_len = if marker { n - 1 } else { n };
            let ghost listed = if marker { cs.drop_last() } else { cs };
            let mut values: Vec<String> = Vec::new();
            let mut i: usize = 0;
            while i < listed_len
                invariant
                    i <= listed_len <= n,
                    n == entry.children@.len(),
                    cs == child_views(entry.children@),
                    listed.len() == listed_len,
                    listed == if marker { cs.drop_last() } else { cs },
                    texts(values@) == Seq::new(i as nat, |k: int| brief_value(listed[k])),
                decreases listed_len - i,
            {
                let child = &entry.children[i];
                assert(listed[i as int] == child@);
                let value = match child.range {
                    Some((start, end)) => {
                        let mut v = String::new();
                        v.append(child.text.as_str());
                        push_char(&mut v, ' ');
                        let r = format_range(start, end);
                        v.append(r.as_str());
                        assert(v@ =~= child.text@ + seq![' '] + range_text(start as nat, end as nat));
                        v
                    },
                    None => {
                        let mut v = String::new();
                        v.append(child.text.as_str());
                        assert(v@ =~= child.text@);
                        v
                    },
                };
                assert(value@ == brief_value(listed[i as int]));
                let ghost prev = values@;
                values.push(value);
                assert(texts(values@) =~= texts(prev).push(brief_value(listed[i as int])));
                i = i + 1;
                assert(texts(values@) =~= Seq::new(i as nat, |k: int| brief_value(listed[k])));
            }
            let wrapped_lines = wrap_csv(&values, "    ");
            let mut j: usize = 0;
            let ghost base = lines@;
            while j < wrapped_lines.len()
                invariant
                    j <= wrapped_lines@.len(),
                    texts(lines@) == texts(base) + texts(wrapped_lines@.take(j as int)),
                decreases wrapped_lines@.len() - j,
            {
                let ghost prev = lines@;
                lines.push(clone_string(&wrapped_lines[j]));
                assert(texts(lines@) =~= texts(prev).push(wrapped_lines@[j as int]@));
                assert(texts(wrapped_lines@.take(j + 1)) =~= texts(wrapped_lines@.take(j as int)).push(
                    wrapped_lines@[j as int]@,
                ));
                j = j + 1;
                assert(texts(lines@) =~= texts(base) + texts(wrapped_lines@.take(j as int)));
            }
            assert(wrapped_lines@.take(j as int) =~= wrapped_lines@);
            if marker {
                let ghost prev = lines@;
                lines.push(prefixed_string("    ", entry.children[n - 1].text.as_str()));
                assert(texts(lines@) =~= texts(prev).push("    "@ + cs.last().text));
            }
            assert(texts(lines@) =~= texts(old(lines)@) + children_lines(entry@));
        },
    }
}

/// A copy of a string.
pub fn clone_string(s: &String) -> (out: String)
    ensures
        out@ == s@,
{
    s.clone()
}

} // verus!
