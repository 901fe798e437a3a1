//! Rendering the extracted entries as a skeleton.
use crate::skeleton::{
    children_lines, clone_string, entry_views, join, join_strings, push_ranged, ranged_lines,
    render_children, texts, wrap_csv, wrapped, Entry, EntryV, Extracted, Section,
};
use crate::text::{chars_of, format_range, range_text, same_text};
use crate::trie::{compare_text, has_path, render_trie, text_lt, wf, ImportTrie, TextOrder};
use vstd::prelude::*;

verus! {

/// The views of a sequence of entry references.
pub open spec fn ref_views(v: Seq<&Entry>) -> Seq<EntryV> {
    Seq::new(v.len(), |i: int| v[i]@)
}

/// The smallest first line of the entries (1 when there are none).
pub open spec fn min_start(items: Seq<EntryV>) -> nat
    decreases items.len(),
{
    if items.len() == 0 {
        1
    } else if items.len() == 1 {
        items[0].line_start as nat
    } else {
        let rest = min_start(items.drop_last());
        let last = items.last().line_start as nat;
        if last < rest {
            last
        } else {
            rest
        }
    }
}

/// The largest last line of the entries (`min_start` when there are none).
pub open spec fn max_end(items: Seq<EntryV>) -> nat
    decreases items.len(),
{
    if items.len() == 0 {
        min_start(items)
    } else if items.len() == 1 {
        items[0].line_end as nat
    } else {
        let rest = max_end(items.drop_last());
        let last = items.last().line_end as nat;
        if last > rest {
            last
        } else {
            rest
        }
    }
}

/// The range that a group of entries spans.
pub open spec fn entries_range_text(items: Seq<EntryV>) -> Seq<char> {
    range_text(min_start(items), max_end(items))
}

/// The range spanned by the entries (see `entries_range_text`).
pub fn entries_range(items: &Vec<&Entry>) -> (out: String)
    ensures
        out@ == entries_range_text(ref_views(items@)),
{
    let ghost v = ref_views(items@);
    if items.len() == 0 {
        return format_range(1, 1);
    }
    let mut start: usize = items[0].line_start;
    let mut end: usize = items[0].line_end;
    let mut i: usize = 1;
    while i < items.len()
        invariant
            1 <= i <= items@.len(),
            v == ref_views(items@),
            start == min_start(v.take(i as int)),
            end == max_end(v.take(i as int)),
        decreases items@.len() - i,
    {
        assert(v.take(i + 1).drop_last() =~= v.take(i as int));
        if items[i].line_start < start {
            start = items[i].line_start;
        }
        if items[i].line_end > end {
            end = items[i].line_end;
        }
        i = i + 1;
    }
    assert(v.take(i as int) =~= v);
    format_range(start, end)
}

/// The keyword an import entry is listed under.
pub open spec fn keyword_of(e: EntryV) -> Seq<char> {
    match e.import_keyword {
        Some(k) => k,
        None => "import"@,
    }
}

/// The tries of import paths, one per keyword.
pub struct ImportGroup {
    pub keyword: String,
    pub trie: ImportTrie,
}

/// Whether some entry lists `path` under `keyword`.
pub open spec fn lists_path(items: Seq<EntryV>, keyword: Seq<char>, path: Seq<Seq<char>>) -> bool {
    exists|i: int, j: int|
        0 <= i < items.len() && 0 <= j < items[i].import_paths.len() && keyword_of(items[i])
            == keyword && #[trigger] items[i].import_paths[j] == path
}

/// Whether one of the first `n` entries uses `keyword`.
pub open spec fn keyword_used(items: Seq<EntryV>, keyword: Seq<char>, n: int) -> bool {
    exists|e: int| 0 <= e < n && e < items.len() && keyword_of(items[e]) == keyword
}

/// Whether some group has `keyword`.
pub open spec fn keyword_grouped(groups: Seq<ImportGroup>, keyword: Seq<char>) -> bool {
    exists|a: int| 0 <= a < groups.len() && groups[a].keyword@ == keyword
}

/// Whether `groups` hold exactly the import paths of `items`, one group per
/// keyword used, in keyword order.
pub open spec fn groups_of(groups: Seq<ImportGroup>, items: Seq<EntryV>) -> bool {
    &&& forall|a: int, b: int|
        0 <= a < b < groups.len() ==> text_lt(
            #[trigger] groups[a].keyword@,
            #[trigger] groups[b].keyword@,
        )
    &&& forall|a: int| 0 <= a < groups.len() ==> wf(#[trigger] groups[a].trie)
    &&& forall|a: int|
        0 <= a < groups.len() ==> #[trigger] keyword_used(items, groups[a].keyword@, items.len() as int)
    &&& forall|i: int|
        0 <= i < items.len() ==> #[trigger] keyword_grouped(groups, keyword_of(items[i]))
    &&& forall|a: int, q: Seq<Seq<char>>|
        0 <= a < groups.len() ==> (#[trigger] has_path(groups[a].trie, q) <==> lists_path(
            items,
            groups[a].keyword@,
            q,
        ))
}

/// The lines of one import group.
pub open spec fn group_lines(g: ImportGroup, sep: Seq<char>) -> Seq<Seq<char>> {
    let values = render_trie(g.trie, sep);
    Seq::new(
        values.len(),
        |i: int|
            if g.keyword@ == "import"@ {
                "  "@ + values[i]
            } else {
                "  "@ + g.keyword@ + ": "@ + values[i]
            },
    )
}

/// The lines of all import groups.
pub open spec fn groups_lines(groups: Seq<ImportGroup>, sep: Seq<char>) -> Seq<Seq<char>>
    decreases groups.len(),
{
    if groups.len() == 0 {
        seq![]
    } else {
        groups_lines(groups.drop_last(), sep) + group_lines(groups.last(), sep)
    }
}

/// The import section for the given groups.
pub open spec fn imports_text(items: Seq<EntryV>, groups: Seq<ImportGroup>, sep: Seq<char>) -> Seq<
    char,
> {
    join(seq!["imports: "@ + entries_range_text(items)] + groups_lines(groups, sep), "\n"@)
}

/// Whether entry `a` lists `path` under `keyword` at position `b`, counting
/// the entries before `i` and the first `j` paths of entry `i`.
pub open spec fn lists_upto(
    items: Seq<EntryV>,
    i: int,
    j: int,
    keyword: Seq<char>,
    path: Seq<Seq<char>>,
) -> bool {
    exists|a: int, b: int|
        0 <= a < items.len() && 0 <= b < items[a].import_paths.len() && (a < i || (a == i && b
            < j)) && keyword_of(items[a]) == keyword && #[trigger] items[a].import_paths[b] == path
}

/// The keyword of an entry, as a string.
fn entry_keyword(e: &Entry) -> (k: String)
    ensures
        k@ == keyword_of(e@),
{
    match &e.import_keyword {
        Some(k) => clone_string(k),
        None => String::from_str("import"),
    }
}

/// The state of `import_groups` after the keywords of the first `k` entries
/// have groups and the paths before position `j` of entry `i` are filed.
#[verifier::opaque]
pub open spec fn groups_inv(g: Seq<ImportGroup>, v: Seq<EntryV>, k: int, i: int, j: int) -> bool {
    &&& forall|a: int, b: int|
        0 <= a < b < g.len() ==> text_lt(#[trigger] g[a].keyword@, #[trigger] g[b].keyword@)
    &&& forall|a: int| 0 <= a < g.len() ==> wf(#[trigger] g[a].trie)
    &&& forall|a: int| 0 <= a < g.len() ==> #[trigger] keyword_used(v, g[a].keyword@, k)
    &&& forall|e: int| 0 <= e < k && e < v.len() ==> #[trigger] keyword_grouped(g, keyword_of(v[e]))
    &&& forall|a: int, q: Seq<Seq<char>>|
        0 <= a < g.len() ==> (#[trigger] has_path(g[a].trie, q) <==> lists_upto(
            v,
            i,
            j,
            g[a].keyword@,
            q,
        ))
}

proof fn lemma_groups_start(v: Seq<EntryV>)
    ensures
        groups_inv(Seq::empty(), v, 0, 0, 0),
{
    reveal(groups_inv);
}

proof fn lemma_groups_end(g: Seq<ImportGroup>, v: Seq<EntryV>)
    requires
        groups_inv(g, v, v.len() as int, v.len() as int, 0),
    ensures
        groups_of(g, v),
{
    reveal(groups_inv);
    assert forall|a: int| 0 <= a < g.len() implies #[trigger] keyword_used(v, g[a].keyword@, v.len() as int) by {
        assert(keyword_used(v, g[a].keyword@, v.len() as int));
    }
    assert forall|a: int, q: Seq<Seq<char>>|
        0 <= a < g.len() implies (#[trigger] has_path(g[a].trie, q) <==> lists_path(
        v,
        g[a].keyword@,
        q,
    )) by {
        if lists_path(v, g[a].keyword@, q) {
            let (e, b) = choose|e: int, b: int|
                0 <= e < v.len() && 0 <= b < v[e].import_paths.len() && keyword_of(v[e])
                    == g[a].keyword@ && #[trigger] v[e].import_paths[b] == q;
            assert(lists_upto(v, v.len() as int, 0, g[a].keyword@, q));
        }
    }
}

proof fn lemma_used_grow(v: Seq<EntryV>, kw: Seq<char>, n: int, m: int)
    requires
        keyword_used(v, kw, n),
        n <= m,
    ensures
        keyword_used(v, kw, m),
{
    let e = choose|e: int| 0 <= e < n && e < v.len() && keyword_of(v[e]) == kw;
    assert(0 <= e < m && e < v.len() && keyword_of(v[e]) == kw);
}

proof fn lemma_groups_found(g: Seq<ImportGroup>, v: Seq<EntryV>, i: int, p: int)
    requires
        groups_inv(g, v, i, i, 0),
        0 <= i < v.len(),
        0 <= p < g.len(),
        g[p].keyword@ == keyword_of(v[i]),
    ensures
        groups_inv(g, v, i + 1, i, 0),
{
    reveal(groups_inv);
    assert forall|a: int| 0 <= a < g.len() implies #[trigger] keyword_used(v, g[a].keyword@, i + 1) by {
        lemma_used_grow(v, g[a].keyword@, i, i + 1);
    }
    assert forall|e: int|
        0 <= e < i + 1 && e < v.len() implies #[trigger] keyword_grouped(g, keyword_of(v[e])) by {
        if e == i {
            assert(g[p].keyword@ == keyword_of(v[e]));
        }
    }
}

proof fn lemma_groups_new(
    before: Seq<ImportGroup>,
    after: Seq<ImportGroup>,
    v: Seq<EntryV>,
    i: int,
    p: int,
    kw: Seq<char>,
)
    requires
        groups_inv(before, v, i, i, 0),
        0 <= i < v.len(),
        kw == keyword_of(v[i]),
        0 <= p <= before.len(),
        forall|a: int| 0 <= a < p ==> text_lt(#[trigger] before[a].keyword@, kw),
        p < before.len() ==> before[p].keyword@ != kw && !text_lt(before[p].keyword@, kw),
        after.len() == before.len() + 1,
        after == before.insert(p, after[p]),
        after[p].keyword@ == kw,
        wf(after[p].trie),
        forall|q: Seq<Seq<char>>| !has_path(after[p].trie, q),
    ensures
        groups_inv(after, v, i + 1, i, 0),
{
    reveal(groups_inv);
    if p < before.len() {
        crate::trie::lemma_text_lt_total(before[p].keyword@, kw);
    }
    assert forall|e: int| 0 <= e < i implies keyword_of(#[trigger] v[e]) != kw by {
        if keyword_of(v[e]) == kw {
            assert(keyword_grouped(before, keyword_of(v[e])));
            let a = choose|a: int| 0 <= a < before.len() && before[a].keyword@ == kw;
            if a < p {
                crate::trie::lemma_text_lt_irreflexive(kw);
            } else if a > p {
                assert(text_lt(before[p].keyword@, before[a].keyword@));
            }
        }
    }
    assert forall|a: int, b: int|
        0 <= a < b < after.len() implies text_lt(
        #[trigger] after[a].keyword@,
        #[trigger] after[b].keyword@,
    ) by {
        if b < p {
        } else if a < p && b == p {
        } else if a < p {
            assert(after[b] == before[b - 1]);
            crate::trie::lemma_text_lt_transitive(after[a].keyword@, kw, before[p].keyword@);
            if b - 1 > p {
                crate::trie::lemma_text_lt_transitive(
                    after[a].keyword@,
                    before[p].keyword@,
                    before[b - 1].keyword@,
                );
            }
        } else if a == p {
            assert(after[b] == before[b - 1]);
            if b - 1 > p {
                crate::trie::lemma_text_lt_transitive(
                    kw,
                    before[p].keyword@,
                    before[b - 1].keyword@,
                );
            }
        } else {
            assert(after[a] == before[a - 1]);
            assert(after[b] == before[b - 1]);
        }
    }
    assert forall|a: int| 0 <= a < after.len() implies wf(#[trigger] after[a].trie) by {
        if a > p {
            assert(after[a] == before[a - 1]);
        }
    }
    assert forall|a: int|
        0 <= a < after.len() implies #[trigger] keyword_used(v, after[a].keyword@, i + 1) by {
        if a < p {
            assert(after[a] == before[a]);
            lemma_used_grow(v, before[a].keyword@, i, i + 1);
        } else if a > p {
            assert(after[a] == before[a - 1]);
            lemma_used_grow(v, before[a - 1].keyword@, i, i + 1);
        } else {
            assert(0 <= i < i + 1 && i < v.len() && keyword_of(v[i]) == after[a].keyword@);
        }
    }
    assert forall|e: int|
        0 <= e < i + 1 && e < v.len() implies #[trigger] keyword_grouped(
        after,
        keyword_of(v[e]),
    ) by {
        if e == i {
            assert(after[p].keyword@ == keyword_of(v[e]));
        } else {
            assert(keyword_grouped(before, keyword_of(v[e])));
            let a = choose|a: int| 0 <= a < before.len() && before[a].keyword@ == keyword_of(v[e]);
            if a < p {
                assert(after[a] == before[a]);
                assert(after[a].keyword@ == keyword_of(v[e]));
            } else {
                assert(after[a + 1] == before[a]);
                assert(after[a + 1].keyword@ == keyword_of(v[e]));
            }
        }
    }
    assert forall|a: int, q: Seq<Seq<char>>|
        0 <= a < after.len() implies (#[trigger] has_path(after[a].trie, q) <==> lists_upto(
        v,
        i,
        0,
        after[a].keyword@,
        q,
    )) by {
        if a > p {
            assert(after[a] == before[a - 1]);
        } else if a == p {
            if lists_upto(v, i, 0, kw, q) {
                let (e, b) = choose|e: int, b: int|
                    0 <= e < v.len() && 0 <= b < v[e].import_paths.len() && (e < i || (e == i && b
                        < 0)) && keyword_of(v[e]) == kw && #[trigger] v[e].import_paths[b] == q;
                assert(keyword_of(v[e]) != kw);
            }
        } else {
            assert(after[a] == before[a]);
        }
    }
}

proof fn lemma_groups_path(
    before: Seq<ImportGroup>,
    after: Seq<ImportGroup>,
    v: Seq<EntryV>,
    i: int,
    j: int,
    p: int,
)
    requires
        groups_inv(before, v, i + 1, i, j),
        0 <= i < v.len(),
        0 <= j < v[i].import_paths.len(),
        0 <= p < before.len(),
        before[p].keyword@ == keyword_of(v[i]),
        after.len() == before.len(),
        after == before.update(p, after[p]),
        after[p].keyword == before[p].keyword,
        wf(after[p].trie),
        forall|q: Seq<Seq<char>>|
            #![trigger has_path(after[p].trie, q)]
            has_path(after[p].trie, q) <==> (has_path(before[p].trie, q) || q
                == v[i].import_paths[j]),
    ensures
        groups_inv(after, v, i + 1, i, j + 1),
{
    reveal(groups_inv);
    let kw = keyword_of(v[i]);
    assert forall|a: int| 0 <= a < after.len() implies #[trigger] after[a].keyword
        == before[a].keyword by {
        if a != p {
            assert(after[a] == before[a]);
        }
    }
    assert forall|a: int| 0 <= a < after.len() implies wf(#[trigger] after[a].trie) by {
        if a != p {
            assert(after[a] == before[a]);
        }
    }
    assert forall|a: int, b: int|
        0 <= a < b < after.len() implies text_lt(
        #[trigger] after[a].keyword@,
        #[trigger] after[b].keyword@,
    ) by {
        assert(after[a].keyword == before[a].keyword);
        assert(after[b].keyword == before[b].keyword);
    }
    assert forall|a: int|
        0 <= a < after.len() implies #[trigger] keyword_used(v, after[a].keyword@, i + 1) by {
        assert(after[a].keyword == before[a].keyword);
        assert(keyword_used(v, before[a].keyword@, i + 1));
    }
    assert forall|e: int|
        0 <= e < i + 1 && e < v.len() implies #[trigger] keyword_grouped(
        after,
        keyword_of(v[e]),
    ) by {
        assert(keyword_grouped(before, keyword_of(v[e])));
        let a = choose|a: int| 0 <= a < before.len() && before[a].keyword@ == keyword_of(v[e]);
        assert(after[a].keyword == before[a].keyword);
        assert(after[a].keyword@ == keyword_of(v[e]));
    }
    assert forall|a: int, q: Seq<Seq<char>>|
        0 <= a < after.len() implies (#[trigger] has_path(after[a].trie, q) <==> lists_upto(
        v,
        i,
        j + 1,
        after[a].keyword@,
        q,
    )) by {
        let k = after[a].keyword@;
        assert(after[a].keyword == before[a].keyword);
        if lists_upto(v, i, j + 1, k, q) {
            let (e, b) = choose|e: int, b: int|
                0 <= e < v.len() && 0 <= b < v[e].import_paths.len() && (e < i || (e == i && b < j
                    + 1)) && keyword_of(v[e]) == k && #[trigger] v[e].import_paths[b] == q;
            if e == i && b == j {
                if a != p {
                    crate::trie::lemma_text_lt_irreflexive(kw);
                    if a < p {
                        assert(text_lt(before[a].keyword@, before[p].keyword@));
                    } else {
                        assert(text_lt(before[p].keyword@, before[a].keyword@));
                    }
                }
            } else {
                assert(lists_upto(v, i, j, k, q));
            }
        }
        if lists_upto(v, i, j, k, q) {
            let (e, b) = choose|e: int, b: int|
                0 <= e < v.len() && 0 <= b < v[e].import_paths.len() && (e < i || (e == i && b
                    < j)) && keyword_of(v[e]) == k && #[trigger] v[e].import_paths[b] == q;
            assert(lists_upto(v, i, j + 1, k, q));
        }
        if a == p && q == v[i].import_paths[j] {
            assert(lists_upto(v, i, j + 1, k, q));
        }
        if a != p {
            assert(after[a] == before[a]);
        }
    }
}

proof fn lemma_groups_next(g: Seq<ImportGroup>, v: Seq<EntryV>, i: int)
    requires
        0 <= i < v.len(),
        groups_inv(g, v, i + 1, i, v[i].import_paths.len() as int),
    ensures
        groups_inv(g, v, i + 1, i + 1, 0),
{
    reveal(groups_inv);
    let n = v[i].import_paths.len() as int;
    assert forall|a: int, q: Seq<Seq<char>>|
        0 <= a < g.len() implies (#[trigger] has_path(g[a].trie, q) <==> lists_upto(
        v,
        i + 1,
        0,
        g[a].keyword@,
        q,
    )) by {
        let k = g[a].keyword@;
        if lists_upto(v, i + 1, 0, k, q) {
            let (e, b) = choose|e: int, b: int|
                0 <= e < v.len() && 0 <= b < v[e].import_paths.len() && (e < i + 1 || (e == i + 1
                    && b < 0)) && keyword_of(v[e]) == k && #[trigger] v[e].import_paths[b] == q;
            assert(lists_upto(v, i, n, k, q));
        }
        if lists_upto(v, i, n, k, q) {
            let (e, b) = choose|e: int, b: int|
                0 <= e < v.len() && 0 <= b < v[e].import_paths.len() && (e < i || (e == i && b < n))
                    && keyword_of(v[e]) == k && #[trigger] v[e].import_paths[b] == q;
            assert(lists_upto(v, i + 1, 0, k, q));
        }
    }
}

/// Groups the import paths of `items` by keyword (see `groups_of`).
pub fn import_groups(items: &Vec<&Entry>) -> (groups: Vec<ImportGroup>)
    ensures
        groups_of(groups@, ref_views(items@)),
{
    let ghost v = ref_views(items@);
    let mut groups: Vec<ImportGroup> = Vec::new();
    proof {
        lemma_groups_start(v);
    }
    let mut i: usize = 0;
    while i < items.len()
        invariant
            i <= items@.len(),
            v == ref_views(items@),
            groups_inv(groups@, v, i as int, i as int, 0),
        decreases items@.len() - i,
    {
        let entry = items[i];
        assert(v[i as int] == entry@);
        let keyword = entry_keyword(entry);
        let kw = chars_of(keyword.as_str());
        let mut p: usize = 0;
        while p < groups.len() && compare_text(
            chars_of(groups[p].keyword.as_str()).as_slice(),
            kw.as_slice(),
        ) == TextOrder::Less
            invariant
                p <= groups@.len(),
                forall|a: int| 0 <= a < p ==> text_lt(groups@[a].keyword@, kw@),
            decreases groups@.len() - p,
        {
            p = p + 1;
        }
        let found = p < groups.len() && compare_text(
            chars_of(groups[p].keyword.as_str()).as_slice(),
            kw.as_slice(),
        ) == TextOrder::Equal;
        if found {
            proof {
                lemma_groups_found(groups@, v, i as int, p as int);
            }
        } else {
            let ghost before = groups@;
            let group = ImportGroup { keyword, trie: ImportTrie::new() };
            groups.insert(p, group);
            proof {
                lemma_groups_new(before, groups@, v, i as int, p as int, kw@);
            }
        }
        let mut j: usize = 0;
        while j < entry.import_paths.len()
            invariant
                i < items@.len(),
                v == ref_views(items@),
                v[i as int] == entry@,
                p < groups@.len(),
                groups@[p as int].keyword@ == keyword_of(v[i as int]),
                j <= entry.import_paths@.len(),
                groups_inv(groups@, v, i + 1, i as int, j as int),
            decreases entry.import_paths@.len() - j,
        {
            let ghost before = groups@;
            proof {
                reveal(groups_inv);
            }
            let mut group = groups.remove(p);
            group.trie.insert(&entry.import_paths[j], 0);
            groups.insert(p, group);
            proof {
                assert(groups@ =~= before.update(p as int, groups@[p as int]));
                let path = texts(entry.import_paths@[j as int]@);
                assert(path.skip(0) == path);
                assert(v[i as int].import_paths[j as int] == path);
                lemma_groups_path(before, groups@, v, i as int, j as int, p as int);
            }
            j = j + 1;
        }
        proof {
            lemma_groups_next(groups@, v, i as int);
        }
        i = i + 1;
    }
    proof {
        lemma_groups_end(groups@, v);
    }
    groups
}

/// The lines of one import group (see `group_lines`).
fn push_group_lines(lines: &mut Vec<String>, group: &ImportGroup, sep: &str)
    ensures
        texts(final(lines)@) == texts(old(lines)@) + group_lines(*group, sep@),
{
    let values = group.trie.render(sep);
    let ghost vs = render_trie(group.trie, sep@);
    let plain = same_text(group.keyword.as_str(), "import");
    let mut k: usize = 0;
    while k < values.len()
        invariant
            k <= values@.len(),
            texts(values@) == vs,
            vs == render_trie(group.trie, sep@),
            plain == (group.keyword@ == "import"@),
            texts(lines@) == texts(old(lines)@) + group_lines(*group, sep@).take(k as int),
        decreases values@.len() - k,
    {
        let mut line = String::from_str("  ");
        if !plain {
            line.append(group.keyword.as_str());
            line.append(": ");
        }
        line.append(values[k].as_str());
        assert(values@[k as int]@ == vs[k as int]);
        assert(line@ == group_lines(*group, sep@)[k as int]);
        let ghost prev = lines@;
        lines.push(line);
        assert(texts(lines@) =~= texts(prev).push(group_lines(*group, sep@)[k as int]));
        assert(group_lines(*group, sep@).take(k + 1) =~= group_lines(*group, sep@).take(k as int).push(
            group_lines(*group, sep@)[k as int],
        ));
        k = k + 1;
    }
    assert(group_lines(*group, sep@).take(k as int) =~= group_lines(*group, sep@));
}

/// The import section for `items` whose groups are `groups`.
fn imports_from_groups(items: &Vec<&Entry>, groups: &Vec<ImportGroup>, sep: &str) -> (out: String)
    ensures
        out@ == imports_text(ref_views(items@), groups@, sep@),
{
    let mut head = String::from_str("imports: ");
    let range = entries_range(items);
    head.append(range.as_str());
    let ghost first = head@;
    let mut lines: Vec<String> = Vec::new();
    lines.push(head);
    assert(texts(lines@) =~= seq![first] + groups_lines(groups@.take(0), sep@));
    let mut a: usize = 0;
    while a < groups.len()
        invariant
            a <= groups@.len(),
            texts(lines@) == seq![first] + groups_lines(groups@.take(a as int), sep@),
        decreases groups@.len() - a,
    {
        push_group_lines(&mut lines, &groups[a], sep);
        assert(groups@.take(a + 1).drop_last() =~= groups@.take(a as int));
        a = a + 1;
    }
    assert(groups@.take(a as int) =~= groups@);
    join_strings(&lines, "\n")
}

/// The import section: the range the import entries span, then each import
/// path of each keyword, the keywords in order and the paths as their tries
/// show them.
pub fn render_imports(items: &Vec<&Entry>, sep: &str) -> (out: String)
    ensures
        exists|groups: Seq<ImportGroup>|
            groups_of(groups, ref_views(items@)) && out@ == imports_text(
                ref_views(items@),
                groups,
                sep@,
            ),
{
    let groups = import_groups(items);
    imports_from_groups(items, &groups, sep)
}

/// The sections of a skeleton, in the order they are shown.
pub open spec fn section_order() -> Seq<Section> {
    seq![
        Section::Import,
        Section::Module,
        Section::Constant,
        Section::Type,
        Section::Trait,
        Section::Impl,
        Section::Function,
        Section::Class,
        Section::Macro,
        Section::Heading,
    ]
}

/// The header of a section.
pub open spec fn section_header(s: Section) -> Seq<char> {
    match s {
        Section::Import => "imports:"@,
        Section::Module => "mod:"@,
        Section::Constant => "consts:"@,
        Section::Type => "types:"@,
        Section::Trait => "traits:"@,
        Section::Impl => "impls:"@,
        Section::Function => "fns:"@,
        Section::Class => "classes:"@,
        Section::Macro => "macros:"@,
        Section::Heading => "headings:"@,
    }
}

/// The entries of section `s`, in order.
pub open spec fn in_section(entries: Seq<EntryV>, s: Section) -> Seq<EntryV>
    decreases entries.len(),
{
    if entries.len() == 0 {
        seq![]
    } else {
        let rest = in_section(entries.drop_last(), s);
        if entries.last().section == s {
            rest.push(entries.last())
        } else {
            rest
        }
    }
}

/// The lines of one entry: its attributes, its text with its range, then its
/// children.
pub open spec fn entry_lines(e: EntryV) -> Seq<Seq<char>> {
    Seq::new(e.attrs.len(), |i: int| "  "@ + e.attrs[i]) + ranged_lines(
        "  "@ + e.text,
        e.line_start,
        e.line_end,
    ) + children_lines(e)
}

/// The lines of several entries.
pub open spec fn entries_lines(items: Seq<EntryV>) -> Seq<Seq<char>>
    decreases items.len(),
{
    if items.len() == 0 {
        seq![]
    } else {
        entries_lines(items.drop_last()) + entry_lines(items.last())
    }
}

/// The texts of entries, in order.
pub open spec fn entry_texts(items: Seq<EntryV>) -> Seq<Seq<char>> {
    Seq::new(items.len(), |i: int| items[i].text)
}

/// The block of a non-empty section other than the imports.
pub open spec fn section_block(s: Section, items: Seq<EntryV>) -> Seq<char> {
    if s == Section::Module {
        join(
            seq!["mod: "@ + entries_range_text(items)] + wrapped(entry_texts(items), "  "@),
            "\n"@,
        )
    } else {
        join(seq![section_header(s)] + entries_lines(items), "\n"@)
    }
}

/// The blocks of the sections from the `k`-th on that have entries; the
/// imports are shown with `groups`.
pub open spec fn section_blocks(
    entries: Seq<EntryV>,
    groups: Seq<ImportGroup>,
    sep: Seq<char>,
    k: int,
) -> Seq<Seq<char>>
    decreases 10 - k,
{
    if k < 0 || k >= 10 {
        seq![]
    } else {
        let s = section_order()[k];
        let items = in_section(entries, s);
        let block = if s == Section::Import {
            imports_text(items, groups, sep)
        } else {
            section_block(s, items)
        };
        (if items.len() == 0 {
            seq![]
        } else {
            seq![block]
        }) + section_blocks(entries, groups, sep, k + 1)
    }
}

/// The smallest of some line numbers.
pub open spec fn lines_min(v: Seq<usize>) -> usize
    decreases v.len(),
{
    if v.len() <= 1 {
        if v.len() == 0 { 0 } else { v[0] }
    } else {
        let rest = lines_min(v.drop_last());
        if v.last() < rest { v.last() } else { rest }
    }
}

/// The largest of some line numbers.
pub open spec fn lines_max(v: Seq<usize>) -> usize
    decreases v.len(),
{
    if v.len() <= 1 {
        if v.len() == 0 { 0 } else { v[0] }
    } else {
        let rest = lines_max(v.drop_last());
        if v.last() > rest { v.last() } else { rest }
    }
}

/// All blocks of a skeleton: the module doc, the sections, then the tests.
pub open spec fn skeleton_blocks(
    entries: Seq<EntryV>,
    module_doc: Option<(usize, usize)>,
    test_lines: Seq<usize>,
    groups: Seq<ImportGroup>,
    sep: Seq<char>,
) -> Seq<Seq<char>> {
    (match module_doc {
        Some((start, end)) => seq!["module doc: "@ + range_text(start as nat, end as nat)],
        None => seq![],
    }) + section_blocks(entries, groups, sep, 0) + if test_lines.len() == 0 {
        seq![]
    } else {
        seq![
            "tests: "@ + range_text(
                lines_min(test_lines) as nat,
                lines_max(test_lines) as nat,
            ),
        ]
    }
}

/// The skeleton text: the blocks separated by blank lines and ended by a
/// newline, or nothing when there is no block.
pub open spec fn skeleton_text(
    entries: Seq<EntryV>,
    module_doc: Option<(usize, usize)>,
    test_lines: Seq<usize>,
    groups: Seq<ImportGroup>,
    sep: Seq<char>,
) -> Seq<char> {
    let blocks = skeleton_blocks(entries, module_doc, test_lines, groups, sep);
    if blocks.len() == 0 {
        seq![]
    } else {
        join(blocks, "\n\n"@) + "\n"@
    }
}

/// What `render_skeleton` shows of `x` when its imports are grouped as `groups`.
pub open spec fn rendered(x: Extracted, groups: Seq<ImportGroup>) -> Seq<char> {
    skeleton_text(entry_views(x.entries@), x.module_doc, x.test_lines@, groups, x.import_separator@)
}

/// The entries of `entries` in section `s`.
fn section_items<'a>(entries: &'a Vec<Entry>, s: Section) -> (items: Vec<&'a Entry>)
    ensures
        ref_views(items@) == in_section(entry_views(entries@), s),
{
    let ghost all = entry_views(entries@);
    let mut items: Vec<&'a Entry> = Vec::new();
    let mut i: usize = 0;
    while i < entries.len()
        invariant
            i <= entries@.len(),
            all == entry_views(entries@),
            ref_views(items@) == in_section(all.take(i as int), s),
        decreases entries@.len() - i,
    {
        assert(all.take(i + 1).drop_last() =~= all.take(i as int));
        assert(all.take(i + 1).last() == entries@[i as int]@);
        if entries[i].section == s {
            let ghost prev = items@;
            items.push(&entries[i]);
            assert(ref_views(items@) =~= ref_views(prev).push(entries@[i as int]@));
        }
        i = i + 1;
    }
    assert(all.take(i as int) =~= all);
    items
}

fn section_at(k: usize) -> (s: Section)
    requires
        k < 10,
    ensures
        s == section_order()[k as int],
{
    match k {
        0 => Section::Import,
        1 => Section::Module,
        2 => Section::Constant,
        3 => Section::Type,
        4 => Section::Trait,
        5 => Section::Impl,
        6 => Section::Function,
        7 => Section::Class,
        8 => Section::Macro,
        _ => Section::Heading,
    }
}

fn header_of(s: Section) -> (h: String)
    ensures
        h@ == section_header(s),
{
    match s {
        Section::Import => String::from_str("imports:"),
        Section::Module => String::from_str("mod:"),
        Section::Constant => String::from_str("consts:"),
        Section::Type => String::from_str("types:"),
        Section::Trait => String::from_str("traits:"),
        Section::Impl => String::from_str("impls:"),
        Section::Function => String::from_str("fns:"),
        Section::Class => String::from_str("classes:"),
        Section::Macro => String::from_str("macros:"),
        Section::Heading => String::from_str("headings:"),
    }
}

/// Adds the lines of one entry (see `entry_lines`).
fn push_entry_lines(lines: &mut Vec<String>, entry: &Entry)
    ensures
        texts(final(lines)@) == texts(old(lines)@) + entry_lines(entry@),
{
    let mut i: usize = 0;
    while i < entry.attrs.len()
        invariant
            i <= entry.attrs@.len(),
            texts(lines@) == texts(old(lines)@) + Seq::new(
                i as nat,
                |k: int| "  "@ + entry@.attrs[k],
            ),
        decreases entry.attrs@.len() - i,
    {
        let mut line = String::from_str("  ");
        line.append(entry.attrs[i].as_str());
        let ghost prev = lines@;
        lines.push(line);
        assert(texts(lines@) =~= texts(prev).push("  "@ + entry@.attrs[i as int]));
        i = i + 1;
        assert(texts(lines@) =~= texts(old(lines)@) + Seq::new(
            i as nat,
            |k: int| "  "@ + entry@.attrs[k],
        ));
    }
    let ghost after_attrs = lines@;
    let mut body = String::from_str("  ");
    body.append(entry.text.as_str());
    push_ranged(lines, body.as_str(), entry.line_start, entry.line_end);
    render_children(lines, entry);
    assert(texts(lines@) =~= texts(old(lines)@) + entry_lines(entry@));
}

/// The block of a non-empty section other than the imports (see `section_block`).
fn render_section(s: Section, items: &Vec<&Entry>) -> (out: String)
    requires
        s != Section::Import,
    ensures
        out@ == section_block(s, ref_views(items@)),
{
    let ghost v = ref_views(items@);
    if s == Section::Module {
        let mut head = String::from_str("mod: ");
        let range = entries_range(items);
        head.append(range.as_str());
        let mut names: Vec<String> = Vec::new();
        let mut i: usize = 0;
        while i < items.len()
            invariant
                i <= items@.len(),
                v == ref_views(items@),
                texts(names@) == entry_texts(v).take(i as int),
            decreases items@.len() - i,
        {
            let ghost prev = names@;
            names.push(clone_string(&items[i].text));
            assert(texts(names@) =~= texts(prev).push(v[i as int].text));
            i = i + 1;
            assert(texts(names@) =~= entry_texts(v).take(i as int));
        }
        assert(entry_texts(v).take(i as int) =~= entry_texts(v));
        let wrapped_lines = wrap_csv(&names, "  ");
        let mut lines: Vec<String> = Vec::new();
        let ghost first = head@;
        lines.push(head);
        let mut j: usize = 0;
        while j < wrapped_lines.len()
            invariant
                j <= wrapped_lines@.len(),
                texts(lines@) == seq![first] + texts(wrapped_lines@.take(j as int)),
            decreases wrapped_lines@.len() - j,
        {
            let ghost prev = lines@;
            lines.push(clone_string(&wrapped_lines[j]));
            assert(texts(wrapped_lines@.take(j + 1)) =~= texts(wrapped_lines@.take(j as int)).push(
                wrapped_lines@[j as int]@,
            ));
            assert(texts(lines@) =~= texts(prev).push(wrapped_lines@[j as int]@));
            j = j + 1;
        }
        assert(wrapped_lines@.take(j as int) =~= wrapped_lines@);
        assert(texts(lines@) =~= seq![first] + wrapped(entry_texts(v), "  "@));
        join_strings(&lines, "\n")
    } else {
        let head = header_of(s);
        let ghost first = head@;
        let mut lines: Vec<String> = Vec::new();
        lines.push(head);
        assert(texts(lines@) =~= seq![first] + entries_lines(v.take(0)));
        let mut i: usize = 0;
        while i < items.len()
            invariant
                i <= items@.len(),
                v == ref_views(items@),
                texts(lines@) == seq![first] + entries_lines(v.take(i as int)),
            decreases items@.len() - i,
        {
            push_entry_lines(&mut lines, items[i]);
            assert(v.take(i + 1).drop_last() =~= v.take(i as int));
            assert(v.take(i + 1).last() == items@[i as int]@);
            i = i + 1;
        }
        assert(v.take(i as int) =~= v);
        join_strings(&lines, "\n")
    }
}

/// The first and the last of some line numbers.
fn lines_bounds(v: &Vec<usize>) -> (r: (usize, usize))
    ensures
        r.0 == lines_min(v@),
        r.1 == lines_max(v@),
{
    if v.len() == 0 {
        return (0, 0);
    }
    let mut lo: usize = v[0];
    let mut hi: usize = v[0];
    let mut i: usize = 1;
    while i < v.len()
        invariant
            1 <= i <= v@.len(),
            lo == lines_min(v@.take(i as int)),
            hi == lines_max(v@.take(i as int)),
        decreases v@.len() - i,
    {
        assert(v@.take(i + 1).drop_last() =~= v@.take(i as int));
        if v[i] < lo {
            lo = v[i];
        }
        if v[i] > hi {
            hi = v[i];
        }
        i = i + 1;
    }
    assert(v@.take(i as int) =~= v@);
    (lo, hi)
}

/// The skeleton of the extracted entries: a module-doc line, a block for each
/// section that has entries, and a line for the tests, separated by blank
/// lines (see `skeleton_text`).
pub fn render_skeleton(extracted: &Extracted) -> (out: String)
    ensures
        exists|groups: Seq<ImportGroup>|
            groups_of(groups, in_section(entry_views(extracted.entries@), Section::Import))
                && out@ == rendered(*extracted, groups),
{
    let ghost all = entry_views(extracted.entries@);
    let sep = extracted.import_separator.as_str();
    let imports = section_items(&extracted.entries, Section::Import);
    let groups = import_groups(&imports);
    let mut blocks: Vec<String> = Vec::new();
    match extracted.module_doc {
        Some((start, end)) => {
            let mut line = String::from_str("module doc: ");
            let range = format_range(start, end);
            line.append(range.as_str());
            blocks.push(line);
        },
        None => {},
    }
    let ghost doc_blocks = texts(blocks@);
    assert(section_blocks(all, groups@, sep@, 0) == section_blocks(all, groups@, sep@, 0).skip(0));
    let mut k: usize = 0;
    while k < 10
        invariant
            k <= 10,
            all == entry_views(extracted.entries@),
            sep@ == extracted.import_separator@,
            ref_views(imports@) == in_section(all, Section::Import),
            groups_of(groups@, ref_views(imports@)),
            texts(blocks@) + section_blocks(all, groups@, sep@, k as int) == doc_blocks
                + section_blocks(all, groups@, sep@, 0),
        decreases 10 - k,
    {
        let s = section_at(k);
        let ghost prev = blocks@;
        if s == Section::Import {
            if imports.len() > 0 {
                let block = imports_from_groups(&imports, &groups, sep);
                blocks.push(block);
            }
        } else {
            let items = section_items(&extracted.entries, s);
            if items.len() > 0 {
                let block = render_section(s, &items);
                blocks.push(block);
            }
        }
        assert(texts(blocks@) + section_blocks(all, groups@, sep@, k + 1) =~= texts(prev)
            + section_blocks(all, groups@, sep@, k as int));
        k = k + 1;
    }
    assert(texts(blocks@) =~= doc_blocks + section_blocks(all, groups@, sep@, 0));
    if extracted.test_lines.len() > 0 {
        let (start, end) = lines_bounds(&extracted.test_lines);
        let mut line = String::from_str("tests: ");
        let range = format_range(start, end);
        line.append(range.as_str());
        let ghost prev = blocks@;
        blocks.push(line);
        assert(texts(blocks@) =~= texts(prev).push(line@));
    }
    assert(texts(blocks@) =~= skeleton_blocks(
        all,
        extracted.module_doc,
        extracted.test_lines@,
        groups@,
        sep@,
    ));
    let out = if blocks.len() == 0 {
        String::new()
    } else {
        let mut text = join_strings(&blocks, "\n\n");
        text.append("\n");
        text
    };
    assert(out@ == rendered(*extracted, groups@));
    out
}

/// The keywords of import groups, in order.
pub open spec fn group_keywords(g: Seq<ImportGroup>) -> Seq<Seq<char>> {
    Seq::new(g.len(), |a: int| g[a].keyword@)
}

/// The keywords of `groups_of` groups are the keywords the entries use.
proof fn lemma_group_keywords(g: Seq<ImportGroup>, v: Seq<EntryV>)
    requires
        groups_of(g, v),
    ensures
        crate::trie::strictly_sorted(group_keywords(g)),
        forall|kw: Seq<char>| group_keywords(g).contains(kw) <==> keyword_used(v, kw, v.len() as int),
{
    assert forall|kw: Seq<char>| group_keywords(g).contains(kw) <==> keyword_used(v, kw, v.len() as int) by {
        if group_keywords(g).contains(kw) {
            let a = choose|a: int| 0 <= a < group_keywords(g).len() && group_keywords(g)[a] == kw;
            assert(keyword_used(v, g[a].keyword@, v.len() as int));
        }
        if keyword_used(v, kw, v.len() as int) {
            let e = choose|e: int| 0 <= e < v.len() && e < v.len() && keyword_of(v[e]) == kw;
            assert(keyword_grouped(g, keyword_of(v[e])));
            let a = choose|a: int| 0 <= a < g.len() && g[a].keyword@ == kw;
            assert(group_keywords(g)[a] == kw);
        }
    }
}

proof fn lemma_groups_lines_equal(g1: Seq<ImportGroup>, g2: Seq<ImportGroup>, sep: Seq<char>)
    requires
        g1.len() == g2.len(),
        forall|a: int| 0 <= a < g1.len() ==> group_lines(#[trigger] g1[a], sep) == group_lines(g2[a], sep),
    ensures
        groups_lines(g1, sep) == groups_lines(g2, sep),
    decreases g1.len(),
{
    if g1.len() > 0 {
        assert forall|a: int| 0 <= a < g1.drop_last().len() implies group_lines(
            #[trigger] g1.drop_last()[a],
            sep,
        ) == group_lines(g2.drop_last()[a], sep) by {
            assert(g1.drop_last()[a] == g1[a] && g2.drop_last()[a] == g2[a]);
        }
        lemma_groups_lines_equal(g1.drop_last(), g2.drop_last(), sep);
    }
}

/// The import paths that entries list do not depend on how the entries are
/// ordered or repeated: two lists of import entries that list the same paths
/// under the same keywords give the same grouped lines.
pub proof fn lemma_import_lines_canonical(
    v1: Seq<EntryV>,
    v2: Seq<EntryV>,
    g1: Seq<ImportGroup>,
    g2: Seq<ImportGroup>,
    sep: Seq<char>,
)
    requires
        groups_of(g1, v1),
        groups_of(g2, v2),
        forall|kw: Seq<char>, q: Seq<Seq<char>>| lists_path(v1, kw, q) <==> lists_path(v2, kw, q),
        forall|kw: Seq<char>|
            keyword_used(v1, kw, v1.len() as int) <==> keyword_used(v2, kw, v2.len() as int),
    ensures
        groups_lines(g1, sep) == groups_lines(g2, sep),
{
    lemma_group_keywords(g1, v1);
    lemma_group_keywords(g2, v2);
    crate::trie::lemma_sorted_unique(group_keywords(g1), group_keywords(g2));
    assert(g1.len() == group_keywords(g1).len());
    assert(g2.len() == group_keywords(g2).len());
    assert forall|a: int| 0 <= a < g1.len() implies group_lines(#[trigger] g1[a], sep) == group_lines(
        g2[a],
        sep,
    ) by {
        assert(group_keywords(g1)[a] == group_keywords(g2)[a]);
        let kw = g1[a].keyword@;
        assert forall|q: Seq<Seq<char>>| has_path(g1[a].trie, q) <==> has_path(g2[a].trie, q) by {
            assert(has_path(g1[a].trie, q) <==> lists_path(v1, kw, q));
            assert(has_path(g2[a].trie, q) <==> lists_path(v2, kw, q));
        }
        crate::trie::lemma_trie_canonical(g1[a].trie, g2[a].trie, sep);
    }
    lemma_groups_lines_equal(g1, g2, sep);
}

/// The import section shows the same text for any two lists of import
/// entries that span the same lines and list the same paths under the same
/// keywords, however the entries are ordered or repeated.
pub proof fn lemma_imports_canonical(
    v1: Seq<EntryV>,
    v2: Seq<EntryV>,
    g1: Seq<ImportGroup>,
    g2: Seq<ImportGroup>,
    sep: Seq<char>,
)
    requires
        groups_of(g1, v1),
        groups_of(g2, v2),
        forall|kw: Seq<char>, q: Seq<Seq<char>>| lists_path(v1, kw, q) <==> lists_path(v2, kw, q),
        forall|kw: Seq<char>|
            keyword_used(v1, kw, v1.len() as int) <==> keyword_used(v2, kw, v2.len() as int),
        entries_range_text(v1) == entries_range_text(v2),
    ensures
        imports_text(v1, g1, sep) == imports_text(v2, g2, sep),
{
    lemma_import_lines_canonical(v1, v2, g1, g2, sep);
}

proof fn lemma_section_blocks_equal(
    entries: Seq<EntryV>,
    g1: Seq<ImportGroup>,
    g2: Seq<ImportGroup>,
    sep: Seq<char>,
    k: int,
)
    requires
        imports_text(in_section(entries, Section::Import), g1, sep) == imports_text(
            in_section(entries, Section::Import),
            g2,
            sep,
        ),
    ensures
        section_blocks(entries, g1, sep, k) == section_blocks(entries, g2, sep, k),
    decreases 10 - k,
{
    if 0 <= k < 10 {
        lemma_section_blocks_equal(entries, g1, g2, sep, k + 1);
    }
}

/// A skeleton is determined by what was extracted: any two groupings of its
/// imports that `groups_of` accepts render it the same way.
pub proof fn lemma_rendered_unique(x: Extracted, g1: Seq<ImportGroup>, g2: Seq<ImportGroup>)
    requires
        groups_of(g1, in_section(entry_views(x.entries@), Section::Import)),
        groups_of(g2, in_section(entry_views(x.entries@), Section::Import)),
    ensures
        rendered(x, g1) == rendered(x, g2),
{
    let v = in_section(entry_views(x.entries@), Section::Import);
    lemma_imports_canonical(v, v, g1, g2, x.import_separator@);
    lemma_section_blocks_equal(entry_views(x.entries@), g1, g2, x.import_separator@, 0);
}

proof fn lemma_in_section_empty(entries: Seq<EntryV>, s: Section)
    ensures
        entries.len() == 0 ==> in_section(entries, s).len() == 0,
        entries.len() > 0 && entries.last().section == s ==> in_section(entries, s).len() > 0,
{
}

proof fn lemma_section_blocks_empty(entries: Seq<EntryV>, groups: Seq<ImportGroup>, sep: Seq<char>, k: int)
    requires
        0 <= k <= 10,
    ensures
        section_blocks(entries, groups, sep, k).len() == 0 <==> forall|m: int|
            k <= m < 10 ==> #[trigger] in_section(entries, section_order()[m]).len() == 0,
    decreases 10 - k,
{
    if k < 10 {
        lemma_section_blocks_empty(entries, groups, sep, k + 1);
    }
}

/// The skeleton is empty exactly when nothing was found: no module doc, no
/// entries and no test lines.
pub proof fn lemma_skeleton_empty(
    entries: Seq<EntryV>,
    module_doc: Option<(usize, usize)>,
    test_lines: Seq<usize>,
    groups: Seq<ImportGroup>,
    sep: Seq<char>,
)
    ensures
        skeleton_text(entries, module_doc, test_lines, groups, sep).len() == 0 <==> (
        module_doc.is_none() && entries.len() == 0 && test_lines.len() == 0),
{
    lemma_section_blocks_empty(entries, groups, sep, 0);
    let blocks = skeleton_blocks(entries, module_doc, test_lines, groups, sep);
    if entries.len() > 0 {
        let s = entries.last().section;
        lemma_in_section_empty(entries, s);
        let m: int = match s {
            Section::Import => 0,
            Section::Module => 1,
            Section::Constant => 2,
            Section::Type => 3,
            Section::Trait => 4,
            Section::Impl => 5,
            Section::Function => 6,
            Section::Class => 7,
            Section::Macro => 8,
            Section::Heading => 9,
        };
        assert(section_order()[m] == s);
        assert(in_section(entries, section_order()[m]).len() > 0);
        assert(section_blocks(entries, groups, sep, 0).len() > 0);
    } else {
        assert forall|m: int| 0 <= m < 10 implies #[trigger] in_section(entries, section_order()[m]).len() == 0 by {
            lemma_in_section_empty(entries, section_order()[m]);
        }
    }
    if blocks.len() > 0 {
        reveal_strlit("\n");
        assert("\n"@.len() == 1);
        assert((join(blocks, "\n\n"@) + "\n"@).len() > 0);
    }
}

} // verus!
