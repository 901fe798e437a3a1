//! The trie that groups import paths by shared prefixes.
use crate::skeleton::{join, join_strings, texts, clone_string};
use crate::text::{chars_of, push_char};
use vstd::prelude::*;

verus! {

/// A set of import paths, stored as a trie of path segments.
pub struct ImportTrie {
    pub children: Vec<TrieChild>,
    pub terminal: bool,
}

/// A child of a trie node, reached through one path segment.
pub struct TrieChild {
    pub segment: String,
    pub node: ImportTrie,
}

/// Lexicographic order on texts by character (the order of `str`'s `Ord`).
pub open spec fn text_lt(a: Seq<char>, b: Seq<char>) -> bool
    decreases a.len(),
{
    if a.len() == 0 {
        b.len() > 0
    } else if b.len() == 0 {
        false
    } else if a[0] == b[0] {
        text_lt(a.drop_first(), b.drop_first())
    } else {
        a[0] < b[0]
    }
}

/// Whether the trie holds `path`.
pub closed spec fn has_path(t: ImportTrie, path: Seq<Seq<char>>) -> bool
    decreases path.len(),
{
    if path.len() == 0 {
        t.terminal
    } else {
        exists|i: int|
            0 <= i < t.children@.len() && t.children@[i].segment@ == path[0] && has_path(
                #[trigger] t.children@[i].node,
                path.drop_first(),
            )
    }
}

/// Children ordered strictly by segment, every child holding some path.
pub closed spec fn wf(t: ImportTrie) -> bool
    decreases t,
{
    &&& forall|i: int, j: int|
        0 <= i < j < t.children@.len() ==> text_lt(
            #[trigger] t.children@[i].segment@,
            #[trigger] t.children@[j].segment@,
        )
    &&& forall|i: int|
        0 <= i < t.children@.len() ==> wf(#[trigger] t.children@[i].node) && (
        t.children@[i].node.terminal || t.children@[i].node.children@.len() > 0)
}

pub proof fn lemma_text_lt_irreflexive(a: Seq<char>)
    ensures
        !text_lt(a, a),
    decreases a.len(),
{
    if a.len() > 0 {
        lemma_text_lt_irreflexive(a.drop_first());
    }
}

pub proof fn lemma_text_lt_total(a: Seq<char>, b: Seq<char>)
    ensures
        a == b || text_lt(a, b) || text_lt(b, a),
        !(text_lt(a, b) && text_lt(b, a)),
    decreases a.len(),
{
    if a.len() > 0 && b.len() > 0 && a[0] == b[0] {
        lemma_text_lt_total(a.drop_first(), b.drop_first());
        if a.drop_first() == b.drop_first() {
            assert(a == seq![a[0]] + a.drop_first());
            assert(b == seq![b[0]] + b.drop_first());
        }
    } else if a.len() == 0 && b.len() == 0 {
        assert(a == b);
    }
}

pub proof fn lemma_text_lt_transitive(a: Seq<char>, b: Seq<char>, c: Seq<char>)
    requires
        text_lt(a, b),
        text_lt(b, c),
    ensures
        text_lt(a, c),
    decreases a.len(),
{
    if a.len() > 0 && b.len() > 0 && c.len() > 0 && a[0] == b[0] && b[0] == c[0] {
        lemma_text_lt_transitive(a.drop_first(), b.drop_first(), c.drop_first());
    }
}

/// The lines that show a trie node reached through `segment`: the segment
/// alone for a leaf; the segment and then each longer path for a node that is
/// itself a path; the single longer path; or the longer paths grouped in braces.
pub open spec fn render_node(node: ImportTrie, segment: Seq<char>, sep: Seq<char>) -> Seq<Seq<char>>
    decreases node, 2int, 0int,
{
    if node.children@.len() == 0 {
        seq![segment]
    } else {
        let ch = render_trie(node, sep);
        if node.terminal {
            seq![segment] + Seq::new(ch.len(), |i: int| segment + sep + ch[i])
        } else if ch.len() == 1 {
            seq![segment + sep + ch[0]]
        } else {
            seq![segment + sep + seq![open_brace()] + join(ch, ", "@) + seq![close_brace()]]
        }
    }
}

/// The lines that show all paths of a trie, children in order.
pub open spec fn render_trie(t: ImportTrie, sep: Seq<char>) -> Seq<Seq<char>>
    decreases t, 1int, 0int,
{
    render_from(t, sep, 0)
}

/// The lines of the children of `t` from the `k`-th on.
pub open spec fn render_from(t: ImportTrie, sep: Seq<char>, k: int) -> Seq<Seq<char>>
    decreases t, 0int, t.children@.len() - k,
{
    if k < 0 || k >= t.children@.len() {
        seq![]
    } else {
        render_node(t.children@[k].node, t.children@[k].segment@, sep) + render_from(t, sep, k + 1)
    }
}

/// The opening brace that groups paths.
pub open spec fn open_brace() -> char {
    0x7bu8 as char
}

/// The closing brace that groups paths.
pub open spec fn close_brace() -> char {
    0x7du8 as char
}

fn open_brace_char() -> (c: char)
    ensures
        c == open_brace(),
{
    0x7bu8 as char
}

fn close_brace_char() -> (c: char)
    ensures
        c == close_brace(),
{
    0x7du8 as char
}

/// The outcome of comparing two texts.
#[derive(Clone, Copy, PartialEq, Eq, Structural)]
pub enum TextOrder {
    Less,
    Equal,
    Greater,
}

/// Compares two texts in `text_lt` order.
pub fn compare_text(a: &[char], b: &[char]) -> (r: TextOrder)
    ensures
        (r == TextOrder::Less) == text_lt(a@, b@),
        (r == TextOrder::Equal) == (a@ == b@),
        (r == TextOrder::Greater) == text_lt(b@, a@),
{
    proof {
        lemma_text_lt_total(a@, b@);
        lemma_text_lt_irreflexive(a@);
    }
    let mut i: usize = 0;
    assert(a@.skip(0) == a@ && b@.skip(0) == b@);
    while i < a.len() && i < b.len() && a[i] == b[i]
        invariant
            i <= a@.len(),
            i <= b@.len(),
            a@.take(i as int) == b@.take(i as int),
            text_lt(a@, b@) == text_lt(a@.skip(i as int), b@.skip(i as int)),
            text_lt(b@, a@) == text_lt(b@.skip(i as int), a@.skip(i as int)),
        decreases a@.len() - i,
    {
        assert(a@.skip(i as int).drop_first() == a@.skip(i + 1));
        assert(b@.skip(i as int).drop_first() == b@.skip(i + 1));
        assert(a@.take(i + 1) == a@.take(i as int).push(a@[i as int]));
        assert(b@.take(i + 1) == b@.take(i as int).push(b@[i as int]));
        i = i + 1;
    }
    if i == a.len() && i == b.len() {
        assert(a@ == a@.take(i as int) && b@ == b@.take(i as int));
        TextOrder::Equal
    } else if i == a.len() {
        assert(a@ != b@) by {
            assert(a@.len() < b@.len());
        }
        TextOrder::Less
    } else if i == b.len() {
        assert(a@.len() > b@.len());
        TextOrder::Greater
    } else {
        assert(a@[i as int] != b@[i as int]);
        assert(a@ != b@);
        if a[i] < b[i] {
            TextOrder::Less
        } else {
            TextOrder::Greater
        }
    }
}

impl ImportTrie {
    /// An empty trie.
    pub fn new() -> (t: Self)
        ensures
            wf(t),
            forall|q: Seq<Seq<char>>| !has_path(t, q),
            !t.terminal,
            t.children@.len() == 0,
    {
        ImportTrie { children: Vec::new(), terminal: false }
    }

    /// Adds `path[from..]` to the trie.
    pub fn insert(&mut self, path: &Vec<String>, from: usize)
        requires
            wf(*old(self)),
            from <= path@.len(),
        ensures
            wf(*final(self)),
            forall|q: Seq<Seq<char>>|
                has_path(*final(self), q) <==> (has_path(*old(self), q) || q == texts(
                    path@,
                ).skip(from as int)),
            from == path@.len() ==> final(self).terminal,
            from < path@.len() ==> final(self).children@.len() > 0,
            old(self).terminal ==> final(self).terminal,
            old(self).children@.len() > 0 ==> final(self).children@.len() > 0,
        decreases path@.len() - from,
    {
        let ghost before = *self;
        let ghost rest = texts(path@).skip(from as int);
        if from == path.len() {
            self.terminal = true;
            proof {
                assert forall|q: Seq<Seq<char>>|
                    has_path(*self, q) <==> (has_path(before, q) || q == rest) by {
                    if q.len() > 0 {
                        assert(self.children@ == before.children@);
                    } else {
                        assert(q =~= rest);
                    }
                }
            }
            return;
        }
        let segment = chars_of(path[from].as_str());
        let mut i: usize = 0;
        while i < self.children.len() && compare_text(
            chars_of(self.children[i].segment.as_str()).as_slice(),
            segment.as_slice(),
        ) == TextOrder::Less
            invariant
                *self == before,
                i <= self.children@.len(),
                forall|j: int| 0 <= j < i ==> text_lt(self.children@[j].segment@, segment@),
            decreases self.children@.len() - i,
        {
            i = i + 1;
        }
        let found = i < self.children.len() && compare_text(
            chars_of(self.children[i].segment.as_str()).as_slice(),
            segment.as_slice(),
        ) == TextOrder::Equal;
        assert(rest.len() > 0 && rest[0] == segment@ && rest.drop_first() == texts(path@).skip(
            from + 1,
        ));
        if found {
            let mut child = self.children.remove(i);
            let ghost old_node = child.node;
            child.node.insert(path, from + 1);
            let ghost new_child = child;
            self.children.insert(i, child);
            proof {
                assert(self.children@ == before.children@.update(i as int, new_child));
                self.lemma_replaced(before, i as int, old_node, rest);
            }
        } else {
            let mut node = ImportTrie::new();
            let ghost empty = node;
            node.insert(path, from + 1);
            let child = TrieChild { segment: clone_string(&path[from]), node };
            let ghost new_child = child;
            self.children.insert(i, child);
            proof {
                if (i as int) < before.children@.len() {
                    lemma_text_lt_total(before.children@[i as int].segment@, segment@);
                }
                assert(self.children@ == before.children@.insert(i as int, new_child));
                self.lemma_inserted(before, i as int, empty, rest);
            }
        }
    }

    /// The lines that show all paths of the trie (see `render_trie`).
    pub fn render(&self, sep: &str) -> (out: Vec<String>)
        ensures
            texts(out@) == render_trie(*self, sep@),
        decreases *self, 1int,
    {
        let mut out: Vec<String> = Vec::new();
        let mut k: usize = 0;
        while k < self.children.len()
            invariant
                k <= self.children@.len(),
                render_trie(*self, sep@) == texts(out@) + render_from(*self, sep@, k as int),
            decreases self.children@.len() - k,
        {
            let child = &self.children[k];
            let lines = Self::render_node(&child.node, &child.segment, sep);
            let mut j: usize = 0;
            let ghost base = out@;
            while j < lines.len()
                invariant
                    j <= lines@.len(),
                    texts(out@) == texts(base) + texts(lines@.take(j as int)),
                decreases lines@.len() - j,
            {
                let ghost prev = out@;
                out.push(clone_string(&lines[j]));
                assert(texts(out@) =~= texts(prev).push(lines@[j as int]@));
                assert(texts(lines@.take(j + 1)) =~= texts(lines@.take(j as int)).push(lines@[j as int]@));
                j = j + 1;
            }
            assert(lines@.take(j as int) =~= lines@);
            k = k + 1;
            assert(texts(base) + texts(lines@) + render_from(*self, sep@, k as int) =~= texts(base)
                + (texts(lines@) + render_from(*self, sep@, k as int)));
        }
        assert(texts(out@) =~= texts(out@) + Seq::<Seq<char>>::empty());
        out
    }

    /// The lines that show `node`, reached through `segment` (see `render_node`).
    fn render_node(node: &ImportTrie, segment: &String, sep: &str) -> (out: Vec<String>)
        ensures
            texts(out@) == render_node(*node, segment@, sep@),
        decreases *node, 2int,
    {
        if node.children.len() == 0 {
            let mut out: Vec<String> = Vec::new();
            out.push(clone_string(segment));
            assert(texts(out@) =~= seq![segment@]);
            return out;
        }
        let children = node.render(sep);
        let ghost ch = render_trie(*node, sep@);
        if node.terminal {
            let mut out: Vec<String> = Vec::new();
            out.push(clone_string(segment));
            let mut j: usize = 0;
            while j < children.len()
                invariant
                    j <= children@.len(),
                    texts(children@) == ch,
                    texts(out@) == seq![segment@] + Seq::new(j as nat, |i: int| segment@ + sep@ + ch[i]),
                decreases children@.len() - j,
            {
                let mut line = clone_string(segment);
                line.append(sep);
                line.append(children[j].as_str());
                assert(children@[j as int]@ == ch[j as int]);
                assert(line@ == segment@ + sep@ + ch[j as int]);
                let ghost prev = out@;
                out.push(line);
                assert(texts(out@) =~= texts(prev).push(segment@ + sep@ + ch[j as int]));
                j = j + 1;
                assert(texts(out@) =~= seq![segment@] + Seq::new(j as nat, |i: int| segment@ + sep@ + ch[i]));
            }
            out
        } else if children.len() == 1 {
            let mut line = clone_string(segment);
            line.append(sep);
            line.append(children[0].as_str());
            let mut out: Vec<String> = Vec::new();
            out.push(line);
            assert(texts(out@) =~= seq![segment@ + sep@ + ch[0]]);
            out
        } else {
            let mut line = clone_string(segment);
            line.append(sep);
            push_char(&mut line, open_brace_char());
            let inner = join_strings(&children, ", ");
            line.append(inner.as_str());
            push_char(&mut line, close_brace_char());
            assert(line@ =~= segment@ + sep@ + seq![open_brace()] + join(ch, ", "@) + seq![close_brace()]);
            let mut out: Vec<String> = Vec::new();
            out.push(line);
            assert(texts(out@) =~= seq![segment@ + sep@ + seq![open_brace()] + join(ch, ", "@) + seq![close_brace()]]);
            out
        }
    }

    proof fn lemma_replaced(&self, before: ImportTrie, i: int, old_node: ImportTrie, rest: Seq<Seq<char>>)
        requires
            wf(before),
            0 <= i < before.children@.len(),
            rest.len() > 0,
            before.children@[i].segment@ == rest[0],
            old_node == before.children@[i].node,
            self.terminal == before.terminal,
            self.children@.len() == before.children@.len(),
            forall|j: int| 0 <= j < self.children@.len() && j != i ==> self.children@[j] == before.children@[j],
            self.children@[i].segment == before.children@[i].segment,
            wf(self.children@[i].node),
            self.children@[i].node.terminal || self.children@[i].node.children@.len() > 0,
            forall|q: Seq<Seq<char>>|
                #![trigger has_path(self.children@[i].node, q)]
                has_path(self.children@[i].node, q) <==> (has_path(old_node, q) || q == rest.drop_first()),
        ensures
            wf(*self),
            forall|q: Seq<Seq<char>>| has_path(*self, q) <==> (has_path(before, q) || q == rest),
            self.children@.len() > 0,
    {
        assert forall|a: int, b: int|
            0 <= a < b < self.children@.len() implies text_lt(
            #[trigger] self.children@[a].segment@,
            #[trigger] self.children@[b].segment@,
        ) by {
            assert(self.children@[a].segment == before.children@[a].segment);
            assert(self.children@[b].segment == before.children@[b].segment);
        }
        assert forall|q: Seq<Seq<char>>| has_path(*self, q) <==> (has_path(before, q) || q == rest) by {
            if q.len() > 0 {
                if has_path(*self, q) {
                    let j = choose|j: int|
                        0 <= j < self.children@.len() && self.children@[j].segment@ == q[0]
                            && has_path(#[trigger] self.children@[j].node, q.drop_first());
                    if j != i {
                        assert(before.children@[j] == self.children@[j]);
                    } else if has_path(old_node, q.drop_first()) {
                        assert(has_path(before, q));
                    } else {
                        assert(q == seq![q[0]] + q.drop_first());
                        assert(rest == seq![rest[0]] + rest.drop_first());
                    }
                }
                if has_path(before, q) {
                    let j = choose|j: int|
                        0 <= j < before.children@.len() && before.children@[j].segment@ == q[0]
                            && has_path(#[trigger] before.children@[j].node, q.drop_first());
                    if j != i {
                        assert(before.children@[j] == self.children@[j]);
                    }
                    assert(has_path(self.children@[j].node, q.drop_first()));
                }
                if q == rest {
                    assert(q.drop_first() == rest.drop_first());
                    assert(has_path(self.children@[i].node, rest.drop_first()));
                }
            } else {
                if q == rest {
                    assert(false);
                }
            }
        }
    }

    proof fn lemma_inserted(&self, before: ImportTrie, i: int, empty: ImportTrie, rest: Seq<Seq<char>>)
        requires
            wf(before),
            0 <= i <= before.children@.len(),
            rest.len() > 0,
            forall|j: int| 0 <= j < i ==> text_lt(before.children@[j].segment@, rest[0]),
            i < before.children@.len() ==> text_lt(rest[0], before.children@[i].segment@),
            forall|q: Seq<Seq<char>>| !has_path(empty, q),
            self.terminal == before.terminal,
            self.children@ == before.children@.insert(i, self.children@[i]),
            self.children@[i].segment@ == rest[0],
            wf(self.children@[i].node),
            self.children@[i].node.terminal || self.children@[i].node.children@.len() > 0,
            forall|q: Seq<Seq<char>>|
                #![trigger has_path(self.children@[i].node, q)]
                has_path(self.children@[i].node, q) <==> (has_path(empty, q) || q == rest.drop_first()),
        ensures
            wf(*self),
            forall|q: Seq<Seq<char>>| has_path(*self, q) <==> (has_path(before, q) || q == rest),
            self.children@.len() > 0,
    {
        let n = before.children@.len();
        assert forall|a: int, b: int|
            0 <= a < b < self.children@.len() implies text_lt(
            #[trigger] self.children@[a].segment@,
            #[trigger] self.children@[b].segment@,
        ) by {
            if b < i {
            } else if a < i && b == i {
            } else if a < i {
                assert(self.children@[b] == before.children@[b - 1]);
                if b - 1 == i {
                    lemma_text_lt_transitive(self.children@[a].segment@, rest[0], before.children@[i].segment@);
                } else {
                    lemma_text_lt_transitive(self.children@[a].segment@, rest[0], before.children@[i].segment@);
                    lemma_text_lt_transitive(self.children@[a].segment@, before.children@[i].segment@, before.children@[b - 1].segment@);
                }
            } else if a == i {
                assert(self.children@[b] == before.children@[b - 1]);
                if b - 1 > i {
                    lemma_text_lt_transitive(rest[0], before.children@[i].segment@, before.children@[b - 1].segment@);
                }
            } else {
                assert(self.children@[a] == before.children@[a - 1]);
                assert(self.children@[b] == before.children@[b - 1]);
            }
        }
        assert forall|k: int|
            0 <= k < self.children@.len() implies wf(#[trigger] self.children@[k].node) && (
            self.children@[k].node.terminal || self.children@[k].node.children@.len() > 0) by {
            if k < i {
            } else if k > i {
                assert(self.children@[k] == before.children@[k - 1]);
            }
        }
        assert forall|q: Seq<Seq<char>>| has_path(*self, q) <==> (has_path(before, q) || q == rest) by {
            if q.len() > 0 {
                if has_path(*self, q) {
                    let j = choose|j: int|
                        0 <= j < self.children@.len() && self.children@[j].segment@ == q[0]
                            && has_path(#[trigger] self.children@[j].node, q.drop_first());
                    if j < i {
                        assert(before.children@[j] == self.children@[j]);
                    } else if j > i {
                        assert(before.children@[j - 1] == self.children@[j]);
                    } else {
                        assert(q == seq![q[0]] + q.drop_first());
                        assert(rest == seq![rest[0]] + rest.drop_first());
                    }
                }
                if has_path(before, q) {
                    let j = choose|j: int|
                        0 <= j < before.children@.len() && before.children@[j].segment@ == q[0]
                            && has_path(#[trigger] before.children@[j].node, q.drop_first());
                    if j < i {
                        assert(before.children@[j] == self.children@[j]);
                    } else {
                        assert(before.children@[j] == self.children@[j + 1]);
                        assert(has_path(self.children@[j + 1].node, q.drop_first()));
                    }
                }
                if q == rest {
                    assert(q.drop_first() == rest.drop_first());
                    assert(has_path(self.children@[i].node, rest.drop_first()));
                }
            } else {
                if q == rest {
                    assert(false);
                }
            }
        }
    }
}

/// The segments of the children of a trie node, in order.
pub open spec fn segments(t: ImportTrie) -> Seq<Seq<char>> {
    Seq::new(t.children@.len(), |i: int| t.children@[i].segment@)
}

/// Texts in strictly increasing `text_lt` order.
pub open spec fn strictly_sorted(s: Seq<Seq<char>>) -> bool {
    forall|i: int, j: int| 0 <= i < j < s.len() ==> text_lt(#[trigger] s[i], #[trigger] s[j])
}

/// Two strictly sorted sequences with the same elements are equal.
pub proof fn lemma_sorted_unique(a: Seq<Seq<char>>, b: Seq<Seq<char>>)
    requires
        strictly_sorted(a),
        strictly_sorted(b),
        forall|x: Seq<char>| a.contains(x) <==> b.contains(x),
    ensures
        a == b,
    decreases a.len(),
{
    if a.len() == 0 {
        if b.len() > 0 {
            assert(b.contains(b[0]));
        }
        assert(a =~= b);
    } else {
        assert(a.contains(a[0]));
        let j = choose|j: int| 0 <= j < b.len() && b[j] == a[0];
        assert(b.contains(b[0]));
        let k = choose|k: int| 0 <= k < a.len() && a[k] == b[0];
        if j > 0 {
            assert(text_lt(b[0], b[j]));
            if k > 0 {
                assert(text_lt(a[0], a[k]));
                lemma_text_lt_total(a[0], b[0]);
            } else {
                lemma_text_lt_irreflexive(a[0]);
            }
        }
        assert(a[0] == b[0]);
        let a1 = a.drop_first();
        let b1 = b.drop_first();
        assert forall|x: Seq<char>| a1.contains(x) <==> b1.contains(x) by {
            if a1.contains(x) {
                let i = choose|i: int| 0 <= i < a1.len() && a1[i] == x;
                assert(a.contains(x) && a[i + 1] == x);
                let m = choose|m: int| 0 <= m < b.len() && b[m] == x;
                if m == 0 {
                    assert(text_lt(a[0], a[i + 1]));
                    lemma_text_lt_irreflexive(x);
                }
                assert(b1[m - 1] == x);
            }
            if b1.contains(x) {
                let i = choose|i: int| 0 <= i < b1.len() && b1[i] == x;
                assert(b.contains(x) && b[i + 1] == x);
                let m = choose|m: int| 0 <= m < a.len() && a[m] == x;
                if m == 0 {
                    assert(text_lt(b[0], b[i + 1]));
                    lemma_text_lt_irreflexive(x);
                }
                assert(a1[m - 1] == x);
            }
        }
        assert(strictly_sorted(a1)) by {
            assert forall|i: int, j: int| 0 <= i < j < a1.len() implies text_lt(
                #[trigger] a1[i],
                #[trigger] a1[j],
            ) by {
                assert(a1[i] == a[i + 1] && a1[j] == a[j + 1]);
            }
        }
        assert(strictly_sorted(b1)) by {
            assert forall|i: int, j: int| 0 <= i < j < b1.len() implies text_lt(
                #[trigger] b1[i],
                #[trigger] b1[j],
            ) by {
                assert(b1[i] == b[i + 1] && b1[j] == b[j + 1]);
            }
        }
        lemma_sorted_unique(a1, b1);
        assert(a =~= seq![a[0]] + a1);
        assert(b =~= seq![b[0]] + b1);
    }
}

/// A well-formed trie node that is a path or has children holds some path.
proof fn lemma_holds_a_path(t: ImportTrie)
    requires
        wf(t),
        t.terminal || t.children@.len() > 0,
    ensures
        exists|q: Seq<Seq<char>>| has_path(t, q),
    decreases t,
{
    if t.terminal {
        assert(has_path(t, seq![]));
    } else {
        let c = t.children@[0];
        lemma_holds_a_path(c.node);
        let r = choose|r: Seq<Seq<char>>| has_path(c.node, r);
        let q = seq![c.segment@] + r;
        assert(q.drop_first() =~= r);
        assert(has_path(t, q));
    }
}

/// The paths below child `i` are the paths of the trie that start with its
/// segment.
proof fn lemma_child_paths(t: ImportTrie, i: int, r: Seq<Seq<char>>)
    requires
        wf(t),
        0 <= i < t.children@.len(),
    ensures
        has_path(t.children@[i].node, r) <==> has_path(t, seq![t.children@[i].segment@] + r),
{
    let s = t.children@[i].segment@;
    let q = seq![s] + r;
    assert(q.drop_first() =~= r);
    if has_path(t, q) {
        let j = choose|j: int|
            0 <= j < t.children@.len() && t.children@[j].segment@ == q[0] && has_path(
                #[trigger] t.children@[j].node,
                q.drop_first(),
            );
        if j != i {
            lemma_text_lt_irreflexive(s);
            if j < i {
                assert(text_lt(t.children@[j].segment@, t.children@[i].segment@));
            } else {
                assert(text_lt(t.children@[i].segment@, t.children@[j].segment@));
            }
        }
    }
}

/// Well-formed tries that hold the same paths have the same segments,
/// whether they are paths themselves, and the same rendering: a trie's
/// rendering depends only on the set of paths it holds.
pub proof fn lemma_trie_canonical(t1: ImportTrie, t2: ImportTrie, sep: Seq<char>)
    requires
        wf(t1),
        wf(t2),
        forall|q: Seq<Seq<char>>| has_path(t1, q) <==> has_path(t2, q),
    ensures
        segments(t1) == segments(t2),
        t1.terminal == t2.terminal,
        render_trie(t1, sep) == render_trie(t2, sep),
    decreases t1,
{
    assert(has_path(t1, seq![]) == t1.terminal);
    assert(has_path(t2, seq![]) == t2.terminal);
    assert forall|x: Seq<char>| segments(t1).contains(x) implies segments(t2).contains(x) by {
        let i = choose|i: int| 0 <= i < segments(t1).len() && segments(t1)[i] == x;
        let c = t1.children@[i];
        lemma_holds_a_path(c.node);
        let r = choose|r: Seq<Seq<char>>| has_path(c.node, r);
        lemma_child_paths(t1, i, r);
        let q = seq![x] + r;
        assert(has_path(t2, q));
        assert(q.drop_first() =~= r);
        let j = choose|j: int|
            0 <= j < t2.children@.len() && t2.children@[j].segment@ == q[0] && has_path(
                #[trigger] t2.children@[j].node,
                q.drop_first(),
            );
        assert(segments(t2)[j] == x);
    }
    assert forall|x: Seq<char>| segments(t2).contains(x) implies segments(t1).contains(x) by {
        let i = choose|i: int| 0 <= i < segments(t2).len() && segments(t2)[i] == x;
        let c = t2.children@[i];
        lemma_holds_a_path(c.node);
        let r = choose|r: Seq<Seq<char>>| has_path(c.node, r);
        lemma_child_paths(t2, i, r);
        let q = seq![x] + r;
        assert(has_path(t1, q));
        assert(q.drop_first() =~= r);
        let j = choose|j: int|
            0 <= j < t1.children@.len() && t1.children@[j].segment@ == q[0] && has_path(
                #[trigger] t1.children@[j].node,
                q.drop_first(),
            );
        assert(segments(t1)[j] == x);
    }
    assert(strictly_sorted(segments(t1)));
    assert(strictly_sorted(segments(t2)));
    lemma_sorted_unique(segments(t1), segments(t2));
    let n = t1.children@.len();
    assert(t2.children@.len() == segments(t2).len());
    assert forall|i: int| 0 <= i < n implies render_node(
        #[trigger] t1.children@[i].node,
        t1.children@[i].segment@,
        sep,
    ) == render_node(t2.children@[i].node, t2.children@[i].segment@, sep) by {
        let c1 = t1.children@[i].node;
        let c2 = t2.children@[i].node;
        assert(segments(t1)[i] == segments(t2)[i]);
        assert forall|r: Seq<Seq<char>>| has_path(c1, r) <==> has_path(c2, r) by {
            lemma_child_paths(t1, i, r);
            lemma_child_paths(t2, i, r);
        }
        lemma_trie_canonical(c1, c2, sep);
        assert(c1.children@.len() == segments(c1).len());
        assert(c2.children@.len() == segments(c2).len());
    }
    lemma_render_from_equal(t1, t2, sep, 0);
}

proof fn lemma_render_from_equal(t1: ImportTrie, t2: ImportTrie, sep: Seq<char>, k: int)
    requires
        0 <= k,
        t1.children@.len() == t2.children@.len(),
        forall|i: int|
            0 <= i < t1.children@.len() ==> render_node(
                #[trigger] t1.children@[i].node,
                t1.children@[i].segment@,
                sep,
            ) == render_node(t2.children@[i].node, t2.children@[i].segment@, sep),
    ensures
        render_from(t1, sep, k) == render_from(t2, sep, k),
    decreases t1.children@.len() - k,
{
    if k < t1.children@.len() {
        lemma_render_from_equal(t1, t2, sep, k + 1);
    }
}

} // verus!
