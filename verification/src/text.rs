//! Character-level text helpers shared by the extractors and the renderer.
//!
//! Every text is modelled by its sequence of characters (`Seq<char>`).
use vstd::prelude::*;

verus! {

/// Appends one character to a string (`String::push`).
#[verifier::external_body]
pub(crate) fn push_char(s: &mut String, c: char)
    ensures
        final(s)@ == old(s)@.push(c),
{
    s.push(c)
}

/// The characters of a string slice, in order.
pub fn chars_of(s: &str) -> (out: Vec<char>)
    ensures
        out@ == s@,
{
    let mut out: Vec<char> = Vec::new();
    for c in it: s.chars()
        invariant
            out@ == it.seq().take(it.index() as int),
            it.seq() == s@,
    {
        out.push(c);
    }
    out
}

/// Appends a sequence of characters to a string.
pub fn push_chars(s: &mut String, chars: &[char])
    ensures
        final(s)@ == old(s)@ + chars@,
{
    let ghost start = s@;
    let mut i: usize = 0;
    while i < chars.len()
        invariant
            i <= chars@.len(),
            s@ == start + chars@.take(i as int),
        decreases chars@.len() - i,
    {
        push_char(s, chars[i]);
        i = i + 1;
        assert(chars@.take(i as int) == chars@.take(i - 1).push(chars@[i - 1]));
    }
    assert(chars@.take(i as int) == chars@);
}

/// A string holding exactly the given characters.
pub fn string_of(chars: &[char]) -> (out: String)
    ensures
        out@ == chars@,
{
    let mut out = String::new();
    push_chars(&mut out, chars);
    out
}

/// Whether two character sequences are equal.
pub fn same_chars(a: &[char], b: &[char]) -> (r: bool)
    ensures
        r == (a@ == b@),
{
    if a.len() != b.len() {
        return false;
    }
    let mut i: usize = 0;
    while i < a.len()
        invariant
            a@.len() == b@.len(),
            i <= a@.len(),
            forall|j: int| 0 <= j < i ==> a@[j] == b@[j],
        decreases a@.len() - i,
    {
        if a[i] != b[i] {
            return false;
        }
        i = i + 1;
    }
    assert(a@ =~= b@);
    true
}

/// Whether two string slices hold the same text.
pub fn same_text(a: &str, b: &str) -> (r: bool)
    ensures
        r == (a@ == b@),
{
    let x = chars_of(a);
    let y = chars_of(b);
    same_chars(x.as_slice(), y.as_slice())
}

/// Whether `s` begins with `prefix`.
pub open spec fn has_prefix(s: Seq<char>, prefix: Seq<char>) -> bool {
    prefix.len() <= s.len() && s.take(prefix.len() as int) == prefix
}

/// Whether `s` ends with `suffix`.
pub open spec fn has_suffix(s: Seq<char>, suffix: Seq<char>) -> bool {
    suffix.len() <= s.len() && s.skip(s.len() - suffix.len()) == suffix
}

/// Whether the characters of `s` starting at `at` spell `part`.
pub open spec fn occurs_at(s: Seq<char>, part: Seq<char>, at: int) -> bool {
    0 <= at && at + part.len() <= s.len() && s.subrange(at, at + part.len()) == part
}

/// Whether `part` occurs at `at` in `s`.
pub fn matches_at(s: &[char], part: &[char], at: usize) -> (r: bool)
    ensures
        r == occurs_at(s@, part@, at as int),
{
    if at > s.len() || part.len() > s.len() - at {
        return false;
    }
    let n = s.len();
    let mut i: usize = 0;
    while i < part.len()
        invariant
            n == s@.len(),
            at + part@.len() <= s@.len(),
            i <= part@.len(),
            forall|j: int| 0 <= j < i ==> s@[at + j] == part@[j],
        decreases part@.len() - i,
    {
        assert(at + i < n);
        if s[at + i] != part[i] {
            return false;
        }
        i = i + 1;
    }
    assert(s@.subrange(at as int, at + part@.len()) =~= part@);
    true
}

/// Whether `s` begins with `prefix`.
pub fn starts_with(s: &[char], prefix: &[char]) -> (r: bool)
    ensures
        r == has_prefix(s@, prefix@),
{
    let r = matches_at(s, prefix, 0);
    proof {
        if prefix@.len() <= s@.len() {
            assert(s@.subrange(0, prefix@.len() as int) == s@.take(prefix@.len() as int));
        }
    }
    r
}

/// Whether `s` ends with `suffix`.
pub fn ends_with(s: &[char], suffix: &[char]) -> (r: bool)
    ensures
        r == has_suffix(s@, suffix@),
{
    if suffix.len() > s.len() {
        return false;
    }
    let r = matches_at(s, suffix, s.len() - suffix.len());
    proof {
        assert(s@.subrange(s@.len() - suffix@.len(), s@.len() as int) == s@.skip(
            s@.len() - suffix@.len(),
        ));
    }
    r
}

/// Whether `c` occurs in `s`.
pub fn contains_char(s: &[char], c: char) -> (r: bool)
    ensures
        r == s@.contains(c),
{
    let mut i: usize = 0;
    while i < s.len()
        invariant
            i <= s@.len(),
            forall|j: int| 0 <= j < i ==> s@[j] != c,
        decreases s@.len() - i,
    {
        if s[i] == c {
            assert(s@[i as int] == c);
            return true;
        }
        i = i + 1;
    }
    false
}

/// The characters that `char::is_whitespace` accepts: Unicode's `White_Space`
/// property.
pub open spec fn is_ws(c: char) -> bool {
    let u = c as u32;
    ||| 0x09 <= u <= 0x0d
    ||| u == 0x20
    ||| u == 0x85
    ||| u == 0xa0
    ||| u == 0x1680
    ||| 0x2000 <= u <= 0x200a
    ||| u == 0x2028
    ||| u == 0x2029
    ||| u == 0x202f
    ||| u == 0x205f
    ||| u == 0x3000
}

/// Whether `c` is a Unicode whitespace character.
pub fn is_whitespace(c: char) -> (r: bool)
    ensures
        r == is_ws(c),
{
    let u = c as u32;
    (0x09 <= u && u <= 0x0d) || u == 0x20 || u == 0x85 || u == 0xa0 || u == 0x1680 || (0x2000
        <= u && u <= 0x200a) || u == 0x2028 || u == 0x2029 || u == 0x202f || u == 0x205f || u
        == 0x3000
}

/// The words of `s` (maximal runs of non-whitespace) joined by single spaces.
pub open spec fn compact(s: Seq<char>) -> Seq<char>
    decreases s.len(),
{
    if s.len() == 0 {
        seq![]
    } else {
        let init = s.drop_last();
        let r = compact(init);
        if is_ws(s.last()) {
            r
        } else if r.len() > 0 && is_ws(init.last()) {
            r.push(' ').push(s.last())
        } else {
            r.push(s.last())
        }
    }
}

/// `compact` over characters.
pub fn compact_chars(s: &[char]) -> (out: Vec<char>)
    ensures
        out@ == compact(s@),
{
    let mut out: Vec<char> = Vec::new();
    let mut i: usize = 0;
    while i < s.len()
        invariant
            i <= s@.len(),
            out@ == compact(s@.take(i as int)),
        decreases s@.len() - i,
    {
        let c = s[i];
        let ghost prefix = s@.take(i as int);
        assert(s@.take(i + 1).drop_last() == prefix);
        if is_whitespace(c) {
        } else {
            if out.len() > 0 && is_whitespace(s[i - 1]) {
                out.push(' ');
            }
            out.push(c);
        }
        i = i + 1;
    }
    assert(s@.take(s@.len() as int) == s@);
    out
}

/// `value.split_whitespace().collect::<Vec<_>>().join(" ")`.
pub fn compact_whitespace(value: &str) -> (out: String)
    ensures
        out@ == compact(value@),
{
    let chars = chars_of(value);
    let compacted = compact_chars(chars.as_slice());
    string_of(compacted.as_slice())
}

/// `s` without leading whitespace.
pub open spec fn trim_start(s: Seq<char>) -> Seq<char>
    decreases s.len(),
{
    if s.len() > 0 && is_ws(s[0]) {
        trim_start(s.drop_first())
    } else {
        s
    }
}

/// `s` without trailing characters that lie in `set`.
pub open spec fn trim_end_set(s: Seq<char>, set: Seq<char>) -> Seq<char>
    decreases s.len(),
{
    if s.len() > 0 && set.contains(s.last()) {
        trim_end_set(s.drop_last(), set)
    } else {
        s
    }
}

/// `s` without trailing whitespace.
pub open spec fn trim_end(s: Seq<char>) -> Seq<char>
    decreases s.len(),
{
    if s.len() > 0 && is_ws(s.last()) {
        trim_end(s.drop_last())
    } else {
        s
    }
}

/// `s` without leading and trailing whitespace (`str::trim`).
pub open spec fn trim(s: Seq<char>) -> Seq<char> {
    trim_end(trim_start(s))
}

/// `str::trim_start` over characters.
pub fn trim_start_chars(s: &[char]) -> (out: Vec<char>)
    ensures
        out@ == trim_start(s@),
{
    let mut i: usize = 0;
    assert(s@.skip(0) == s@);
    while i < s.len() && is_whitespace(s[i])
        invariant
            i <= s@.len(),
            trim_start(s@) == trim_start(s@.skip(i as int)),
        decreases s@.len() - i,
    {
        assert(s@.skip(i as int).drop_first() == s@.skip(i + 1));
        i = i + 1;
    }
    let mut out: Vec<char> = Vec::new();
    let mut j: usize = i;
    while j < s.len()
        invariant
            i <= j <= s@.len(),
            out@ == s@.subrange(i as int, j as int),
        decreases s@.len() - j,
    {
        out.push(s[j]);
        j = j + 1;
    }
    assert(out@ == s@.skip(i as int));
    out
}

/// Removes trailing characters of `s` that lie in `set`.
pub fn trim_end_set_chars(s: &[char], set: &[char]) -> (out: Vec<char>)
    ensures
        out@ == trim_end_set(s@, set@),
{
    let mut n: usize = s.len();
    assert(s@.take(n as int) == s@);
    while n > 0 && contains_char(set, s[n - 1])
        invariant
            n <= s@.len(),
            trim_end_set(s@, set@) == trim_end_set(s@.take(n as int), set@),
        decreases n,
    {
        assert(s@.take(n as int).drop_last() == s@.take(n - 1));
        n = n - 1;
    }
    let mut out: Vec<char> = Vec::new();
    let mut j: usize = 0;
    while j < n
        invariant
            j <= n <= s@.len(),
            out@ == s@.take(j as int),
        decreases n - j,
    {
        out.push(s[j]);
        j = j + 1;
        assert(s@.take(j as int) == s@.take(j - 1).push(s@[j - 1]));
    }
    out
}

/// Removes trailing whitespace.
pub fn trim_end_chars(s: &[char]) -> (out: Vec<char>)
    ensures
        out@ == trim_end(s@),
{
    let mut n: usize = s.len();
    assert(s@.take(n as int) == s@);
    while n > 0 && is_whitespace(s[n - 1])
        invariant
            n <= s@.len(),
            trim_end(s@) == trim_end(s@.take(n as int)),
        decreases n,
    {
        assert(s@.take(n as int).drop_last() == s@.take(n - 1));
        n = n - 1;
    }
    let mut out: Vec<char> = Vec::new();
    let mut j: usize = 0;
    while j < n
        invariant
            j <= n <= s@.len(),
            out@ == s@.take(j as int),
        decreases n - j,
    {
        out.push(s[j]);
        j = j + 1;
        assert(s@.take(j as int) == s@.take(j - 1).push(s@[j - 1]));
    }
    out
}

/// `str::trim` over characters.
pub fn trim_chars(s: &[char]) -> (out: Vec<char>)
    ensures
        out@ == trim(s@),
{
    let a = trim_start_chars(s);
    trim_end_chars(a.as_slice())
}

/// The decimal digit for `d < 10`.
pub open spec fn digit(d: nat) -> char {
    if d == 0 { '0' } else if d == 1 { '1' } else if d == 2 { '2' } else if d == 3 { '3' }
    else if d == 4 { '4' } else if d == 5 { '5' } else if d == 6 { '6' } else if d == 7 { '7' }
    else if d == 8 { '8' } else { '9' }
}

/// The decimal representation of `n`, without leading zeros.
pub open spec fn decimal(n: nat) -> Seq<char>
    decreases n,
{
    if n < 10 {
        seq![digit(n)]
    } else {
        decimal(n / 10).push(digit(n % 10))
    }
}

fn digit_char(d: usize) -> (c: char)
    requires
        d < 10,
    ensures
        c == digit(d as nat),
{
    if d == 0 { '0' } else if d == 1 { '1' } else if d == 2 { '2' } else if d == 3 { '3' }
    else if d == 4 { '4' } else if d == 5 { '5' } else if d == 6 { '6' } else if d == 7 { '7' }
    else if d == 8 { '8' } else { '9' }
}

/// Appends the decimal representation of `n`.
pub fn push_decimal(s: &mut String, n: usize)
    ensures
        final(s)@ == old(s)@ + decimal(n as nat),
    decreases n,
{
    if n < 10 {
        push_char(s, digit_char(n));
    } else {
        push_decimal(s, n / 10);
        push_char(s, digit_char(n % 10));
    }
}

/// A line range as shown in the skeleton: `[start]` or `[start-end]`.
pub open spec fn range_text(start: nat, end: nat) -> Seq<char> {
    if start == end {
        seq!['['] + decimal(start) + seq![']']
    } else {
        seq!['['] + decimal(start) + seq!['-'] + decimal(end) + seq![']']
    }
}

/// Formats a line range: `[start]` when both ends agree, `[start-end]` otherwise.
pub fn format_range(start: usize, end: usize) -> (out: String)
    ensures
        out@ == range_text(start as nat, end as nat),
{
    let mut out = String::new();
    push_char(&mut out, '[');
    push_decimal(&mut out, start);
    if start != end {
        push_char(&mut out, '-');
        push_decimal(&mut out, end);
    }
    push_char(&mut out, ']');
    out
}

/// The number of bytes that the UTF-8 encoding of `c` takes (`char::len_utf8`).
pub open spec fn char_width(c: char) -> nat {
    let u = c as u32;
    if u < 0x80 {
        1
    } else if u < 0x800 {
        2
    } else if u < 0x10000 {
        3
    } else {
        4
    }
}

fn char_width_of(c: char) -> (w: usize)
    ensures
        w == char_width(c),
{
    let u = c as u32;
    if u < 0x80 {
        1
    } else if u < 0x800 {
        2
    } else if u < 0x10000 {
        3
    } else {
        4
    }
}

/// The number of bytes of the UTF-8 encoding of `s` (`str::len`).
pub open spec fn byte_len(s: Seq<char>) -> nat
    decreases s.len(),
{
    if s.len() == 0 {
        0
    } else {
        byte_len(s.drop_last()) + char_width(s.last())
    }
}

/// The number of leading characters of `s` whose encoding fits in `budget` bytes.
pub open spec fn chars_within(s: Seq<char>, budget: nat) -> nat
    decreases s.len(),
{
    if s.len() > 0 && char_width(s[0]) <= budget {
        1 + chars_within(s.drop_first(), (budget - char_width(s[0])) as nat)
    } else {
        0
    }
}

/// The result of `truncate`: texts longer than `maximum` bytes are cut on a
/// character boundary at `maximum - 11` bytes and marked `[truncated]` (on a
/// line of its own when the kept part spans lines).
pub open spec fn truncated(s: Seq<char>, maximum: nat) -> Seq<char> {
    if byte_len(s) <= maximum {
        s
    } else {
        let budget: nat = if maximum >= 11 { (maximum - 11) as nat } else { 0 };
        let kept = s.take(chars_within(s, budget) as int);
        if kept.contains('\n') {
            kept + "\n[truncated]"@
        } else {
            kept + "[truncated]"@
        }
    }
}

proof fn lemma_byte_len_push(s: Seq<char>, c: char)
    ensures
        byte_len(s.push(c)) == byte_len(s) + char_width(c),
{
    assert(s.push(c).drop_last() == s);
}

proof fn lemma_chars_within_step(s: Seq<char>, i: int, budget: nat, used: nat)
    requires
        0 <= i < s.len(),
        used + char_width(s[i]) <= budget,
        chars_within(s, budget) == i + chars_within(s.skip(i), (budget - used) as nat),
    ensures
        chars_within(s, budget) == (i + 1) + chars_within(
            s.skip(i + 1),
            (budget - (used + char_width(s[i]))) as nat,
        ),
{
    assert(s.skip(i).drop_first() == s.skip(i + 1));
    assert(s.skip(i)[0] == s[i]);
}

/// Whether the UTF-8 encoding of `s` is at most `maximum` bytes long.
fn fits_bytes(s: &[char], maximum: usize) -> (r: bool)
    ensures
        r == (byte_len(s@) <= maximum),
{
    let mut used: usize = 0;
    let mut i: usize = 0;
    while i < s.len()
        invariant
            i <= s@.len(),
            used == byte_len(s@.take(i as int)),
            used <= maximum,
        decreases s@.len() - i,
    {
        let w = char_width_of(s[i]);
        proof {
            lemma_byte_len_push(s@.take(i as int), s@[i as int]);
            assert(s@.take(i + 1) == s@.take(i as int).push(s@[i as int]));
        }
        if maximum - used < w {
            proof {
                lemma_byte_len_prefix_monotone(s@, i + 1);
            }
            return false;
        }
        used = used + w;
        i = i + 1;
    }
    assert(s@.take(i as int) == s@);
    true
}

proof fn lemma_byte_len_prefix_monotone(s: Seq<char>, k: int)
    requires
        0 <= k <= s.len(),
    ensures
        byte_len(s.take(k)) <= byte_len(s),
    decreases s.len() - k,
{
    if k < s.len() {
        lemma_byte_len_prefix_monotone(s, k + 1);
        lemma_byte_len_push(s.take(k), s[k]);
        assert(s.take(k + 1) == s.take(k).push(s[k]));
    } else {
        assert(s.take(k) == s);
    }
}

/// Cuts a text that is longer than `maximum` bytes (see `truncated`).
pub fn truncate(value: &str, maximum: usize) -> (out: String)
    ensures
        out@ == truncated(value@, maximum as nat),
{
    let chars = chars_of(value);
    if fits_bytes(chars.as_slice(), maximum) {
        return string_of(chars.as_slice());
    }
    let budget: usize = if maximum >= 11 { maximum - 11 } else { 0 };
    let mut used: usize = 0;
    let mut i: usize = 0;
    assert(chars@.skip(0) == chars@);
    while i < chars.len() && char_width_of(chars[i]) <= budget - used
        invariant
            i <= chars@.len(),
            used <= budget,
            chars_within(chars@, budget as nat) == i + chars_within(
                chars@.skip(i as int),
                (budget - used) as nat,
            ),
        decreases chars@.len() - i,
    {
        proof {
            lemma_chars_within_step(chars@, i as int, budget as nat, used as nat);
        }
        used = used + char_width_of(chars[i]);
        i = i + 1;
    }
    proof {
        if i < chars@.len() {
            assert(chars@.skip(i as int)[0] == chars@[i as int]);
        }
    }
    let mut kept: Vec<char> = Vec::new();
    let mut j: usize = 0;
    while j < i
        invariant
            j <= i <= chars@.len(),
            kept@ == chars@.take(j as int),
        decreases i - j,
    {
        kept.push(chars[j]);
        j = j + 1;
        assert(chars@.take(j as int) == chars@.take(j - 1).push(chars@[j - 1]));
    }
    let mut out = string_of(kept.as_slice());
    if contains_char(kept.as_slice(), '\n') {
        out.append("\n[truncated]");
    } else {
        out.append("[truncated]");
    }
    out
}

/// The whitespace of a compacted text is single spaces between words: none
/// at either end, none next to other whitespace.
pub proof fn lemma_compact_spacing(s: Seq<char>)
    ensures
        forall|i: int|
            0 <= i < compact(s).len() && is_ws(#[trigger] compact(s)[i]) ==> compact(s)[i] == ' '
                && 0 < i < compact(s).len() - 1 && !is_ws(compact(s)[i - 1]) && !is_ws(
                compact(s)[i + 1],
            ),
    decreases s.len(),
{
    if s.len() > 0 {
        let init = s.drop_last();
        lemma_compact_spacing(init);
        let r = compact(init);
        let c = s.last();
        let out = compact(s);
        if !is_ws(c) {
            if r.len() > 0 && is_ws(init.last()) {
                assert(out == r.push(' ').push(c));
                assert(!is_ws(r[r.len() - 1]));
                assert forall|i: int| 0 <= i < out.len() && is_ws(#[trigger] out[i]) implies out[i] == ' '
                    && 0 < i < out.len() - 1 && !is_ws(out[i - 1]) && !is_ws(out[i + 1]) by {
                    if i < r.len() {
                        assert(out[i] == r[i]);
                        if i + 1 < r.len() {
                            assert(out[i + 1] == r[i + 1]);
                        }
                        assert(out[i - 1] == r[i - 1]);
                    }
                }
            } else {
                assert(out == r.push(c));
                assert forall|i: int| 0 <= i < out.len() && is_ws(#[trigger] out[i]) implies out[i] == ' '
                    && 0 < i < out.len() - 1 && !is_ws(out[i - 1]) && !is_ws(out[i + 1]) by {
                    assert(out[i] == r[i]);
                    assert(out[i - 1] == r[i - 1]);
                    assert(out[i + 1] == r[i + 1]);
                }
            }
        }
    }
}

proof fn lemma_byte_len_prepend(c: char, t: Seq<char>)
    ensures
        byte_len(seq![c] + t) == char_width(c) + byte_len(t),
    decreases t.len(),
{
    if t.len() > 0 {
        lemma_byte_len_prepend(c, t.drop_last());
        assert((seq![c] + t).drop_last() =~= seq![c] + t.drop_last());
        assert((seq![c] + t).last() == t.last());
    } else {
        assert(seq![c] + t =~= seq![c]);
        assert(seq![c].drop_last() =~= Seq::<char>::empty());
        assert(byte_len(seq![c]) == byte_len(seq![c].drop_last()) + char_width(c));
    }
}

proof fn lemma_byte_len_concat(a: Seq<char>, b: Seq<char>)
    ensures
        byte_len(a + b) == byte_len(a) + byte_len(b),
    decreases b.len(),
{
    if b.len() > 0 {
        lemma_byte_len_concat(a, b.drop_last());
        assert((a + b).drop_last() =~= a + b.drop_last());
    } else {
        assert(a + b =~= a);
    }
}

proof fn lemma_chars_within_fits(s: Seq<char>, budget: nat)
    ensures
        chars_within(s, budget) <= s.len(),
        byte_len(s.take(chars_within(s, budget) as int)) <= budget,
    decreases s.len(),
{
    if s.len() > 0 && char_width(s[0]) <= budget {
        let rest = s.drop_first();
        let b = (budget - char_width(s[0])) as nat;
        lemma_chars_within_fits(rest, b);
        let k = chars_within(rest, b);
        assert(s.take((k + 1) as int) =~= seq![s[0]] + rest.take(k as int));
        lemma_byte_len_prepend(s[0], rest.take(k as int));
    } else {
        assert(s.take(0) =~= Seq::<char>::empty());
    }
}

proof fn lemma_byte_len_ascii(t: Seq<char>)
    requires
        forall|i: int| 0 <= i < t.len() ==> (#[trigger] t[i] as u32) < 0x80,
    ensures
        byte_len(t) == t.len(),
    decreases t.len(),
{
    if t.len() > 0 {
        lemma_byte_len_ascii(t.drop_last());
    }
}

/// A text within the limit is kept as it is; a longer one is cut so that,
/// with its marker, it is at most one byte over the limit (at most twelve
/// bytes when the limit is below the marker's length).
pub proof fn lemma_truncated_fits(s: Seq<char>, maximum: nat)
    ensures
        byte_len(s) <= maximum ==> truncated(s, maximum) == s,
        byte_len(truncated(s, maximum)) <= if maximum >= 11 { maximum + 1 } else { 12 },
{
    if byte_len(s) > maximum {
        let budget: nat = if maximum >= 11 { (maximum - 11) as nat } else { 0 };
        lemma_chars_within_fits(s, budget);
        let kept = s.take(chars_within(s, budget) as int);
        reveal_strlit("[truncated]");
        reveal_strlit("\n[truncated]");
        lemma_byte_len_ascii("[truncated]"@);
        lemma_byte_len_ascii("\n[truncated]"@);
        lemma_byte_len_concat(kept, "[truncated]"@);
        lemma_byte_len_concat(kept, "\n[truncated]"@);
    }
}

} // verus!
