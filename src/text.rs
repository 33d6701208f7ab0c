//! Character-level helpers shared by the formatters and parsers.
//!
//! Text is handled as `Vec<char>` inside the library, whose view is the
//! `Seq<char>` that contracts speak of.
use vstd::prelude::*;
use vstd::std_specs::iter::IteratorSpec;

verus! {

/// Relies on `String::push`: appends one character at the end.
#[verifier::external_body]
fn push_char(s: &mut String, c: char)
    ensures
        final(s)@ == old(s)@.push(c),
{
    s.push(c);
}

/// The characters of `s`, in order.
pub fn chars_of(s: &str) -> (r: Vec<char>)
    ensures
        r@ == s@,
{
    let mut out: Vec<char> = Vec::new();
    for c in iter: s.chars()
        invariant
            iter.seq() == s@,
            out@ == iter.seq().subrange(0, iter.index() as int),
    {
        out.push(c);
    }
    out
}

/// A `String` holding exactly the characters of `v`.
pub fn string_of(v: &Vec<char>) -> (r: String)
    ensures
        r@ == v@,
{
    let mut s = String::new();
    let mut i: usize = 0;
    while i < v.len()
        invariant
            i <= v@.len(),
            s@ == v@.subrange(0, i as int),
        decreases v@.len() - i,
    {
        push_char(&mut s, v[i]);
        i = i + 1;
        assert(s@ =~= v@.subrange(0, i as int));
    }
    assert(s@ =~= v@);
    s
}

/// Appends the characters of `s` to `out`.
pub fn push_str(out: &mut Vec<char>, s: &str)
    ensures
        final(out)@ == old(out)@ + s@,
{
    let mut cs = chars_of(s);
    out.append(&mut cs);
}

/// The number of items of `s` before the first `x` (all of them when there
/// is none).
pub open spec fn count_until<A>(s: Seq<A>, x: A) -> nat
    decreases s.len(),
{
    if s.len() == 0 || s[0] == x {
        0
    } else {
        1 + count_until(s.drop_first(), x)
    }
}

pub proof fn lemma_count_until_bounds<A>(s: Seq<A>, x: A)
    ensures
        count_until(s, x) <= s.len(),
        count_until(s, x) < s.len() ==> s[count_until(s, x) as int] == x,
        forall|j: int| 0 <= j < count_until(s, x) ==> s[j] != x,
    decreases s.len(),
{
    if s.len() > 0 && s[0] != x {
        lemma_count_until_bounds(s.drop_first(), x);
        assert forall|j: int| 0 <= j < count_until(s, x) implies s[j] != x by {
            if j > 0 {
                assert(s[j] == s.drop_first()[j - 1]);
            }
        }
    }
}

/// `s` without its first `n` items (empty when it has no more than `n`).
pub open spec fn drop_items<A>(s: Seq<A>, n: nat) -> Seq<A> {
    if s.len() <= n {
        Seq::<A>::empty()
    } else {
        s.subrange(n as int, s.len() as int)
    }
}

/// The first line of `s`: the text before the first `'\n'`, without the
/// `'\r'` that may end it when a `'\n'` follows.
pub open spec fn first_line(s: Seq<char>) -> Seq<char> {
    let k = count_until(s, '\n');
    if k < s.len() && k > 0 && s[k - 1] == '\r' {
        s.subrange(0, k - 1)
    } else {
        s.subrange(0, k as int)
    }
}

/// What follows the first line of `s` and its `'\n'`.
pub open spec fn after_first_line(s: Seq<char>) -> Seq<char> {
    drop_items(s, count_until(s, '\n') + 1)
}

/// The lines of `s`, as `str::lines` splits them: at each `'\n'` (a
/// `'\r'` before it is dropped), with no empty line after a final
/// `'\n'` and none at all for an empty text.
pub open spec fn lines(s: Seq<char>) -> Seq<Seq<char>>
    decreases s.len(),
{
    if s.len() == 0 {
        Seq::<Seq<char>>::empty()
    } else {
        proof {
            lemma_count_until_bounds(s, '\n');
        }
        seq![first_line(s)] + lines(after_first_line(s))
    }
}

/// Finds the first line of `text` from index `start` on: the line is
/// `text[start..end]` and the lines after it start at `next`.
pub fn next_line(text: &Vec<char>, start: usize) -> (r: (usize, usize))
    requires
        start < text@.len(),
    ensures
        start <= r.0 <= r.1 <= text@.len(),
        start < r.1,
        text@.subrange(start as int, r.0 as int) == first_line(text@.subrange(start as int, text@.len() as int)),
        text@.subrange(r.1 as int, text@.len() as int) == after_first_line(
            text@.subrange(start as int, text@.len() as int),
        ),
        lines(text@.subrange(start as int, text@.len() as int)) == seq![text@.subrange(start as int, r.0 as int)]
            + lines(text@.subrange(r.1 as int, text@.len() as int)),
{
    let ghost t = text@.subrange(start as int, text@.len() as int);
    let mut i: usize = start;
    while i < text.len() && text[i] != '\n'
        invariant
            start <= i <= text@.len(),
            t == text@.subrange(start as int, text@.len() as int),
            count_until(t, '\n') == (i - start) + count_until(text@.subrange(i as int, text@.len() as int), '\n'),
        decreases text@.len() - i,
    {
        assert(text@.subrange(i as int, text@.len() as int).drop_first() =~= text@.subrange(i + 1, text@.len() as int));
        i = i + 1;
    }
    proof {
        lemma_count_until_bounds(t, '\n');
        assert(count_until(t, '\n') == i - start);
    }
    let end: usize = if i < text.len() && i > start && text[i - 1] == '\r' {
        i - 1
    } else {
        i
    };
    let next: usize = if i < text.len() {
        i + 1
    } else {
        i
    };
    assert(text@.subrange(start as int, end as int) =~= first_line(t));
    assert(text@.subrange(next as int, text@.len() as int) =~= after_first_line(t));
    (end, next)
}

/// Whether `text[start..end]` begins with the characters of `key`.
pub fn has_prefix_at(text: &Vec<char>, start: usize, end: usize, key: &Vec<char>) -> (r: bool)
    requires
        start <= end <= text@.len(),
    ensures
        r == (key@.len() <= end - start && text@.subrange(start as int, start + key@.len()) == key@),
{
    if key.len() > end - start {
        return false;
    }
    let mut j: usize = 0;
    while j < key.len()
        invariant
            key@.len() <= end - start,
            start <= end <= text@.len(),
            j <= key@.len(),
            forall|k: int| 0 <= k < j ==> text@[start + k] == key@[k],
        decreases key@.len() - j,
    {
        if text[start + j] != key[j] {
            assert(text@.subrange(start as int, start + key@.len())[j as int] != key@[j as int]);
            return false;
        }
        j = j + 1;
    }
    assert(text@.subrange(start as int, start + key@.len()) =~= key@);
    true
}

/// Whether `pat` occurs in `s` as a block of consecutive characters.
pub open spec fn contains_seq(s: Seq<char>, pat: Seq<char>) -> bool {
    exists|i: int| 0 <= i && i + pat.len() <= s.len() && #[trigger] s.subrange(i, i + pat.len()) == pat
}

/// Whether `pat` occurs in `s`.
pub fn contains_chars(s: &Vec<char>, pat: &Vec<char>) -> (r: bool)
    ensures
        r == contains_seq(s@, pat@),
{
    if pat.len() > s.len() {
        return false;
    }
    let mut i: usize = 0;
    let last: usize = s.len() - pat.len();
    loop
        invariant
            pat@.len() <= s@.len(),
            last == s@.len() - pat@.len(),
            i <= last,
            forall|k: int| 0 <= k < i ==> #[trigger] s@.subrange(k, k + pat@.len()) != pat@,
        decreases last - i,
    {
        if has_prefix_at(s, i, s.len(), pat) {
            return true;
        }
        if i == last {
            return false;
        }
        i = i + 1;
    }
}

/// The final segment of a path: what follows its last `/` (the whole path
/// when it has none).
pub open spec fn base_name(path: Seq<char>) -> Seq<char>
    decreases path.len(),
{
    if path.len() == 0 {
        path
    } else if path.last() == '/' {
        Seq::<char>::empty()
    } else {
        base_name(path.drop_last()).push(path.last())
    }
}

/// The final segment of `path`, after its last `/`: `/usr/bin/zsh` gives
/// `zsh`.
pub fn base_name_of(path: &str) -> (r: String)
    ensures
        r@ == base_name(path@),
{
    let cs = chars_of(path);
    let mut i: usize = cs.len();
    assert(cs@.subrange(0, i as int) =~= cs@);
    assert(cs@.subrange(i as int, i as int) =~= Seq::<char>::empty());
    while i > 0 && cs[i - 1] != '/'
        invariant
            i <= cs@.len(),
            base_name(cs@) == base_name(cs@.subrange(0, i as int)) + cs@.subrange(i as int, cs@.len() as int),
        decreases i,
    {
        let ghost pre = cs@.subrange(0, i as int);
        assert(pre.drop_last() =~= cs@.subrange(0, i - 1));
        assert(cs@.subrange(i - 1, cs@.len() as int) =~= seq![pre.last()] + cs@.subrange(i as int, cs@.len() as int));
        i = i - 1;
    }
    let mut out: Vec<char> = Vec::new();
    let mut j: usize = i;
    while j < cs.len()
        invariant
            i <= j <= cs@.len(),
            out@ == cs@.subrange(i as int, j as int),
        decreases cs@.len() - j,
    {
        out.push(cs[j]);
        j = j + 1;
        assert(out@ =~= cs@.subrange(i as int, j as int));
    }
    assert(base_name(cs@.subrange(0, i as int)) =~= Seq::<char>::empty());
    assert(out@ =~= base_name(cs@));
    string_of(&out)
}

/// Unicode white space, as `char::is_whitespace` decides it.
pub open spec fn is_white(c: char) -> bool {
    ('\u{9}' <= c && c <= '\u{d}') || c == ' ' || c == '\u{85}' || c == '\u{a0}' || c == '\u{1680}'
        || ('\u{2000}' <= c && c <= '\u{200a}') || c == '\u{2028}' || c == '\u{2029}' || c == '\u{202f}'
        || c == '\u{205f}' || c == '\u{3000}'
}

pub fn is_white_char(c: char) -> (r: bool)
    ensures
        r == is_white(c),
{
    ('\u{9}' <= c && c <= '\u{d}') || c == ' ' || c == '\u{85}' || c == '\u{a0}' || c == '\u{1680}'
        || ('\u{2000}' <= c && c <= '\u{200a}') || c == '\u{2028}' || c == '\u{2029}' || c == '\u{202f}'
        || c == '\u{205f}' || c == '\u{3000}'
}

/// The characters that a trim removes: `"` when `quotes`, else white space.
pub open spec fn trimmed_char(quotes: bool, c: char) -> bool {
    if quotes {
        c == '"'
    } else {
        is_white(c)
    }
}

pub open spec fn trim_front(s: Seq<char>, quotes: bool) -> Seq<char>
    decreases s.len(),
{
    if s.len() > 0 && trimmed_char(quotes, s[0]) {
        trim_front(s.drop_first(), quotes)
    } else {
        s
    }
}

pub open spec fn trim_back(s: Seq<char>, quotes: bool) -> Seq<char>
    decreases s.len(),
{
    if s.len() > 0 && trimmed_char(quotes, s.last()) {
        trim_back(s.drop_last(), quotes)
    } else {
        s
    }
}

/// `s` without the quote characters at either end (`str::trim_matches('"')`).
pub open spec fn trim_quotes(s: Seq<char>) -> Seq<char> {
    trim_back(trim_front(s, true), true)
}

/// `s` without the white space at either end (`str::trim`).
pub open spec fn trim_white(s: Seq<char>) -> Seq<char> {
    trim_back(trim_front(s, false), false)
}

fn trims(quotes: bool, c: char) -> (r: bool)
    ensures
        r == trimmed_char(quotes, c),
{
    if quotes {
        c == '"'
    } else {
        is_white_char(c)
    }
}

/// Bounds of `text[lo..hi]` once quotes (`quotes`) or white space are
/// trimmed from both ends.
pub fn trim_bounds(text: &Vec<char>, lo: usize, hi: usize, quotes: bool) -> (r: (usize, usize))
    requires
        lo <= hi <= text@.len(),
    ensures
        lo <= r.0 <= r.1 <= hi,
        text@.subrange(r.0 as int, r.1 as int) == trim_back(
            trim_front(text@.subrange(lo as int, hi as int), quotes),
            quotes,
        ),
{
    let mut a: usize = lo;
    while a < hi && trims(quotes, text[a])
        invariant
            lo <= a <= hi <= text@.len(),
            trim_front(text@.subrange(lo as int, hi as int), quotes) == trim_front(
                text@.subrange(a as int, hi as int),
                quotes,
            ),
        decreases hi - a,
    {
        assert(text@.subrange(a as int, hi as int).drop_first() =~= text@.subrange(a + 1, hi as int));
        a = a + 1;
    }
    assert(trim_front(text@.subrange(lo as int, hi as int), quotes) == text@.subrange(a as int, hi as int));
    let mut b: usize = hi;
    while b > a && trims(quotes, text[b - 1])
        invariant
            lo <= a <= b <= hi <= text@.len(),
            trim_front(text@.subrange(lo as int, hi as int), quotes) == text@.subrange(a as int, hi as int),
            trim_back(trim_front(text@.subrange(lo as int, hi as int), quotes), quotes) == trim_back(
                text@.subrange(a as int, b as int),
                quotes,
            ),
        decreases b - a,
    {
        assert(text@.subrange(a as int, b as int).drop_last() =~= text@.subrange(a as int, b - 1));
        b = b - 1;
    }
    (a, b)
}

/// A `String` holding the characters `v[a..b]`.
pub fn string_of_range(v: &Vec<char>, a: usize, b: usize) -> (r: String)
    requires
        a <= b <= v@.len(),
    ensures
        r@ == v@.subrange(a as int, b as int),
{
    let mut out: Vec<char> = Vec::new();
    let mut j: usize = a;
    while j < b
        invariant
            a <= j <= b <= v@.len(),
            out@ == v@.subrange(a as int, j as int),
        decreases b - j,
    {
        out.push(v[j]);
        j = j + 1;
        assert(out@ =~= v@.subrange(a as int, j as int));
    }
    string_of(&out)
}

} // verus!
