//! Text helpers over the characters of a string: prefix and suffix tests,
//! equality, placeholder substitution, and slash-separated paths.

use vstd::prelude::*;
use vstd::string::*;

verus! {

/// The text in which every occurrence of `slot` in `text`, found from left to
/// right and never overlapping an earlier one, is replaced by `value`. An
/// empty `slot` names nothing, so the text stays as it is.
pub open spec fn substituted(text: Seq<char>, slot: Seq<char>, value: Seq<char>) -> Seq<char>
    decreases text.len(),
{
    if slot.len() == 0 || text.len() < slot.len() {
        text
    } else if slot.is_prefix_of(text) {
        value + substituted(text.skip(slot.len() as int), slot, value)
    } else {
        text.take(1) + substituted(text.skip(1), slot, value)
    }
}

/// The segments written one after another, each behind a `/`.
pub open spec fn rooted_path(segments: Seq<Seq<char>>) -> Seq<char>
    decreases segments.len(),
{
    if segments.len() == 0 {
        Seq::empty()
    } else {
        rooted_path(segments.drop_last()) + "/"@ + segments.last()
    }
}

/// The texts that a vector of strings holds.
pub open spec fn texts(v: Seq<String>) -> Seq<Seq<char>> {
    Seq::new(v.len(), |i: int| v[i]@)
}

/// Adding a string to a vector adds its text to the vector's texts.
pub proof fn lemma_texts_push(v: Seq<String>, s: String)
    ensures
        texts(v.push(s)) == texts(v).push(s@),
{
    assert(texts(v.push(s)) =~= texts(v).push(s@));
}

/// The characters of `s`, in order.
pub fn chars_of(s: &str) -> (v: Vec<char>)
    ensures
        v@ == s@,
{
    let mut v: Vec<char> = Vec::new();
    for c in it: s.chars()
        invariant
            it.seq() == s@,
            v@ == it.seq().take(it.index()),
    {
        v.push(c);
    }
    v
}

/// A path grows by one segment behind one more `/`.
pub proof fn lemma_rooted_path_push(segments: Seq<Seq<char>>, last: Seq<char>)
    ensures
        rooted_path(segments.push(last)) == rooted_path(segments) + "/"@ + last,
{
    assert(segments.push(last).drop_last() =~= segments);
}

/// The path of the segments from position `from` on.
pub fn rooted_path_from(segments: &Vec<String>, from: usize) -> (path: String)
    requires
        from <= segments.len(),
    ensures
        path@ == rooted_path(texts(segments@).skip(from as int)),
{
    let ghost all = texts(segments@);
    let mut path = String::new();
    let mut i: usize = from;
    assert(all.subrange(from as int, from as int) =~= Seq::<Seq<char>>::empty());
    while i < segments.len()
        invariant
            all == texts(segments@),
            from <= i <= segments.len(),
            path@ == rooted_path(all.subrange(from as int, i as int)),
        decreases segments.len() - i,
    {
        proof {
            lemma_rooted_path_push(all.subrange(from as int, i as int), all[i as int]);
            assert(all.subrange(from as int, i as int).push(all[i as int]) =~= all.subrange(
                from as int,
                i + 1,
            ));
        }
        path.append("/");
        path.append(segments[i].as_str());
        i = i + 1;
    }
    assert(all.subrange(from as int, i as int) =~= all.skip(from as int));
    path
}

/// Whether `pat` stands in `text` at position `at`.
pub fn matches_at(text: &Vec<char>, at: usize, pat: &Vec<char>) -> (r: bool)
    requires
        at + pat.len() <= text.len(),
    ensures
        r == (text@.subrange(at as int, at + pat.len()) == pat@),
{
    let m = pat.len();
    let mut j: usize = 0;
    while j < m
        invariant
            m == pat.len(),
            at + m <= text.len(),
            j <= m,
            forall|k: int| 0 <= k < j ==> text@[at + k] == pat@[k],
        decreases m - j,
    {
        if text[at + j] != pat[j] {
            assert(text@.subrange(at as int, at + m)[j as int] != pat@[j as int]);
            return false;
        }
        j = j + 1;
    }
    assert(text@.subrange(at as int, at + m) =~= pat@);
    true
}

/// Whether `s` begins with `prefix`.
pub fn starts_with(s: &str, prefix: &str) -> (r: bool)
    ensures
        r == prefix@.is_prefix_of(s@),
{
    let t = chars_of(s);
    let p = chars_of(prefix);
    if p.len() > t.len() {
        false
    } else {
        matches_at(&t, 0, &p)
    }
}

/// Whether `s` ends with `suffix`.
pub fn ends_with(s: &str, suffix: &str) -> (r: bool)
    ensures
        r == suffix@.is_suffix_of(s@),
{
    let t = chars_of(s);
    let p = chars_of(suffix);
    if p.len() > t.len() {
        false
    } else {
        matches_at(&t, t.len() - p.len(), &p)
    }
}

/// Whether `a` and `b` hold the same characters.
pub fn same_text(a: &str, b: &str) -> (r: bool)
    ensures
        r == (a@ == b@),
{
    let t = chars_of(a);
    let p = chars_of(b);
    if p.len() != t.len() {
        false
    } else {
        let r = matches_at(&t, 0, &p);
        assert(t@.subrange(0, t.len() as int) =~= t@);
        r
    }
}

/// Fills a template: every occurrence of `slot` in `text` becomes `value`.
pub fn substitute(text: &str, slot: &str, value: &str) -> (out: String)
    ensures
        out@ == substituted(text@, slot@, value@),
{
    let t = chars_of(text);
    let p = chars_of(slot);
    let n = t.len();
    let m = p.len();
    if m == 0 || n < m {
        return text.to_owned();
    }
    let mut out = String::new();
    let mut i: usize = 0;
    let mut start: usize = 0;
    assert(text@.skip(0) =~= text@);
    assert(out@ + text@.subrange(0, 0) =~= Seq::<char>::empty());
    assert(Seq::<char>::empty() + text@ =~= text@);
    while i <= n - m
        invariant
            t@ == text@,
            p@ == slot@,
            n == t.len(),
            m == p.len(),
            0 < m <= n,
            start <= i <= n,
            substituted(text@, slot@, value@) == out@ + text@.subrange(start as int, i as int)
                + substituted(text@.skip(i as int), slot@, value@),
        decreases n - i,
    {
        let ghost rest = text@.skip(i as int);
        assert(rest.subrange(0, m as int) =~= text@.subrange(i as int, i + m));
        if matches_at(&t, i, &p) {
            assert(slot@.is_prefix_of(rest));
            assert(rest.skip(m as int) =~= text@.skip(i + m));
            out.append(text.substring_char(start, i));
            out.append(value);
            i = i + m;
            start = i;
            assert(text@.subrange(start as int, i as int) =~= Seq::<char>::empty());
        } else {
            assert(!slot@.is_prefix_of(rest));
            assert(rest.skip(1) =~= text@.skip(i + 1));
            assert(text@.subrange(start as int, i as int) + rest.take(1) =~= text@.subrange(
                start as int,
                i + 1,
            ));
            i = i + 1;
        }
    }
    assert(text@.subrange(start as int, i as int) + text@.skip(i as int) =~= text@.subrange(
        start as int,
        n as int,
    ));
    out.append(text.substring_char(start, n));
    out
}

} // verus!
