use vstd::prelude::*;
use vstd::string::*;

verus! {

/// Splits `s` on every `sep`: `n` separators give `n + 1` pieces, empty ones included.
pub open spec fn split_on(s: Seq<char>, sep: char) -> Seq<Seq<char>>
    decreases s.len(),
{
    if s.len() == 0 {
        seq![Seq::<char>::empty()]
    } else {
        let init = split_on(s.drop_last(), sep);
        if s.last() == sep {
            init.push(Seq::<char>::empty())
        } else {
            init.update(init.len() - 1, init.last().push(s.last()))
        }
    }
}

pub proof fn lemma_split_on_nonempty(s: Seq<char>, sep: char)
    ensures
        split_on(s, sep).len() >= 1,
    decreases s.len(),
{
    if s.len() > 0 {
        lemma_split_on_nonempty(s.drop_last(), sep);
    }
}

/// A text without the separator is one piece.
pub proof fn lemma_split_on_no_sep(s: Seq<char>, sep: char)
    requires
        forall|i: int| 0 <= i < s.len() ==> s[i] != sep,
    ensures
        split_on(s, sep) == seq![s],
    decreases s.len(),
{
    if s.len() > 0 {
        lemma_split_on_no_sep(s.drop_last(), sep);
        assert(s.drop_last().push(s.last()) =~= s);
    } else {
        assert(s =~= Seq::<char>::empty());
    }
}

/// Two texts without the separator, joined by one, are two pieces.
pub proof fn lemma_split_on_two(a: Seq<char>, b: Seq<char>, sep: char)
    requires
        forall|i: int| 0 <= i < a.len() ==> a[i] != sep,
        forall|i: int| 0 <= i < b.len() ==> b[i] != sep,
    ensures
        split_on(a.push(sep) + b, sep) == seq![a, b],
    decreases b.len(),
{
    let s = a.push(sep) + b;
    if b.len() == 0 {
        assert(b =~= Seq::<char>::empty());
        assert(s =~= a.push(sep));
        assert(s.drop_last() =~= a);
        lemma_split_on_no_sep(a, sep);
        assert(seq![a].push(Seq::<char>::empty()) =~= seq![a, b]);
    } else {
        lemma_split_on_two(a, b.drop_last(), sep);
        assert(s.drop_last() =~= a.push(sep) + b.drop_last());
        assert(b.drop_last().push(b.last()) =~= b);
        assert(seq![a, b.drop_last()].update(1, b.drop_last().push(b.last())) =~= seq![a, b]);
    }
}

/// The segments of a request path: one leading `/` is dropped, the rest is split on `/`.
pub open spec fn path_segments(p: Seq<char>) -> Seq<Seq<char>> {
    if p.len() > 0 && p[0] == '/' {
        split_on(p.drop_first(), '/')
    } else {
        split_on(p, '/')
    }
}

pub open spec fn string_views(v: Seq<String>) -> Seq<Seq<char>> {
    v.map_values(|s: String| s@)
}

/// Splits `s` on every `sep`.
pub fn split_on_char(s: &str, sep: char) -> (r: Vec<String>)
    ensures
        string_views(r@) == split_on(s@, sep),
{
    let n = s.unicode_len();
    let mut parts: Vec<String> = Vec::new();
    let mut cur: usize = 0;
    let mut i: usize = 0;
    assert(s@.subrange(0, 0) =~= Seq::<char>::empty());
    assert(string_views(parts@) =~= Seq::<Seq<char>>::empty());
    assert(split_on(s@.subrange(0, i as int), sep) =~= string_views(parts@).push(
        s@.subrange(cur as int, i as int),
    ));
    while i < n
        invariant
            cur <= i <= n,
            n == s@.len(),
            split_on(s@.subrange(0, i as int), sep) == string_views(parts@).push(
                s@.subrange(cur as int, i as int),
            ),
        decreases n - i,
    {
        let c = s.get_char(i);
        let ghost prev = s@.subrange(0, i as int);
        let ghost next = s@.subrange(0, i + 1);
        assert(next.drop_last() == prev);
        assert(next.last() == c);
        proof {
            lemma_split_on_nonempty(prev, sep);
        }
        if c == sep {
            let piece = s.substring_char(cur, i);
            let ghost old_parts = parts@;
            parts.push(String::from_str(piece));
            assert(string_views(parts@) == string_views(old_parts).push(piece@));
            cur = i + 1;
            assert(s@.subrange(cur as int, i + 1) == Seq::<char>::empty());
        } else {
            assert(s@.subrange(cur as int, i + 1) == s@.subrange(cur as int, i as int).push(c));
        }
        i = i + 1;
    }
    let last = s.substring_char(cur, n);
    let ghost old_parts = parts@;
    parts.push(String::from_str(last));
    assert(string_views(parts@) == string_views(old_parts).push(last@));
    assert(s@.subrange(0, n as int) == s@);
    parts
}

/// Splits a request path into its segments.
pub fn split_path(path: &str) -> (r: Vec<String>)
    ensures
        string_views(r@) == path_segments(path@),
{
    let n = path.unicode_len();
    if n > 0 && path.get_char(0) == '/' {
        let rest = path.substring_char(1, n);
        assert(rest@ == path@.drop_first());
        split_on_char(rest, '/')
    } else {
        split_on_char(path, '/')
    }
}

} // verus!
