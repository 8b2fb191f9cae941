use vstd::prelude::*;
use vstd::string::*;
use crate::codec::{decode_query, urlencoded_pairs_of};
use crate::pattern::pair_views;
use crate::text::{debug_str, debug_text_of};

verus! {

/// Where key `k` first occurs in `s`, or `s.len()` when it does not.
pub open spec fn key_index(s: Seq<(Seq<char>, Seq<char>)>, k: Seq<char>) -> nat
    decreases s.len(),
{
    if s.len() == 0 {
        0
    } else if s[0].0 == k {
        0
    } else {
        1 + key_index(s.drop_first(), k)
    }
}

/// Adds a pair: a key already present takes the new value in place, a new key goes last.
pub open spec fn merge_pair(acc: Seq<(Seq<char>, Seq<char>)>, p: (Seq<char>, Seq<char>)) -> Seq<
    (Seq<char>, Seq<char>),
> {
    let i = key_index(acc, p.0) as int;
    if i < acc.len() {
        acc.update(i, p)
    } else {
        acc.push(p)
    }
}

/// One pair per key, in order of first occurrence, with the value of the last occurrence.
pub open spec fn dedup_last(ps: Seq<(Seq<char>, Seq<char>)>) -> Seq<(Seq<char>, Seq<char>)>
    decreases ps.len(),
{
    if ps.len() == 0 {
        Seq::empty()
    } else {
        merge_pair(dedup_last(ps.drop_last()), ps.last())
    }
}

/// Every decoded `key=value` pair of a query string, in order, duplicates kept; none
/// where the text is refused.
pub open spec fn query_pairs(q: Seq<char>) -> Seq<(Seq<char>, Seq<char>)> {
    match urlencoded_pairs_of(q) {
        Some(ps) => ps,
        None => Seq::empty(),
    }
}

/// The mapping that a query string gives.
pub open spec fn query_spec(q: Seq<char>) -> Seq<(Seq<char>, Seq<char>)> {
    dedup_last(query_pairs(q))
}

pub open spec fn unique_keys(s: Seq<(Seq<char>, Seq<char>)>) -> bool {
    forall|i: int, j: int| 0 <= i < s.len() && 0 <= j < s.len() && i != j ==> #[trigger] s[i].0 != #[trigger] s[j].0
}

pub proof fn lemma_key_index(s: Seq<(Seq<char>, Seq<char>)>, k: Seq<char>, i: int)
    requires
        0 <= i <= s.len(),
        forall|j: int| 0 <= j < i ==> #[trigger] s[j].0 != k,
        i == s.len() || s[i].0 == k,
    ensures
        key_index(s, k) == i,
    decreases i,
{
    if i > 0 {
        let t = s.drop_first();
        assert forall|j: int| 0 <= j < i - 1 implies #[trigger] t[j].0 != k by {
            assert(t[j] == s[j + 1]);
        }
        lemma_key_index(t, k, i - 1);
    }
}

pub proof fn lemma_key_index_props(s: Seq<(Seq<char>, Seq<char>)>, k: Seq<char>)
    ensures
        key_index(s, k) <= s.len(),
        key_index(s, k) < s.len() ==> s[key_index(s, k) as int].0 == k,
        forall|j: int| 0 <= j < key_index(s, k) ==> #[trigger] s[j].0 != k,
    decreases s.len(),
{
    if s.len() > 0 && s[0].0 != k {
        let t = s.drop_first();
        lemma_key_index_props(t, k);
        assert forall|j: int| 0 <= j < key_index(s, k) implies #[trigger] s[j].0 != k by {
            if j > 0 {
                assert(s[j] == t[j - 1]);
            }
        }
    }
}

pub proof fn lemma_merge_unique(acc: Seq<(Seq<char>, Seq<char>)>, p: (Seq<char>, Seq<char>))
    requires
        unique_keys(acc),
    ensures
        unique_keys(merge_pair(acc, p)),
{
    lemma_key_index_props(acc, p.0);
    let r = merge_pair(acc, p);
    let ki = key_index(acc, p.0) as int;
    assert forall|i: int, j: int| 0 <= i < r.len() && 0 <= j < r.len() && i != j implies #[trigger] r[i].0
        != #[trigger] r[j].0 by {
        if ki < acc.len() {
            if i == ki {
                assert(r[j].0 == acc[j].0);
                assert(acc[i].0 != acc[j].0);
            } else if j == ki {
                assert(acc[i].0 != acc[j].0);
            }
        } else {
            if i == acc.len() {
                assert(acc[j].0 != p.0);
            } else if j == acc.len() {
                assert(acc[i].0 != p.0);
            }
        }
    }
}

pub proof fn lemma_dedup_unique(ps: Seq<(Seq<char>, Seq<char>)>)
    ensures
        unique_keys(dedup_last(ps)),
    decreases ps.len(),
{
    if ps.len() > 0 {
        lemma_dedup_unique(ps.drop_last());
        lemma_merge_unique(dedup_last(ps.drop_last()), ps.last());
    }
}

pub proof fn lemma_dedup_of_unique(s: Seq<(Seq<char>, Seq<char>)>)
    requires
        unique_keys(s),
    ensures
        dedup_last(s) == s,
    decreases s.len(),
{
    if s.len() > 0 {
        let init = s.drop_last();
        assert(unique_keys(init)) by {
            assert forall|i: int, j: int| 0 <= i < init.len() && 0 <= j < init.len() && i != j implies #[trigger] init[i].0
                != #[trigger] init[j].0 by {
                assert(init[i] == s[i] && init[j] == s[j]);
            }
        }
        lemma_dedup_of_unique(init);
        assert forall|j: int| 0 <= j < init.len() implies #[trigger] init[j].0 != s.last().0 by {
            assert(init[j] == s[j]);
        }
        lemma_key_index(init, s.last().0, init.len() as int);
        assert(init.push(s.last()) =~= s);
    }
}

/// Collapsing duplicate keys is idempotent: collapsing the mapping of a query string
/// once more gives the same mapping.
pub proof fn query_dedup_idempotent(q: Seq<char>)
    ensures
        dedup_last(query_spec(q)) == query_spec(q),
{
    lemma_dedup_unique(query_pairs(q));
    lemma_dedup_of_unique(query_spec(q));
}

/// On duplicate keys the last value supplied wins: for the last pair of a query string
/// with a given key, the mapping holds that key exactly once, bound to that pair's value.
pub proof fn query_last_value_wins(q: Seq<char>, i: int)
    requires
        0 <= i < query_pairs(q).len(),
        forall|j: int|
            i < j < query_pairs(q).len() ==> #[trigger] query_pairs(q)[j].0 != query_pairs(q)[i].0,
    ensures
        key_index(query_spec(q), query_pairs(q)[i].0) < query_spec(q).len(),
        query_spec(q)[key_index(query_spec(q), query_pairs(q)[i].0) as int] == query_pairs(q)[i],
        unique_keys(query_spec(q)),
{
    lemma_last_value_wins(query_pairs(q), i);
    lemma_dedup_unique(query_pairs(q));
}

pub proof fn lemma_last_value_wins(ps: Seq<(Seq<char>, Seq<char>)>, i: int)
    requires
        0 <= i < ps.len(),
        forall|j: int| i < j < ps.len() ==> #[trigger] ps[j].0 != ps[i].0,
    ensures
        key_index(dedup_last(ps), ps[i].0) < dedup_last(ps).len(),
        dedup_last(ps)[key_index(dedup_last(ps), ps[i].0) as int] == ps[i],
    decreases ps.len(),
{
    let k = ps[i].0;
    let init = ps.drop_last();
    let d0 = dedup_last(init);
    let d = dedup_last(ps);
    let last = ps.last();
    lemma_key_index_props(d0, last.0);
    let m = key_index(d0, last.0) as int;
    if i == ps.len() - 1 {
        if m < d0.len() {
            assert forall|j: int| 0 <= j < m implies #[trigger] d[j].0 != k by {
                assert(d[j] == d0[j]);
            }
            lemma_key_index(d, k, m);
        } else {
            assert forall|j: int| 0 <= j < d0.len() implies #[trigger] d[j].0 != k by {
                assert(d[j] == d0[j]);
            }
            lemma_key_index(d, k, d0.len() as int);
        }
    } else {
        assert forall|j: int| i < j < init.len() implies #[trigger] init[j].0 != init[i].0 by {
            assert(init[j] == ps[j]);
        }
        lemma_last_value_wins(init, i);
        assert(init[i] == ps[i]);
        let ki = key_index(d0, k) as int;
        lemma_key_index_props(d0, k);
        assert(last.0 != k);
        assert(d[ki] == d0[ki]);
        assert forall|j: int| 0 <= j < ki implies #[trigger] d[j].0 != k by {
            assert(d0[j].0 != k);
            if j == m {
                assert(d[j] == last);
            } else {
                assert(d[j] == d0[j]);
            }
        }
        lemma_key_index(d, k, ki);
    }
}

pub open spec fn has_key(s: Seq<(Seq<char>, Seq<char>)>, k: Seq<char>) -> bool {
    exists|j: int| 0 <= j < s.len() && #[trigger] s[j].0 == k
}

pub proof fn lemma_key_index_has_key(s: Seq<(Seq<char>, Seq<char>)>, k: Seq<char>)
    ensures
        (key_index(s, k) < s.len()) == has_key(s, k),
{
    lemma_key_index_props(s, k);
    if key_index(s, k) < s.len() {
        assert(s[key_index(s, k) as int].0 == k);
    }
}

pub proof fn lemma_dedup_keys(ps: Seq<(Seq<char>, Seq<char>)>, k: Seq<char>)
    ensures
        has_key(dedup_last(ps), k) == has_key(ps, k),
    decreases ps.len(),
{
    if ps.len() > 0 {
        let init = ps.drop_last();
        let d0 = dedup_last(init);
        let p = ps.last();
        let d = dedup_last(ps);
        lemma_dedup_keys(init, k);
        lemma_key_index_props(d0, p.0);
        let m = key_index(d0, p.0) as int;
        if has_key(ps, k) {
            let j = choose|j: int| 0 <= j < ps.len() && #[trigger] ps[j].0 == k;
            if j < init.len() {
                assert(init[j] == ps[j]);
                let l = choose|l: int| 0 <= l < d0.len() && #[trigger] d0[l].0 == k;
                if m < d0.len() && l == m {
                    assert(d[m].0 == k);
                } else {
                    assert(d[l] == d0[l]);
                }
            } else if m < d0.len() {
                assert(d[m].0 == k);
            } else {
                assert(d[d0.len() as int].0 == k);
            }
        }
        if has_key(d, k) {
            let j = choose|j: int| 0 <= j < d.len() && #[trigger] d[j].0 == k;
            if p.0 == k {
                assert(ps[ps.len() - 1].0 == k);
            } else {
                assert(d[j] == d0[j]);
                let l = choose|l: int| 0 <= l < init.len() && #[trigger] init[l].0 == k;
                assert(ps[l] == init[l]);
            }
        }
    }
}

/// The mapping of a query string holds exactly the keys that its decoded pairs supply.
pub proof fn query_keys_are_supplied_keys(q: Seq<char>, k: Seq<char>)
    ensures
        (key_index(query_spec(q), k) < query_spec(q).len()) == has_key(query_pairs(q), k),
{
    lemma_key_index_has_key(query_spec(q), k);
    lemma_dedup_keys(query_pairs(q), k);
}

/// Adds a pair to a mapping: an existing key takes the new value in place.
pub fn merge_into(acc: &mut Vec<(String, String)>, key: String, value: String)
    ensures
        pair_views(final(acc)@) == merge_pair(pair_views(old(acc)@), (key@, value@)),
{
    let ghost a = pair_views(acc@);
    let mut j: usize = 0;
    while j < acc.len()
        invariant
            j <= acc@.len(),
            a == pair_views(acc@),
            acc@ == old(acc)@,
            forall|l: int| 0 <= l < j ==> #[trigger] a[l].0 != key@,
        decreases acc@.len() - j,
    {
        assert(a[j as int] == (acc@[j as int].0@, acc@[j as int].1@));
        if acc[j].0.eq(&key) {
            proof {
                lemma_key_index(a, key@, j as int);
            }
            let ghost kv = key@;
            let ghost vv = value@;
            acc.set(j, (key, value));
            assert(pair_views(acc@) =~= a.update(j as int, (kv, vv)));
            return;
        }
        j = j + 1;
    }
    proof {
        lemma_key_index(a, key@, a.len() as int);
    }
    let ghost kv = key@;
    let ghost vv = value@;
    acc.push((key, value));
    assert(pair_views(acc@) =~= a.push((kv, vv)));
}

/// Parses a query string into a mapping from key to value; the last value of a
/// duplicate key wins. It never fails: a query string that cannot be decoded, like an
/// empty one, gives an empty mapping.
pub fn parse_query(q: &str) -> (r: Vec<(String, String)>)
    ensures
        pair_views(r@) == query_spec(q@),
        q@.len() == 0 ==> r@.len() == 0,
{
    let pairs = match decode_query(q) {
        Ok(v) => v,
        Err(_) => Vec::new(),
    };
    let ghost pv = pair_views(pairs@);
    assert(pv == query_pairs(q@));
    let mut acc: Vec<(String, String)> = Vec::new();
    let mut i: usize = 0;
    assert(pv.take(0) =~= Seq::<(Seq<char>, Seq<char>)>::empty());
    assert(pair_views(acc@) =~= Seq::<(Seq<char>, Seq<char>)>::empty());
    while i < pairs.len()
        invariant
            i <= pairs@.len(),
            pv == pair_views(pairs@),
            pair_views(acc@) == dedup_last(pv.take(i as int)),
        decreases pairs@.len() - i,
    {
        assert(pv.take(i + 1).drop_last() =~= pv.take(i as int));
        assert(pv[i as int] == (pairs@[i as int].0@, pairs@[i as int].1@));
        merge_into(&mut acc, pairs[i].0.clone(), pairs[i].1.clone());
        i = i + 1;
    }
    assert(pv.take(i as int) =~= pv);
    acc
}

pub open spec fn render_entry(p: (Seq<char>, Seq<char>)) -> Seq<char> {
    debug_text_of(p.0) + ": "@ + debug_text_of(p.1)
}

pub open spec fn render_entries(s: Seq<(Seq<char>, Seq<char>)>) -> Seq<char>
    decreases s.len(),
{
    if s.len() == 0 {
        Seq::empty()
    } else if s.len() == 1 {
        render_entry(s[0])
    } else {
        render_entries(s.drop_last()) + ", "@ + render_entry(s.last())
    }
}

/// A mapping written as `{"key": "value", ...}`.
pub open spec fn render_query_spec(s: Seq<(Seq<char>, Seq<char>)>) -> Seq<char> {
    "{"@ + render_entries(s) + "}"@
}

/// Writes a mapping as `{"key": "value", ...}`, each string in its debug form.
pub fn render_query(pairs: &Vec<(String, String)>) -> (r: String)
    ensures
        r@ == render_query_spec(pair_views(pairs@)),
{
    let ghost pv = pair_views(pairs@);
    let mut out = String::from_str("{");
    let mut i: usize = 0;
    assert(pv.take(0) =~= Seq::<(Seq<char>, Seq<char>)>::empty());
    while i < pairs.len()
        invariant
            i <= pairs@.len(),
            pv == pair_views(pairs@),
            out@ == "{"@ + render_entries(pv.take(i as int)),
        decreases pairs@.len() - i,
    {
        assert(pv.take(i + 1).drop_last() =~= pv.take(i as int));
        assert(pv[i as int] == (pairs@[i as int].0@, pairs@[i as int].1@));
        if i > 0 {
            out.append(", ");
        }
        let k = debug_str(pairs[i].0.as_str());
        let v = debug_str(pairs[i].1.as_str());
        out.append(k.as_str());
        out.append(": ");
        out.append(v.as_str());
        proof {
            if i == 0 {
                assert(pv.take(1) =~= seq![pv[0]]);
            }
        }
        assert(out@ =~= "{"@ + render_entries(pv.take(i + 1)));
        i = i + 1;
    }
    assert(pv.take(i as int) =~= pv);
    out.append("}");
    out
}

} // verus!
