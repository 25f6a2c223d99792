//! Small keyed collections over strings: a vector of `(key, value)` pairs with
//! distinct keys, seen as a `Map`, and a vector of distinct strings, seen as a `Set`.
use vstd::prelude::*;

use crate::text::same_text;

verus! {

/// The pairs with each key replaced by its characters.
pub open spec fn key_view<V>(s: Seq<(String, V)>) -> Seq<(Seq<char>, V)> {
    s.map_values(|e: (String, V)| (e.0@, e.1))
}

/// The pairs as a map; a later pair wins over an earlier one with the same key.
pub open spec fn assoc<V>(s: Seq<(Seq<char>, V)>) -> Map<Seq<char>, V>
    decreases s.len(),
{
    if s.len() == 0 {
        Map::empty()
    } else {
        assoc(s.drop_last()).insert(s.last().0, s.last().1)
    }
}

/// No key occurs twice.
pub open spec fn keys_distinct<V>(s: Seq<(Seq<char>, V)>) -> bool {
    forall|i: int, j: int| 0 <= i < j < s.len() ==> #[trigger] s[i].0 != #[trigger] s[j].0
}

/// The characters of each string.
pub open spec fn str_views(s: Seq<String>) -> Seq<Seq<char>> {
    s.map_values(|x: String| x@)
}

/// The strings as a set of character sequences.
pub open spec fn str_set(s: Seq<String>) -> Set<Seq<char>> {
    str_views(s).to_set()
}

pub proof fn lemma_assoc_dom<V>(s: Seq<(Seq<char>, V)>, k: Seq<char>)
    ensures
        assoc(s).contains_key(k) <==> exists|i: int| 0 <= i < s.len() && #[trigger] s[i].0 == k,
    decreases s.len(),
{
    if s.len() > 0 {
        let d = s.drop_last();
        lemma_assoc_dom(d, k);
        if assoc(s).contains_key(k) && k != s.last().0 {
            let i = choose|i: int| 0 <= i < d.len() && #[trigger] d[i].0 == k;
            assert(s[i].0 == k);
        }
        if exists|i: int| 0 <= i < s.len() && #[trigger] s[i].0 == k {
            let i = choose|i: int| 0 <= i < s.len() && #[trigger] s[i].0 == k;
            if i < d.len() {
                assert(d[i].0 == k);
            }
        }
    }
}

pub proof fn lemma_assoc_get<V>(s: Seq<(Seq<char>, V)>, i: int)
    requires
        keys_distinct(s),
        0 <= i < s.len(),
    ensures
        assoc(s).contains_key(s[i].0),
        assoc(s)[s[i].0] == s[i].1,
    decreases s.len(),
{
    if i < s.len() - 1 {
        let d = s.drop_last();
        assert(d[i] == s[i]);
        assert(keys_distinct(d)) by {
            assert forall|a: int, b: int| 0 <= a < b < d.len() implies #[trigger] d[a].0
                != #[trigger] d[b].0 by {
                assert(d[a] == s[a] && d[b] == s[b]);
            }
        }
        lemma_assoc_get(d, i);
        assert(s[i].0 != s[s.len() - 1].0);
    }
}

/// Replacing the value of pair `i` replaces it in the map.
pub proof fn lemma_assoc_update<V>(s: Seq<(Seq<char>, V)>, i: int, v: V)
    requires
        keys_distinct(s),
        0 <= i < s.len(),
    ensures
        keys_distinct(s.update(i, (s[i].0, v))),
        assoc(s.update(i, (s[i].0, v))) == assoc(s).insert(s[i].0, v),
{
    let t = s.update(i, (s[i].0, v));
    assert(keys_distinct(t)) by {
        assert forall|a: int, b: int| 0 <= a < b < t.len() implies #[trigger] t[a].0
            != #[trigger] t[b].0 by {
            assert(t[a].0 == s[a].0 && t[b].0 == s[b].0);
        }
    }
    let m = assoc(s).insert(s[i].0, v);
    assert forall|k: Seq<char>| #[trigger] assoc(t).contains_key(k) <==> m.contains_key(k) by {
        lemma_assoc_dom(t, k);
        lemma_assoc_dom(s, k);
        if exists|j: int| 0 <= j < s.len() && #[trigger] s[j].0 == k {
            let j = choose|j: int| 0 <= j < s.len() && #[trigger] s[j].0 == k;
            assert(t[j].0 == k);
        }
        if exists|j: int| 0 <= j < t.len() && #[trigger] t[j].0 == k {
            let j = choose|j: int| 0 <= j < t.len() && #[trigger] t[j].0 == k;
            assert(s[j].0 == k);
        }
    }
    assert forall|k: Seq<char>| #[trigger] assoc(t).contains_key(k) implies assoc(t)[k] == m[k] by {
        lemma_assoc_dom(t, k);
        let j = choose|j: int| 0 <= j < t.len() && #[trigger] t[j].0 == k;
        lemma_assoc_get(t, j);
        if j != i {
            lemma_assoc_get(s, j);
        }
    }
    assert(assoc(t) =~= m);
}

/// Appending a pair with a new key keeps the keys distinct.
pub proof fn lemma_push_distinct<V>(s: Seq<(Seq<char>, V)>, k: Seq<char>, v: V)
    requires
        keys_distinct(s),
        forall|j: int| 0 <= j < s.len() ==> #[trigger] s[j].0 != k,
    ensures
        keys_distinct(s.push((k, v))),
        assoc(s.push((k, v))) == assoc(s).insert(k, v),
{
    let t = s.push((k, v));
    assert(t.drop_last() =~= s);
    assert forall|a: int, b: int| 0 <= a < b < t.len() implies #[trigger] t[a].0
        != #[trigger] t[b].0 by {
        assert(t[a] == s[a]);
        if b < s.len() {
            assert(t[b] == s[b]);
        }
    }
}

/// The position of the pair whose key is `k`, if there is one.
pub fn find_key<V>(entries: &Vec<(String, V)>, k: &str) -> (r: Option<usize>)
    ensures
        match r {
            Some(i) => i < entries@.len() && key_view(entries@)[i as int].0 == k@,
            None => forall|j: int| 0 <= j < entries@.len() ==> #[trigger] key_view(entries@)[j].0 != k@,
        },
{
    let mut i: usize = 0;
    while i < entries.len()
        invariant
            i <= entries@.len(),
            forall|j: int| 0 <= j < i ==> #[trigger] key_view(entries@)[j].0 != k@,
        decreases entries@.len() - i,
    {
        if same_text(entries[i].0.as_str(), k) {
            return Some(i);
        }
        i = i + 1;
    }
    None
}

/// Whether one of the strings equals `k`.
pub fn contains_str(items: &Vec<String>, k: &str) -> (r: bool)
    ensures
        r == str_set(items@).contains(k@),
{
    let mut i: usize = 0;
    while i < items.len()
        invariant
            i <= items@.len(),
            forall|j: int| 0 <= j < i ==> #[trigger] items@[j]@ != k@,
        decreases items@.len() - i,
    {
        if same_text(items[i].as_str(), k) {
            proof {
                assert(str_views(items@)[i as int] == k@);
            }
            return true;
        }
        i = i + 1;
    }
    proof {
        if str_set(items@).contains(k@) {
            let j = choose|j: int| 0 <= j < str_views(items@).len() && str_views(items@)[j] == k@;
            assert(items@[j]@ == k@);
        }
    }
    false
}

/// Adds `k` to a vector of distinct strings unless it is there already.
pub fn insert_str(items: &mut Vec<String>, k: &str)
    requires
        str_views(old(items)@).no_duplicates(),
    ensures
        str_views(final(items)@).no_duplicates(),
        str_set(final(items)@) == str_set(old(items)@).insert(k@),
        str_set(old(items)@).contains(k@) ==> final(items)@ == old(items)@,
        !str_set(old(items)@).contains(k@) ==> str_views(final(items)@) == str_views(old(items)@).push(k@),
{
    if !contains_str(items, k) {
        let ghost before = str_views(items@);
        items.push(k.to_owned());
        proof {
            assert(str_views(items@) =~= before.push(k@));
            assert(before.push(k@).to_set() =~= before.to_set().insert(k@)) by {
                Seq::<Seq<char>>::lemma_to_set_insert_commutes(before, k@);
                assert(before.push(k@) =~= before + seq![k@]);
            }
            assert forall|a: int, b: int|
                0 <= a < b < before.push(k@).len() implies before.push(k@)[a] != before.push(
                k@,
            )[b] by {
                if b == before.len() {
                    assert(before.contains(before[a]));
                }
            }
        }
    } else {
        proof {
            assert(str_set(items@).insert(k@) =~= str_set(items@));
        }
    }
}

} // verus!
