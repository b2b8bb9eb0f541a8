use vstd::prelude::*;

verus! {

/// The map that an association list stands for: where a key occurs more than
/// once, its first occurrence counts.
pub open spec fn assoc_map<K, V>(s: Seq<(K, V)>) -> Map<K, V>
    decreases s.len(),
{
    if s.len() == 0 {
        Map::empty()
    } else {
        assoc_map(s.drop_first()).insert(s[0].0, s[0].1)
    }
}

/// No key occurs twice.
pub open spec fn keys_distinct<K, V>(s: Seq<(K, V)>) -> bool {
    forall|i: int, j: int| 0 <= i < j < s.len() ==> s[i].0 != s[j].0
}

/// `i` is the first position that holds key `k`.
pub open spec fn is_first_key<K, V>(s: Seq<(K, V)>, k: K, i: int) -> bool {
    &&& 0 <= i < s.len()
    &&& s[i].0 == k
    &&& forall|j: int| 0 <= j < i ==> s[j].0 != k
}

/// The list seen through the views of its keys and values.
pub open spec fn pairs_view<V: View>(s: Seq<(String, V)>) -> Seq<(Seq<char>, V::V)> {
    s.map_values(|p: (String, V)| (p.0@, p.1@))
}

pub proof fn lemma_assoc_absent<K, V>(s: Seq<(K, V)>, k: K)
    requires
        forall|j: int| 0 <= j < s.len() ==> s[j].0 != k,
    ensures
        !assoc_map(s).contains_key(k),
    decreases s.len(),
{
    if s.len() > 0 {
        assert forall|j: int| 0 <= j < s.drop_first().len() implies s.drop_first()[j].0 != k by {
            assert(s.drop_first()[j] == s[j + 1]);
        }
        lemma_assoc_absent(s.drop_first(), k);
    }
}

pub proof fn lemma_assoc_contains<K, V>(s: Seq<(K, V)>, k: K)
    requires
        assoc_map(s).contains_key(k),
    ensures
        exists|i: int| is_first_key(s, k, i) && assoc_map(s)[k] == s[i].1,
    decreases s.len(),
{
    if s[0].0 == k {
        assert(is_first_key(s, k, 0));
    } else {
        lemma_assoc_contains(s.drop_first(), k);
        let i = choose|i: int| is_first_key(s.drop_first(), k, i) && assoc_map(s.drop_first())[k]
            == s.drop_first()[i].1;
        assert(s[i + 1] == s.drop_first()[i]);
        assert forall|j: int| 0 <= j < i + 1 implies s[j].0 != k by {
            if j > 0 {
                assert(s[j] == s.drop_first()[j - 1]);
            }
        }
        assert(is_first_key(s, k, i + 1));
    }
}

pub proof fn lemma_assoc_found<K, V>(s: Seq<(K, V)>, k: K, i: int)
    requires
        is_first_key(s, k, i),
    ensures
        assoc_map(s).contains_key(k),
        assoc_map(s)[k] == s[i].1,
    decreases s.len(),
{
    if i > 0 {
        assert(s.drop_first()[i - 1] == s[i]);
        assert forall|j: int| 0 <= j < i - 1 implies s.drop_first()[j].0 != k by {
            assert(s.drop_first()[j] == s[j + 1]);
        }
        lemma_assoc_found(s.drop_first(), k, i - 1);
    }
}

pub proof fn lemma_assoc_update<K, V>(s: Seq<(K, V)>, i: int, v: V)
    requires
        is_first_key(s, s[i].0, i),
    ensures
        assoc_map(s.update(i, (s[i].0, v))) == assoc_map(s).insert(s[i].0, v),
    decreases s.len(),
{
    let k = s[i].0;
    let t = s.update(i, (k, v));
    if i == 0 {
        assert(t.drop_first() =~= s.drop_first());
        assert(assoc_map(t) =~= assoc_map(s).insert(k, v));
    } else {
        assert(s.drop_first()[i - 1] == s[i]);
        assert forall|j: int| 0 <= j < i - 1 implies s.drop_first()[j].0 != k by {
            assert(s.drop_first()[j] == s[j + 1]);
        }
        lemma_assoc_update(s.drop_first(), i - 1, v);
        assert(t.drop_first() =~= s.drop_first().update(i - 1, (k, v)));
        assert(s[0].0 != k);
        assert(assoc_map(t) =~= assoc_map(s).insert(k, v));
    }
}

pub proof fn lemma_assoc_push<K, V>(s: Seq<(K, V)>, k: K, v: V)
    requires
        forall|j: int| 0 <= j < s.len() ==> s[j].0 != k,
    ensures
        assoc_map(s.push((k, v))) == assoc_map(s).insert(k, v),
    decreases s.len(),
{
    let t = s.push((k, v));
    if s.len() == 0 {
        assert(t.drop_first() =~= s);
        assert(assoc_map(t) =~= assoc_map(s).insert(k, v));
    } else {
        assert forall|j: int| 0 <= j < s.drop_first().len() implies s.drop_first()[j].0 != k by {
            assert(s.drop_first()[j] == s[j + 1]);
        }
        lemma_assoc_push(s.drop_first(), k, v);
        assert(t.drop_first() =~= s.drop_first().push((k, v)));
        assert(s[0].0 != k);
        assert(assoc_map(t) =~= assoc_map(s).insert(k, v));
    }
}

/// The first position of key `k` in `v`, if it holds `k`.
pub fn find_key<V: View>(v: &Vec<(String, V)>, k: &str) -> (r: Option<usize>)
    ensures
        match r {
            Some(i) => is_first_key(pairs_view(v@), k@, i as int),
            None => forall|j: int| 0 <= j < v@.len() ==> v@[j].0@ != k@,
        },
{
    let mut i: usize = 0;
    while i < v.len()
        invariant
            i <= v@.len(),
            forall|j: int| 0 <= j < i ==> v@[j].0@ != k@,
        decreases v@.len() - i,
    {
        if crate::text::str_eq(v[i].0.as_str(), k) {
            return Some(i);
        }
        i += 1;
    }
    None
}

} // verus!
