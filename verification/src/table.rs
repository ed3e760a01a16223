use vstd::prelude::*;

verus! {

/// A relational table is stored as a sequence of rows; its logical content is
/// the map from each row's key to the row. These definitions and lemmas are
/// shared by every table of the store.
///
/// When a key occurs twice the later row wins, but every table maintains the
/// invariant [`distinct_keys`], under which the sequence and the map carry
/// the same information.
pub open spec fn table_view<T, K>(s: Seq<T>, key: spec_fn(T) -> K) -> Map<K, T>
    decreases s.len(),
{
    if s.len() == 0 {
        Map::empty()
    } else {
        table_view(s.drop_last(), key).insert(key(s.last()), s.last())
    }
}

/// No two rows share a key.
pub open spec fn distinct_keys<T, K>(s: Seq<T>, key: spec_fn(T) -> K) -> bool {
    forall|i: int, j: int|
        0 <= i < s.len() && 0 <= j < s.len() && key(#[trigger] s[i]) == key(#[trigger] s[j]) ==> i
            == j
}

/// `m.get(k)` as a spec-level `Option`.
pub open spec fn map_get<K, V>(m: Map<K, V>, k: K) -> Option<V> {
    if m.contains_key(k) {
        Some(m[k])
    } else {
        None
    }
}

/// The view's domain is exactly the set of keys occurring in the sequence.
pub proof fn lemma_table_view_dom<T, K>(s: Seq<T>, key: spec_fn(T) -> K)
    ensures
        forall|k: K|
            table_view(s, key).contains_key(k) <==> exists|i: int|
                0 <= i < s.len() && key(#[trigger] s[i]) == k,
    decreases s.len(),
{
    if s.len() > 0 {
        let d = s.drop_last();
        lemma_table_view_dom(d, key);
        assert(forall|i: int| 0 <= i < d.len() ==> #[trigger] d[i] == s[i]);
        assert forall|k: K| table_view(s, key).contains_key(k) implies exists|i: int|
            0 <= i < s.len() && key(#[trigger] s[i]) == k by {
            if k == key(s.last()) {
                assert(key(s[s.len() - 1]) == k);
            } else {
                assert(table_view(d, key).contains_key(k));
                let i = choose|i: int| 0 <= i < d.len() && key(#[trigger] d[i]) == k;
                assert(key(s[i]) == k);
            }
        }
        assert forall|k: K|
            exists|i: int| 0 <= i < s.len() && key(#[trigger] s[i]) == k implies table_view(
            s,
            key,
        ).contains_key(k) by {
            let i = choose|i: int| 0 <= i < s.len() && key(#[trigger] s[i]) == k;
            if i < s.len() - 1 {
                assert(key(d[i]) == k);
                assert(table_view(d, key).contains_key(k));
            }
        }
    }
}

/// Under distinct keys, the view maps each row's key to that row.
pub proof fn lemma_table_view_get<T, K>(s: Seq<T>, key: spec_fn(T) -> K)
    requires
        distinct_keys(s, key),
    ensures
        forall|i: int| 0 <= i < s.len() ==> table_view(s, key)[key(#[trigger] s[i])] == s[i],
    decreases s.len(),
{
    if s.len() > 0 {
        assert(distinct_keys(s.drop_last(), key));
        lemma_table_view_get(s.drop_last(), key);
        lemma_table_view_dom(s.drop_last(), key);
        assert forall|i: int| 0 <= i < s.len() implies table_view(s, key)[key(#[trigger] s[i])]
            == s[i] by {
            if i < s.len() - 1 {
                assert(key(s[i]) != key(s[s.len() - 1]));
                assert(s.drop_last()[i] == s[i]);
            }
        }
    }
}

/// Replacing the row at `i` by a row with the same key updates the view at
/// that key and nothing else.
pub proof fn lemma_table_view_update<T, K>(s: Seq<T>, key: spec_fn(T) -> K, i: int, t: T)
    requires
        distinct_keys(s, key),
        0 <= i < s.len(),
        key(t) == key(s[i]),
    ensures
        table_view(s.update(i, t), key) == table_view(s, key).insert(key(t), t),
    decreases s.len(),
{
    let s2 = s.update(i, t);
    if i == s.len() - 1 {
        assert(s2.drop_last() =~= s.drop_last());
        assert(s2.last() == t);
    } else {
        assert(distinct_keys(s.drop_last(), key));
        lemma_table_view_update(s.drop_last(), key, i, t);
        assert(s2.drop_last() =~= s.drop_last().update(i, t));
        assert(s2.last() == s.last());
        assert(key(s[i]) != key(s[s.len() - 1]));
        assert(table_view(s2, key) == table_view(s.drop_last(), key).insert(key(t), t).insert(
            key(s.last()),
            s.last(),
        ));
        assert(table_view(s.drop_last(), key).insert(key(t), t).insert(key(s.last()), s.last())
            =~= table_view(s.drop_last(), key).insert(key(s.last()), s.last()).insert(key(t), t));
    }
}

/// Appending a row inserts its key into the view.
pub proof fn lemma_table_view_push<T, K>(s: Seq<T>, key: spec_fn(T) -> K, t: T)
    ensures
        table_view(s.push(t), key) == table_view(s, key).insert(key(t), t),
{
    assert(s.push(t).drop_last() =~= s);
    assert(s.push(t).last() == t);
}

} // verus!
