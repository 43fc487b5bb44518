use vstd::prelude::*;

verus! {

/// First-match lookup in an association list with string keys, compared by
/// their character sequences.
pub open spec fn lookup_str<V>(m: Seq<(String, V)>, key: Seq<char>) -> Option<V>
    decreases m.len(),
{
    if m.len() == 0 {
        None
    } else if m[0].0@ == key {
        Some(m[0].1)
    } else {
        lookup_str(m.drop_first(), key)
    }
}

/// First-match lookup in an association list with integer keys.
pub open spec fn lookup_u128<V>(m: Seq<(u128, V)>, key: u128) -> Option<V>
    decreases m.len(),
{
    if m.len() == 0 {
        None
    } else if m[0].0 == key {
        Some(m[0].1)
    } else {
        lookup_u128(m.drop_first(), key)
    }
}

/// A scan that found no string key among the first `i` entries may as well
/// start at entry `i`.
pub proof fn lemma_lookup_str_skip<V>(m: Seq<(String, V)>, key: Seq<char>, i: int)
    requires
        0 <= i <= m.len(),
        forall|j: int| 0 <= j < i ==> m[j].0@ != key,
    ensures
        lookup_str(m, key) == lookup_str(m.skip(i), key),
    decreases i,
{
    if i > 0 {
        assert(m.drop_first() =~= m.skip(1));
        lemma_lookup_str_skip(m.skip(1), key, i - 1);
        assert(m.skip(1).skip(i - 1) =~= m.skip(i));
    } else {
        assert(m.skip(0) =~= m);
    }
}

/// A scan that found no integer key among the first `i` entries may as well
/// start at entry `i`.
pub proof fn lemma_lookup_u128_skip<V>(m: Seq<(u128, V)>, key: u128, i: int)
    requires
        0 <= i <= m.len(),
        forall|j: int| 0 <= j < i ==> m[j].0 != key,
    ensures
        lookup_u128(m, key) == lookup_u128(m.skip(i), key),
    decreases i,
{
    if i > 0 {
        assert(m.drop_first() =~= m.skip(1));
        lemma_lookup_u128_skip(m.skip(1), key, i - 1);
        assert(m.skip(1).skip(i - 1) =~= m.skip(i));
    } else {
        assert(m.skip(0) =~= m);
    }
}

/// A successful integer-key lookup is answered by an entry of the list.
pub proof fn lemma_lookup_u128_some<V>(m: Seq<(u128, V)>, key: u128, v: V)
    requires
        lookup_u128(m, key) == Some(v),
    ensures
        exists|i: int| 0 <= i < m.len() && #[trigger] m[i] == (key, v),
    decreases m.len(),
{
    if m.len() == 0 {
    } else if m[0].0 == key {
        assert(m[0] == (key, v));
    } else {
        lemma_lookup_u128_some(m.drop_first(), key, v);
        let i = choose|i: int| 0 <= i < m.drop_first().len() && #[trigger] m.drop_first()[i] == (
            key,
            v,
        );
        assert(m[i + 1] == (key, v));
    }
}

/// Appending an entry leaves every present string key at its old value, and
/// gives the appended key its value where it was absent.
pub proof fn lemma_lookup_str_push<V>(m: Seq<(String, V)>, k: String, v: V)
    ensures
        forall|key: Seq<char>| #[trigger] lookup_str(m.push((k, v)), key) == (if lookup_str(
            m,
            key,
        ) is Some {
            lookup_str(m, key)
        } else if k@ == key {
            Some(v)
        } else {
            None::<V>
        }),
    decreases m.len(),
{
    if m.len() == 0 {
        assert forall|key: Seq<char>| #[trigger] lookup_str(m.push((k, v)), key) == (if lookup_str(
            m,
            key,
        ) is Some {
            lookup_str(m, key)
        } else if k@ == key {
            Some(v)
        } else {
            None::<V>
        }) by {
            assert(m.push((k, v)).drop_first() =~= Seq::<(String, V)>::empty());
            assert(m.push((k, v))[0] == (k, v));
            assert(lookup_str(m.push((k, v)).drop_first(), key) == None::<V>);
            assert(lookup_str(m, key) == None::<V>);
        }
    } else {
        lemma_lookup_str_push(m.drop_first(), k, v);
        assert forall|key: Seq<char>| #[trigger] lookup_str(m.push((k, v)), key) == (if lookup_str(
            m,
            key,
        ) is Some {
            lookup_str(m, key)
        } else if k@ == key {
            Some(v)
        } else {
            None::<V>
        }) by {
            assert(m.push((k, v))[0] == m[0]);
            assert(m.push((k, v)).drop_first() =~= m.drop_first().push((k, v)));
            assert(lookup_str(m.drop_first().push((k, v)), key) == (if lookup_str(
                m.drop_first(),
                key,
            ) is Some {
                lookup_str(m.drop_first(), key)
            } else if k@ == key {
                Some(v)
            } else {
                None::<V>
            }));
        }
    }
}

/// Appending an entry leaves every present integer key at its old value, and
/// gives the appended key its value where it was absent.
pub proof fn lemma_lookup_u128_push<V>(m: Seq<(u128, V)>, k: u128, v: V)
    ensures
        forall|key: u128| #[trigger] lookup_u128(m.push((k, v)), key) == (if lookup_u128(
            m,
            key,
        ) is Some {
            lookup_u128(m, key)
        } else if k == key {
            Some(v)
        } else {
            None::<V>
        }),
    decreases m.len(),
{
    if m.len() == 0 {
        assert forall|key: u128| #[trigger] lookup_u128(m.push((k, v)), key) == (if lookup_u128(
            m,
            key,
        ) is Some {
            lookup_u128(m, key)
        } else if k == key {
            Some(v)
        } else {
            None::<V>
        }) by {
            assert(m.push((k, v)).drop_first() =~= Seq::<(u128, V)>::empty());
            assert(m.push((k, v))[0] == (k, v));
            assert(lookup_u128(m.push((k, v)).drop_first(), key) == None::<V>);
            assert(lookup_u128(m, key) == None::<V>);
        }
    } else {
        lemma_lookup_u128_push(m.drop_first(), k, v);
        assert forall|key: u128| #[trigger] lookup_u128(m.push((k, v)), key) == (if lookup_u128(
            m,
            key,
        ) is Some {
            lookup_u128(m, key)
        } else if k == key {
            Some(v)
        } else {
            None::<V>
        }) by {
            assert(m.push((k, v))[0] == m[0]);
            assert(m.push((k, v)).drop_first() =~= m.drop_first().push((k, v)));
            assert(lookup_u128(m.drop_first().push((k, v)), key) == (if lookup_u128(
                m.drop_first(),
                key,
            ) is Some {
                lookup_u128(m.drop_first(), key)
            } else if k == key {
                Some(v)
            } else {
                None::<V>
            }));
        }
    }
}

} // verus!
