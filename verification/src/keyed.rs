//! Lists of entries that are read as maps: each entry has a key, and no two
//! entries of a list share one.

use vstd::prelude::*;

verus! {

/// No two of `entries` have the same key.
pub open spec fn distinct<E, K>(entries: Seq<E>, key: spec_fn(E) -> K) -> bool {
    forall|i: int, j: int|
        #![trigger entries[i], entries[j]]
        0 <= i < j < entries.len() ==> key(entries[i]) != key(entries[j])
}

/// Whether one of `entries` has the key `k`.
pub open spec fn holds<E, K>(entries: Seq<E>, key: spec_fn(E) -> K, k: K) -> bool {
    exists|i: int| 0 <= i < entries.len() && key(#[trigger] entries[i]) == k
}

/// The place of an entry with the key `k` among `entries`.
pub open spec fn place_of<E, K>(entries: Seq<E>, key: spec_fn(E) -> K, k: K) -> int {
    choose|i: int| 0 <= i < entries.len() && key(#[trigger] entries[i]) == k
}

/// The map from the key of each of `entries` to its value.
pub open spec fn as_map<E, K, V>(
    entries: Seq<E>,
    key: spec_fn(E) -> K,
    value: spec_fn(E) -> V,
) -> Map<K, V> {
    Map::new(|k: K| holds(entries, key, k), |k: K| value(entries[place_of(entries, key, k)]))
}

/// Among entries with distinct keys, the place of a key is the only place
/// where it stands.
pub proof fn lemma_place<E, K, V>(
    entries: Seq<E>,
    key: spec_fn(E) -> K,
    value: spec_fn(E) -> V,
    i: int,
)
    requires
        distinct(entries, key),
        0 <= i < entries.len(),
    ensures
        holds(entries, key, key(entries[i])),
        place_of(entries, key, key(entries[i])) == i,
        as_map(entries, key, value).contains_key(key(entries[i])),
        as_map(entries, key, value)[key(entries[i])] == value(entries[i]),
{
    let p = place_of(entries, key, key(entries[i]));
    if p < i {
        assert(key(entries[p]) != key(entries[i]));
    } else if i < p {
        assert(key(entries[i]) != key(entries[p]));
    }
}

/// The empty list is the empty map.
pub proof fn lemma_empty<E, K, V>(key: spec_fn(E) -> K, value: spec_fn(E) -> V)
    ensures
        distinct(Seq::<E>::empty(), key),
        as_map(Seq::<E>::empty(), key, value) == Map::<K, V>::empty(),
{
    assert(as_map(Seq::<E>::empty(), key, value) =~= Map::<K, V>::empty());
}

/// An entry with a key that no entry has yet, added at the end.
pub proof fn lemma_pushed<E, K, V>(
    entries: Seq<E>,
    key: spec_fn(E) -> K,
    value: spec_fn(E) -> V,
    entry: E,
)
    requires
        distinct(entries, key),
        !holds(entries, key, key(entry)),
    ensures
        distinct(entries.push(entry), key),
        as_map(entries.push(entry), key, value) == as_map(entries, key, value).insert(
            key(entry),
            value(entry),
        ),
{
    let after = entries.push(entry);
    assert forall|i: int, j: int|
        #![trigger after[i], after[j]]
        0 <= i < j < after.len() implies key(after[i]) != key(after[j]) by {
        if j == entries.len() {
            assert(key(entries[i]) != key(entry));
        } else {
            assert(key(entries[i]) != key(entries[j]));
        }
    }
    assert forall|k: K| holds(after, key, k) <==> (k == key(entry) || holds(entries, key, k)) by {
        if holds(entries, key, k) {
            let i = place_of(entries, key, k);
            assert(key(after[i]) == k);
        }
        if k == key(entry) {
            assert(key(after[entries.len() as int]) == k);
        }
        if holds(after, key, k) {
            let i = place_of(after, key, k);
            if i < entries.len() {
                assert(key(entries[i]) == k);
            }
        }
    }
    assert forall|k: K| holds(after, key, k) implies as_map(after, key, value)[k] == as_map(
        entries,
        key,
        value,
    ).insert(key(entry), value(entry))[k] by {
        let i = place_of(after, key, k);
        lemma_place(after, key, value, i);
        if i < entries.len() {
            assert(key(entries[i]) == k);
            lemma_place(entries, key, value, i);
        }
    }
    assert(as_map(after, key, value) =~= as_map(entries, key, value).insert(
        key(entry),
        value(entry),
    ));
}

/// An entry put in the place of one with the same key.
pub proof fn lemma_replaced<E, K, V>(
    entries: Seq<E>,
    key: spec_fn(E) -> K,
    value: spec_fn(E) -> V,
    at: int,
    entry: E,
)
    requires
        distinct(entries, key),
        0 <= at < entries.len(),
        key(entries[at]) == key(entry),
    ensures
        distinct(entries.update(at, entry), key),
        as_map(entries.update(at, entry), key, value) == as_map(entries, key, value).insert(
            key(entry),
            value(entry),
        ),
{
    let after = entries.update(at, entry);
    assert forall|i: int, j: int|
        #![trigger after[i], after[j]]
        0 <= i < j < after.len() implies key(after[i]) != key(after[j]) by {
        assert(key(entries[i]) != key(entries[j]));
    }
    assert forall|k: K| holds(after, key, k) <==> holds(entries, key, k) by {
        if holds(entries, key, k) {
            let i = place_of(entries, key, k);
            assert(key(after[i]) == k);
        }
        if holds(after, key, k) {
            let i = place_of(after, key, k);
            assert(key(entries[i]) == k);
        }
    }
    assert(holds(entries, key, key(entry))) by {
        assert(key(entries[at]) == key(entry));
    }
    assert forall|k: K| holds(after, key, k) implies as_map(after, key, value)[k] == as_map(
        entries,
        key,
        value,
    ).insert(key(entry), value(entry))[k] by {
        let i = place_of(after, key, k);
        lemma_place(after, key, value, i);
        assert(key(entries[i]) == k);
        lemma_place(entries, key, value, i);
    }
    assert(as_map(after, key, value) =~= as_map(entries, key, value).insert(
        key(entry),
        value(entry),
    ));
}

/// An entry taken out.
pub proof fn lemma_removed<E, K, V>(
    entries: Seq<E>,
    key: spec_fn(E) -> K,
    value: spec_fn(E) -> V,
    at: int,
)
    requires
        distinct(entries, key),
        0 <= at < entries.len(),
    ensures
        distinct(entries.remove(at), key),
        as_map(entries.remove(at), key, value) == as_map(entries, key, value).remove(
            key(entries[at]),
        ),
{
    let after = entries.remove(at);
    let gone = key(entries[at]);
    assert forall|i: int, j: int|
        #![trigger after[i], after[j]]
        0 <= i < j < after.len() implies key(after[i]) != key(after[j]) by {
        let a = if i < at { i } else { i + 1 };
        let b = if j < at { j } else { j + 1 };
        assert(key(entries[a]) != key(entries[b]));
    }
    assert forall|k: K| holds(after, key, k) <==> (k != gone && holds(entries, key, k)) by {
        if holds(entries, key, k) && k != gone {
            let i = place_of(entries, key, k);
            let a = if i < at { i } else { i - 1 };
            assert(key(after[a]) == k);
        }
        if holds(after, key, k) {
            let i = place_of(after, key, k);
            let a = if i < at { i } else { i + 1 };
            assert(key(entries[a]) == k);
            if a < at {
                assert(key(entries[a]) != key(entries[at]));
            } else {
                assert(key(entries[at]) != key(entries[a]));
            }
        }
    }
    assert forall|k: K| holds(after, key, k) implies as_map(after, key, value)[k] == as_map(
        entries,
        key,
        value,
    ).remove(gone)[k] by {
        let i = place_of(after, key, k);
        lemma_place(after, key, value, i);
        let a = if i < at { i } else { i + 1 };
        assert(key(entries[a]) == k);
        lemma_place(entries, key, value, a);
    }
    assert(as_map(after, key, value) =~= as_map(entries, key, value).remove(gone));
}

/// The entries but the last have distinct keys too, and none of them has the
/// key of the last.
pub proof fn lemma_front<E, K>(entries: Seq<E>, key: spec_fn(E) -> K)
    requires
        distinct(entries, key),
        entries.len() > 0,
    ensures
        distinct(entries.drop_last(), key),
        !holds(entries.drop_last(), key, key(entries.last())),
{
    let front = entries.drop_last();
    assert forall|i: int, j: int|
        #![trigger front[i], front[j]]
        0 <= i < j < front.len() implies key(front[i]) != key(front[j]) by {
        assert(key(entries[i]) != key(entries[j]));
    }
    if holds(front, key, key(entries.last())) {
        let i = place_of(front, key, key(entries.last()));
        assert(key(entries[i]) != key(entries[entries.len() - 1]));
    }
}

} // verus!
