//! A table with text keys, held as a list of distinct keys beside the
//! list of their values, and read as a map.

use vstd::prelude::*;

verus! {

pub type Key = Seq<char>;

/// The position of a key in a list of keys, if it is there.
pub open spec fn position(keys: Seq<Key>, k: Key) -> Option<int> {
    if exists|i: int| 0 <= i < keys.len() && keys[i] == k {
        Some(choose|i: int| 0 <= i < keys.len() && keys[i] == k)
    } else {
        None
    }
}

/// The map from each key to the value at its position.
pub open spec fn table<V>(keys: Seq<Key>, values: Seq<V>) -> Map<Key, V> {
    Map::new(|k: Key| position(keys, k) is Some, |k: Key| values[position(keys, k).unwrap()])
}

/// In a list of distinct keys, a key stands at one position only.
pub proof fn lemma_position(keys: Seq<Key>, i: int)
    requires
        keys.no_duplicates(),
        0 <= i < keys.len(),
    ensures
        position(keys, keys[i]) == Some(i),
{
}

pub proof fn lemma_table_push<V>(keys: Seq<Key>, values: Seq<V>, k: Key, v: V)
    requires
        keys.no_duplicates(),
        keys.len() == values.len(),
        position(keys, k) is None,
    ensures
        keys.push(k).no_duplicates(),
        table(keys.push(k), values.push(v)) == table(keys, values).insert(k, v),
{
    let keys2 = keys.push(k);
    let values2 = values.push(v);
    assert(keys2.no_duplicates()) by {
        assert forall|i: int, j: int|
            0 <= i < keys2.len() && 0 <= j < keys2.len() && i != j implies keys2[i] != keys2[j] by {
            if i < keys.len() && j < keys.len() {
            } else if i < keys.len() {
                assert(keys[i] != k);
            } else {
                assert(keys[j] != k);
            }
        }
    }
    assert forall|x: Key| #[trigger]
        table(keys2, values2).dom().contains(x) == table(keys, values).insert(
            k,
            v,
        ).dom().contains(x) by {
        if x == k {
            assert(keys2[keys.len() as int] == k);
        } else if position(keys, x) is Some {
            let i = position(keys, x).unwrap();
            assert(keys2[i] == x);
        } else if position(keys2, x) is Some {
            let i = position(keys2, x).unwrap();
            assert(keys[i] == x);
        }
    }
    assert forall|x: Key| #[trigger] table(keys2, values2).dom().contains(x) implies table(
        keys2,
        values2,
    )[x] == table(keys, values).insert(k, v)[x] by {
        let i = position(keys2, x).unwrap();
        lemma_position(keys2, i);
        if x == k {
            lemma_position(keys2, keys.len() as int);
        } else {
            assert(keys[i] == x);
            lemma_position(keys, i);
        }
    }
    assert(table(keys2, values2) =~= table(keys, values).insert(k, v));
}

pub proof fn lemma_table_update<V>(keys: Seq<Key>, values: Seq<V>, i: int, v: V)
    requires
        keys.no_duplicates(),
        keys.len() == values.len(),
        0 <= i < keys.len(),
    ensures
        table(keys, values.update(i, v)) == table(keys, values).insert(keys[i], v),
{
    assert forall|x: Key| #[trigger] table(keys, values.update(i, v)).dom().contains(x) implies table(
        keys,
        values.update(i, v),
    )[x] == table(keys, values).insert(keys[i], v)[x] by {
        let j = position(keys, x).unwrap();
        lemma_position(keys, j);
        lemma_position(keys, i);
    }
    assert(table(keys, values.update(i, v)) =~= table(keys, values).insert(keys[i], v));
}

pub proof fn lemma_table_remove<V>(keys: Seq<Key>, values: Seq<V>, i: int)
    requires
        keys.no_duplicates(),
        keys.len() == values.len(),
        0 <= i < keys.len(),
    ensures
        keys.remove(i).no_duplicates(),
        table(keys.remove(i), values.remove(i)) == table(keys, values).remove(keys[i]),
{
    let keys2 = keys.remove(i);
    let values2 = values.remove(i);
    assert(keys2.no_duplicates()) by {
        assert forall|a: int, b: int|
            0 <= a < keys2.len() && 0 <= b < keys2.len() && a != b implies keys2[a] != keys2[b] by {
            let a1 = if a < i {
                a
            } else {
                a + 1
            };
            let b1 = if b < i {
                b
            } else {
                b + 1
            };
            assert(keys2[a] == keys[a1] && keys2[b] == keys[b1]);
        }
    }
    assert forall|x: Key| #[trigger]
        table(keys2, values2).dom().contains(x) == table(keys, values).remove(
            keys[i],
        ).dom().contains(x) by {
        if position(keys2, x) is Some {
            let a = position(keys2, x).unwrap();
            let a1 = if a < i {
                a
            } else {
                a + 1
            };
            assert(keys[a1] == x);
        }
        if position(keys, x) is Some && x != keys[i] {
            let j = position(keys, x).unwrap();
            let j2 = if j < i {
                j
            } else {
                j - 1
            };
            assert(keys2[j2] == x);
        }
    }
    assert forall|x: Key| #[trigger] table(keys2, values2).dom().contains(x) implies table(
        keys2,
        values2,
    )[x] == table(keys, values).remove(keys[i])[x] by {
        let a = position(keys2, x).unwrap();
        let a1 = if a < i {
            a
        } else {
            a + 1
        };
        assert(keys[a1] == x);
        lemma_position(keys, a1);
        assert(values2[a] == values[a1]);
    }
    assert(table(keys2, values2) =~= table(keys, values).remove(keys[i]));
}

} // verus!
