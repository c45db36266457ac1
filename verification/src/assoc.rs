use vstd::prelude::*;

verus! {

/// Whether no key stands twice in the list.
pub open spec fn distinct_keys<K, V>(entries: Seq<(K, V)>) -> bool {
    forall|i: int, j: int|
        0 <= i < j < entries.len() ==> (#[trigger] entries[i]).0 != (#[trigger] entries[j]).0
}

/// Whether the list holds an entry under `key`.
pub open spec fn holds_key<K, V>(entries: Seq<(K, V)>, key: K) -> bool {
    exists|i: int| 0 <= i < entries.len() && (#[trigger] entries[i]).0 == key
}

/// Whether `i` is the place of the first entry under `key`.
pub open spec fn is_first_with_key<K, V>(entries: Seq<(K, V)>, key: K, i: int) -> bool {
    &&& 0 <= i < entries.len()
    &&& entries[i].0 == key
    &&& forall|j: int| 0 <= j < i ==> (#[trigger] entries[j]).0 != key
}

/// The place of the first entry under `key`; meaningful where there is one.
pub open spec fn first_with_key<K, V>(entries: Seq<(K, V)>, key: K) -> int {
    choose|i: int| is_first_with_key(entries, key, i)
}

/// The value under `key`, if the list holds one.
pub open spec fn value_of<K, V>(entries: Seq<(K, V)>, key: K) -> Option<V> {
    if holds_key(entries, key) {
        Some(entries[first_with_key(entries, key)].1)
    } else {
        None
    }
}

/// The list after `value` was put under `key`: in the place of the entry
/// that stood under `key` before, or at the end where there was none.
pub open spec fn put<K, V>(entries: Seq<(K, V)>, key: K, value: V) -> Seq<(K, V)> {
    if holds_key(entries, key) {
        entries.update(first_with_key(entries, key), (key, value))
    } else {
        entries.push((key, value))
    }
}

/// There is one first place under a key: a place that is first under
/// `key` is `first_with_key`, and the value there is the value of the key.
pub proof fn lemma_first_with_key<K, V>(entries: Seq<(K, V)>, key: K, i: int)
    requires
        is_first_with_key(entries, key, i),
    ensures
        holds_key(entries, key),
        first_with_key(entries, key) == i,
        value_of(entries, key) == Some(entries[i].1),
{
    let c = first_with_key(entries, key);
    assert(is_first_with_key(entries, key, c));
    if c < i {
        assert(entries[c].0 != key);
    }
    if i < c {
        assert(entries[i].0 != key);
    }
}

/// Where the list holds the key, there is a first entry under it.
pub proof fn lemma_holds_key_has_first<K, V>(entries: Seq<(K, V)>, key: K)
    requires
        holds_key(entries, key),
    ensures
        is_first_with_key(entries, key, first_with_key(entries, key)),
{
    let i = choose|i: int| 0 <= i < entries.len() && (#[trigger] entries[i]).0 == key;
    lemma_first_below(entries, key, i);
}

/// Below any entry under `key` stands a first one.
proof fn lemma_first_below<K, V>(entries: Seq<(K, V)>, key: K, i: int)
    requires
        0 <= i < entries.len(),
        entries[i].0 == key,
    ensures
        is_first_with_key(entries, key, first_with_key(entries, key)),
    decreases i,
{
    if forall|j: int| 0 <= j < i ==> (#[trigger] entries[j]).0 != key {
        assert(is_first_with_key(entries, key, i));
    } else {
        let j = choose|j: int| 0 <= j < i && (#[trigger] entries[j]).0 == key;
        lemma_first_below(entries, key, j);
    }
}

/// Putting a value under a key keeps the keys distinct, and the value is
/// then found under the key.
pub proof fn lemma_put<K, V>(entries: Seq<(K, V)>, key: K, value: V)
    requires
        distinct_keys(entries),
    ensures
        distinct_keys(put(entries, key, value)),
        value_of(put(entries, key, value), key) == Some(value),
        forall|other: K| other != key ==> value_of(put(entries, key, value), other) == value_of(entries, other),
{
    let after = put(entries, key, value);
    if holds_key(entries, key) {
        lemma_holds_key_has_first(entries, key);
        let i = first_with_key(entries, key);
        assert(is_first_with_key(after, key, i));
        lemma_first_with_key(after, key, i);
        assert forall|other: K| other != key implies value_of(after, other) == value_of(entries, other) by {
            if holds_key(entries, other) {
                lemma_holds_key_has_first(entries, other);
                let k = first_with_key(entries, other);
                assert(is_first_with_key(after, other, k)) by {
                    assert forall|j: int| 0 <= j < k implies (#[trigger] after[j]).0 != other by {
                        assert(entries[j].0 != other);
                    }
                }
                lemma_first_with_key(after, other, k);
            } else {
                if holds_key(after, other) {
                    let k = choose|k: int| 0 <= k < after.len() && (#[trigger] after[k]).0 == other;
                    assert(entries[k].0 == other);
                }
            }
        }
    } else {
        let n = entries.len() as int;
        assert(is_first_with_key(after, key, n)) by {
            assert forall|j: int| 0 <= j < n implies (#[trigger] after[j]).0 != key by {
                assert(entries[j].0 != key);
            }
        }
        lemma_first_with_key(after, key, n);
        assert forall|other: K| other != key implies value_of(after, other) == value_of(entries, other) by {
            if holds_key(entries, other) {
                lemma_holds_key_has_first(entries, other);
                let k = first_with_key(entries, other);
                assert(is_first_with_key(after, other, k)) by {
                    assert forall|j: int| 0 <= j < k implies (#[trigger] after[j]).0 != other by {
                        assert(entries[j].0 != other);
                    }
                }
                lemma_first_with_key(after, other, k);
            } else {
                if holds_key(after, other) {
                    let k = choose|k: int| 0 <= k < after.len() && (#[trigger] after[k]).0 == other;
                    assert(entries[k].0 == other);
                }
            }
        }
    }
}

/// A list that is keyed by texts, with each text as the sequence of its
/// characters.
pub open spec fn named_view<V>(entries: Seq<(String, V)>) -> Seq<(Seq<char>, V)> {
    Seq::new(entries.len(), |i: int| (entries[i].0@, entries[i].1))
}

/// The view of a list with one more entry is the view with one more entry.
pub proof fn lemma_named_view_push<V>(entries: Seq<(String, V)>, entry: (String, V))
    ensures
        named_view(entries.push(entry)) == named_view(entries).push((entry.0@, entry.1)),
{
    assert(named_view(entries.push(entry)) =~= named_view(entries).push((entry.0@, entry.1)));
}

/// Finds the first entry under `name`.
pub fn find_name<V>(entries: &Vec<(String, V)>, name: &String) -> (r: Option<usize>)
    ensures
        match r {
            Some(i) => is_first_with_key(named_view(entries@), name@, i as int),
            None => !holds_key(named_view(entries@), name@),
        },
{
    let mut i: usize = 0;
    while i < entries.len()
        invariant
            i <= entries.len(),
            forall|j: int| 0 <= j < i ==> (#[trigger] named_view(entries@)[j]).0 != name@,
        decreases entries.len() - i,
    {
        if entries[i].0 == *name {
            return Some(i);
        }
        i += 1;
    }
    None
}

/// Whether no name stands twice in the list.
pub fn names_distinct<V>(entries: &Vec<(String, V)>) -> (r: bool)
    ensures
        r == distinct_keys(named_view(entries@)),
{
    let ghost view = named_view(entries@);
    let mut j: usize = 0;
    while j < entries.len()
        invariant
            j <= entries.len(),
            view == named_view(entries@),
            forall|a: int, b: int| 0 <= a < b < j ==> (#[trigger] view[a]).0 != (#[trigger] view[b]).0,
        decreases entries.len() - j,
    {
        let mut i: usize = 0;
        while i < j
            invariant
                i <= j < entries.len(),
                view == named_view(entries@),
                forall|a: int| 0 <= a < i ==> (#[trigger] view[a]).0 != view[j as int].0,
            decreases j - i,
        {
            if entries[i].0 == entries[j].0 {
                assert(view[i as int].0 == view[j as int].0);
                return false;
            }
            i += 1;
        }
        j += 1;
    }
    true
}

/// In a list with distinct keys every entry is the one found under its
/// key.
pub proof fn lemma_value_of_entry<K, V>(entries: Seq<(K, V)>, i: int)
    requires
        distinct_keys(entries),
        0 <= i < entries.len(),
    ensures
        holds_key(entries, entries[i].0),
        value_of(entries, entries[i].0) == Some(entries[i].1),
{
    assert(is_first_with_key(entries, entries[i].0, i)) by {
        assert forall|j: int| 0 <= j < i implies (#[trigger] entries[j]).0 != entries[i].0 by {}
    }
    lemma_first_with_key(entries, entries[i].0, i);
}


} // verus!
