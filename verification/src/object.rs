//! Objects as ordered mappings: what it means to set a key, and what the
//! object collected from a sequence of pairs holds.

use vstd::prelude::*;
use crate::document::{entries_view, Entry, Node, Tree};

verus! {

/// The keys of a list of entries, in the order of the entries.
pub open spec fn keys(entries: Seq<(Seq<char>, Tree)>) -> Seq<Seq<char>> {
    Seq::new(entries.len(), |i: int| entries[i].0)
}

/// No two entries have the same key.
pub open spec fn distinct_keys(entries: Seq<(Seq<char>, Tree)>) -> bool {
    forall|i: int, j: int|
        0 <= i < j < entries.len() ==> (#[trigger] entries[i]).0 != (#[trigger] entries[j]).0
}

/// Some entry has the given key.
pub open spec fn has_key(entries: Seq<(Seq<char>, Tree)>, key: Seq<char>) -> bool {
    exists|i: int| 0 <= i < entries.len() && (#[trigger] entries[i]).0 == key
}

/// The place of the first entry with the given key, where there is one.
pub open spec fn key_position(entries: Seq<(Seq<char>, Tree)>, key: Seq<char>) -> int {
    choose|i: int|
        0 <= i < entries.len() && (#[trigger] entries[i]).0 == key && forall|j: int|
            0 <= j < i ==> (#[trigger] entries[j]).0 != key
}

/// The value that the entries give to `key`, if they hold it.
pub open spec fn lookup(entries: Seq<(Seq<char>, Tree)>, key: Seq<char>) -> Option<Tree> {
    if has_key(entries, key) {
        Some(entries[key_position(entries, key)].1)
    } else {
        None
    }
}

/// The entries after `key` has been set to `value`: an entry that has the
/// key keeps its place and gets the new value; a new key goes to the end.
pub open spec fn put(entries: Seq<(Seq<char>, Tree)>, key: Seq<char>, value: Tree) -> Seq<
    (Seq<char>, Tree),
> {
    if has_key(entries, key) {
        entries.update(key_position(entries, key), (key, value))
    } else {
        entries.push((key, value))
    }
}

/// The entries of the object that results from setting each pair in turn,
/// starting from an object without entries.
pub open spec fn collect(pairs: Seq<(Seq<char>, Tree)>) -> Seq<(Seq<char>, Tree)>
    decreases pairs.len(),
{
    if pairs.len() == 0 {
        Seq::empty()
    } else {
        put(collect(pairs.drop_last()), pairs.last().0, pairs.last().1)
    }
}

/// A sequence of strings without its repetitions: of each string that
/// occurs, only the first occurrence stays.
pub open spec fn first_occurrences(names: Seq<Seq<char>>) -> Seq<Seq<char>>
    decreases names.len(),
{
    if names.len() == 0 {
        Seq::empty()
    } else if names.drop_last().contains(names.last()) {
        first_occurrences(names.drop_last())
    } else {
        first_occurrences(names.drop_last()).push(names.last())
    }
}

/// Where the key is held, its place is that of an entry with the key, and
/// no entry before it has the key.
pub proof fn lemma_key_position(entries: Seq<(Seq<char>, Tree)>, key: Seq<char>)
    requires
        has_key(entries, key),
    ensures
        0 <= key_position(entries, key) < entries.len(),
        entries[key_position(entries, key)].0 == key,
        forall|j: int| 0 <= j < key_position(entries, key) ==> (#[trigger] entries[j]).0 != key,
{
    let some = choose|i: int| 0 <= i < entries.len() && (#[trigger] entries[i]).0 == key;
    lemma_first_from(entries, key, some);
}

/// Below any entry with the key there is a first one.
proof fn lemma_first_from(entries: Seq<(Seq<char>, Tree)>, key: Seq<char>, at: int)
    requires
        0 <= at < entries.len(),
        entries[at].0 == key,
    ensures
        exists|i: int|
            0 <= i <= at && (#[trigger] entries[i]).0 == key && forall|j: int|
                0 <= j < i ==> (#[trigger] entries[j]).0 != key,
    decreases at,
{
    if exists|j: int| 0 <= j < at && (#[trigger] entries[j]).0 == key {
        let j = choose|j: int| 0 <= j < at && (#[trigger] entries[j]).0 == key;
        lemma_first_from(entries, key, j);
    }
}

/// Setting a key keeps the keys distinct. It leaves the keys as they are
/// where the key is held, and adds the key at the end where it is not.
pub proof fn lemma_put_keys(entries: Seq<(Seq<char>, Tree)>, key: Seq<char>, value: Tree)
    requires
        distinct_keys(entries),
    ensures
        distinct_keys(put(entries, key, value)),
        has_key(entries, key) ==> keys(put(entries, key, value)) == keys(entries),
        !has_key(entries, key) ==> keys(put(entries, key, value)) == keys(entries).push(key),
{
    let after = put(entries, key, value);
    assert forall|i: int, j: int| 0 <= i < j < after.len() implies (#[trigger] after[i]).0 != (
    #[trigger] after[j]).0 by {}
}

/// After a key has been set, it maps to the value it was set to, and every
/// other key maps to what it mapped to before.
pub proof fn lemma_put_lookup(
    entries: Seq<(Seq<char>, Tree)>,
    key: Seq<char>,
    value: Tree,
    other: Seq<char>,
)
    requires
        distinct_keys(entries),
    ensures
        lookup(put(entries, key, value), key) == Some(value),
        other != key ==> lookup(put(entries, key, value), other) == lookup(entries, other),
{
    let after = put(entries, key, value);
    if has_key(entries, key) {
        assert(after[key_position(entries, key)].0 == key);
    } else {
        lemma_distinct_position(after, key, entries.len() as int);
    }
    if other != key {
        if has_key(entries, other) {
            lemma_distinct_position(after, other, key_position(entries, other));
        } else {
            assert forall|i: int| 0 <= i < after.len() implies (#[trigger] after[i]).0
                != other by {}
        }
    }
}

/// An entry that has a key, with no entry before it that has the key, is
/// at the key's place.
pub proof fn lemma_distinct_first(entries: Seq<(Seq<char>, Tree)>, key: Seq<char>, at: int)
    requires
        0 <= at < entries.len(),
        entries[at].0 == key,
        forall|j: int| 0 <= j < at ==> (#[trigger] entries[j]).0 != key,
    ensures
        has_key(entries, key),
        key_position(entries, key) == at,
{
    let p = key_position(entries, key);
    assert(p == at);
}

/// With distinct keys, the one entry that has a key is at the key's place.
pub proof fn lemma_distinct_position(entries: Seq<(Seq<char>, Tree)>, key: Seq<char>, at: int)
    requires
        distinct_keys(entries),
        0 <= at < entries.len(),
        entries[at].0 == key,
    ensures
        has_key(entries, key),
        key_position(entries, key) == at,
{
    let p = key_position(entries, key);
    assert(p == at);
}

/// The first occurrences hold every string that occurs, each once, so they
/// are as many as there are distinct strings; a sequence without
/// repetitions is its own first occurrences.
pub proof fn lemma_first_occurrences(names: Seq<Seq<char>>)
    ensures
        first_occurrences(names).no_duplicates(),
        first_occurrences(names).to_set() == names.to_set(),
        first_occurrences(names).len() == names.to_set().len(),
        names.no_duplicates() ==> first_occurrences(names) == names,
    decreases names.len(),
{
    let firsts = first_occurrences(names);
    if names.len() > 0 {
        let rest = names.drop_last();
        let last = names.last();
        let before = first_occurrences(rest);
        lemma_first_occurrences(rest);
        assert forall|name: Seq<char>| names.contains(name) <==> (rest.contains(name) || name
            == last) by {
            if names.contains(name) {
                let i = choose|i: int| 0 <= i < names.len() && names[i] == name;
                if i < rest.len() {
                    assert(rest[i] == name);
                }
            }
        }
        assert(before.contains(last) <==> rest.contains(last)) by {
            assert(before.to_set().contains(last) <==> rest.to_set().contains(last));
        }
        if !rest.contains(last) {
            assert forall|name: Seq<char>| firsts.contains(name) <==> (before.contains(name)
                || name == last) by {
                if before.contains(name) {
                    let i = choose|i: int| 0 <= i < before.len() && before[i] == name;
                    assert(firsts[i] == name);
                }
                if name == last {
                    assert(firsts[firsts.len() - 1] == name);
                }
            }
            assert forall|name: Seq<char>| firsts.to_set().contains(name)
                <==> names.to_set().contains(name) by {
                assert(before.to_set().contains(name) <==> rest.to_set().contains(name));
            }
            assert(firsts.to_set() =~= names.to_set());
            assert forall|i: int, j: int|
                0 <= i < firsts.len() && 0 <= j < firsts.len() && i != j implies firsts[i]
                != firsts[j] by {}
        }
    }
    firsts.unique_seq_to_set();
}

/// What the collected object holds as keys: the keys of the pairs, each
/// once, in the order in which they first occur.
pub proof fn lemma_collect_keys(pairs: Seq<(Seq<char>, Tree)>)
    ensures
        distinct_keys(collect(pairs)),
        keys(collect(pairs)) == first_occurrences(keys(pairs)),
    decreases pairs.len(),
{
    if pairs.len() > 0 {
        let rest = pairs.drop_last();
        let key = pairs.last().0;
        let before = collect(rest);
        lemma_collect_keys(rest);
        lemma_put_keys(before, key, pairs.last().1);
        lemma_first_occurrences(keys(rest));
        assert(keys(pairs).drop_last() =~= keys(rest));
        lemma_has_key(before, key);
        assert(keys(before).to_set().contains(key) <==> keys(rest).to_set().contains(key));
    }
}

/// The entries hold a key exactly when it is among their keys.
pub proof fn lemma_has_key(entries: Seq<(Seq<char>, Tree)>, key: Seq<char>)
    ensures
        has_key(entries, key) <==> keys(entries).contains(key),
{
    if has_key(entries, key) {
        let i = choose|i: int| 0 <= i < entries.len() && (#[trigger] entries[i]).0 == key;
        assert(keys(entries)[i] == key);
    }
}

/// Of the pairs with one key the last one wins: the collected object maps
/// the key to the value of the last pair that has it.
pub proof fn lemma_collect_last_wins(pairs: Seq<(Seq<char>, Tree)>, at: int)
    requires
        0 <= at < pairs.len(),
        forall|j: int| at < j < pairs.len() ==> (#[trigger] pairs[j]).0 != pairs[at].0,
    ensures
        lookup(collect(pairs), pairs[at].0) == Some(pairs[at].1),
    decreases pairs.len(),
{
    let rest = pairs.drop_last();
    let before = collect(rest);
    lemma_collect_keys(rest);
    lemma_put_lookup(before, pairs.last().0, pairs.last().1, pairs[at].0);
    if at < pairs.len() - 1 {
        lemma_collect_last_wins(rest, at);
    }
}

/// Every entry of the collected object is one of the pairs.
pub proof fn lemma_collect_members(pairs: Seq<(Seq<char>, Tree)>)
    ensures
        forall|i: int|
            0 <= i < collect(pairs).len() ==> pairs.contains(#[trigger] collect(pairs)[i]),
    decreases pairs.len(),
{
    if pairs.len() > 0 {
        let rest = pairs.drop_last();
        let before = collect(rest);
        let after = collect(pairs);
        lemma_collect_members(rest);
        if has_key(before, pairs.last().0) {
            lemma_key_position(before, pairs.last().0);
        }
        assert forall|i: int| 0 <= i < after.len() implies pairs.contains(#[trigger] after[i]) by {
            if after[i] != pairs.last() {
                let j = choose|j: int| 0 <= j < rest.len() && rest[j] == before[i];
                assert(pairs[j] == after[i]);
            }
        }
    }
}

/// Pairs whose keys all differ are collected as they stand.
pub proof fn lemma_collect_distinct(pairs: Seq<(Seq<char>, Tree)>)
    requires
        distinct_keys(pairs),
    ensures
        collect(pairs) == pairs,
    decreases pairs.len(),
{
    if pairs.len() > 0 {
        let rest = pairs.drop_last();
        lemma_collect_distinct(rest);
        assert(!has_key(rest, pairs.last().0));
    }
}

/// Finds the first entry with the given key.
fn find_key(entries: &Vec<Entry>, key: &String) -> (found: Option<usize>)
    ensures
        match found {
            Some(i) => has_key(entries_view(*entries), key@) && i == key_position(
                entries_view(*entries),
                key@,
            ) && i < entries.len(),
            None => !has_key(entries_view(*entries), key@),
        },
{
    let ghost model = entries_view(*entries);
    let mut i: usize = 0;
    while i < entries.len()
        invariant
            i <= entries.len(),
            model == entries_view(*entries),
            forall|j: int| 0 <= j < i ==> (#[trigger] model[j]).0 != key@,
        decreases entries.len() - i,
    {
        if entries[i].key == *key {
            proof {
                lemma_distinct_first(model, key@, i as int);
            }
            return Some(i);
        }
        i += 1;
    }
    None
}

/// Sets `key` to `value` in a list of entries: an entry that has the key
/// keeps its place and gets the new value; a new key goes to the end.
pub fn set_entry(entries: &mut Vec<Entry>, key: String, value: Node)
    ensures
        entries_view(*final(entries)) == put(entries_view(*old(entries)), key@, value@),
{
    match find_key(entries, &key) {
        Some(i) => {
            entries.set(i, Entry { key, value });
        },
        None => {
            entries.push(Entry { key, value });
        },
    }
}

} // verus!
