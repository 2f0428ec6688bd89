//! Insertion-ordered sets and maps of strings.
//!
//! The collections are those of the `indexmap` crate. Verus cannot look
//! inside them, so their contents are named by two specification functions,
//! and every operation the library uses is declared here with what the
//! crate's documentation says of it.

use vstd::prelude::*;
use indexmap::IndexMap;
use indexmap::IndexSet;

verus! {

/// Names of the environments that are active.
pub type EnvSet = IndexSet<String>;

/// Recipe names, in the order in which they were first added.
pub type TargetSet = IndexSet<String>;

/// Variables, in the order in which they were first set.
pub type VarMap = IndexMap<String, String>;

/// For each recipe name, the directory of the file that declared it.
pub type SourceMap = IndexMap<String, String>;

/// `indexmap::IndexSet`, declared so that it can stand in signatures and
/// fields. Nothing inside it is visible to proofs.
#[verifier::external_type_specification]
#[verifier::external_body]
#[verifier::reject_recursive_types(T)]
#[verifier::reject_recursive_types(S)]
pub struct ExIndexSet<T, S>(IndexSet<T, S>);

/// `indexmap::IndexMap`, declared so that it can stand in signatures and
/// fields. Nothing inside it is visible to proofs.
#[verifier::external_type_specification]
#[verifier::external_body]
#[verifier::reject_recursive_types(K)]
#[verifier::reject_recursive_types(V)]
#[verifier::reject_recursive_types(S)]
pub struct ExIndexMap<K, V, S>(IndexMap<K, V, S>);

/// The items of a set, by position: the item that `get_index` gives for 0
/// first.
pub uninterp spec fn set_items(s: IndexSet<String>) -> Seq<Seq<char>>;

/// The key-value pairs of a map, by position: the pair that `get_index`
/// gives for 0 first.
pub uninterp spec fn map_entries(m: IndexMap<String, String>) -> Seq<(Seq<char>, Seq<char>)>;

/// The value stored under `key` in a list of pairs, if any.
pub open spec fn lookup(entries: Seq<(Seq<char>, Seq<char>)>, key: Seq<char>) -> Option<Seq<char>>
    decreases entries.len(),
{
    if entries.len() == 0 {
        None
    } else if entries[0].0 == key {
        Some(entries[0].1)
    } else {
        lookup(entries.drop_first(), key)
    }
}

/// The list of pairs after `key` is set to `value`: an existing key keeps its
/// place and takes the new value, a new key goes to the end.
pub open spec fn with_entry(
    entries: Seq<(Seq<char>, Seq<char>)>,
    key: Seq<char>,
    value: Seq<char>,
) -> Seq<(Seq<char>, Seq<char>)>
    decreases entries.len(),
{
    if entries.len() == 0 {
        seq![(key, value)]
    } else if entries[0].0 == key {
        seq![(key, value)] + entries.drop_first()
    } else {
        seq![entries[0]] + with_entry(entries.drop_first(), key, value)
    }
}

/// The list of items after `item` is added: a new item goes to the end, one
/// that is already there changes nothing.
pub open spec fn with_item(items: Seq<Seq<char>>, item: Seq<char>) -> Seq<Seq<char>> {
    if items.contains(item) {
        items
    } else {
        items.push(item)
    }
}

/// `IndexSet::new`: a set without items.
#[verifier::external_body]
pub(crate) fn set_new() -> (s: IndexSet<String>)
    ensures
        set_items(s) == Seq::<Seq<char>>::empty(),
{
    IndexSet::new()
}

/// `IndexSet::insert`: an item equal to one in the set leaves the set as it
/// was and gives `false`; any other item is added at the end and gives `true`.
#[verifier::external_body]
pub(crate) fn set_insert(s: &mut IndexSet<String>, item: String) -> (added: bool)
    ensures
        added == !set_items(*old(s)).contains(item@),
        set_items(*final(s)) == with_item(set_items(*old(s)), item@),
{
    s.insert(item)
}

/// `IndexSet::contains`: whether an equal item is in the set.
#[verifier::external_body]
pub(crate) fn set_contains(s: &IndexSet<String>, item: &str) -> (found: bool)
    ensures
        found == set_items(*s).contains(item@),
{
    s.contains(item)
}

/// `IndexSet::len`: the number of items.
#[verifier::external_body]
pub(crate) fn set_len(s: &IndexSet<String>) -> (n: usize)
    ensures
        n == set_items(*s).len(),
{
    s.len()
}

/// `IndexSet::get_index`: the item at a position in insertion order, `None`
/// past the end.
#[verifier::external_body]
pub(crate) fn set_at(s: &IndexSet<String>, index: usize) -> (item: Option<&String>)
    ensures
        match item {
            Some(x) => index < set_items(*s).len() && x@ == set_items(*s)[index as int],
            None => index >= set_items(*s).len(),
        },
{
    s.get_index(index)
}

/// `Clone::clone` of an `IndexSet`: the same items in the same order.
#[verifier::external_body]
pub(crate) fn set_clone(s: &IndexSet<String>) -> (copy: IndexSet<String>)
    ensures
        set_items(copy) == set_items(*s),
{
    s.clone()
}

/// `IndexMap::new`: a map without entries.
#[verifier::external_body]
pub(crate) fn map_new() -> (m: IndexMap<String, String>)
    ensures
        map_entries(m) == Seq::<(Seq<char>, Seq<char>)>::empty(),
{
    IndexMap::new()
}

/// `IndexMap::insert`: a key equal to one in the map keeps its place and
/// takes the new value; any other key is added at the end with its value.
#[verifier::external_body]
pub(crate) fn map_insert(m: &mut IndexMap<String, String>, key: String, value: String)
    ensures
        map_entries(*final(m)) == with_entry(map_entries(*old(m)), key@, value@),
{
    m.insert(key, value);
}

/// `IndexMap::get`: the value stored under an equal key, if there is one.
#[verifier::external_body]
pub(crate) fn map_get<'a>(m: &'a IndexMap<String, String>, key: &str) -> (value: Option<&'a String>)
    ensures
        match value {
            Some(v) => lookup(map_entries(*m), key@) == Some(v@),
            None => lookup(map_entries(*m), key@) is None,
        },
{
    m.get(key)
}

/// `IndexMap::len`: the number of entries.
#[verifier::external_body]
pub(crate) fn map_len(m: &IndexMap<String, String>) -> (n: usize)
    ensures
        n == map_entries(*m).len(),
{
    m.len()
}

/// `IndexMap::get_index`: the entry at a position in insertion order, `None`
/// past the end.
#[verifier::external_body]
pub(crate) fn map_at(m: &IndexMap<String, String>, index: usize) -> (entry: Option<(&String, &String)>)
    ensures
        match entry {
            Some(e) => index < map_entries(*m).len() && (e.0@, e.1@) == map_entries(*m)[index as int],
            None => index >= map_entries(*m).len(),
        },
{
    m.get_index(index)
}

/// `Clone::clone` of an `IndexMap`: the same entries in the same order.
#[verifier::external_body]
pub(crate) fn map_clone(m: &IndexMap<String, String>) -> (copy: IndexMap<String, String>)
    ensures
        map_entries(copy) == map_entries(*m),
{
    m.clone()
}

/// A key's value after an insertion: the inserted value for the inserted key,
/// the old value for every other key.
pub proof fn lemma_lookup_with_entry(
    entries: Seq<(Seq<char>, Seq<char>)>,
    key: Seq<char>,
    value: Seq<char>,
    other: Seq<char>,
)
    ensures
        lookup(with_entry(entries, key, value), other) == if other == key {
            Some(value)
        } else {
            lookup(entries, other)
        },
    decreases entries.len(),
{
    reveal_with_fuel(lookup, 2);
    let after = with_entry(entries, key, value);
    if entries.len() > 0 {
        if entries[0].0 == key {
            assert(after.drop_first() =~= entries.drop_first());
        } else {
            lemma_lookup_with_entry(entries.drop_first(), key, value, other);
            assert(after.drop_first() =~= with_entry(entries.drop_first(), key, value));
        }
    }
}

/// As a set, a list with an item added is the set of the list with that item
/// added.
pub proof fn lemma_with_item_set(items: Seq<Seq<char>>, item: Seq<char>)
    ensures
        with_item(items, item).to_set() == items.to_set().insert(item),
        with_item(items, item).contains(item),
        forall|x: Seq<char>| items.contains(x) ==> with_item(items, item).contains(x),
        forall|x: Seq<char>| with_item(items, item).contains(x) ==> x == item || items.contains(x),
{
    let after = with_item(items, item);
    if !items.contains(item) {
        assert(after[items.len() as int] == item);
        assert forall|x: Seq<char>| items.contains(x) implies after.contains(x) by {
            let i = choose|i: int| 0 <= i < items.len() && items[i] == x;
            assert(after[i] == x);
        }
    }
}

} // verus!
