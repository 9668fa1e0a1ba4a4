//! The ordered chapter maps (`indexmap::IndexMap<u32, String>`) that link
//! collection produces and chapter extraction fills, seen through what they
//! hold: their entries in insertion order.

use indexmap::IndexMap;
use vstd::prelude::*;

verus! {

#[verifier::external_type_specification]
#[verifier::external_body]
#[verifier::reject_recursive_types(K)]
#[verifier::reject_recursive_types(V)]
#[verifier::reject_recursive_types(S)]
pub struct ExIndexMap<K, V, S>(IndexMap<K, V, S>);

/// The entries of a chapter map, in the map's order.
pub uninterp spec fn chapter_entries(m: IndexMap<u32, String>) -> Seq<(u32, Seq<char>)>;

/// `i` is the first position of key `k` among `entries`.
pub open spec fn key_slot(entries: Seq<(u32, Seq<char>)>, k: u32, i: int) -> bool {
    &&& 0 <= i < entries.len()
    &&& entries[i].0 == k
    &&& forall|j: int| 0 <= j < i ==> entries[j].0 != k
}

/// Some entry has key `k`.
pub open spec fn has_key(entries: Seq<(u32, Seq<char>)>, k: u32) -> bool {
    exists|i: int| key_slot(entries, k, i)
}

/// The entries after inserting `(k, v)`: an entry with key `k` keeps its
/// place and takes the new value; otherwise the pair goes last.
pub open spec fn inserted(entries: Seq<(u32, Seq<char>)>, k: u32, v: Seq<char>) -> Seq<
    (u32, Seq<char>),
> {
    if has_key(entries, k) {
        entries.update(choose|i: int| key_slot(entries, k, i), (k, v))
    } else {
        entries.push((k, v))
    }
}

/// No key occurs twice.
pub open spec fn keys_distinct(entries: Seq<(u32, Seq<char>)>) -> bool {
    forall|i: int, j: int|
        0 <= i < entries.len() && 0 <= j < entries.len() && i != j ==> entries[i].0 != entries[j].0
}

/// The keys of the entries, in order.
pub open spec fn entry_keys(entries: Seq<(u32, Seq<char>)>) -> Seq<u32> {
    entries.map_values(|e: (u32, Seq<char>)| e.0)
}

/// The values of the entries, in order.
pub open spec fn entry_values(entries: Seq<(u32, Seq<char>)>) -> Seq<Seq<char>> {
    entries.map_values(|e: (u32, Seq<char>)| e.1)
}

/// `IndexMap::new`: an empty map.
#[verifier::external_body]
pub(crate) fn chapter_map_new() -> (m: IndexMap<u32, String>)
    ensures
        chapter_entries(m) == Seq::<(u32, Seq<char>)>::empty(),
{
    IndexMap::new()
}

/// `IndexMap::insert`: an existing key keeps its place and gets the new
/// value, the old one being returned; a new key goes last and `None` is
/// returned.
#[verifier::external_body]
pub(crate) fn chapter_map_insert(m: &mut IndexMap<u32, String>, k: u32, v: String) -> (r: Option<
    String,
>)
    ensures
        chapter_entries(*final(m)) == inserted(chapter_entries(*old(m)), k, v@),
        r is Some <==> has_key(chapter_entries(*old(m)), k),
        r matches Some(prev) ==> prev@ == chapter_entries(*old(m))[choose|i: int|
            key_slot(chapter_entries(*old(m)), k, i)].1,
{
    m.insert(k, v)
}

/// `IndexMap::len`: the number of entries.
#[verifier::external_body]
pub(crate) fn chapter_map_len(m: &IndexMap<u32, String>) -> (n: usize)
    ensures
        n == chapter_entries(*m).len(),
{
    m.len()
}

/// `IndexMap::get_index`: the entry at position `i`, copied out.
#[verifier::external_body]
pub(crate) fn chapter_map_entry(m: &IndexMap<u32, String>, i: usize) -> (r: Option<(u32, String)>)
    ensures
        i < chapter_entries(*m).len() <==> r is Some,
        r matches Some(e) ==> e.0 == chapter_entries(*m)[i as int].0 && e.1@ == chapter_entries(
            *m,
        )[i as int].1,
{
    m.get_index(i).map(|(k, v)| (*k, v.clone()))
}

/// Inserting into entries with distinct keys keeps them distinct.
pub proof fn lemma_inserted_keeps_keys_distinct(entries: Seq<(u32, Seq<char>)>, k: u32, v: Seq<char>)
    requires
        keys_distinct(entries),
    ensures
        keys_distinct(inserted(entries, k, v)),
{
    if has_key(entries, k) {
        let i = choose|i: int| key_slot(entries, k, i);
        assert(key_slot(entries, k, i));
        let after = inserted(entries, k, v);
        assert forall|a: int, b: int|
            0 <= a < after.len() && 0 <= b < after.len() && a != b implies after[a].0
            != after[b].0 by {
            if a != i && b != i {
                assert(entries[a].0 != entries[b].0);
            } else if a == i {
                assert(entries[b].0 != entries[i].0);
            } else {
                assert(entries[a].0 != entries[i].0);
            }
        }
    } else {
        assert forall|j: int| 0 <= j < entries.len() implies entries[j].0 != k by {
            if entries[j].0 == k {
                assert(key_slot(entries, k, j));
            }
        }
    }
}

} // verus!
