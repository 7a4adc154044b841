//! Trusted declarations for the bidirectional hash map of the bimap
//! crate, which backs the custom mode of the label registry.  The pairs a
//! map holds are modelled as a `Map` from the hash's backing word to the
//! label's characters; each wrapper states over that model what the
//! crate's source shows of the method it calls.

use vstd::prelude::*;

use crate::hash::Hash40;

verus! {

/// Relies on bimap::BiHashMap: declared so values of it can appear in
/// fields and signatures; the crate reads it only through the wrappers
/// below.
#[verifier::external_type_specification]
#[verifier::external_body]
#[verifier::reject_recursive_types(L)]
#[verifier::reject_recursive_types(R)]
#[verifier::reject_recursive_types(LS)]
#[verifier::reject_recursive_types(RS)]
pub struct ExBiHashMap<L, R, LS, RS>(bimap::BiHashMap<L, R, LS, RS>);

/// The pairs a hash-to-label bimap holds: a map from the hash's backing
/// word to the label's characters.
pub uninterp spec fn bimap_entries(m: bimap::BiHashMap<Hash40, String>) -> Map<u64, Seq<char>>;

/// What inserting a pair does to the held pairs: any pair sharing the
/// key, and any pair sharing the label text, is removed, then the new
/// pair is added.
pub open spec fn spec_bimap_insert(m: Map<u64, Seq<char>>, k: u64, v: Seq<char>) -> Map<
    u64,
    Seq<char>,
> {
    Map::new(
        |x: u64| x == k || (m.dom().contains(x) && m[x] != v),
        |x: u64| if x == k { v } else { m[x] },
    )
}

/// The model of a map that holds no pairs.
pub open spec fn empty_entries() -> Map<u64, Seq<char>> {
    Map::empty()
}

/// Relies on bimap::BiHashMap::new: creates a map holding no pairs.
#[verifier::external_body]
pub(crate) fn bimap_new() -> (r: bimap::BiHashMap<Hash40, String>)
    ensures
        bimap_entries(r) == empty_entries(),
{
    bimap::BiHashMap::new()
}

/// Relies on bimap::BiHashMap::insert: removes any pair sharing either
/// side, then inserts the given pair.
#[verifier::external_body]
pub(crate) fn bimap_insert(m: &mut bimap::BiHashMap<Hash40, String>, hash: Hash40, label: String)
    ensures
        bimap_entries(*final(m)) == spec_bimap_insert(bimap_entries(*old(m)), hash.0, label@),
{
    m.insert(hash, label);
}

/// Relies on bimap::BiHashMap::get_by_left: returns the label paired with
/// the given hash, if any pair has it as its left value.
#[verifier::external_body]
pub(crate) fn bimap_get_by_left(m: &bimap::BiHashMap<Hash40, String>, hash: &Hash40) -> (r: Option<
    String,
>)
    ensures
        match r {
            Some(s) => bimap_entries(*m).dom().contains(hash.0) && s@ == bimap_entries(*m)[hash.0],
            None => !bimap_entries(*m).dom().contains(hash.0),
        },
{
    m.get_by_left(hash).cloned()
}

/// Relies on bimap::BiHashMap::get_by_right: returns the hash paired with
/// the given label text, if any pair has it as its right value.
#[verifier::external_body]
pub(crate) fn bimap_get_by_right(m: &bimap::BiHashMap<Hash40, String>, label: &str) -> (r: Option<
    Hash40,
>)
    ensures
        match r {
            Some(h) => bimap_entries(*m).dom().contains(h.0) && bimap_entries(*m)[h.0] == label@,
            None => forall|k: u64|
                bimap_entries(*m).dom().contains(k) ==> bimap_entries(*m)[k] != label@,
        },
{
    m.get_by_right(label).copied()
}

/// Relies on bimap::BiHashMap::clear: removes every pair.
#[verifier::external_body]
pub(crate) fn bimap_clear(m: &mut bimap::BiHashMap<Hash40, String>)
    ensures
        bimap_entries(*final(m)) == empty_entries(),
{
    m.clear();
}

} // verus!
