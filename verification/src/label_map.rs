//! The label registry: a map resolving hashes back to the labels they
//! were derived from.  It has three mutually exclusive modes.  `Unset`
//! knows no labels.  `Pure` is a one-directional map populated by hashing
//! known label strings.  `Custom` is a bidirectional map pairing hashes
//! and labels arbitrarily, so descriptive names can be attached to
//! hashes whose true label is unknown; in that mode an unknown label
//! fails reverse lookup instead of falling back to a freshly computed
//! hash.

use vstd::prelude::*;

use std::collections::HashMap;

use crate::bimap_spec::{
    bimap_clear, bimap_entries, bimap_get_by_left, bimap_get_by_right, bimap_insert, bimap_new,
    spec_bimap_insert,
};
use crate::errors::CustomLabelError;
use crate::hash::{spec_hash40, Hash40};
use crate::hex::{push_char, spec_from_hex_str};

verus! {

broadcast use vstd::std_specs::hash::group_hash_axioms;

use vstd::string::StrSliceExecFns;
use vstd::string::StringSliceAdditionalSpecFns;
use vstd::utf8::encode_utf8;

/// The index of the first comma of a character sequence, or its length
/// when it has none.
pub open spec fn first_comma(cs: Seq<char>) -> int
    decreases cs.len(),
{
    if cs.len() == 0 {
        0
    } else if cs[0] == ',' {
        0
    } else {
        1 + first_comma(cs.drop_first())
    }
}

/// What parsing one line of a custom-label file yields: the line splits
/// at its first comma into a hexadecimal hash and a label, or fails with
/// the missing-column error when it has no comma, or with the hash
/// text's parse error.
pub open spec fn spec_parse_line(cs: Seq<char>) -> Result<(u64, Seq<char>), CustomLabelError> {
    let j = first_comma(cs);
    if j == cs.len() {
        Err(CustomLabelError::MisingColumn)
    } else {
        match spec_from_hex_str(encode_utf8(cs.take(j))) {
            Ok(v) => Ok((v, cs.skip(j + 1))),
            Err(e) => Err(CustomLabelError::ParseHashError(e)),
        }
    }
}

/// No character before the first comma is a comma, and the character at
/// its index, if any, is one.
proof fn lemma_first_comma_facts(cs: Seq<char>)
    ensures
        0 <= first_comma(cs) <= cs.len(),
        forall|i: int| 0 <= i < first_comma(cs) ==> cs[i] != ',',
        first_comma(cs) < cs.len() ==> cs[first_comma(cs)] == ',',
    decreases cs.len(),
{
    if cs.len() > 0 && cs[0] != ',' {
        lemma_first_comma_facts(cs.drop_first());
        assert forall|i: int| 0 <= i < first_comma(cs) implies cs[i] != ',' by {
            if i >= 1 {
                assert(cs.drop_first()[i - 1] == cs[i]);
                assert(cs.drop_first()[i - 1] != ',');
            }
        }
        if first_comma(cs) < cs.len() {
            assert(cs.drop_first()[first_comma(cs.drop_first())] == cs[first_comma(cs)]);
        }
    }
}

/// The label registry.  Exactly one mode is active at a time; "set"
/// operations replace the whole map, "add" operations insert into the
/// current one, promoting `Unset` to a populated mode.
#[derive(Debug)]
pub enum LabelMap {
    /// No labels are known; every reverse lookup fails.
    Unset,
    /// A one-directional map from a hash's backing word to the label it
    /// was computed from.
    Pure(HashMap<u64, String>),
    /// A bidirectional map pairing hashes and labels arbitrarily.
    Custom(bimap::BiHashMap<Hash40, String>),
}

/// One insertion into the registry model: a plain map update, or the
/// both-sides overwrite of a bidirectional map.
pub open spec fn spec_insert_entry(
    m: Map<u64, Seq<char>>,
    k: u64,
    v: Seq<char>,
    bidir: bool,
) -> Map<u64, Seq<char>> {
    if bidir {
        spec_bimap_insert(m, k, v)
    } else {
        m.insert(k, v)
    }
}

/// The registry model after inserting each label under its own hash, in
/// order.
pub open spec fn spec_add_labels(
    m: Map<u64, Seq<char>>,
    labels: Seq<String>,
    bidir: bool,
) -> Map<u64, Seq<char>>
    decreases labels.len(),
{
    if labels.len() == 0 {
        m
    } else {
        spec_insert_entry(
            spec_add_labels(m, labels.drop_last(), bidir),
            spec_hash40(encode_utf8(labels.last()@)),
            labels.last()@,
            bidir,
        )
    }
}

/// The registry model after inserting each explicit hash-label pair, in
/// order.
pub open spec fn spec_add_pairs(
    m: Map<u64, Seq<char>>,
    pairs: Seq<(Hash40, String)>,
    bidir: bool,
) -> Map<u64, Seq<char>>
    decreases pairs.len(),
{
    if pairs.len() == 0 {
        m
    } else {
        spec_insert_entry(
            spec_add_pairs(m, pairs.drop_last(), bidir),
            pairs.last().0.0,
            pairs.last().1@,
            bidir,
        )
    }
}

impl LabelMap {
    /// The hash-to-label pairs the registry holds, as a map from the
    /// hash's backing word to the label's characters.
    pub open spec fn entries(self) -> Map<u64, Seq<char>> {
        match self {
            LabelMap::Unset => Map::empty(),
            LabelMap::Pure(m) => m@.map_values(|s: String| s@),
            LabelMap::Custom(b) => bimap_entries(b),
        }
    }

    /// Exact lookup of the label paired with a hash in the active map;
    /// in `Unset` mode every lookup fails.
    pub fn label_of(&self, hash: Hash40) -> (r: Option<String>)
        ensures
            match r {
                Some(s) => self.entries().dom().contains(hash.0) && s@ == self.entries()[hash.0],
                None => !self.entries().dom().contains(hash.0),
            },
    {
        match self {
            LabelMap::Unset => None,
            LabelMap::Pure(m) => match m.get(&hash.0) {
                Some(s) => Some(s.clone()),
                None => None,
            },
            LabelMap::Custom(b) => bimap_get_by_left(b, &hash),
        }
    }

    /// The hash paired with a label.  In `Custom` mode only an explicit
    /// pair resolves; in `Pure` and `Unset` mode the label's ordinary
    /// hash is computed instead, so unknown but well-formed labels still
    /// resolve.
    pub fn hash_of(&self, label: &str) -> (r: Option<Hash40>)
        ensures
            match r {
                Some(h) => match self {
                    LabelMap::Custom(_) => self.entries().dom().contains(h.0)
                        && self.entries()[h.0] == label@,
                    _ => h.0 == spec_hash40(label.spec_bytes()),
                },
                None => self is Custom && forall|k: u64|
                    self.entries().dom().contains(k) ==> self.entries()[k] != label@,
            },
    {
        match self {
            LabelMap::Custom(b) => bimap_get_by_right(b, label),
            _ => Some(Hash40::new(label)),
        }
    }

    /// Inserts labels into the active map, keying each by its ordinary
    /// hash; an `Unset` registry is promoted to `Pure`.
    pub fn add_labels(&mut self, labels: Vec<String>)
        ensures
            (*old(self)) is Unset ==> (*final(self)) is Pure && final(self).entries()
                == spec_add_labels(Map::<u64, Seq<char>>::empty(), labels@, false),
            (*old(self)) is Pure ==> (*final(self)) is Pure && final(self).entries()
                == spec_add_labels(old(self).entries(), labels@, false),
            (*old(self)) is Custom ==> (*final(self)) is Custom && final(self).entries()
                == spec_add_labels(old(self).entries(), labels@, true),
    {
        let mut tmp = LabelMap::Unset;
        core::mem::swap(self, &mut tmp);
        match tmp {
            LabelMap::Unset => {
                let mut m: HashMap<u64, String> = HashMap::new();
                proof {
                    assert(m@.map_values(|s: String| s@) =~= Map::<u64, Seq<char>>::empty());
                }
                add_labels_hashmap(&mut m, &labels);
                *self = LabelMap::Pure(m);
            },
            LabelMap::Pure(mut m) => {
                add_labels_hashmap(&mut m, &labels);
                *self = LabelMap::Pure(m);
            },
            LabelMap::Custom(mut b) => {
                add_labels_bimap(&mut b, &labels);
                *self = LabelMap::Custom(b);
            },
        }
    }

    /// Inserts explicit hash-label pairs into the active map; the hash of
    /// a pair need not match its label.  An `Unset` registry is promoted
    /// to `Custom`.
    pub fn add_custom_labels(&mut self, labels: Vec<(Hash40, String)>)
        ensures
            (*old(self)) is Unset ==> (*final(self)) is Custom && final(self).entries()
                == spec_add_pairs(Map::<u64, Seq<char>>::empty(), labels@, true),
            (*old(self)) is Pure ==> (*final(self)) is Pure && final(self).entries()
                == spec_add_pairs(old(self).entries(), labels@, false),
            (*old(self)) is Custom ==> (*final(self)) is Custom && final(self).entries()
                == spec_add_pairs(old(self).entries(), labels@, true),
    {
        let mut tmp = LabelMap::Unset;
        core::mem::swap(self, &mut tmp);
        match tmp {
            LabelMap::Unset => {
                let mut b = bimap_new();
                add_pairs_bimap(&mut b, &labels);
                *self = LabelMap::Custom(b);
            },
            LabelMap::Pure(mut m) => {
                add_pairs_hashmap(&mut m, &labels);
                *self = LabelMap::Pure(m);
            },
            LabelMap::Custom(mut b) => {
                add_pairs_bimap(&mut b, &labels);
                *self = LabelMap::Custom(b);
            },
        }
    }

    /// Replaces the active map with a fresh one-directional map built by
    /// hashing the given labels.
    pub fn set_labels(&mut self, labels: Vec<String>)
        ensures
            (*final(self)) is Pure,
            final(self).entries() == spec_add_labels(
                Map::<u64, Seq<char>>::empty(),
                labels@,
                false,
            ),
    {
        let mut m: HashMap<u64, String> = HashMap::new();
        proof {
            assert(m@.map_values(|s: String| s@) =~= Map::<u64, Seq<char>>::empty());
        }
        add_labels_hashmap(&mut m, &labels);
        *self = LabelMap::Pure(m);
    }

    /// Replaces the active map with a fresh bidirectional map of the
    /// given hash-label pairs.
    pub fn set_custom_labels(&mut self, labels: Vec<(Hash40, String)>)
        ensures
            (*final(self)) is Custom,
            final(self).entries() == spec_add_pairs(
                Map::<u64, Seq<char>>::empty(),
                labels@,
                true,
            ),
    {
        let mut b = bimap_new();
        add_pairs_bimap(&mut b, &labels);
        *self = LabelMap::Custom(b);
    }

    /// Parses one line of a custom-label file: a hexadecimal hash and a
    /// label separated by the line's first comma.
    pub fn parse_custom_label_line(line: &str) -> (r: Result<(Hash40, String), CustomLabelError>)
        ensures
            match r {
                Ok(p) => spec_parse_line(line@) == Ok::<(u64, Seq<char>), CustomLabelError>(
                    (p.0.0, p.1@),
                ),
                Err(e) => spec_parse_line(line@) == Err::<(u64, Seq<char>), CustomLabelError>(e),
            },
    {
        let n = line.unicode_len();
        let mut j: usize = 0;
        while j < n && line.get_char(j) != ','
            invariant
                j <= n,
                n == line@.len(),
                forall|t: int| 0 <= t < j ==> line@[t] != ',',
            decreases n - j,
        {
            j = j + 1;
        }
        proof {
            lemma_first_comma_facts(line@);
            if j < n {
                assert(first_comma(line@) == j) by {
                    if first_comma(line@) < j {
                        assert(line@[first_comma(line@)] != ',');
                    }
                    if first_comma(line@) > j {
                        assert(line@[j as int] != ',');
                    }
                };
            } else {
                assert(first_comma(line@) == j) by {
                    if first_comma(line@) < j {
                        assert(line@[first_comma(line@)] != ',');
                    }
                };
            }
        }
        if j == n {
            return Err(CustomLabelError::MisingColumn);
        }
        let mut hash_s = String::new();
        let mut i: usize = 0;
        while i < j
            invariant
                i <= j < n,
                n == line@.len(),
                hash_s@ == line@.take(i as int),
            decreases j - i,
        {
            push_char(&mut hash_s, line.get_char(i));
            proof {
                assert(line@.take(i + 1) =~= line@.take(i as int) + seq![line@[i as int]]);
            }
            i = i + 1;
        }
        let mut label_s = String::new();
        let mut t: usize = j + 1;
        while t < n
            invariant
                j + 1 <= t <= n,
                n == line@.len(),
                label_s@ == line@.subrange(j + 1, t as int),
            decreases n - t,
        {
            push_char(&mut label_s, line.get_char(t));
            proof {
                assert(line@.subrange(j + 1, t + 1) =~= line@.subrange(j + 1, t as int) + seq![
                    line@[t as int],
                ]);
            }
            t = t + 1;
        }
        proof {
            assert(label_s@ =~= line@.skip(j + 1));
        }
        match Hash40::from_hex_str(hash_s.as_str()) {
            Ok(h) => Ok((h, label_s)),
            Err(e) => Err(CustomLabelError::ParseHashError(e)),
        }
    }

    /// Parses every line of a custom-label file, in order, stopping at
    /// and propagating the first malformed line.
    pub fn parse_custom_labels(lines: &Vec<String>) -> (r: Result<
        Vec<(Hash40, String)>,
        CustomLabelError,
    >)
        ensures
            match r {
                Ok(v) => v@.len() == lines@.len() && forall|i: int|
                    0 <= i < lines@.len() ==> (#[trigger] spec_parse_line(lines@[i]@) matches Ok(p)
                        && p.0 == v@[i].0.0 && p.1 == v@[i].1@),
                Err(e) => exists|i: int|
                    0 <= i < lines@.len() && #[trigger] spec_parse_line(lines@[i]@) == Err::<
                        (u64, Seq<char>),
                        CustomLabelError,
                    >(e) && (forall|t: int| 0 <= t < i ==> spec_parse_line(lines@[t]@) is Ok),
            },
    {
        let n = lines.len();
        let mut out: Vec<(Hash40, String)> = Vec::new();
        let mut i: usize = 0;
        while i < n
            invariant
                i <= n,
                n == lines@.len(),
                out@.len() == i,
                forall|t: int|
                    0 <= t < i ==> (#[trigger] spec_parse_line(lines@[t]@) matches Ok(p) && p.0
                        == out@[t].0.0 && p.1 == out@[t].1@),
            decreases n - i,
        {
            match Self::parse_custom_label_line(lines[i].as_str()) {
                Ok(p) => {
                    out.push(p);
                },
                Err(e) => {
                    return Err(e);
                },
            }
            i = i + 1;
        }
        Ok(out)
    }

    /// Empties the active map without changing its mode.
    pub fn clear(&mut self)
        ensures
            final(self).entries() == Map::<u64, Seq<char>>::empty(),
            ((*final(self)) is Unset) == ((*old(self)) is Unset),
            ((*final(self)) is Pure) == ((*old(self)) is Pure),
            ((*final(self)) is Custom) == ((*old(self)) is Custom),
    {
        let mut tmp = LabelMap::Unset;
        core::mem::swap(self, &mut tmp);
        match tmp {
            LabelMap::Unset => {
                *self = LabelMap::Unset;
            },
            LabelMap::Pure(mut m) => {
                m.clear();
                proof {
                    assert(m@.map_values(|s: String| s@) =~= Map::<u64, Seq<char>>::empty());
                }
                *self = LabelMap::Pure(m);
            },
            LabelMap::Custom(mut b) => {
                bimap_clear(&mut b);
                *self = LabelMap::Custom(b);
            },
        }
    }
}

/// Inserts each label into a one-directional map under its own hash.
fn add_labels_hashmap(m: &mut HashMap<u64, String>, labels: &Vec<String>)
    ensures
        final(m)@.map_values(|s: String| s@) == spec_add_labels(
            old(m)@.map_values(|s: String| s@),
            labels@,
            false,
        ),
{
    let ghost m0 = old(m)@.map_values(|s: String| s@);
    let n = labels.len();
    let mut i: usize = 0;
    while i < n
        invariant
            i <= n,
            n == labels@.len(),
            m@.map_values(|s: String| s@) == spec_add_labels(m0, labels@.take(i as int), false),
        decreases n - i,
    {
        let l = labels[i].clone();
        let h = Hash40::new(l.as_str());
        let ghost before = m@;
        m.insert(h.0, l);
        proof {
            assert(labels@.take(i + 1).drop_last() =~= labels@.take(i as int));
            assert(labels@.take(i + 1).last() == labels@[i as int]);
            assert(m@.map_values(|s: String| s@) =~= before.map_values(|s: String| s@).insert(
                h.0,
                l@,
            ));
        }
        i = i + 1;
    }
    proof {
        assert(labels@.take(n as int) =~= labels@);
    }
}

/// Inserts each explicit pair into a one-directional map as given.
fn add_pairs_hashmap(m: &mut HashMap<u64, String>, labels: &Vec<(Hash40, String)>)
    ensures
        final(m)@.map_values(|s: String| s@) == spec_add_pairs(
            old(m)@.map_values(|s: String| s@),
            labels@,
            false,
        ),
{
    let ghost m0 = old(m)@.map_values(|s: String| s@);
    let n = labels.len();
    let mut i: usize = 0;
    while i < n
        invariant
            i <= n,
            n == labels@.len(),
            m@.map_values(|s: String| s@) == spec_add_pairs(m0, labels@.take(i as int), false),
        decreases n - i,
    {
        let h = labels[i].0;
        let l = labels[i].1.clone();
        let ghost before = m@;
        m.insert(h.0, l);
        proof {
            assert(labels@.take(i + 1).drop_last() =~= labels@.take(i as int));
            assert(labels@.take(i + 1).last() == labels@[i as int]);
            assert(m@.map_values(|s: String| s@) =~= before.map_values(|s: String| s@).insert(
                h.0,
                labels@[i as int].1@,
            ));
        }
        i = i + 1;
    }
    proof {
        assert(labels@.take(n as int) =~= labels@);
    }
}

/// Inserts each label into a bidirectional map under its own hash.
fn add_labels_bimap(b: &mut bimap::BiHashMap<Hash40, String>, labels: &Vec<String>)
    ensures
        bimap_entries(*final(b)) == spec_add_labels(bimap_entries(*old(b)), labels@, true),
{
    let ghost m0 = bimap_entries(*old(b));
    let n = labels.len();
    let mut i: usize = 0;
    while i < n
        invariant
            i <= n,
            n == labels@.len(),
            bimap_entries(*b) == spec_add_labels(m0, labels@.take(i as int), true),
        decreases n - i,
    {
        let l = labels[i].clone();
        let h = Hash40::new(l.as_str());
        bimap_insert(b, h, l);
        proof {
            assert(labels@.take(i + 1).drop_last() =~= labels@.take(i as int));
            assert(labels@.take(i + 1).last() == labels@[i as int]);
        }
        i = i + 1;
    }
    proof {
        assert(labels@.take(n as int) =~= labels@);
    }
}

/// Inserts each explicit pair into a bidirectional map as given.
fn add_pairs_bimap(b: &mut bimap::BiHashMap<Hash40, String>, labels: &Vec<(Hash40, String)>)
    ensures
        bimap_entries(*final(b)) == spec_add_pairs(bimap_entries(*old(b)), labels@, true),
{
    let ghost m0 = bimap_entries(*old(b));
    let n = labels.len();
    let mut i: usize = 0;
    while i < n
        invariant
            i <= n,
            n == labels@.len(),
            bimap_entries(*b) == spec_add_pairs(m0, labels@.take(i as int), true),
        decreases n - i,
    {
        let h = labels[i].0;
        let l = labels[i].1.clone();
        bimap_insert(b, h, l);
        proof {
            assert(labels@.take(i + 1).drop_last() =~= labels@.take(i as int));
            assert(labels@.take(i + 1).last() == labels@[i as int]);
        }
        i = i + 1;
    }
    proof {
        assert(labels@.take(n as int) =~= labels@);
    }
}

/// Every label of an add is resolvable afterwards under its own hash,
/// provided no later label of the same add collides with it: none hashes
/// to the same value and, in a bidirectional map, none repeats its text.
/// In particular, inserting label sets with pairwise distinct hashes
/// loses no entry, however the inserts are grouped into calls.
pub proof fn lemma_add_labels_present(
    m: Map<u64, Seq<char>>,
    labels: Seq<String>,
    bidir: bool,
    i: int,
)
    requires
        0 <= i < labels.len(),
        forall|j: int|
            i < j < labels.len() ==> spec_hash40(encode_utf8(#[trigger] labels[j]@))
                != spec_hash40(encode_utf8(labels[i]@)),
        bidir ==> forall|j: int| i < j < labels.len() ==> #[trigger] labels[j]@ != labels[i]@,
    ensures
        spec_add_labels(m, labels, bidir).dom().contains(spec_hash40(encode_utf8(labels[i]@))),
        spec_add_labels(m, labels, bidir)[spec_hash40(encode_utf8(labels[i]@))] == labels[i]@,
    decreases labels.len(),
{
    if i == labels.len() - 1 {
    } else {
        lemma_add_labels_present(m, labels.drop_last(), bidir, i);
        assert(labels.drop_last()[i]@ == labels[i]@);
    }
}

/// An entry survives an add unchanged when no inserted label hashes to
/// its key and, in a bidirectional map, none repeats its text: adds
/// never disturb unrelated entries.
pub proof fn lemma_add_labels_preserve(
    m: Map<u64, Seq<char>>,
    labels: Seq<String>,
    bidir: bool,
    k: u64,
)
    requires
        m.dom().contains(k),
        forall|j: int|
            0 <= j < labels.len() ==> spec_hash40(encode_utf8(#[trigger] labels[j]@)) != k,
        bidir ==> forall|j: int| 0 <= j < labels.len() ==> #[trigger] labels[j]@ != m[k],
    ensures
        spec_add_labels(m, labels, bidir).dom().contains(k),
        spec_add_labels(m, labels, bidir)[k] == m[k],
    decreases labels.len(),
{
    if labels.len() > 0 {
        lemma_add_labels_preserve(m, labels.drop_last(), bidir, k);
    }
}

/// Successive adds of label sets whose hashes do not collide lose no
/// label: after inserting a first set and then a second, every label of
/// the first set is still resolvable under its own hash, as is (by
/// `lemma_add_labels_present`) every label of the second.  The registry
/// operations are serialized, so this covers any grouping of inserts
/// into calls.
pub proof fn lemma_disjoint_adds_keep_all(
    m: Map<u64, Seq<char>>,
    first: Seq<String>,
    second: Seq<String>,
    i: int,
)
    requires
        0 <= i < first.len(),
        forall|j: int|
            i < j < first.len() ==> spec_hash40(encode_utf8(#[trigger] first[j]@)) != spec_hash40(
                encode_utf8(first[i]@),
            ),
        forall|j: int|
            0 <= j < second.len() ==> spec_hash40(encode_utf8(#[trigger] second[j]@))
                != spec_hash40(encode_utf8(first[i]@)),
    ensures
        ({
            let after = spec_add_labels(spec_add_labels(m, first, false), second, false);
            after.dom().contains(spec_hash40(encode_utf8(first[i]@))) && after[spec_hash40(
                encode_utf8(first[i]@),
            )] == first[i]@
        }),
{
    lemma_add_labels_present(m, first, false, i);
    lemma_add_labels_preserve(
        spec_add_labels(m, first, false),
        second,
        false,
        spec_hash40(encode_utf8(first[i]@)),
    );
}

impl Default for LabelMap {
    /// A fresh registry knows no labels.
    fn default() -> (r: Self)
        ensures
            r is Unset,
    {
        LabelMap::Unset
    }
}

} // verus!
