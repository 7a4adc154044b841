use hash40::errors::FromLabelError;
use hash40::label_map::LabelMap;
use hash40::{hash40, Hash40};

fn strings(items: &[&str]) -> Vec<String> {
    items.iter().map(|s| String::from(*s)).collect()
}

#[test]
fn set_labels_round_trip() {
    let mut map = LabelMap::default();
    map.set_labels(strings(&["foo", "bar"]));
    assert_eq!(map.label_of(hash40("foo")), Some(String::from("foo")));
    assert_eq!(map.label_of(hash40("bar")), Some(String::from("bar")));
    assert_eq!(map.hash_of("foo"), Some(hash40("foo")));
    assert_eq!(map.hash_of("bar"), Some(hash40("bar")));
}

#[test]
fn clear_forgets_labels() {
    let mut map = LabelMap::default();
    map.set_labels(strings(&["foo", "bar"]));
    map.clear();
    assert_eq!(map.label_of(hash40("foo")), None);
    assert_eq!(map.label_of(hash40("bar")), None);
    // The mode survives: a cleared one-directional map still resolves a
    // well-formed label by hashing it afresh.
    assert_eq!(map.hash_of("foo"), Some(hash40("foo")));
}

#[test]
fn clear_keeps_custom_strictness() {
    let mut map = LabelMap::default();
    map.set_custom_labels(vec![(hash40("x"), String::from("not-x"))]);
    map.clear();
    assert_eq!(map.label_of(hash40("x")), None);
    assert_eq!(map.hash_of("not-x"), None);
}

#[test]
fn custom_mode_is_strict() {
    let mut map = LabelMap::default();
    map.set_custom_labels(vec![(hash40("x"), String::from("not-x"))]);
    // An unrelated, unmapped label does not fall back to a fresh hash.
    assert_eq!(map.hash_of("y"), None);
    // The explicit pair resolves in both directions, even though the
    // label's real hash differs from the paired hash.
    assert_eq!(map.hash_of("not-x"), Some(hash40("x")));
    assert_eq!(map.label_of(hash40("x")), Some(String::from("not-x")));
    assert_eq!(map.label_of(hash40("not-x")), None);
}

#[test]
fn pure_and_unset_modes_fall_back() {
    let unset = LabelMap::default();
    assert_eq!(unset.hash_of("y"), Some(hash40("y")));

    let mut pure = LabelMap::default();
    pure.set_labels(strings(&["foo"]));
    assert_eq!(pure.hash_of("y"), Some(hash40("y")));
}

#[test]
fn unset_registry_resolves_no_hash() {
    let map = LabelMap::default();
    assert_eq!(map.label_of(hash40("anything")), None);
    assert_eq!(map.label_of(Hash40(0)), None);
}

#[test]
fn add_labels_promotes_unset_to_pure() {
    let mut map = LabelMap::default();
    map.add_labels(strings(&["foo"]));
    assert_eq!(map.label_of(hash40("foo")), Some(String::from("foo")));
    // Pure-mode fallback: an unknown label still resolves.
    assert_eq!(map.hash_of("unknown"), Some(hash40("unknown")));
}

#[test]
fn add_custom_labels_promotes_unset_to_custom() {
    let mut map = LabelMap::default();
    map.add_custom_labels(vec![(Hash40(7), String::from("seven"))]);
    assert_eq!(map.label_of(Hash40(7)), Some(String::from("seven")));
    // Custom-mode strictness: an unknown label does not resolve.
    assert_eq!(map.hash_of("unknown"), None);
}

#[test]
fn disjoint_adds_lose_no_entry() {
    let mut map = LabelMap::default();
    map.add_labels(strings(&["a", "b"]));
    map.add_labels(strings(&["c", "d"]));
    map.add_labels(strings(&["e"]));
    for l in ["a", "b", "c", "d", "e"] {
        assert_eq!(map.label_of(hash40(l)), Some(String::from(l)), "label {:?} lost", l);
    }
}

#[test]
fn set_labels_replaces_whole_map() {
    let mut map = LabelMap::default();
    map.set_labels(strings(&["old"]));
    map.set_labels(strings(&["new"]));
    assert_eq!(map.label_of(hash40("old")), None);
    assert_eq!(map.label_of(hash40("new")), Some(String::from("new")));
}

#[test]
fn custom_insert_overwrites_both_sides() {
    let mut map = LabelMap::default();
    map.set_custom_labels(vec![
        (Hash40(1), String::from("one")),
        (Hash40(2), String::from("two")),
    ]);
    // Re-pairing the label "two" with hash 1 removes both old pairs.
    map.add_custom_labels(vec![(Hash40(1), String::from("two"))]);
    assert_eq!(map.label_of(Hash40(1)), Some(String::from("two")));
    assert_eq!(map.label_of(Hash40(2)), None);
    assert_eq!(map.hash_of("one"), None);
    assert_eq!(map.hash_of("two"), Some(Hash40(1)));
}

#[test]
fn custom_duplicate_hash_last_wins() {
    let mut map = LabelMap::default();
    map.set_custom_labels(vec![
        (Hash40(9), String::from("first")),
        (Hash40(9), String::from("second")),
    ]);
    assert_eq!(map.label_of(Hash40(9)), Some(String::from("second")));
    assert_eq!(map.hash_of("first"), None);
}

#[test]
fn from_label_parses_hex_without_registry() {
    let map = LabelMap::default();
    assert_eq!(Hash40::from_label("0x0000000123", &map), Ok(Hash40(0x123)));
}

#[test]
fn from_label_resolves_through_registry() {
    let mut map = LabelMap::default();
    map.set_custom_labels(vec![(Hash40(0xBEEF), String::from("name"))]);
    assert_eq!(Hash40::from_label("name", &map), Ok(Hash40(0xBEEF)));
}

#[test]
fn from_label_falls_back_to_hashing() {
    let map = LabelMap::default();
    assert_eq!(Hash40::from_label("some/path", &map), Ok(hash40("some/path")));
}

#[test]
fn from_label_unknown_in_custom_mode_fails() {
    let mut map = LabelMap::default();
    map.set_custom_labels(vec![(Hash40(1), String::from("one"))]);
    assert_eq!(
        Hash40::from_label("unknown", &map),
        Err(FromLabelError::LabelNotFound(String::from("unknown")))
    );
}

#[test]
fn from_label_bad_hex_never_reaches_registry() {
    // The label "0xzz" carries the prefix, so its malformed numeral
    // propagates as a parse error even though the registry could have
    // resolved it as a custom label.
    let mut map = LabelMap::default();
    map.set_custom_labels(vec![(Hash40(5), String::from("0xzz"))]);
    assert!(matches!(Hash40::from_label("0xzz", &map), Err(FromLabelError::ParseError(_))));
}

#[test]
fn to_label_prefers_registry() {
    let mut map = LabelMap::default();
    map.set_labels(strings(&["fighter/mario"]));
    assert_eq!(hash40("fighter/mario").to_label(&map), "fighter/mario");
    // An unknown hash degrades to the canonical hexadecimal form.
    assert_eq!(Hash40(0x2).to_label(&map), "0x0000000002");
}

#[test]
fn serialized_text_round_trip() {
    let mut map = LabelMap::default();
    map.set_labels(strings(&["fighter/mario"]));
    let h = hash40("fighter/mario");
    let text = h.to_label(&map);
    assert_eq!(Hash40::from_label(&text, &map), Ok(h));
}
