//! Import configuration: where country boundaries come from and which named
//! `maxspeed` values mean which speed.

use std::collections::HashMap;
use std::path::PathBuf;
use vstd::prelude::*;
use vstd::string::StringExecFns;

use super::tags::named_has;

verus! {

/// Built-in named maxspeed values: OSM `maxspeed` tag values and their km/h.
/// Country-coded entries (`"DE:urban"`) are looked up before generic
/// readings of the value.
pub const BUILTIN_MAXSPEED: [(&'static str, u8); 68] = [
    ("walk", 7), ("walking", 7), ("living_street", 10), ("urban", 50), ("rural", 90), ("motorway", 130),
    ("DE:living_street", 10), ("DE:urban", 50), ("DE:rural", 100), ("DE:motorway", 130),
    ("AT:living_street", 10), ("AT:urban", 50), ("AT:rural", 100), ("AT:motorway", 130),
    ("CH:living_street", 10), ("CH:urban", 50), ("CH:rural", 80), ("CH:motorway", 120),
    ("FR:living_street", 20), ("FR:urban", 50), ("FR:rural", 80), ("FR:motorway", 130),
    ("NL:living_street", 15), ("NL:urban", 50), ("NL:rural", 80), ("NL:motorway", 100),
    ("BE:living_street", 20), ("BE:urban", 50), ("BE:rural", 90), ("BE:motorway", 120),
    ("IT:living_street", 10), ("IT:urban", 50), ("IT:rural", 90), ("IT:motorway", 130),
    ("ES:living_street", 20), ("ES:urban", 50), ("ES:rural", 90), ("ES:motorway", 120),
    ("PT:living_street", 20), ("PT:urban", 50), ("PT:rural", 90), ("PT:motorway", 120),
    ("PL:living_street", 20), ("PL:urban", 50), ("PL:rural", 90), ("PL:motorway", 140),
    ("CZ:living_street", 20), ("CZ:urban", 50), ("CZ:rural", 90), ("CZ:motorway", 130),
    ("GB:living_street", 10), ("GB:urban", 48), ("GB:rural", 96), ("GB:motorway", 112),
    ("GB:nsl_single", 96), ("GB:nsl_dual", 112),
    ("RU:living_street", 20), ("RU:urban", 60), ("RU:rural", 90), ("RU:motorway", 110),
    ("UA:living_street", 20), ("UA:urban", 60), ("UA:rural", 90), ("UA:motorway", 130),
    ("US:living_street", 25), ("US:urban", 40), ("US:rural", 88), ("US:motorway", 104),
];

/// Settings of the import itself.
pub struct ImportSettings {
    /// Path to a GeoJSON file containing country boundary polygons.
    /// If absent, country lookup is skipped and `country_id` is left as unknown.
    pub country_boundaries: Option<PathBuf>,
}

/// Configuration for the PBF importer.
pub struct ImportConfig {
    pub import: ImportSettings,
    /// Named maxspeed overrides/extensions (e.g. `"DE:urban" = 50`), merged
    /// over the built-in defaults at import time.
    pub maxspeed: HashMap<String, u8>,
}

/// Every key of `m` with text `t` maps to `v`, and there is one.
pub open spec fn named_value_is(m: Map<String, u8>, t: Seq<char>, v: u8) -> bool {
    &&& named_has(m, t)
    &&& forall|k: String| #[trigger] m.contains_key(k) && k@ == t ==> m[k] == v
}

/// The value of the last entry of `entries` with text `t`, if any.
pub open spec fn last_named(entries: Seq<(&str, u8)>, t: Seq<char>) -> Option<u8>
    decreases entries.len(),
{
    if entries.len() == 0 {
        None
    } else if entries.last().0@ == t {
        Some(entries.last().1)
    } else {
        last_named(entries.drop_last(), t)
    }
}

/// The value of the last entry of `entries` with text `t`, if any.
pub open spec fn last_owned(entries: Seq<(String, u8)>, t: Seq<char>) -> Option<u8>
    decreases entries.len(),
{
    if entries.len() == 0 {
        None
    } else if entries.last().0@ == t {
        Some(entries.last().1)
    } else {
        last_owned(entries.drop_last(), t)
    }
}

/// `HashMap::insert` on a map keyed by `String`: afterwards the map holds a
/// key with the text of `key`, every key with that text maps to `v`, and the
/// keys of any other text are as they were.
#[verifier::external_body]
fn insert_named(map: &mut HashMap<String, u8>, key: String, v: u8)
    ensures
        named_value_is(final(map)@, key@, v),
        forall|k: String|
            k@ != key@ ==> (#[trigger] final(map)@.contains_key(k) <==> old(map)@.contains_key(k)) && (old(map)@.contains_key(k)
                ==> final(map)@[k] == old(map)@[k]),
{
    map.insert(key, v);
}

/// The entries of a map keyed by `String`, cloned, in the order in which
/// `HashMap::iter` visits them, which is unspecified: each entry is one of
/// the map's, and each of the map's occurs.
#[verifier::external_body]
fn named_entries(map: &HashMap<String, u8>) -> (r: Vec<(String, u8)>)
    ensures
        forall|i: int|
            0 <= i < r@.len() ==> exists|k: String| #[trigger] map@.contains_key(k) && k@ == (#[trigger] r@[i]).0@ && map@[k] == r@[i].1,
        forall|k: String|
            #[trigger] map@.contains_key(k) ==> exists|i: int| 0 <= i < r@.len() && (#[trigger] r@[i]).0@ == k@ && r@[i].1 == map@[k],
{
    map.iter().map(|(k, v)| (k.clone(), *v)).collect()
}

/// What a lookup of text `t` in `m` gives: every key with that text maps to
/// `expected`, or no key has that text when nothing is expected.
pub open spec fn lookup_ok(m: Map<String, u8>, t: Seq<char>, expected: Option<u8>) -> bool {
    match expected {
        Some(v) => named_value_is(m, t, v),
        None => !named_has(m, t),
    }
}

/// `f` with the value of text `key` replaced by `v`.
pub open spec fn with_entry(f: spec_fn(Seq<char>) -> Option<u8>, key: Seq<char>, v: u8, t: Seq<char>) -> Option<u8> {
    if t == key {
        Some(v)
    } else {
        f(t)
    }
}

/// What the merged map gives for text `t`: the last override with that text,
/// else the built-in value.
pub open spec fn merged_value(overrides: Seq<(String, u8)>, t: Seq<char>) -> Option<u8> {
    match last_owned(overrides, t) {
        Some(v) => Some(v),
        None => last_named(BUILTIN_MAXSPEED@, t),
    }
}

proof fn lemma_insert_lookup(
    before: Map<String, u8>,
    after: Map<String, u8>,
    key: Seq<char>,
    v: u8,
    f: spec_fn(Seq<char>) -> Option<u8>,
)
    requires
        named_value_is(after, key, v),
        forall|k: String|
            k@ != key ==> (#[trigger] after.contains_key(k) <==> before.contains_key(k)) && (before.contains_key(k)
                ==> after[k] == before[k]),
        forall|t: Seq<char>| #[trigger] lookup_ok(before, t, f(t)),
    ensures
        forall|t: Seq<char>| #[trigger] lookup_ok(after, t, with_entry(f, key, v, t)),
{
    assert forall|t: Seq<char>| #[trigger] lookup_ok(after, t, with_entry(f, key, v, t)) by {
        if t != key {
            assert(lookup_ok(before, t, f(t)));
            assert(named_has(after, t) == named_has(before, t)) by {
                if named_has(after, t) {
                    let kk = choose|kk: String| #[trigger] after.contains_key(kk) && kk@ == t;
                    assert(before.contains_key(kk));
                }
                if named_has(before, t) {
                    let kk = choose|kk: String| #[trigger] before.contains_key(kk) && kk@ == t;
                    assert(after.contains_key(kk));
                }
            }
        }
    }
}

/// A map holding the built-in named speeds.
fn builtin_maxspeed_map() -> (r: HashMap<String, u8>)
    ensures
        forall|t: Seq<char>| #[trigger] lookup_ok(r@, t, last_named(BUILTIN_MAXSPEED@, t)),
{
    let mut map: HashMap<String, u8> = HashMap::new();
    proof {
        assert forall|t: Seq<char>| #[trigger] lookup_ok(map@, t, last_named(BUILTIN_MAXSPEED@.take(0), t)) by {
            assert(BUILTIN_MAXSPEED@.take(0).len() == 0);
        }
    }
    let mut i: usize = 0;
    while i < 68
        invariant
            i <= 68,
            forall|t: Seq<char>| #[trigger] lookup_ok(map@, t, last_named(BUILTIN_MAXSPEED@.take(i as int), t)),
        decreases 68 - i,
    {
        let (k, v) = BUILTIN_MAXSPEED[i];
        let ghost before = map@;
        insert_named(&mut map, String::from_str(k), v);
        proof {
            let prev = BUILTIN_MAXSPEED@.take(i as int);
            let next = BUILTIN_MAXSPEED@.take(i + 1);
            lemma_insert_lookup(before, map@, k@, v, |t: Seq<char>| last_named(prev, t));
            assert(next.drop_last() =~= prev);
            assert(next.last() == (k, v));
            assert forall|t: Seq<char>| #[trigger] lookup_ok(map@, t, last_named(next, t)) by {
                assert(lookup_ok(map@, t, with_entry(|t: Seq<char>| last_named(prev, t), k@, v, t)));
            }
        }
        i = i + 1;
    }
    proof {
        assert(BUILTIN_MAXSPEED@.take(68) =~= BUILTIN_MAXSPEED@);
    }
    map
}

/// Inserts the override entries, in order, over the built-in named speeds.
fn insert_overrides(map: &mut HashMap<String, u8>, entries: &Vec<(String, u8)>)
    requires
        forall|t: Seq<char>| #[trigger] lookup_ok(old(map)@, t, last_named(BUILTIN_MAXSPEED@, t)),
    ensures
        forall|t: Seq<char>| #[trigger] lookup_ok(final(map)@, t, merged_value(entries@, t)),
{
    proof {
        assert forall|t: Seq<char>| #[trigger] lookup_ok(map@, t, merged_value(entries@.take(0), t)) by {
            assert(entries@.take(0).len() == 0);
            assert(lookup_ok(map@, t, last_named(BUILTIN_MAXSPEED@, t)));
        }
    }
    let mut j: usize = 0;
    while j < entries.len()
        invariant
            j <= entries@.len(),
            forall|t: Seq<char>| #[trigger] lookup_ok(map@, t, merged_value(entries@.take(j as int), t)),
        decreases entries.len() - j,
    {
        let ghost before = map@;
        let key = entries[j].0.clone();
        let v = entries[j].1;
        proof {
            assert(key@ == entries@[j as int].0@);
        }
        insert_named(map, key, v);
        proof {
            let prev = entries@.take(j as int);
            let next = entries@.take(j + 1);
            lemma_insert_lookup(before, map@, entries@[j as int].0@, v, |t: Seq<char>| merged_value(prev, t));
            assert(next.drop_last() =~= prev);
            assert(next.last() == entries@[j as int]);
            assert forall|t: Seq<char>| #[trigger] lookup_ok(map@, t, merged_value(next, t)) by {
                assert(lookup_ok(map@, t, with_entry(|t: Seq<char>| merged_value(prev, t), entries@[j as int].0@, v, t)));
            }
        }
        j = j + 1;
    }
    proof {
        assert(entries@.take(entries@.len() as int) =~= entries@);
    }
}

/// What the merged map `merged` gives for text `t`: a configured value when
/// `overrides` holds the text, else the built-in one.
pub open spec fn merged_ok(overrides: Map<String, u8>, merged: Map<String, u8>, t: Seq<char>) -> bool {
    if named_has(overrides, t) {
        exists|k: String| #[trigger] overrides.contains_key(k) && k@ == t && named_value_is(merged, t, overrides[k])
    } else {
        lookup_ok(merged, t, last_named(BUILTIN_MAXSPEED@, t))
    }
}

proof fn lemma_merged_map(overrides: Map<String, u8>, entries: Seq<(String, u8)>, merged: Map<String, u8>, t: Seq<char>)
    requires
        forall|i: int|
            0 <= i < entries.len() ==> exists|k: String| #[trigger] overrides.contains_key(k) && k@ == (#[trigger] entries[i]).0@ && overrides[k] == entries[i].1,
        forall|k: String|
            #[trigger] overrides.contains_key(k) ==> exists|i: int| 0 <= i < entries.len() && (#[trigger] entries[i]).0@ == k@ && entries[i].1 == overrides[k],
        lookup_ok(merged, t, merged_value(entries, t)),
    ensures
        merged_ok(overrides, merged, t),
{
    lemma_last_owned(entries, t);
    if named_has(overrides, t) {
        let k = choose|k: String| #[trigger] overrides.contains_key(k) && k@ == t;
        let i = choose|i: int| 0 <= i < entries.len() && (#[trigger] entries[i]).0@ == k@ && entries[i].1 == overrides[k];
        lemma_last_owned_present(entries, t, i);
        let w = last_owned(entries, t)->0;
        let li = choose|li: int| 0 <= li < entries.len() && (#[trigger] entries[li]).0@ == t && entries[li].1 == w;
        let k2 = choose|k2: String| #[trigger] overrides.contains_key(k2) && k2@ == entries[li].0@ && overrides[k2] == entries[li].1;
        assert(overrides.contains_key(k2) && k2@ == t && named_value_is(merged, t, overrides[k2]));
    } else if last_owned(entries, t) is Some {
        let w = last_owned(entries, t)->0;
        let li = choose|li: int| 0 <= li < entries.len() && (#[trigger] entries[li]).0@ == t && entries[li].1 == w;
        let k2 = choose|k2: String| #[trigger] overrides.contains_key(k2) && k2@ == entries[li].0@ && overrides[k2] == entries[li].1;
        assert(named_has(overrides, t));
    }
}

impl ImportConfig {
    /// Returns the merged maxspeed map: the built-in values, overridden by
    /// the configured ones.
    pub fn maxspeed_map(&self) -> (r: HashMap<String, u8>)
        ensures
            forall|t: Seq<char>| #[trigger] merged_ok(self.maxspeed@, r@, t),
    {
        let mut map = builtin_maxspeed_map();
        let entries = named_entries(&self.maxspeed);
        insert_overrides(&mut map, &entries);
        proof {
            assert forall|t: Seq<char>| #[trigger] merged_ok(self.maxspeed@, map@, t) by {
                assert(lookup_ok(map@, t, merged_value(entries@, t)));
                lemma_merged_map(self.maxspeed@, entries@, map@, t);
            }
        }
        map
    }
}

/// The last entry with text `t`, when there is one, is an entry of the list.
proof fn lemma_last_owned(entries: Seq<(String, u8)>, t: Seq<char>)
    ensures
        last_owned(entries, t) matches Some(w) ==> exists|i: int|
            0 <= i < entries.len() && (#[trigger] entries[i]).0@ == t && entries[i].1 == w,
    decreases entries.len(),
{
    if entries.len() > 0 {
        lemma_last_owned(entries.drop_last(), t);
        if entries.last().0@ != t {
            if let Some(w) = last_owned(entries, t) {
                let i = choose|i: int| 0 <= i < entries.drop_last().len() && (#[trigger] entries.drop_last()[i]).0@ == t
                    && entries.drop_last()[i].1 == w;
                assert(entries[i] == entries.drop_last()[i]);
            }
        } else {
            assert(entries[entries.len() - 1] == entries.last());
        }
    }
}

/// A list with an entry of text `t` has a last such entry.
proof fn lemma_last_owned_present(entries: Seq<(String, u8)>, t: Seq<char>, i: int)
    requires
        0 <= i < entries.len(),
        entries[i].0@ == t,
    ensures
        last_owned(entries, t) is Some,
    decreases entries.len(),
{
    if entries.last().0@ != t {
        assert(i < entries.len() - 1);
        assert(entries.drop_last()[i] == entries[i]);
        lemma_last_owned_present(entries.drop_last(), t, i);
    }
}

} // verus!
