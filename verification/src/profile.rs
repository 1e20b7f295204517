//! Client profiles: the signatures, offsets and pointer chains that locate the game
//! state in one kind of osu! client, and which profile fits which process.
use crate::text::{chars_equal, chars_of, contains_chars, contains_seq, lower_chars, lower_seq};
use vstd::prelude::*;

verus! {

/// A pointer chain: a module, an offset into it and the offsets to follow.
#[derive(Debug, Clone)]
pub struct PointerChain {
    pub module: String,
    pub base_offset: i64,
    pub offsets: Vec<i64>,
}

/// How to locate the game state in one kind of client. The keyed tables hold one
/// entry per key, in ascending key order.
#[derive(Debug, Clone)]
pub struct ClientProfile {
    pub id: String,
    pub display_name: String,
    pub process_names: Vec<String>,
    pub module_names: Vec<String>,
    pub source_revision: Option<String>,
    pub pointer_width: usize,
    pub pointer_chains: Vec<(String, PointerChain)>,
    pub patterns: Vec<(String, String)>,
    pub pattern_offsets: Vec<(String, i64)>,
}

/// Why a profile lookup failed.
#[derive(Debug, Clone, Copy, PartialEq, Eq)]
pub enum ProfileError {
    /// The profile has no signature under the requested key.
    MissingPattern,
}

/// Index of the entry of `table` whose key is `key`, the first one if several are.
pub open spec fn key_index<V>(table: Seq<(String, V)>, key: Seq<char>) -> Option<int> {
    if exists|i: int| 0 <= i < table.len() && (#[trigger] table[i]).0@ == key {
        Some(choose|i: int|
            0 <= i < table.len() && table[i].0@ == key && forall|j: int| 0 <= j < i ==> (#[trigger] table[j]).0@ != key)
    } else {
        None
    }
}


/// No key occurs twice in `table`, as in the keyed map the table stands for.
pub open spec fn keys_distinct<V>(table: Seq<(String, V)>) -> bool {
    forall|i: int, j: int|
        0 <= i < j < table.len() ==> (#[trigger] table[i]).0@ != (#[trigger] table[j]).0@
}

/// Whether no key occurs twice in `table`.
pub fn has_distinct_keys<V>(table: &Vec<(String, V)>) -> (res: bool)
    ensures
        res == keys_distinct(table@),
{
    let mut i: usize = 0;
    while i < table.len()
        invariant
            i <= table@.len(),
            forall|a: int, b: int|
                0 <= a < i && a < b < table@.len() ==> (#[trigger] table@[a]).0@ != (#[trigger] table@[b]).0@,
        decreases table@.len() - i,
    {
        let ki = chars_of(table[i].0.as_str());
        let mut j: usize = i + 1;
        while j < table.len()
            invariant
                i < table@.len(),
                i + 1 <= j <= table@.len(),
                ki@ == table@[i as int].0@,
                forall|a: int, b: int|
                    0 <= a < i && a < b < table@.len() ==> (#[trigger] table@[a]).0@ != (#[trigger] table@[b]).0@,
                forall|b: int| i < b < j ==> table@[i as int].0@ != (#[trigger] table@[b]).0@,
            decreases table@.len() - j,
        {
            let kj = chars_of(table[j].0.as_str());
            if chars_equal(ki.as_slice(), kj.as_slice()) {
                assert(!keys_distinct(table@)) by {
                    assert(table@[i as int].0@ == table@[j as int].0@);
                }
                return false;
            }
            j = j + 1;
        }
        i = i + 1;
    }
    true
}

/// In a table whose keys are distinct, a lookup under the key of an entry finds
/// that entry: which entry is found does not depend on the table's order.
pub proof fn lemma_distinct_key_lookup<V>(table: Seq<(String, V)>, i: int)
    requires
        keys_distinct(table),
        0 <= i < table.len(),
    ensures
        key_index(table, table[i].0@) == Some(i),
{
    let key = table[i].0@;
    assert(0 <= i < table.len() && table[i].0@ == key);
    let w = choose|w: int|
        0 <= w < table.len() && table[w].0@ == key && forall|j: int| 0 <= j < w ==> (#[trigger] table[j]).0@ != key;
    assert(table[w].0@ == key);
    if w < i {
        assert(table[w].0@ != table[i].0@);
    } else if w > i {
        assert(table[i].0@ != key);
    }
}

fn find_key<V>(table: &Vec<(String, V)>, key: &[char]) -> (res: Option<usize>)
    ensures
        res matches Some(i) ==> key_index(table@, key@) == Some(i as int) && i < table@.len(),
        res is None ==> key_index(table@, key@) is None,
{
    let mut i: usize = 0;
    while i < table.len()
        invariant
            i <= table@.len(),
            forall|j: int| 0 <= j < i ==> (#[trigger] table@[j]).0@ != key@,
        decreases table@.len() - i,
    {
        let k = chars_of(table[i].0.as_str());
        if chars_equal(k.as_slice(), key) {
            proof {
                let w = choose|w: int|
                    0 <= w < table@.len() && table@[w].0@ == key@ && forall|j: int| 0 <= j < w ==> (#[trigger] table@[j]).0@ != key@;
                assert(0 <= i < table@.len() && table@[i as int].0@ == key@);
                if w < i {
                } else if w > i {
                }
                assert(w == i);
            }
            return Some(i);
        }
        i = i + 1;
    }
    None
}

impl ClientProfile {
    /// The keyed tables hold each key at most once, as the maps they are read from.
    pub open spec fn well_formed(&self) -> bool {
        keys_distinct(self.patterns@) && keys_distinct(self.pattern_offsets@)
    }

    /// Whether the keyed tables hold each key at most once.
    pub fn is_well_formed(&self) -> (res: bool)
        ensures
            res == self.well_formed(),
    {
        has_distinct_keys(&self.patterns) && has_distinct_keys(&self.pattern_offsets)
    }

    /// The signature stored under `key` and its offset (0 when none is stored).
    pub fn pattern(&self, key: &str) -> (res: Result<(&str, i64), ProfileError>)
        ensures
            key_index(self.patterns@, key@) is None ==> res == Err::<(&str, i64), ProfileError>(
                ProfileError::MissingPattern,
            ),
            key_index(self.patterns@, key@) matches Some(i) ==> (res matches Ok((text, offset)) && text@
                == self.patterns@[i].1@ && offset == (match key_index(self.pattern_offsets@, key@) {
                Some(j) => self.pattern_offsets@[j].1,
                None => 0,
            })),
    {
        let k = chars_of(key);
        match find_key(&self.patterns, k.as_slice()) {
            None => Err(ProfileError::MissingPattern),
            Some(i) => {
                let offset = match find_key(&self.pattern_offsets, k.as_slice()) {
                    Some(j) => self.pattern_offsets[j].1,
                    None => 0,
                };
                Ok((self.patterns[i].1.as_str(), offset))
            },
        }
    }

    /// The embedded profile for a process name: `tournament` for a name holding
    /// `tourney`, `tournament` or `arcade`, `stable` for any other holding `osu`
    /// (ASCII case ignored).
    pub fn profile_for_process(process_name: &str) -> (res: Option<&'static str>)
        ensures
            profile_for_process_spec(process_name@) is None ==> res is None,
            profile_for_process_spec(process_name@) matches Some(p) ==> (res matches Some(r) && r@ == p),
    {
        let lower = lower_chars(chars_of(process_name).as_slice());
        if contains_chars(lower.as_slice(), chars_of("tourney").as_slice()) || contains_chars(
            lower.as_slice(),
            chars_of("tournament").as_slice(),
        ) || contains_chars(lower.as_slice(), chars_of("arcade").as_slice()) {
            Some("tournament")
        } else if contains_chars(lower.as_slice(), chars_of("osu").as_slice()) {
            Some("stable")
        } else {
            None
        }
    }
}

/// Which embedded profile fits a process name.
pub open spec fn profile_for_process_spec(name: Seq<char>) -> Option<Seq<char>> {
    let lower = lower_seq(name);
    if contains_seq(lower, "tourney"@) || contains_seq(lower, "tournament"@) || contains_seq(
        lower,
        "arcade"@,
    ) {
        Some("tournament"@)
    } else if contains_seq(lower, "osu"@) {
        Some("stable"@)
    } else {
        None
    }
}

/// The names of the embedded profiles.
pub fn available_profiles() -> (res: Vec<&'static str>)
    ensures
        res@.len() == 2,
        res@[0]@ == "stable"@,
        res@[1]@ == "tournament"@,
{
    let mut v: Vec<&'static str> = Vec::new();
    v.push("stable");
    v.push("tournament");
    v
}

/// The embedded profiles.
#[derive(Debug, Clone, Copy, PartialEq, Eq)]
pub enum EmbeddedProfile {
    Stable,
    Tournament,
}

/// Which embedded profile a profile name selects, ignoring ASCII case.
pub open spec fn embedded_profile_spec(name: Seq<char>) -> Option<EmbeddedProfile> {
    let lower = lower_seq(name);
    if lower == "stable"@ {
        Some(EmbeddedProfile::Stable)
    } else if lower == "tournament"@ || lower == "tourney"@ {
        Some(EmbeddedProfile::Tournament)
    } else {
        None
    }
}

/// The embedded profile selected by `name` (`stable`, or `tournament`/`tourney`).
pub fn embedded_profile(name: &str) -> (res: Option<EmbeddedProfile>)
    ensures
        res == embedded_profile_spec(name@),
{
    let lower = lower_chars(chars_of(name).as_slice());
    if chars_equal(lower.as_slice(), chars_of("stable").as_slice()) {
        Some(EmbeddedProfile::Stable)
    } else if chars_equal(lower.as_slice(), chars_of("tournament").as_slice()) || chars_equal(
        lower.as_slice(),
        chars_of("tourney").as_slice(),
    ) {
        Some(EmbeddedProfile::Tournament)
    } else {
        None
    }
}

} // verus!
