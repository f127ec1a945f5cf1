//! API keys per profile and their serialized payload.
use crate::text::{chars_of, is_whitespace, is_ws, str_eq, string_from, trim_start};
use vstd::prelude::*;
use vstd::utf8::{decode_utf8, valid_utf8};

verus! {

/// API keys by profile id. Each id occurs at most once.
#[derive(Debug)]
pub struct ApiKeys {
    entries: Vec<(String, String)>,
}

pub open spec fn entry_views(es: Seq<(String, String)>) -> Seq<(Seq<char>, Seq<char>)> {
    es.map_values(|e: (String, String)| (e.0@, e.1@))
}

/// The map that a list of distinct-key entries denotes.
pub open spec fn entries_map(es: Seq<(Seq<char>, Seq<char>)>) -> Map<Seq<char>, Seq<char>>
    decreases es.len(),
{
    if es.len() == 0 {
        Map::empty()
    } else {
        entries_map(es.drop_last()).insert(es.last().0, es.last().1)
    }
}

pub open spec fn distinct_keys(es: Seq<(Seq<char>, Seq<char>)>) -> bool {
    forall|i: int, j: int| 0 <= i < j < es.len() ==> (#[trigger] es[i]).0 != (#[trigger] es[j]).0
}

proof fn lemma_entries_map(es: Seq<(Seq<char>, Seq<char>)>)
    requires
        distinct_keys(es),
    ensures
        entries_map(es).dom().finite(),
        entries_map(es).dom().len() == es.len(),
        forall|i: int|
            0 <= i < es.len() ==> entries_map(es).contains_key((#[trigger] es[i]).0)
                && entries_map(es)[es[i].0] == es[i].1,
        forall|k: Seq<char>|
            #[trigger] entries_map(es).contains_key(k) ==> exists|i: int|
                0 <= i < es.len() && (#[trigger] es[i]).0 == k,
    decreases es.len(),
{
    if es.len() > 0 {
        let p = es.drop_last();
        assert(distinct_keys(p)) by {
            assert forall|i: int, j: int| 0 <= i < j < p.len() implies (#[trigger] p[i]).0 != (
            #[trigger] p[j]).0 by {
                assert(p[i] == es[i] && p[j] == es[j]);
            }
        }
        lemma_entries_map(p);
        let last = es.last();
        assert(!entries_map(p).contains_key(last.0)) by {
            if entries_map(p).contains_key(last.0) {
                let i = choose|i: int| 0 <= i < p.len() && (#[trigger] p[i]).0 == last.0;
                assert(es[i] == p[i]);
                assert(es[i].0 != es[es.len() - 1].0);
            }
        }
        assert forall|i: int| 0 <= i < es.len() implies entries_map(es).contains_key(
            (#[trigger] es[i]).0,
        ) && entries_map(es)[es[i].0] == es[i].1 by {
            if i < es.len() - 1 {
                assert(es[i] == p[i]);
                assert(es[i].0 != last.0);
            }
        }
        assert forall|k: Seq<char>| #[trigger] entries_map(es).contains_key(k) implies exists|i: int|
            0 <= i < es.len() && (#[trigger] es[i]).0 == k by {
            if k != last.0 {
                let i = choose|i: int| 0 <= i < p.len() && (#[trigger] p[i]).0 == k;
                assert(es[i] == p[i]);
            } else {
                assert(es[es.len() - 1].0 == k);
            }
        }
        assert(entries_map(es).dom() =~= entries_map(p).dom().insert(last.0));
    } else {
        assert(entries_map(es).dom() =~= Set::<Seq<char>>::empty());
    }
}

impl View for ApiKeys {
    type V = Map<Seq<char>, Seq<char>>;

    closed spec fn view(&self) -> Map<Seq<char>, Seq<char>> {
        entries_map(entry_views(self.entries@))
    }
}

impl ApiKeys {
    #[verifier::type_invariant]
    spec fn well_formed(&self) -> bool {
        distinct_keys(entry_views(self.entries@))
    }

    /// The (key, value) pairs, in insertion order.
    pub closed spec fn pairs(&self) -> Seq<(Seq<char>, Seq<char>)> {
        entry_views(self.entries@)
    }

    /// A store without keys.
    pub fn new() -> (k: ApiKeys)
        ensures
            k@ == Map::<Seq<char>, Seq<char>>::empty(),
            k.pairs().len() == 0,
    {
        let k = ApiKeys { entries: Vec::new() };
        proof {
            assert(entry_views(k.entries@) =~= Seq::<(Seq<char>, Seq<char>)>::empty());
        }
        k
    }

    /// The number of keys.
    pub fn len(&self) -> (n: usize)
        ensures
            n == self@.len(),
            n == self.pairs().len(),
    {
        proof {
            use_type_invariant(self);
            lemma_entries_map(entry_views(self.entries@));
        }
        self.entries.len()
    }

    /// Whether no key is stored.
    pub fn is_empty(&self) -> (b: bool)
        ensures
            b == (self@.len() == 0),
    {
        self.len() == 0
    }

    fn position(&self, id: &str) -> (r: Option<usize>)
        ensures
            match r {
                Some(i) => i < self.entries.len() && self.entries@[i as int].0@ == id@,
                None => forall|i: int|
                    0 <= i < self.entries.len() ==> (#[trigger] self.entries@[i]).0@ != id@,
            },
    {
        let mut i: usize = 0;
        while i < self.entries.len()
            invariant
                0 <= i <= self.entries.len(),
                forall|k: int| 0 <= k < i ==> (#[trigger] self.entries@[k]).0@ != id@,
            decreases self.entries.len() - i,
        {
            if str_eq(self.entries[i].0.as_str(), id) {
                return Some(i);
            }
            i = i + 1;
        }
        None
    }

    /// The key stored for `id`.
    pub fn get(&self, id: &str) -> (r: Option<&String>)
        ensures
            match r {
                Some(v) => self@.contains_key(id@) && self@[id@] == v@,
                None => !self@.contains_key(id@),
            },
    {
        proof {
            use_type_invariant(self);
            lemma_entries_map(entry_views(self.entries@));
        }
        let ghost es = entry_views(self.entries@);
        match self.position(id) {
            Some(i) => {
                proof {
                    assert(es[i as int] == (self.entries@[i as int].0@, self.entries@[i as int].1@));
                }
                Some(&self.entries[i].1)
            },
            None => {
                proof {
                    if self@.contains_key(id@) {
                        let j = choose|j: int| 0 <= j < es.len() && (#[trigger] es[j]).0 == id@;
                        assert(es[j].0 == self.entries@[j].0@);
                    }
                }
                None
            },
        }
    }

    /// Stores `value` for `id`, replacing an earlier key.
    pub fn insert(&mut self, id: String, value: String)
        ensures
            final(self)@ == old(self)@.insert(id@, value@),
    {
        proof {
            use_type_invariant(&*self);
            lemma_entries_map(entry_views(self.entries@));
        }
        let ghost es = entry_views(self.entries@);
        match self.position(id.as_str()) {
            Some(i) => {
                let ghost new_es = es.update(i as int, (id@, value@));
                proof {
                    assert(distinct_keys(new_es)) by {
                        assert forall|a: int, b: int| 0 <= a < b < new_es.len() implies (
                        #[trigger] new_es[a]).0 != (#[trigger] new_es[b]).0 by {
                            assert(es[i as int].0 == id@);
                        }
                    }
                    lemma_entries_map(new_es);
                    assert(entries_map(new_es) =~= entries_map(es).insert(id@, value@)) by {
                        assert forall|key: Seq<char>| entries_map(new_es).contains_key(key) <==> entries_map(
                            es,
                        ).insert(id@, value@).contains_key(key) by {
                            if entries_map(new_es).contains_key(key) {
                                let j = choose|j: int| 0 <= j < new_es.len() && (#[trigger] new_es[j]).0 == key;
                                assert(es[j].0 == key || key == id@);
                            }
                            if entries_map(es).contains_key(key) {
                                let j = choose|j: int| 0 <= j < es.len() && (#[trigger] es[j]).0 == key;
                                assert(new_es[j].0 == key);
                            }
                            assert(new_es[i as int].0 == id@);
                        }
                        assert forall|key: Seq<char>| entries_map(new_es).contains_key(key) implies entries_map(
                            new_es,
                        )[key] == entries_map(es).insert(id@, value@)[key] by {
                            let j = choose|j: int| 0 <= j < new_es.len() && (#[trigger] new_es[j]).0 == key;
                            assert(entries_map(new_es)[key] == new_es[j].1);
                            if key != id@ {
                                assert(j != i);
                                assert(new_es[j] == es[j]);
                                assert(entries_map(es)[key] == es[j].1);
                            } else {
                                assert(new_es[i as int].0 == id@);
                                assert(j == i);
                            }
                        }
                    }
                }
                let mut entries: Vec<(String, String)> = Vec::new();
                std::mem::swap(&mut entries, &mut self.entries);
                entries.set(i, (id, value));
                proof {
                    assert(entry_views(entries@) =~= new_es);
                }
                self.entries = entries;
            },
            None => {
                let ghost before = es;
                let mut entries: Vec<(String, String)> = Vec::new();
                std::mem::swap(&mut entries, &mut self.entries);
                entries.push((id, value));
                proof {
                    let after = entry_views(entries@);
                    assert(after =~= before.push((id@, value@)));
                    assert(after.drop_last() =~= before);
                    assert(distinct_keys(after)) by {
                        assert forall|a: int, b: int| 0 <= a < b < after.len() implies (
                        #[trigger] after[a]).0 != (#[trigger] after[b]).0 by {
                            if b == after.len() - 1 {
                                assert(before[a].0 == entries@[a].0@);
                            } else {
                                assert(after[a] == before[a] && after[b] == before[b]);
                            }
                        }
                    }
                }
                self.entries = entries;
            },
        }
    }

    /// Removes the key stored for `id`, if any.
    pub fn remove(&mut self, id: &str)
        ensures
            final(self)@ == old(self)@.remove(id@),
    {
        proof {
            use_type_invariant(&*self);
            lemma_entries_map(entry_views(self.entries@));
        }
        let ghost es = entry_views(self.entries@);
        match self.position(id) {
            Some(i) => {
                let ghost new_es = es.remove(i as int);
                proof {
                    assert(distinct_keys(new_es)) by {
                        assert forall|a: int, b: int| 0 <= a < b < new_es.len() implies (
                        #[trigger] new_es[a]).0 != (#[trigger] new_es[b]).0 by {
                            if a < i {
                                if b < i {
                                    assert(new_es[b] == es[b]);
                                } else {
                                    assert(new_es[b] == es[b + 1]);
                                }
                                assert(new_es[a] == es[a]);
                            } else {
                                assert(new_es[a] == es[a + 1] && new_es[b] == es[b + 1]);
                            }
                        }
                    }
                    lemma_entries_map(new_es);
                    assert(entries_map(new_es) =~= entries_map(es).remove(id@)) by {
                        assert forall|key: Seq<char>| entries_map(new_es).contains_key(key) <==> entries_map(
                            es,
                        ).remove(id@).contains_key(key) by {
                            if entries_map(new_es).contains_key(key) {
                                let j = choose|j: int| 0 <= j < new_es.len() && (#[trigger] new_es[j]).0 == key;
                                if j < i {
                                    assert(new_es[j] == es[j]);
                                    assert(es[j].0 != es[i as int].0);
                                } else {
                                    assert(new_es[j] == es[j + 1]);
                                    assert(es[j + 1].0 != es[i as int].0);
                                }
                            }
                            if entries_map(es).remove(id@).contains_key(key) {
                                let j = choose|j: int| 0 <= j < es.len() && (#[trigger] es[j]).0 == key;
                                assert(j != i);
                                if j < i {
                                    assert(new_es[j] == es[j]);
                                } else {
                                    assert(new_es[j - 1] == es[j]);
                                }
                            }
                        }
                        assert forall|key: Seq<char>| entries_map(new_es).contains_key(key) implies entries_map(
                            new_es,
                        )[key] == entries_map(es).remove(id@)[key] by {
                            let j = choose|j: int| 0 <= j < new_es.len() && (#[trigger] new_es[j]).0 == key;
                            if j < i {
                                assert(new_es[j] == es[j]);
                                assert(es[j].0 != es[i as int].0);
                            } else {
                                assert(new_es[j] == es[j + 1]);
                                assert(es[j + 1].0 != es[i as int].0);
                            }
                        }
                    }
                }
                let mut entries: Vec<(String, String)> = Vec::new();
                std::mem::swap(&mut entries, &mut self.entries);
                let _removed = entries.remove(i);
                proof {
                    assert(entry_views(entries@) =~= new_es);
                }
                self.entries = entries;
            },
            None => {
                proof {
                    assert(!entries_map(es).contains_key(id@)) by {
                        if entries_map(es).contains_key(id@) {
                            let j = choose|j: int| 0 <= j < es.len() && (#[trigger] es[j]).0 == id@;
                            assert(es[j].0 == self.entries@[j].0@);
                        }
                    }
                    assert(entries_map(es).remove(id@) =~= entries_map(es));
                }
            },
        }
    }
}

/// The key for a profile: its own, else the `default` key, else empty.
pub open spec fn key_for_profile(keys: Map<Seq<char>, Seq<char>>, profile_id: Seq<char>) -> Seq<char> {
    if keys.contains_key(profile_id) {
        keys[profile_id]
    } else if keys.contains_key("default"@) {
        keys["default"@]
    } else {
        Seq::empty()
    }
}

/// The API key to send for `profile_id`: the profile's own key, else the
/// `default` key, else the empty string.
pub fn api_key_for_profile(api_keys: &ApiKeys, profile_id: &str) -> (k: String)
    ensures
        k@ == key_for_profile(api_keys@, profile_id@),
{
    match api_keys.get(profile_id) {
        Some(k) => k.clone(),
        None => match api_keys.get("default") {
            Some(k) => k.clone(),
            None => String::new(),
        },
    }
}

/// A key stored for a profile is the key that profile's requests use.
pub proof fn law_stored_key_is_used(keys: Map<Seq<char>, Seq<char>>, profile_id: Seq<char>, key: Seq<char>)
    ensures
        key_for_profile(keys.insert(profile_id, key), profile_id) == key,
{
}

/// After a profile's key is removed, its requests use the `default` key, or
/// no key when there is none (or the removed key was the default one).
pub proof fn law_removed_key_falls_back(keys: Map<Seq<char>, Seq<char>>, profile_id: Seq<char>)
    ensures
        key_for_profile(keys.remove(profile_id), profile_id) == if profile_id != "default"@
            && keys.contains_key("default"@) {
            keys["default"@]
        } else {
            Seq::empty()
        },
{
}

/// Storing or removing one profile's key leaves the key of every other
/// profile as it was, unless the changed key is the `default` one that
/// profiles without a key of their own fall back to.
pub proof fn law_other_profiles_keep_their_key(
    keys: Map<Seq<char>, Seq<char>>,
    changed: Seq<char>,
    key: Seq<char>,
    other: Seq<char>,
)
    requires
        other != changed,
        changed != "default"@,
    ensures
        key_for_profile(keys.insert(changed, key), other) == key_for_profile(keys, other),
        key_for_profile(keys.remove(changed), other) == key_for_profile(keys, other),
{
}


// ---------------------------------------------------------------------------
// Serialized payload
// ---------------------------------------------------------------------------

#[verifier::external_type_specification]
#[verifier::external_body]
pub struct ExJsonError(serde_json::Error);

#[verifier::external_type_specification]
#[verifier::external_body]
pub struct ExFromUtf8Error(std::string::FromUtf8Error);

/// The bytes `serde_json::to_vec` writes for a `BTreeMap<String, String>`
/// holding the map `m`.
pub uninterp spec fn json_of_string_map(m: Map<Seq<char>, Seq<char>>) -> Seq<u8>;

/// The map that `serde_json::from_str::<BTreeMap<String, String>>` reads from
/// `text`, or `None` where it fails.
pub uninterp spec fn string_map_of_json(text: Seq<char>) -> Option<Map<Seq<char>, Seq<char>>>;

/// Serializes the entries, as a `BTreeMap<String, String>`, with
/// `serde_json::to_vec`.
///
/// The contract claims what serde_json's documentation and source give: a
/// map with string keys always serializes; the bytes depend on the map alone;
/// they are UTF-8 JSON text that starts with `{`, and `serde_json::from_str`
/// reads the same map back from that text. The exact text is not stated.
#[verifier::external_body]
fn json_encode_string_map(entries: &Vec<(String, String)>) -> (r: Result<Vec<u8>, serde_json::Error>)
    requires
        distinct_keys(entry_views(entries@)),
    ensures
        r is Ok,
        r matches Ok(bytes) ==> {
            &&& bytes@ == json_of_string_map(entries_map(entry_views(entries@)))
            &&& valid_utf8(bytes@)
            &&& decode_utf8(bytes@).len() > 0
            &&& decode_utf8(bytes@)[0] == '{'
            &&& string_map_of_json(decode_utf8(bytes@)) == Some(entries_map(entry_views(entries@)))
        },
{
    let map: std::collections::BTreeMap<String, String> = entries.iter().cloned().collect();
    serde_json::to_vec(&map)
}

/// Reads a `BTreeMap<String, String>` from JSON text with
/// `serde_json::from_str`, handing out its entries.
///
/// The contract claims that the outcome depends on the text alone, that the
/// entries are those of the map `string_map_of_json` names, and that no key
/// occurs twice among them (they come from a map).
#[verifier::external_body]
fn json_decode_string_map(text: &str) -> (r: Result<Vec<(String, String)>, serde_json::Error>)
    ensures
        r is Ok <==> string_map_of_json(text@) is Some,
        r matches Ok(entries) ==> distinct_keys(entry_views(entries@)) && Some(
            entries_map(entry_views(entries@)),
        ) == string_map_of_json(text@),
{
    let map: std::collections::BTreeMap<String, String> = serde_json::from_str(text)?;
    Ok(map.into_iter().collect())
}

/// Decodes UTF-8 bytes with `String::from_utf8`: `Ok` exactly for valid
/// UTF-8, holding the decoded characters.
#[verifier::external_body]
fn string_from_utf8(bytes: Vec<u8>) -> (r: Result<String, std::string::FromUtf8Error>)
    ensures
        r is Ok <==> valid_utf8(bytes@),
        r matches Ok(s) ==> s@ == decode_utf8(bytes@),
{
    String::from_utf8(bytes)
}

/// Why a key payload could not be read.
#[derive(Debug)]
pub enum SecretsError {
    /// The payload is not UTF-8.
    InvalidUtf8(std::string::FromUtf8Error),
    /// The payload looks like JSON but is not a string map.
    Json(serde_json::Error),
}

/// The keys a payload holds: a JSON object of profile ids to keys, or, for
/// text that does not start with `{` (after white space), a single key kept
/// under `default`.
pub open spec fn decoded_keys(bytes: Seq<u8>) -> Option<Map<Seq<char>, Seq<char>>> {
    if !valid_utf8(bytes) {
        None
    } else {
        let text = decode_utf8(bytes);
        let t = trim_start(text);
        if t.len() > 0 && t[0] == '{' {
            string_map_of_json(text)
        } else {
            Some(Map::empty().insert("default"@, text))
        }
    }
}

impl ApiKeys {
    /// Keys from entries with distinct ids.
    fn from_distinct_entries(entries: Vec<(String, String)>) -> (k: ApiKeys)
        requires
            distinct_keys(entry_views(entries@)),
        ensures
            k@ == entries_map(entry_views(entries@)),
    {
        ApiKeys { entries }
    }

    /// A copy of these keys.
    pub fn duplicate(&self) -> (k: ApiKeys)
        ensures
            k@ == self@,
    {
        proof {
            use_type_invariant(self);
        }
        let es = self.entries_copy();
        ApiKeys { entries: es }
    }

    fn entries_copy(&self) -> (es: Vec<(String, String)>)
        ensures
            entry_views(es@) == entry_views(self.entries@),
    {
        let mut es: Vec<(String, String)> = Vec::new();
        let mut i: usize = 0;
        while i < self.entries.len()
            invariant
                i <= self.entries.len(),
                es.len() == i,
                entry_views(es@) == entry_views(self.entries@).take(i as int),
            decreases self.entries.len() - i,
        {
            let id = string_from(self.entries[i].0.as_str());
            let key = string_from(self.entries[i].1.as_str());
            let ghost before = es@;
            let ghost pair = (id@, key@);
            es.push((id, key));
            proof {
                assert(es@ == before.push(es@[i as int]));
                assert(entry_views(es@)[i as int] == pair);
                assert(entry_views(self.entries@)[i as int] == pair);
                assert forall|k: int| 0 <= k < i implies #[trigger] entry_views(es@)[k] == entry_views(
                    before,
                )[k] by {
                    assert(es@[k] == before[k]);
                }
                assert(entry_views(es@) =~= entry_views(self.entries@).take(i + 1));
            }
            i = i + 1;
        }
        proof {
            assert(entry_views(self.entries@).take(self.entries.len() as int) =~= entry_views(
                self.entries@,
            ));
        }
        es
    }
}

/// The payload that stores `keys`: a JSON object of profile ids to keys. The
/// payload reads back as the same keys.
pub fn serialize_keys(keys: &ApiKeys) -> (r: Result<Vec<u8>, SecretsError>)
    ensures
        r matches Ok(bytes) && bytes@ == json_of_string_map(keys@) && decoded_keys(bytes@) == Some(
            keys@,
        ),
{
    proof {
        use_type_invariant(keys);
    }
    let entries = keys.entries_copy();
    match json_encode_string_map(&entries) {
        Ok(bytes) => {
            proof {
                let text = decode_utf8(bytes@);
                assert(!is_ws(text[0]));
                assert(trim_start(text) == text);
            }
            Ok(bytes)
        },
        Err(e) => Err(SecretsError::Json(e)),
    }
}

/// Reads keys from a payload: a JSON object of profile ids to keys, or plain
/// text, which is kept as the `default` key.
pub fn deserialize_keys(bytes: &[u8]) -> (r: Result<ApiKeys, SecretsError>)
    ensures
        match decoded_keys(bytes@) {
            Some(m) => r matches Ok(k) && k@ == m,
            None => r is Err,
        },
        !valid_utf8(bytes@) ==> r matches Err(SecretsError::InvalidUtf8(_)),
{
    let mut owned: Vec<u8> = Vec::new();
    let mut i: usize = 0;
    while i < bytes.len()
        invariant
            i <= bytes.len(),
            owned@ == bytes@.take(i as int),
        decreases bytes.len() - i,
    {
        owned.push(bytes[i]);
        proof {
            assert(owned@ =~= bytes@.take(i + 1));
        }
        i = i + 1;
    }
    proof {
        assert(bytes@.take(bytes.len() as int) =~= bytes@);
    }
    let text = match string_from_utf8(owned) {
        Ok(t) => t,
        Err(e) => return Err(SecretsError::InvalidUtf8(e)),
    };
    let cs = chars_of(text.as_str());
    let mut j: usize = 0;
    proof {
        assert(cs@.skip(0) =~= cs@);
    }
    while j < cs.len() && is_whitespace(cs[j])
        invariant
            j <= cs.len(),
            trim_start(cs@) == trim_start(cs@.skip(j as int)),
        decreases cs.len() - j,
    {
        proof {
            let t = cs@.skip(j as int);
            assert(t.drop_first() =~= cs@.skip(j + 1));
        }
        j = j + 1;
    }
    proof {
        let t = cs@.skip(j as int);
        assert(trim_start(t) == t);
    }
    if j < cs.len() && cs[j] == '{' {
        match json_decode_string_map(text.as_str()) {
            Ok(entries) => Ok(ApiKeys::from_distinct_entries(entries)),
            Err(e) => Err(SecretsError::Json(e)),
        }
    } else {
        let mut keys = ApiKeys::new();
        keys.insert(string_from("default"), text);
        proof {
            assert(keys@ =~= Map::empty().insert("default"@, decode_utf8(bytes@)));
        }
        Ok(keys)
    }
}

} // verus!
