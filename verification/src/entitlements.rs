//! Entitlements as JSON documents: which of a bundle's entitlements are
//! kept when it is signed with another profile.

use vstd::prelude::*;
use crate::error::TossError;
use crate::keyed_map::KeyedMap;

verus! {

#[verifier::external_type_specification]
#[verifier::external_body]
pub struct ExJsonValue(serde_json::Value);

#[verifier::external_type_specification]
#[verifier::external_body]
pub struct ExJsonError(serde_json::Error);

/// `Value::clone` gives an equal value.
pub assume_specification[<serde_json::Value as Clone>::clone](v: &serde_json::Value) -> (r: serde_json::Value)
    ensures
        r == *v,
;

/// What `serde_json::from_slice` reads from these bytes, as far as its
/// shape goes: `None` when they do not hold one JSON value; `Some(None)` for
/// a value that is not an object; `Some(Some(keys))` for an object, with its
/// member names in the map's iteration order.
pub uninterp spec fn json_shape(bytes: Seq<u8>) -> Option<Option<Seq<Seq<char>>>>;

/// The bytes hold one JSON value.
pub open spec fn json_parses(bytes: Seq<u8>) -> bool {
    json_shape(bytes) is Some
}

/// The bytes, where they read back as one JSON value, read back as an object
/// with these member names.
pub open spec fn json_object_keys(bytes: Seq<u8>, names: Seq<Seq<char>>) -> bool {
    json_shape(bytes) matches Some(s) ==> (s matches Some(keys)
        && forall|k: Seq<char>| #[trigger] keys.contains(k) <==> names.contains(k))
}

/// The members of a JSON object, name and value, as a map hands them out.
pub type JsonEntries = Vec<(String, serde_json::Value)>;

/// The names of the members of entries.
pub open spec fn entry_keys(entries: Seq<(String, serde_json::Value)>) -> Seq<Seq<char>> {
    Seq::new(entries.len(), |i: int| entries[i].0@)
}

/// `serde_json::from_slice` into a `Value`, an object taken apart into its
/// entries (`Value::Object`, collected from the map's `into_iter`) and any
/// other value kept whole. Claimed: the result is the named shape of the
/// bytes, the entries' names given in iteration order.
#[verifier::external_body]
fn parse_value(bytes: &[u8]) -> (r: Result<Result<Vec<(String, serde_json::Value)>, serde_json::Value>, serde_json::Error>)
    ensures
        match r {
            Err(_) => json_shape(bytes@) is None,
            Ok(Err(_)) => json_shape(bytes@) == Some(None::<Seq<Seq<char>>>),
            Ok(Ok(entries)) => json_shape(bytes@) == Some(Some(entry_keys(entries@))),
        },
{
    match serde_json::from_slice::<serde_json::Value>(bytes) {
        Ok(serde_json::Value::Object(m)) => Ok(Ok(m.into_iter().collect())),
        Ok(other) => Ok(Err(other)),
        Err(e) => Err(e),
    }
}

/// `serde_json::to_vec` of a document: an object made from entries
/// (`Value::Object`, its map collected from them) or a value taken whole.
/// Claimed: it succeeds (the writer is a `Vec`, whose writes cannot fail, and
/// `Value`'s `Serialize` hands the serializer only string keys, integers and
/// floats, non-finite ones written as `null`); and the bytes written for an
/// object, where `serde_json::from_slice` reads them back, read back as an
/// object with the same member names, as `to_vec` writes each member of the
/// map under its name. The bytes themselves are not claimed.
#[verifier::external_body]
fn json_to_vec(doc: Result<JsonEntries, serde_json::Value>) -> (r: Result<Vec<u8>, serde_json::Error>)
    ensures
        match doc {
            Ok(entries) => match r {
                Ok(b) => json_object_keys(b@, entry_keys(entries@)),
                Err(_) => false,
            },
            Err(_) => r is Ok,
        },
{
    let v = match doc {
        Ok(entries) => serde_json::Value::Object(entries.into_iter().collect()),
        Err(v) => v,
    };
    serde_json::to_vec(&v)
}

/// The message of a `serde_json::Error` (its `Display` text).
#[verifier::external_body]
fn json_error_text(e: &serde_json::Error) -> (r: String) {
    e.to_string()
}

/// A JSON document: an object, whose members are kept by name, or any other
/// value.
#[derive(Debug)]
pub enum JsonDoc {
    Object(KeyedMap<serde_json::Value>),
    Other(serde_json::Value),
}

impl JsonDoc {
    /// Reads a JSON document: an object keeps its members by name, any other
    /// value is kept whole.
    pub fn parse(bytes: &[u8]) -> (r: Result<JsonDoc, TossError>)
        ensures
            r is Ok <==> json_parses(bytes@),
            r matches Err(e) ==> e is Json,
            json_shape(bytes@) == Some(None::<Seq<Seq<char>>>) ==> r matches Ok(JsonDoc::Other(_)),
            json_shape(bytes@) matches Some(Some(keys)) ==> (r matches Ok(JsonDoc::Object(m))
                && forall|k: Seq<char>| #[trigger] m@.dom().contains(k) <==> keys.contains(k)),
    {
        let parsed = match parse_value(bytes) {
            Ok(p) => p,
            Err(e) => return Err(TossError::Json(json_error_text(&e))),
        };
        match parsed {
            Ok(entries) => {
                let ghost keys = entry_keys(entries@);
                let mut m: KeyedMap<serde_json::Value> = KeyedMap::new();
                let mut i: usize = 0;
                let n = entries.len();
                let mut rest = entries;
                while i < n
                    invariant
                        i <= n,
                        n == keys.len(),
                        rest@.len() == n - i,
                        forall|j: int| 0 <= j < rest@.len() ==> #[trigger] rest@[j].0@ == keys[i + j],
                        forall|k: Seq<char>| #[trigger] m@.dom().contains(k) <==> keys.subrange(0, i as int).contains(k),
                    decreases n - i,
                {
                    let ghost before = rest@;
                    let (k, val) = rest.remove(0);
                    proof {
                        assert(k@ == keys[i as int]);
                        assert forall|j: int| 0 <= j < rest@.len() implies #[trigger] rest@[j].0@ == keys[i + 1 + j] by {
                            assert(rest@[j] == before[j + 1]);
                        }
                    }
                    let ghost kv = k@;
                    m.insert(k, val);
                    proof {
                        let pre = keys.subrange(0, i as int);
                        let post = keys.subrange(0, i + 1);
                        assert(post =~= pre.push(kv));
                        assert forall|x: Seq<char>| #[trigger] m@.dom().contains(x) <==> post.contains(x) by {
                            if post.contains(x) && x != kv {
                                let q = choose|q: int| 0 <= q < post.len() && post[q] == x;
                                assert(pre[q] == x);
                            }
                            if pre.contains(x) {
                                let q = choose|q: int| 0 <= q < pre.len() && pre[q] == x;
                                assert(post[q] == x);
                            }
                            if x == kv {
                                assert(post[i as int] == x);
                            }
                        }
                    }
                    i = i + 1;
                }
                assert(keys.subrange(0, n as int) =~= keys);
                Ok(JsonDoc::Object(m))
            },
            Err(other) => Ok(JsonDoc::Other(other)),
        }
    }

    /// Writes the document as compact JSON. An object is written with all
    /// of its members, so that the bytes, where they read back, read back as
    /// an object with the same member names.
    pub fn to_json_bytes(&self) -> (r: Result<Vec<u8>, TossError>)
        ensures
            r is Ok,
            self matches JsonDoc::Object(m) ==> (r matches Ok(b) && json_object_keys(b@, m.key_seq())),
    {
        let doc = match self {
            JsonDoc::Object(m) => {
                let keys = m.keys();
                let mut entries: Vec<(String, serde_json::Value)> = Vec::new();
                let mut i: usize = 0;
                while i < keys.len()
                    invariant
                        i <= keys@.len(),
                        forall|k: Seq<char>| #[trigger] m@.dom().contains(k) <==> exists|j: int| 0 <= j < keys@.len() && #[trigger] keys@[j]@ == k,
                        forall|k: Seq<char>| #[trigger] entry_keys(entries@).contains(k) <==> exists|j: int| 0 <= j < i && #[trigger] keys@[j]@ == k,
                    decreases keys@.len() - i,
                {
                    let ghost before = entries@;
                    assert(m@.dom().contains(keys@[i as int]@));
                    if let Some(v) = m.get(keys[i].as_str()) {
                        entries.push((keys[i].clone(), v.clone()));
                    }
                    proof {
                        assert(entry_keys(entries@) =~= entry_keys(before).push(keys@[i as int]@));
                        assert forall|k: Seq<char>| #[trigger] entry_keys(entries@).contains(k) <==> exists|j: int| 0 <= j < i + 1 && #[trigger] keys@[j]@ == k by {
                            if entry_keys(entries@).contains(k) && k != keys@[i as int]@ {
                                let q = choose|q: int| 0 <= q < entry_keys(entries@).len() && entry_keys(entries@)[q] == k;
                                assert(entry_keys(before)[q] == k);
                                assert(entry_keys(before).contains(k));
                                let j = choose|j: int| 0 <= j < i && #[trigger] keys@[j]@ == k;
                                assert(keys@[j]@ == k);
                            }
                            if exists|j: int| 0 <= j < i && #[trigger] keys@[j]@ == k {
                                assert(entry_keys(before).contains(k));
                                let q = choose|q: int| 0 <= q < entry_keys(before).len() && entry_keys(before)[q] == k;
                                assert(entry_keys(entries@)[q] == k);
                            }
                            if k == keys@[i as int]@ {
                                assert(entry_keys(entries@)[before.len() as int] == k);
                            }
                        }
                    }
                    i = i + 1;
                }
                proof {
                    assert forall|k: Seq<char>| #[trigger] m.key_seq().contains(k) <==> entry_keys(entries@).contains(k) by {
                        if m.key_seq().contains(k) {
                            let q = choose|q: int| 0 <= q < m.key_seq().len() && m.key_seq()[q] == k;
                            assert(keys@[q]@ == k);
                        }
                        if entry_keys(entries@).contains(k) {
                            let j = choose|j: int| 0 <= j < keys@.len() && #[trigger] keys@[j]@ == k;
                            assert(m.key_seq()[j] == k);
                        }
                    }
                }
                Ok(entries)
            },
            JsonDoc::Other(v) => Err(v.clone()),
        };
        match json_to_vec(doc) {
            Ok(b) => Ok(b),
            Err(e) => Err(TossError::Json(json_error_text(&e))),
        }
    }

    /// The member of an object under `key`.
    pub fn get(&self, key: &str) -> (r: Option<&serde_json::Value>)
        ensures
            match self {
                JsonDoc::Object(m) => r is Some == m@.dom().contains(key@) && (r matches Some(v) ==> *v == m@[key@]),
                JsonDoc::Other(_) => r is None,
            },
    {
        match self {
            JsonDoc::Object(m) => m.get(key),
            JsonDoc::Other(_) => None,
        }
    }

    /// Whether an object has a member under `key`.
    pub fn contains_key(&self, key: &str) -> (b: bool)
        ensures
            b == (self matches JsonDoc::Object(m) && m@.dom().contains(key@)),
    {
        match self {
            JsonDoc::Object(m) => m.contains_key(key),
            JsonDoc::Other(_) => false,
        }
    }
}

/// Entitlements whose values always come from the profile.
pub open spec fn required_entitlement(k: Seq<char>) -> bool {
    k == "application-identifier"@ || k == "com.apple.developer.team-identifier"@ || k == "keychain-access-groups"@
        || k == "get-task-allow"@ || k == "aps-environment"@
}

/// The entitlements a bundle is signed with, given the profile's and the
/// bundle's own (when they are objects): the profile's values of the
/// bundle's own entitlements and of the required ones; all of the profile's
/// when that leaves none.
pub open spec fn merged_view(profile: Map<Seq<char>, serde_json::Value>, original: Option<Map<Seq<char>, serde_json::Value>>) -> Map<Seq<char>, serde_json::Value> {
    let keys = Set::new(|k: Seq<char>| profile.dom().contains(k) && (required_entitlement(k)
        || (original matches Some(o) && o.dom().contains(k))));
    if keys.is_empty() {
        profile
    } else {
        profile.restrict(keys)
    }
}

fn copy_map(m: &KeyedMap<serde_json::Value>) -> (r: KeyedMap<serde_json::Value>)
    ensures
        r@ == m@,
{
    let keys = m.keys();
    let mut r: KeyedMap<serde_json::Value> = KeyedMap::new();
    let mut i: usize = 0;
    while i < keys.len()
        invariant
            i <= keys@.len(),
            forall|k: Seq<char>| #[trigger] m@.dom().contains(k) <==> exists|j: int| 0 <= j < keys@.len() && #[trigger] keys@[j]@ == k,
            r@ == m@.restrict(Set::new(|k: Seq<char>| exists|j: int| 0 <= j < i && #[trigger] keys@[j]@ == k)),
        decreases keys@.len() - i,
    {
        let ghost before = r@;
        let key = keys[i].clone();
        assert(m@.dom().contains(keys@[i as int]@));
        match m.get(key.as_str()) {
            Some(v) => {
                r.insert(key, v.clone());
            },
            None => {},
        }
        assert(r@ =~= m@.restrict(Set::new(|k: Seq<char>| exists|j: int| 0 <= j < i + 1 && #[trigger] keys@[j]@ == k)));
        i = i + 1;
    }
    assert(r@ =~= m@);
    r
}

fn insert_from(merged: &mut KeyedMap<serde_json::Value>, profile: &KeyedMap<serde_json::Value>, key: &str)
    ensures
        profile@.dom().contains(key@) ==> final(merged)@ == old(merged)@.insert(key@, profile@[key@]),
        !profile@.dom().contains(key@) ==> final(merged)@ == old(merged)@,
{
    if let Some(v) = profile.get(key) {
        merged.insert(key.to_string(), v.clone());
    }
}

/// Chooses the entitlements a bundle is signed with from the profile's and
/// the bundle's own.
pub fn merged_entitlements(profile_entitlements: &JsonDoc, original_entitlements: Option<&JsonDoc>) -> (r: JsonDoc)
    ensures
        match *profile_entitlements {
            JsonDoc::Other(v) => r == JsonDoc::Other(v),
            JsonDoc::Object(p) => r matches JsonDoc::Object(m) && m@ == merged_view(p@, match original_entitlements {
                Some(JsonDoc::Object(o)) => Some(o@),
                _ => None,
            }),
        },
{
    let p = match profile_entitlements {
        JsonDoc::Other(v) => return JsonDoc::Other(v.clone()),
        JsonDoc::Object(p) => p,
    };
    let ghost orig = match original_entitlements {
        Some(JsonDoc::Object(o)) => Some(o@),
        _ => None,
    };
    let ghost keys = Set::new(|k: Seq<char>| p@.dom().contains(k) && (required_entitlement(k)
        || (orig matches Some(o) && o.dom().contains(k))));
    let mut merged: KeyedMap<serde_json::Value> = KeyedMap::new();
    if let Some(JsonDoc::Object(o)) = original_entitlements {
        let ok = o.keys();
        let mut i: usize = 0;
        while i < ok.len()
            invariant
                i <= ok@.len(),
                forall|k: Seq<char>| #[trigger] o@.dom().contains(k) <==> exists|j: int| 0 <= j < ok@.len() && #[trigger] ok@[j]@ == k,
                merged@ == p@.restrict(Set::new(|k: Seq<char>| exists|j: int| 0 <= j < i && #[trigger] ok@[j]@ == k)),
            decreases ok@.len() - i,
        {
            insert_from(&mut merged, p, ok[i].as_str());
            assert(merged@ =~= p@.restrict(Set::new(|k: Seq<char>| exists|j: int| 0 <= j < i + 1 && #[trigger] ok@[j]@ == k)));
            i = i + 1;
        }
        assert(merged@ =~= p@.restrict(o@.dom()));
    } else {
        assert(merged@ =~= p@.restrict(Set::<Seq<char>>::empty()));
    }
    let ghost base = match orig {
        Some(o) => o.dom(),
        None => Set::<Seq<char>>::empty(),
    };
    assert(merged@ == p@.restrict(base));
    insert_from(&mut merged, p, "application-identifier");
    insert_from(&mut merged, p, "com.apple.developer.team-identifier");
    insert_from(&mut merged, p, "keychain-access-groups");
    insert_from(&mut merged, p, "get-task-allow");
    insert_from(&mut merged, p, "aps-environment");
    assert(merged@ =~= p@.restrict(keys));
    if merged.is_empty() {
        assert(keys =~= Set::<Seq<char>>::empty()) by {
            assert forall|k: Seq<char>| !keys.contains(k) by {
                if keys.contains(k) {
                    assert(merged@.dom().contains(k));
                }
            }
        }
        JsonDoc::Object(copy_map(p))
    } else {
        assert(!keys.is_empty()) by {
            if keys.is_empty() {
                assert(keys =~= Set::<Seq<char>>::empty());
                assert(merged@ =~= Map::<Seq<char>, serde_json::Value>::empty());
            }
        }
        JsonDoc::Object(merged)
    }
}

} // verus!
