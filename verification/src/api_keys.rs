//! Registering API keys and the devices they are bound to.
use vstd::prelude::*;
use vstd::string::StringExecFns;

use crate::auth::{has_hash, is_first_with_hash, find_registered_key, RegisteredApiKey};
use crate::repository::{Device, RigResultPartialSpec};

verus! {

/// The length of a generated API key.
pub const GENERATED_API_KEY_LENGTH: usize = 52;

/// A character of nanoid's URL-safe alphabet: `A-Z`, `a-z`, `0-9`, `_` and `-`.
pub open spec fn is_safe_char(c: char) -> bool {
    ('A' <= c <= 'Z') || ('a' <= c <= 'z') || ('0' <= c <= '9') || c == '_' || c == '-'
}

/// A random API key from nanoid (`nanoid::format` with nanoid's default random source
/// and its URL-safe alphabet, which is what `nanoid!(52)` expands to). The key is random:
/// what is claimed is only what holds of every outcome, its length and its alphabet.
#[verifier::external_body]
pub(crate) fn create_api_key() -> (key: String)
    ensures
        key@.len() == GENERATED_API_KEY_LENGTH,
        forall|i: int| 0 <= i < key@.len() ==> is_safe_char(#[trigger] key@[i]),
{
    nanoid::format(nanoid::rngs::default, &nanoid::alphabet::SAFE, GENERATED_API_KEY_LENGTH)
}

/// The key to register: the unhashed key where it is known, and the hash where it was given.
pub struct NewApiKey {
    pub api_key: Option<String>,
    pub hashed_key: Option<String>,
}

/// A key made by `create_api_key`: of its length and alphabet.
pub open spec fn is_generated_key(key: Option<String>) -> bool {
    key matches Some(k) && k@.len() == GENERATED_API_KEY_LENGTH && forall|i: int|
        0 <= i < k@.len() ==> is_safe_char(#[trigger] k@[i])
}

/// The refusal of a key given both plainly and hashed.
pub open spec fn both_keys_message() -> Seq<char> {
    "You cannot provide both an API key and a hashed API key."@
}

/// The key to register from the command's arguments: a given key (to be hashed), a
/// given hash, or, with neither, a freshly generated key. Both at once is refused.
pub fn new_api_key(api_key: Option<String>, hashed_api_key: Option<String>) -> (r: Result<NewApiKey, String>)
    ensures
        match (api_key, hashed_api_key) {
            (Some(k), None) => r matches Ok(n) && n.api_key == Some(k) && n.hashed_key is None,
            (None, Some(h)) => r matches Ok(n) && n.api_key is None && n.hashed_key == Some(h),
            (None, None) => r matches Ok(n) && n.hashed_key is None && is_generated_key(n.api_key),
            (Some(_), Some(_)) => r matches Err(m) && m@ == both_keys_message(),
        },
{
    match (api_key, hashed_api_key) {
        (Some(k), None) => Ok(NewApiKey { api_key: Some(k), hashed_key: None }),
        (None, Some(h)) => Ok(NewApiKey { api_key: None, hashed_key: Some(h) }),
        (None, None) => Ok(NewApiKey { api_key: Some(create_api_key()), hashed_key: None }),
        (Some(_), Some(_)) => Err(
            String::from_str("You cannot provide both an API key and a hashed API key."),
        ),
    }
}

/// `old` with each part that `update` gives replaced: the description and the device,
/// where they are given.
pub open spec fn updated_key(old: RegisteredApiKey, update: RegisteredApiKey) -> RegisteredApiKey {
    RegisteredApiKey {
        hashed_key: old.hashed_key,
        device: if update.device is Some {
            update.device
        } else {
            old.device
        },
        description: if update.description is Some {
            update.description
        } else {
            old.description
        },
    }
}

/// The registered keys after adding `key`: the first key with its hash takes the
/// device and description that `key` gives; without such a key, `key` is appended.
pub open spec fn upserted(keys: Seq<RegisteredApiKey>, key: RegisteredApiKey) -> Seq<RegisteredApiKey> {
    if has_hash(keys, key.hashed_key@) {
        let k = choose|k: int| is_first_with_hash(keys, key.hashed_key@, k);
        keys.update(k, updated_key(keys[k], key))
    } else {
        keys.push(key)
    }
}

proof fn lemma_first_with_hash_below(keys: Seq<RegisteredApiKey>, hashed: Seq<char>, w: int)
    requires
        0 <= w < keys.len(),
        keys[w].hashed_key@ == hashed,
    ensures
        exists|k: int| is_first_with_hash(keys, hashed, k),
    decreases w,
{
    if exists|j: int| 0 <= j < w && keys[j].hashed_key@ == hashed {
        let j = choose|j: int| 0 <= j < w && keys[j].hashed_key@ == hashed;
        lemma_first_with_hash_below(keys, hashed, j);
    } else {
        assert(is_first_with_hash(keys, hashed, w));
    }
}

/// A registered hash has a first key that carries it.
proof fn lemma_has_first_with_hash(keys: Seq<RegisteredApiKey>, hashed: Seq<char>)
    requires
        has_hash(keys, hashed),
    ensures
        exists|k: int| is_first_with_hash(keys, hashed, k),
{
    let w = choose|w: int| 0 <= w < keys.len() && keys[w].hashed_key@ == hashed;
    lemma_first_with_hash_below(keys, hashed, w);
}

proof fn lemma_first_with_hash_unique(keys: Seq<RegisteredApiKey>, hashed: Seq<char>, a: int, b: int)
    requires
        is_first_with_hash(keys, hashed, a),
        is_first_with_hash(keys, hashed, b),
    ensures
        a == b,
{
}

/// Adds an API key to the registered keys, or updates the key with the same hash.
pub fn upsert_api_key(keys: &mut Vec<RegisteredApiKey>, key: RegisteredApiKey)
    ensures
        final(keys)@ == upserted(old(keys)@, key),
{
    match find_registered_key(keys, key.hashed_key.as_str()) {
        Some(k) => {
            let mut existing = keys[k].duplicate();
            if key.description.is_some() {
                existing.description = key.description;
            }
            if key.device.is_some() {
                existing.device = key.device;
            }
            proof {
                lemma_has_first_with_hash(old(keys)@, key.hashed_key@);
                let c = choose|c: int| is_first_with_hash(old(keys)@, key.hashed_key@, c);
                lemma_first_with_hash_unique(old(keys)@, key.hashed_key@, c, k as int);
            }
            keys.set(k, existing);
        },
        None => {
            keys.push(key);
        },
    }
}

/// After a key is added, the first key registered with its hash carries the description
/// and the device that the added key gives, and keeps its own where the added key gives
/// none; where no key had that hash, it is the added key itself.
pub proof fn lemma_upserted_key_takes_given_parts(keys: Seq<RegisteredApiKey>, key: RegisteredApiKey, k: int)
    requires
        is_first_with_hash(upserted(keys, key), key.hashed_key@, k),
    ensures
        key.description is Some ==> upserted(keys, key)[k].description == key.description,
        key.device is Some ==> upserted(keys, key)[k].device == key.device,
        has_hash(keys, key.hashed_key@) ==> {
            &&& is_first_with_hash(keys, key.hashed_key@, k)
            &&& key.description is None ==> upserted(keys, key)[k].description == keys[k].description
            &&& key.device is None ==> upserted(keys, key)[k].device == keys[k].device
        },
        !has_hash(keys, key.hashed_key@) ==> upserted(keys, key)[k] == key,
{
    let h = key.hashed_key@;
    let after = upserted(keys, key);
    if has_hash(keys, h) {
        lemma_has_first_with_hash(keys, h);
        let c = choose|c: int| is_first_with_hash(keys, h, c);
        assert(after[c].hashed_key@ == h);
        assert(is_first_with_hash(after, h, c)) by {
            assert forall|j: int| 0 <= j < c implies after[j].hashed_key@ != h by {
                assert(after[j] == keys[j]);
            }
        }
        lemma_first_with_hash_unique(after, h, c, k);
    } else {
        assert forall|j: int| 0 <= j < keys.len() implies after[j].hashed_key@ != h by {
            assert(after[j] == keys[j]);
        }
        assert(k == keys.len());
    }
}

/// After a key is added, a key with its hash is registered.
pub proof fn lemma_upserted_key_is_registered(keys: Seq<RegisteredApiKey>, key: RegisteredApiKey)
    ensures
        has_hash(upserted(keys, key), key.hashed_key@),
{
    if has_hash(keys, key.hashed_key@) {
        lemma_has_first_with_hash(keys, key.hashed_key@);
        let k = choose|k: int| is_first_with_hash(keys, key.hashed_key@, k);
        assert(upserted(keys, key)[k].hashed_key@ == key.hashed_key@);
    } else {
        assert(upserted(keys, key)[keys.len() as int].hashed_key@ == key.hashed_key@);
    }
}

/// Adding a key never registers a second key with the same hash: it appends only where
/// none had that hash, and every other key stays as it was.
pub proof fn lemma_upsert_keeps_others(keys: Seq<RegisteredApiKey>, key: RegisteredApiKey, j: int)
    requires
        0 <= j < keys.len(),
        keys[j].hashed_key@ != key.hashed_key@,
    ensures
        upserted(keys, key)[j] == keys[j],
        upserted(keys, key).len() == keys.len() + if has_hash(keys, key.hashed_key@) {
            0int
        } else {
            1int
        },
{
    if has_hash(keys, key.hashed_key@) {
        lemma_has_first_with_hash(keys, key.hashed_key@);
    }
}

/// Adding the same key twice is the same as adding it once.
pub proof fn lemma_upsert_idempotent(keys: Seq<RegisteredApiKey>, key: RegisteredApiKey)
    ensures
        upserted(upserted(keys, key), key) == upserted(keys, key),
{
    let once = upserted(keys, key);
    let h = key.hashed_key@;
    if has_hash(keys, h) {
        lemma_has_first_with_hash(keys, h);
        let k = choose|k: int| is_first_with_hash(keys, h, k);
        assert(is_first_with_hash(once, h, k));
        assert(has_hash(once, h));
        let k2 = choose|k2: int| is_first_with_hash(once, h, k2);
        lemma_first_with_hash_unique(once, h, k, k2);
        assert(once.update(k, updated_key(once[k], key)) =~= once);
    } else {
        let k = keys.len() as int;
        assert(is_first_with_hash(once, h, k));
        assert(has_hash(once, h));
        let k2 = choose|k2: int| is_first_with_hash(once, h, k2);
        lemma_first_with_hash_unique(once, h, k, k2);
        assert(once.update(k, updated_key(once[k], key)) =~= once);
    }
}

/// The device to store when a key is bound to it: an existing device with its playlist
/// replaced where one is given, or a new device showing that playlist.
pub open spec fn spec_associated_device(existing: Option<Device>, playlist: Option<String>) -> Device {
    match existing {
        Some(d) => Device {
            playlist: if playlist is Some {
                playlist
            } else {
                d.playlist
            },
            context: d.context,
            result_spec: d.result_spec,
        },
        None => Device {
            playlist: playlist,
            context: None,
            result_spec: RigResultPartialSpec { format: None, image_format: None, rotate: None },
        },
    }
}

/// The device to store when a key is bound to it.
pub fn associated_device(existing: Option<Device>, playlist: Option<String>) -> (d: Device)
    ensures
        d == spec_associated_device(existing, playlist),
{
    match existing {
        Some(mut device) => {
            if playlist.is_some() {
                device.playlist = playlist;
            }
            device
        },
        None => Device { playlist, context: None, result_spec: RigResultPartialSpec::default() },
    }
}

} // verus!
