//! The persistent response cache: a sled tree from fingerprint keys to encoded
//! records, with expiry enforced on lookup and by a sweep.
use std::hash::Hasher;
use vstd::prelude::*;
use vstd::utf8::encode_utf8;
use crate::clock::unix_now;
use crate::decimal::{dec_digits, lemma_dec_digits_props, u64_to_dec};
use crate::entry::{decode_entry, entry_bytes, expiry_of, lemma_entry_round_trip, SEPARATOR};
use crate::errors::AppError;

pub use crate::entry::{CacheConfig, CacheEntry};

verus! {

#[verifier::external_type_specification]
#[verifier::external_body]
pub struct ExDb(sled::Db);

#[verifier::external_type_specification]
#[verifier::external_body]
pub struct ExSledError(sled::Error);

/// The pairs that a sled database holds.
pub uninterp spec fn db_contents(db: sled::Db) -> Map<Seq<u8>, Seq<u8>>;

/// What `DefaultHasher` makes of a byte sequence.
pub uninterp spec fn default_hash(b: Seq<u8>) -> u64;

/// Relies on `sled::open`: opens or creates the database at `path`.
#[verifier::external_body]
fn open_db(path: &str) -> (r: Result<sled::Db, sled::Error>) {
    sled::open(path)
}

/// Relies on `sled::Tree::get`: the value stored under `key`, if any.
#[verifier::external_body]
fn db_get(db: &sled::Db, key: &Vec<u8>) -> (r: Result<Option<Vec<u8>>, sled::Error>)
    ensures
        r matches Ok(Some(v)) ==> db_contents(*db).contains_key(key@) && db_contents(*db)[key@]
            == v@,
        r matches Ok(None) ==> !db_contents(*db).contains_key(key@),
{
    match db.get(key) {
        Ok(Some(v)) => Ok(Some(v.to_vec())),
        Ok(None) => Ok(None),
        Err(e) => Err(e),
    }
}

/// Relies on `sled::Tree::insert`: stores `value` under `key`, replacing what
/// was there; a single-key write either happens whole or not at all.
#[verifier::external_body]
fn db_insert(db: &mut sled::Db, key: Vec<u8>, value: Vec<u8>) -> (r: Result<(), sled::Error>)
    ensures
        r is Ok ==> db_contents(*final(db)) == db_contents(*old(db)).insert(key@, value@),
        r is Err ==> db_contents(*final(db)) == db_contents(*old(db)) || db_contents(*final(db))
            == db_contents(*old(db)).insert(key@, value@),
{
    match db.insert(key, value) {
        Ok(_) => Ok(()),
        Err(e) => Err(e),
    }
}

/// Relies on `sled::Tree::remove`: deletes the pair under `key` and tells
/// whether there was one; a single-key write either happens whole or not at
/// all.
#[verifier::external_body]
fn db_remove(db: &mut sled::Db, key: &Vec<u8>) -> (r: Result<bool, sled::Error>)
    ensures
        r matches Ok(found) ==> found == db_contents(*old(db)).contains_key(key@) && db_contents(
            *final(db),
        ) == db_contents(*old(db)).remove(key@),
        r is Err ==> db_contents(*final(db)) == db_contents(*old(db)) || db_contents(*final(db))
            == db_contents(*old(db)).remove(key@),
{
    match db.remove(key) {
        Ok(previous) => Ok(previous.is_some()),
        Err(e) => Err(e),
    }
}

/// Relies on `sled::Tree::clear`: removes every pair, one key at a time, and
/// stops at the first failure.
#[verifier::external_body]
fn db_clear(db: &mut sled::Db) -> (r: Result<(), sled::Error>)
    ensures
        r is Ok ==> db_contents(*final(db)) == empty_store(),
        db_contents(*final(db)).submap_of(db_contents(*old(db))),
{
    db.clear()
}

/// Relies on `sled::Tree::iter`: walks the stored pairs in ascending key
/// order, each pair once; the walk stops at the first pair that cannot be
/// read, which comes back as the error.
#[verifier::external_body]
fn db_pairs(db: &sled::Db) -> (r: Result<Vec<(Vec<u8>, Vec<u8>)>, sled::Error>)
    ensures
        r matches Ok(pairs) ==> {
            &&& forall|i: int|
                0 <= i < pairs.len() ==> db_contents(*db).contains_key(#[trigger] pairs[i].0@)
                    && db_contents(*db)[pairs[i].0@] == pairs[i].1@
            &&& forall|i: int, j: int|
                0 <= i < j < pairs.len() ==> #[trigger] pairs[i].0@ != #[trigger] pairs[j].0@
            &&& forall|k: Seq<u8>|
                #[trigger] db_contents(*db).contains_key(k) ==> exists|i: int|
                    0 <= i < pairs.len() && #[trigger] pairs[i].0@ == k
        },
{
    db.iter().map(|item| item.map(|(k, v)| (k.to_vec(), v.to_vec()))).collect()
}

/// Relies on `DefaultHasher`: a fresh hasher fed `b` by `Hasher::write`
/// finishes with a value that depends on the bytes alone.
#[verifier::external_body]
pub(crate) fn hash_bytes(b: &Vec<u8>) -> (r: u64)
    ensures
        r == default_hash(b@),
{
    let mut h = std::collections::hash_map::DefaultHasher::new();
    h.write(b);
    h.finish()
}

/// A database with no pairs.
pub open spec fn empty_store() -> Map<Seq<u8>, Seq<u8>> {
    Map::empty()
}

/// The eight big-endian bytes of `h`.
pub open spec fn be_bytes(h: u64) -> Seq<u8> {
    seq![
        (h >> 56u64) as u8,
        (h >> 48u64) as u8,
        (h >> 40u64) as u8,
        (h >> 32u64) as u8,
        (h >> 24u64) as u8,
        (h >> 16u64) as u8,
        (h >> 8u64) as u8,
        h as u8,
    ]
}

/// The bytes that are hashed into a key: `len|model|template|text`, where
/// `len` is the model's length in bytes, so that no two inputs share them.
pub open spec fn key_material(text: Seq<char>, model: Seq<char>, template_hash: u64) -> Seq<u8> {
    dec_digits(encode_utf8(model).len()) + seq![SEPARATOR] + encode_utf8(model) + seq![SEPARATOR]
        + dec_digits(template_hash as nat) + seq![SEPARATOR] + encode_utf8(text)
}

/// The cache key of an input text, a model and a prompt-template identity.
pub open spec fn key_of(text: Seq<char>, model: Seq<char>, template_hash: u64) -> Seq<u8> {
    be_bytes(default_hash(key_material(text, model, template_hash)))
}

/// What a lookup at time `now` finds under `k`: the response of a readable,
/// unexpired record.
pub open spec fn lookup_result(m: Map<Seq<u8>, Seq<u8>>, k: Seq<u8>, now: u64) -> Option<
    Seq<char>,
> {
    if m.contains_key(k) {
        match decode_entry(m[k]) {
            Some((response, _c, e)) => if e <= now {
                None
            } else {
                Some(response)
            },
            None => None,
        }
    } else {
        None
    }
}

/// Whether `m` holds under `k` a readable record that had expired at `now`.
pub open spec fn expired_at(m: Map<Seq<u8>, Seq<u8>>, k: Seq<u8>, now: u64) -> bool {
    m.contains_key(k) && match decode_entry(m[k]) {
        Some((_r, _c, e)) => e <= now,
        None => false,
    }
}

/// How a lookup under `k` at time `now` relates the contents before and after
/// to its result: a hit leaves the contents alone; a miss on an expired record
/// deletes it, and any other miss changes nothing; a failed read changes
/// nothing, and a failed deletion of an expired record may or may not have
/// taken effect.
pub open spec fn lookup_outcome(
    before: Map<Seq<u8>, Seq<u8>>,
    after: Map<Seq<u8>, Seq<u8>>,
    k: Seq<u8>,
    now: u64,
    r: Result<Option<String>, AppError>,
) -> bool {
    match r {
        Ok(Some(s)) => lookup_result(before, k, now) == Some(s@) && after == before,
        Ok(None) => lookup_result(before, k, now) is None && if expired_at(before, k, now) {
            after == before.remove(k)
        } else {
            after == before
        },
        Err(e) => e is CacheError && (after == before || (expired_at(before, k, now) && after
            == before.remove(k))),
    }
}

/// The contents after a record of `response`, made at `now` with a lifetime of
/// `ttl_days`, is stored for the given input.
pub open spec fn stored(
    m: Map<Seq<u8>, Seq<u8>>,
    text: Seq<char>,
    model: Seq<char>,
    template_hash: u64,
    response: Seq<char>,
    now: u64,
    ttl_days: u64,
) -> Map<Seq<u8>, Seq<u8>> {
    m.insert(
        key_of(text, model, template_hash),
        entry_bytes(response, now, expiry_of(now, ttl_days)),
    )
}

/// How a write of `response` for an input at time `now` relates the contents
/// before and after to its result: on success the record is stored; a failed
/// write either happened whole or not at all.
pub open spec fn store_outcome(
    before: Map<Seq<u8>, Seq<u8>>,
    after: Map<Seq<u8>, Seq<u8>>,
    text: Seq<char>,
    model: Seq<char>,
    template_hash: u64,
    response: Seq<char>,
    now: u64,
    ttl_days: u64,
    r: Result<(), AppError>,
) -> bool {
    let written = stored(before, text, model, template_hash, response, now, ttl_days);
    match r {
        Ok(()) => after == written,
        Err(e) => e is CacheError && (after == before || after == written),
    }
}

/// Whether a sweep at time `now` that turned `before` into `after` removed
/// only expired records and changed nothing else.
pub open spec fn swept(before: Map<Seq<u8>, Seq<u8>>, after: Map<Seq<u8>, Seq<u8>>, now: u64) -> bool {
    &&& after.submap_of(before)
    &&& forall|k: Seq<u8>|
        #![trigger before.contains_key(k), after.contains_key(k)]
        before.contains_key(k) && !after.contains_key(k) ==> expired_at(before, k, now)
}

/// The keys of `m` whose records are readable and had expired at `now`.
pub open spec fn expired_keys(m: Map<Seq<u8>, Seq<u8>>, now: u64) -> Set<Seq<u8>> {
    Set::new(|k: Seq<u8>| expired_at(m, k, now))
}

/// Whether `m` holds no readable record that had expired at `now`.
pub open spec fn none_expired(m: Map<Seq<u8>, Seq<u8>>, now: u64) -> bool {
    forall|k: Seq<u8>| !#[trigger] expired_at(m, k, now)
}

/// Whether, at some time, `m` held no readable expired record.
pub open spec fn startup_swept(m: Map<Seq<u8>, Seq<u8>>) -> bool {
    exists|now: u64| none_expired(m, now)
}

/// How a sweep at time `now` relates the contents before and after to its
/// result: on success exactly the readable expired records are gone and their
/// number comes back; after a failed read or deletion, what is gone had
/// expired.
pub open spec fn sweep_outcome(
    before: Map<Seq<u8>, Seq<u8>>,
    after: Map<Seq<u8>, Seq<u8>>,
    now: u64,
    r: Result<usize, AppError>,
) -> bool {
    match r {
        Ok(n) => {
            &&& expired_keys(before, now).finite()
            &&& n as nat == expired_keys(before, now).len()
            &&& after == before.remove_keys(expired_keys(before, now))
            &&& none_expired(after, now)
        },
        Err(e) => e is CacheError && swept(before, after, now),
    }
}

/// The response cache.
pub struct CacheManager {
    pub db: sled::Db,
    pub config: CacheConfig,
}

impl CacheManager {
    /// The pairs the cache holds.
    pub open spec fn contents(&self) -> Map<Seq<u8>, Seq<u8>> {
        db_contents(self.db)
    }

    /// The fingerprint key of an input: the big-endian bytes of the hash of
    /// `len|model|template|text`.
    pub fn generate_key(text: &str, model: &str, prompt_template_hash: u64) -> (r: Vec<u8>)
        ensures
            r@ == key_of(text@, model@, prompt_template_hash),
    {
        let model_bytes = model.as_bytes();
        let mut material = u64_to_dec(model_bytes.len() as u64);
        material.push(SEPARATOR);
        let mut m = vstd::slice::slice_to_vec(model_bytes);
        material.append(&mut m);
        material.push(SEPARATOR);
        let mut h = u64_to_dec(prompt_template_hash);
        material.append(&mut h);
        material.push(SEPARATOR);
        let mut t = vstd::slice::slice_to_vec(text.as_bytes());
        material.append(&mut t);
        proof {
            assert(material@ =~= key_material(text@, model@, prompt_template_hash));
        }
        let hash = hash_bytes(&material);
        let r = vec![
            #[verifier::truncate]
            ((hash >> 56u64) as u8),
            #[verifier::truncate]
            ((hash >> 48u64) as u8),
            #[verifier::truncate]
            ((hash >> 40u64) as u8),
            #[verifier::truncate]
            ((hash >> 32u64) as u8),
            #[verifier::truncate]
            ((hash >> 24u64) as u8),
            #[verifier::truncate]
            ((hash >> 16u64) as u8),
            #[verifier::truncate]
            ((hash >> 8u64) as u8),
            #[verifier::truncate]
            (hash as u8),
        ];
        proof {
            assert(r@ =~= be_bytes(hash));
        }
        r
    }

    /// Looks up the response cached for an input, as of time `now`. A record
    /// that had expired is deleted; one that cannot be decoded counts as absent
    /// and stays.
    pub fn lookup_at(&mut self, text: &str, model: &str, prompt_template_hash: u64, now: u64) -> (r:
        Result<Option<String>, AppError>)
        ensures
            final(self).config == old(self).config,
            !old(self).config.enabled ==> (r matches Ok(None) && final(self).contents()
                == old(self).contents()),
            old(self).config.enabled ==> lookup_outcome(
                old(self).contents(),
                final(self).contents(),
                key_of(text@, model@, prompt_template_hash),
                now,
                r,
            ),
    {
        if !self.config.enabled {
            return Ok(None);
        }
        let key = Self::generate_key(text, model, prompt_template_hash);
        match db_get(&self.db, &key) {
            Ok(Some(bytes)) => {
                match CacheEntry::from_bytes(bytes.as_slice()) {
                    Ok(entry) => {
                        if entry.is_expired_at(now) {
                            match db_remove(&mut self.db, &key) {
                                Ok(_) => Ok(None),
                                Err(_) => Err(
                                    AppError::CacheError(
                                        "Failed to remove an expired cache entry".to_string(),
                                    ),
                                ),
                            }
                        } else {
                            Ok(Some(entry.response))
                        }
                    },
                    Err(_) => Ok(None),
                }
            },
            Ok(None) => Ok(None),
            Err(_) => Err(AppError::CacheError("Cache lookup failed".to_string())),
        }
    }

    /// Looks up the response cached for an input, as of the current time.
    pub fn lookup(&mut self, text: &str, model: &str, prompt_template_hash: u64) -> (r: Result<
        Option<String>,
        AppError,
    >)
        ensures
            final(self).config == old(self).config,
            !old(self).config.enabled ==> (r matches Ok(None) && final(self).contents()
                == old(self).contents()),
            old(self).config.enabled ==> exists|now: u64|
                lookup_outcome(
                    old(self).contents(),
                    final(self).contents(),
                    key_of(text@, model@, prompt_template_hash),
                    now,
                    r,
                ),
    {
        let now = unix_now();
        let r = self.lookup_at(text, model, prompt_template_hash, now);
        proof {
            if old(self).config.enabled {
                assert(lookup_outcome(
                    old(self).contents(),
                    self.contents(),
                    key_of(text@, model@, prompt_template_hash),
                    now,
                    r,
                ));
            }
        }
        r
    }

    /// Caches `response` for an input, as made at time `now`; a later write for
    /// the same input replaces it.
    pub fn store_at(
        &mut self,
        text: &str,
        response: &str,
        model: &str,
        prompt_template_hash: u64,
        now: u64,
    ) -> (r: Result<(), AppError>)
        ensures
            final(self).config == old(self).config,
            !old(self).config.enabled ==> r is Ok && final(self).contents() == old(self).contents(),
            old(self).config.enabled ==> store_outcome(
                old(self).contents(),
                final(self).contents(),
                text@,
                model@,
                prompt_template_hash,
                response@,
                now,
                old(self).config.ttl_days,
                r,
            ),
    {
        if !self.config.enabled {
            return Ok(());
        }
        let key = Self::generate_key(text, model, prompt_template_hash);
        let entry = CacheEntry::new_at(response.to_string(), now, self.config.ttl_days);
        match db_insert(&mut self.db, key, entry.to_bytes()) {
            Ok(()) => Ok(()),
            Err(_) => Err(AppError::CacheError("Failed to store in cache".to_string())),
        }
    }

    /// Caches `response` for an input, as made now.
    pub fn store(&mut self, text: &str, response: &str, model: &str, prompt_template_hash: u64) -> (r:
        Result<(), AppError>)
        ensures
            final(self).config == old(self).config,
            !old(self).config.enabled ==> r is Ok && final(self).contents() == old(self).contents(),
            old(self).config.enabled ==> exists|now: u64|
                store_outcome(
                    old(self).contents(),
                    final(self).contents(),
                    text@,
                    model@,
                    prompt_template_hash,
                    response@,
                    now,
                    old(self).config.ttl_days,
                    r,
                ),
    {
        let now = unix_now();
        self.store_at(text, response, model, prompt_template_hash, now)
    }

    /// Deletes every readable record that had expired at time `now` and
    /// returns how many it deleted; unreadable records stay. A failed read or
    /// deletion ends the sweep with a cache error.
    pub fn cleanup_expired_at(&mut self, now: u64) -> (r: Result<usize, AppError>)
        ensures
            final(self).config == old(self).config,
            !old(self).config.enabled ==> (r matches Ok(0) && final(self).contents()
                == old(self).contents()),
            old(self).config.enabled ==> sweep_outcome(
                old(self).contents(),
                final(self).contents(),
                now,
                r,
            ),
    {
        if !self.config.enabled {
            return Ok(0);
        }
        let ghost before = self.contents();
        let pairs = match db_pairs(&self.db) {
            Ok(p) => p,
            Err(_) => {
                return Err(AppError::CacheError("Failed to read cache entries".to_string()));
            },
        };
        let ghost mut gone: Set<Seq<u8>> = Set::empty();
        let mut removed: usize = 0;
        let mut i: usize = 0;
        while i < pairs.len()
            invariant
                i <= pairs.len(),
                removed <= i,
                self.config == old(self).config,
                self.config.enabled,
                before == old(self).contents(),
                self.contents() == before.remove_keys(gone),
                gone.finite(),
                gone.len() == removed as nat,
                forall|k: Seq<u8>| #[trigger] gone.contains(k) ==> expired_at(before, k, now),
                forall|k: Seq<u8>|
                    #[trigger] gone.contains(k) ==> exists|j: int|
                        0 <= j < i && #[trigger] pairs@[j].0@ == k,
                forall|j: int|
                    0 <= j < i && expired_at(before, #[trigger] pairs@[j].0@, now) ==> gone.contains(
                        pairs@[j].0@,
                    ),
                forall|j: int|
                    0 <= j < pairs.len() ==> before.contains_key(#[trigger] pairs@[j].0@)
                        && before[pairs@[j].0@] == pairs@[j].1@,
                forall|j: int, l: int|
                    0 <= j < l < pairs.len() ==> #[trigger] pairs@[j].0@ != #[trigger] pairs@[l].0@,
                forall|k: Seq<u8>|
                    #[trigger] before.contains_key(k) ==> exists|j: int|
                        0 <= j < pairs.len() && #[trigger] pairs@[j].0@ == k,
            decreases pairs.len() - i,
        {
            let key = &pairs[i].0;
            let value = &pairs[i].1;
            proof {
                assert(pairs@[i as int].0@ == key@);
                if gone.contains(key@) {
                    let j = choose|j: int| 0 <= j < i && #[trigger] pairs@[j].0@ == key@;
                    assert(pairs@[j].0@ != pairs@[i as int].0@);
                }
                assert(!gone.contains(key@));
                assert(self.contents().contains_key(key@));
            }
            let expired = match CacheEntry::from_bytes(value.as_slice()) {
                Ok(entry) => entry.is_expired_at(now),
                Err(_) => false,
            };
            proof {
                assert(expired == expired_at(before, key@, now));
            }
            if expired {
                let ghost mid = self.contents();
                match db_remove(&mut self.db, key) {
                    Ok(_) => {
                        proof {
                            gone = gone.insert(key@);
                            assert(self.contents() =~= before.remove_keys(gone));
                        }
                        removed = removed + 1;
                    },
                    Err(_) => {
                        proof {
                            assert(swept(before, self.contents(), now));
                        }
                        return Err(AppError::CacheError("Failed to remove an expired entry".to_string()));
                    },
                }
            }
            i = i + 1;
            proof {
                assert forall|k: Seq<u8>| #[trigger] gone.contains(k) implies exists|j: int|
                    0 <= j < i && #[trigger] pairs@[j].0@ == k by {
                    if k == key@ {
                        assert(pairs@[i - 1].0@ == k);
                    } else {
                        let j = choose|j: int| 0 <= j < i - 1 && #[trigger] pairs@[j].0@ == k;
                        assert(pairs@[j].0@ == k);
                    }
                }
            }
        }
        proof {
            assert(gone =~= expired_keys(before, now)) by {
                assert forall|k: Seq<u8>| expired_keys(before, now).contains(k) implies gone.contains(k) by {
                    assert(before.contains_key(k));
                    let j = choose|j: int| 0 <= j < pairs.len() && #[trigger] pairs@[j].0@ == k;
                }
            }
            assert forall|k: Seq<u8>| !#[trigger] expired_at(self.contents(), k, now) by {
                if self.contents().contains_key(k) {
                    assert(!gone.contains(k));
                }
            }
        }
        Ok(removed)
    }

    /// Deletes every readable record that has expired by the current time.
    pub fn cleanup_expired(&mut self) -> (r: Result<usize, AppError>)
        ensures
            final(self).config == old(self).config,
            !old(self).config.enabled ==> (r matches Ok(0) && final(self).contents()
                == old(self).contents()),
            old(self).config.enabled ==> exists|now: u64|
                sweep_outcome(old(self).contents(), final(self).contents(), now, r),
    {
        let now = unix_now();
        self.cleanup_expired_at(now)
    }

    /// Deletes every record, expired or not.
    pub fn clear(&mut self) -> (r: Result<(), AppError>)
        ensures
            final(self).config == old(self).config,
            r is Ok ==> final(self).contents() == empty_store(),
            r is Err ==> (r matches Err(AppError::CacheError(_))
                && final(self).contents().submap_of(old(self).contents())),
    {
        match db_clear(&mut self.db) {
            Ok(()) => Ok(()),
            Err(_) => Err(AppError::CacheError("Failed to clear cache".to_string())),
        }
    }

    /// Opens or creates the cache at `path`; when caching is on, first sweeps
    /// out the records that have expired, and fails if the sweep does.
    pub fn new(path: &str, config: CacheConfig) -> (r: Result<Self, AppError>)
        ensures
            r matches Ok(m) ==> m.config == config,
            r matches Ok(m) ==> (m.config.enabled ==> startup_swept(m.contents())),
            r matches Err(e) ==> e is CacheError,
    {
        let db = match open_db(path) {
            Ok(db) => db,
            Err(_) => {
                return Err(AppError::CacheError("Failed to open cache database".to_string()));
            },
        };
        let mut manager = CacheManager { db, config };
        if manager.config.enabled {
            let ghost before = manager.contents();
            let swept_result = manager.cleanup_expired();
            if swept_result.is_err() {
                return Err(AppError::CacheError("Failed to sweep expired entries".to_string()));
            }
            proof {
                let now = choose|now: u64|
                    sweep_outcome(before, manager.contents(), now, swept_result);
                assert(none_expired(manager.contents(), now));
                assert(startup_swept(manager.contents()));
            }
        }
        Ok(manager)
    }
}

/// Storing a response for an input and then looking up the same input, at any
/// time before the record's expiry, finds exactly that response: a lookup
/// that succeeds returns it.
pub proof fn law_round_trip(
    m: Map<Seq<u8>, Seq<u8>>,
    text: Seq<char>,
    model: Seq<char>,
    template_hash: u64,
    response: Seq<char>,
    ttl_days: u64,
    stored_at: u64,
    looked_up_at: u64,
)
    requires
        looked_up_at < expiry_of(stored_at, ttl_days),
    ensures
        lookup_result(
            stored(m, text, model, template_hash, response, stored_at, ttl_days),
            key_of(text, model, template_hash),
            looked_up_at,
        ) == Some(response),
        forall|after: Map<Seq<u8>, Seq<u8>>, r: Result<Option<String>, AppError>|
            #[trigger] lookup_outcome(
                stored(m, text, model, template_hash, response, stored_at, ttl_days),
                after,
                key_of(text, model, template_hash),
                looked_up_at,
                r,
            ) ==> (r is Ok ==> (r matches Ok(Some(s)) && s@ == response)),
{
    lemma_entry_round_trip(response, stored_at, expiry_of(stored_at, ttl_days));
}

/// Looking up an input that differs from a stored one in exactly one of text,
/// model or template identity, when nothing is stored for the altered input,
/// is a miss.
pub proof fn law_key_sensitivity(
    m: Map<Seq<u8>, Seq<u8>>,
    text: Seq<char>,
    model: Seq<char>,
    template_hash: u64,
    other_text: Seq<char>,
    other_model: Seq<char>,
    other_template_hash: u64,
    now: u64,
)
    requires
        (other_text != text && other_model == model && other_template_hash == template_hash) || (
        other_text == text && other_model != model && other_template_hash == template_hash) || (
        other_text == text && other_model == model && other_template_hash != template_hash),
        !m.contains_key(key_of(other_text, other_model, other_template_hash)),
    ensures
        lookup_result(m, key_of(other_text, other_model, other_template_hash), now) is None,
        forall|after: Map<Seq<u8>, Seq<u8>>, r: Result<Option<String>, AppError>|
            #[trigger] lookup_outcome(
                m,
                after,
                key_of(other_text, other_model, other_template_hash),
                now,
                r,
            ) ==> (r is Ok ==> r matches Ok(None)) && after == m,
{
}

/// A record whose expiry has come by the lookup time is never returned; a
/// lookup that finds it and succeeds has deleted it and touched nothing else.
pub proof fn law_expiry(
    before: Map<Seq<u8>, Seq<u8>>,
    after: Map<Seq<u8>, Seq<u8>>,
    text: Seq<char>,
    model: Seq<char>,
    template_hash: u64,
    now: u64,
    r: Result<Option<String>, AppError>,
)
    requires
        expired_at(before, key_of(text, model, template_hash), now),
        lookup_outcome(before, after, key_of(text, model, template_hash), now, r),
    ensures
        !(r matches Ok(Some(_))),
        r is Ok ==> (r matches Ok(None) && after == before.remove(
            key_of(text, model, template_hash),
        )),
        after == before || after == before.remove(key_of(text, model, template_hash)),
{
}

/// A sweep that succeeds leaves nothing for a second sweep at the same time:
/// that one deletes no record and returns 0.
pub proof fn law_sweep_idempotent(
    before: Map<Seq<u8>, Seq<u8>>,
    after: Map<Seq<u8>, Seq<u8>>,
    again: Map<Seq<u8>, Seq<u8>>,
    now: u64,
    n: usize,
    r: Result<usize, AppError>,
)
    requires
        sweep_outcome(before, after, now, Ok(n)),
        sweep_outcome(after, again, now, r),
        r is Ok,
    ensures
        r matches Ok(0),
        again == after,
{
    assert(expired_keys(after, now) =~= Set::empty());
    assert(after.remove_keys(Set::empty()) =~= after);
}

/// A record stored with a lifetime of zero days has expired from its own
/// second on: it decodes as expired, and a lookup then misses.
pub proof fn law_zero_ttl(
    m: Map<Seq<u8>, Seq<u8>>,
    text: Seq<char>,
    model: Seq<char>,
    template_hash: u64,
    response: Seq<char>,
    stored_at: u64,
    looked_up_at: u64,
)
    requires
        stored_at <= looked_up_at,
    ensures
        expiry_of(stored_at, 0) <= looked_up_at,
        expired_at(
            stored(m, text, model, template_hash, response, stored_at, 0),
            key_of(text, model, template_hash),
            looked_up_at,
        ),
        lookup_result(
            stored(m, text, model, template_hash, response, stored_at, 0),
            key_of(text, model, template_hash),
            looked_up_at,
        ) is None,
{
    lemma_entry_round_trip(response, stored_at, expiry_of(stored_at, 0));
}

proof fn lemma_split_at_separator(x1: Seq<u8>, rest1: Seq<u8>, x2: Seq<u8>, rest2: Seq<u8>)
    requires
        !x1.contains(SEPARATOR),
        !x2.contains(SEPARATOR),
        x1 + (seq![SEPARATOR] + rest1) == x2 + (seq![SEPARATOR] + rest2),
    ensures
        x1 == x2,
        rest1 == rest2,
{
    let a = x1 + (seq![SEPARATOR] + rest1);
    let b = x2 + (seq![SEPARATOR] + rest2);
    if x1.len() < x2.len() {
        assert(a[x1.len() as int] == SEPARATOR);
        assert(b[x1.len() as int] == x2[x1.len() as int]);
        assert(x2.contains(SEPARATOR));
    } else if x2.len() < x1.len() {
        assert(b[x2.len() as int] == SEPARATOR);
        assert(a[x2.len() as int] == x1[x2.len() as int]);
        assert(x1.contains(SEPARATOR));
    }
    assert(x1 =~= a.subrange(0, x1.len() as int));
    assert(x2 =~= b.subrange(0, x2.len() as int));
    assert(rest1 =~= a.subrange(x1.len() as int + 1, a.len() as int));
    assert(rest2 =~= b.subrange(x2.len() as int + 1, b.len() as int));
}

/// The bytes hashed into a key determine the input: two inputs that differ in
/// text, model or template identity never share them.
#[verifier::rlimit(30)]
pub proof fn law_key_material_unambiguous(
    text: Seq<char>,
    model: Seq<char>,
    template_hash: u64,
    other_text: Seq<char>,
    other_model: Seq<char>,
    other_template_hash: u64,
)
    requires
        key_material(text, model, template_hash) == key_material(
            other_text,
            other_model,
            other_template_hash,
        ),
    ensures
        text == other_text,
        model == other_model,
        template_hash == other_template_hash,
{
    let e1 = encode_utf8(model);
    let e2 = encode_utf8(other_model);
    let d1 = dec_digits(e1.len());
    let d2 = dec_digits(e2.len());
    let h1 = dec_digits(template_hash as nat);
    let h2 = dec_digits(other_template_hash as nat);
    let t1 = encode_utf8(text);
    let t2 = encode_utf8(other_text);
    let sep = seq![SEPARATOR];
    lemma_dec_digits_props(e1.len());
    lemma_dec_digits_props(e2.len());
    lemma_dec_digits_props(template_hash as nat);
    lemma_dec_digits_props(other_template_hash as nat);
    let tail1 = h1 + (sep + t1);
    let tail2 = h2 + (sep + t2);
    let mid1 = e1 + (sep + tail1);
    let mid2 = e2 + (sep + tail2);
    assert(key_material(text, model, template_hash) =~= d1 + (sep + mid1));
    assert(key_material(other_text, other_model, other_template_hash) =~= d2 + (sep + mid2));
    lemma_split_at_separator(d1, mid1, d2, mid2);
    assert(e1.len() == e2.len());
    assert(e1 =~= mid1.subrange(0, e1.len() as int));
    assert(e2 =~= mid2.subrange(0, e2.len() as int));
    assert(tail1 =~= mid1.subrange(e1.len() as int + 1, mid1.len() as int));
    assert(tail2 =~= mid2.subrange(e2.len() as int + 1, mid2.len() as int));
    vstd::utf8::encode_utf8_decode_utf8(model);
    vstd::utf8::encode_utf8_decode_utf8(other_model);
    assert(e1 == e2);
    lemma_split_at_separator(h1, t1, h2, t2);
    vstd::utf8::encode_utf8_decode_utf8(text);
    vstd::utf8::encode_utf8_decode_utf8(other_text);
}

} // verus!
