//! The request pipeline: fingerprint, cache lookup, provider call, cache write.
//! Cache failures never fail a request; provider failures end it.
use vstd::prelude::*;
use vstd::utf8::encode_utf8;
use crate::cache::{default_hash, hash_bytes, key_of, lookup_outcome, store_outcome, CacheManager};
use crate::config::AppConfig;
use crate::errors::AppError;

verus! {

/// A request to improve `text`.
#[derive(Debug)]
pub struct ProcessRequest {
    pub text: String,
}

/// The improved text.
#[derive(Debug)]
pub struct ProcessResponse {
    pub response: String,
}

/// The identity of a prompt template in cache keys: the hash of its text, or
/// 0 when there is none.
pub open spec fn template_identity_of(template: Option<String>) -> u64 {
    match template {
        Some(t) => default_hash(encode_utf8(t@)),
        None => 0,
    }
}

/// The response a lookup result serves, if any.
pub open spec fn served(r: Result<Option<String>, AppError>) -> Option<String> {
    match r {
        Ok(Some(s)) => Some(s),
        _ => None,
    }
}

/// Computes the identity of a prompt template.
pub fn template_identity(template: &Option<String>) -> (r: u64)
    ensures
        r == template_identity_of(*template),
{
    match template {
        Some(t) => hash_bytes(&vstd::slice::slice_to_vec(t.as_str().as_bytes())),
        None => 0,
    }
}

/// First half of a request: the cached response for `text`, if the cache is on
/// and holds a live one. `None` means the provider must be asked; a failing
/// cache counts as a miss.
pub fn begin_request(cache: &mut CacheManager, config: &AppConfig, text: &str) -> (r: Option<String>)
    ensures
        final(cache).config == old(cache).config,
        !old(cache).config.enabled ==> (r is None && final(cache).contents() == old(
            cache,
        ).contents()),
        old(cache).config.enabled ==> exists|now: u64, found: Result<Option<String>, AppError>|
            #[trigger] lookup_outcome(
                old(cache).contents(),
                final(cache).contents(),
                key_of(text@, config.model_name@, template_identity_of(config.prompt_template)),
                now,
                found,
            ) && r == served(found),
{
    if !cache.config.enabled {
        return None;
    }
    let identity = template_identity(&config.prompt_template);
    let found = cache.lookup(text, config.model_name.as_str(), identity);
    match found {
        Ok(Some(s)) => Some(s),
        _ => None,
    }
}

/// Second half of a request: hands back what the provider answered, after
/// caching a successful answer when the cache is on. A failed cache write is
/// ignored.
pub fn finish_request(
    cache: &mut CacheManager,
    config: &AppConfig,
    text: &str,
    outcome: Result<String, AppError>,
) -> (r: Result<String, AppError>)
    ensures
        r == outcome,
        final(cache).config == old(cache).config,
        (old(cache).config.enabled && outcome is Ok) ==> exists|now: u64, written: Result<(), AppError>|
            #[trigger] store_outcome(
                old(cache).contents(),
                final(cache).contents(),
                text@,
                config.model_name@,
                template_identity_of(config.prompt_template),
                outcome->Ok_0@,
                now,
                old(cache).config.ttl_days,
                written,
            ),
        !(old(cache).config.enabled && outcome is Ok) ==> final(cache).contents() == old(
            cache,
        ).contents(),
{
    match outcome {
        Ok(response) => {
            if cache.config.enabled {
                let identity = template_identity(&config.prompt_template);
                let _ = cache.store(text, response.as_str(), config.model_name.as_str(), identity);
            }
            Ok(response)
        },
        Err(e) => Err(e),
    }
}

} // verus!
