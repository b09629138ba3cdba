//! One cached response with its creation and expiry times, and its byte
//! encoding `response|created_at|expires_at`.
use vstd::prelude::*;
use vstd::utf8::*;
use crate::decimal::{dec_digits, lemma_dec_digits_props, parse_u64, parse_u64_spec, u64_to_dec};
use crate::errors::AppError;
use crate::clock::unix_now;

verus! {

broadcast use group_utf8_lib;

/// The field separator of the encoding.
pub const SEPARATOR: u8 = 124;

/// Seconds in one day.
pub const SECS_PER_DAY: u64 = 86400;

/// Cache settings: whether caching is on, how long a record lives, and a size
/// hint that nothing enforces.
#[derive(Debug)]
pub struct CacheConfig {
    pub enabled: bool,
    pub ttl_days: u64,
    pub max_size_mb: u64,
}

impl Clone for CacheConfig {
    fn clone(&self) -> (r: Self)
        ensures
            r == *self,
    {
        CacheConfig { enabled: self.enabled, ttl_days: self.ttl_days, max_size_mb: self.max_size_mb }
    }
}

/// A cached response.
#[derive(Debug)]
pub struct CacheEntry {
    pub response: String,
    pub created_at: u64,
    pub expires_at: u64,
}

/// The expiry time of a record made at `now` that lives `ttl_days` days;
/// the latest representable time when that lies beyond it.
pub open spec fn expiry_of(now: u64, ttl_days: u64) -> u64 {
    let t = now + ttl_days * SECS_PER_DAY;
    if t <= u64::MAX {
        t as u64
    } else {
        u64::MAX
    }
}

/// The encoding of a record.
pub open spec fn entry_bytes(response: Seq<char>, created_at: u64, expires_at: u64) -> Seq<u8> {
    encode_utf8(response) + seq![SEPARATOR] + dec_digits(created_at as nat) + seq![SEPARATOR]
        + dec_digits(expires_at as nat)
}

/// The position of the last separator in `b[..end]`, or -1 when there is none.
pub open spec fn last_separator(b: Seq<u8>, end: int) -> int
    decreases end,
{
    if end <= 0 {
        -1
    } else if b[end - 1] == SEPARATOR {
        end - 1
    } else {
        last_separator(b, end - 1)
    }
}

/// What a byte sequence decodes to: the response is everything before the
/// second-to-last separator, so it may itself hold separators; the two
/// trailing fields are unsigned decimal integers.
pub open spec fn decode_entry(b: Seq<u8>) -> Option<(Seq<char>, u64, u64)> {
    let last_sep = last_separator(b, b.len() as int);
    let first_sep = last_separator(b, last_sep);
    if first_sep < 0 {
        None
    } else if !valid_utf8(b.subrange(0, first_sep)) {
        None
    } else {
        match (
            parse_u64_spec(b.subrange(first_sep + 1, last_sep)),
            parse_u64_spec(b.subrange(last_sep + 1, b.len() as int)),
        ) {
            (Some(c), Some(e)) => Some((decode_utf8(b.subrange(0, first_sep)), c, e)),
            _ => None,
        }
    }
}

proof fn lemma_last_separator(b: Seq<u8>, end: int, k: int)
    requires
        0 <= k < end <= b.len(),
        b[k] == SEPARATOR,
        forall|j: int| k < j < end ==> b[j] != SEPARATOR,
    ensures
        last_separator(b, end) == k,
    decreases end,
{
    if end - 1 != k {
        lemma_last_separator(b, end - 1, k);
    }
}

proof fn lemma_last_separator_range(b: Seq<u8>, end: int)
    requires
        0 <= end <= b.len(),
    ensures
        -1 <= last_separator(b, end) < end,
        last_separator(b, end) >= 0 ==> b[last_separator(b, end)] == SEPARATOR,
        forall|j: int| last_separator(b, end) < j < end ==> b[j] != SEPARATOR,
    decreases end,
{
    if end > 0 && b[end - 1] != SEPARATOR {
        lemma_last_separator_range(b, end - 1);
    }
}

/// Decoding undoes encoding.
pub proof fn lemma_entry_round_trip(response: Seq<char>, created_at: u64, expires_at: u64)
    ensures
        decode_entry(entry_bytes(response, created_at, expires_at)) == Some(
            (response, created_at, expires_at),
        ),
{
    let r = encode_utf8(response);
    let c = dec_digits(created_at as nat);
    let e = dec_digits(expires_at as nat);
    let b = entry_bytes(response, created_at, expires_at);
    lemma_dec_digits_props(created_at as nat);
    lemma_dec_digits_props(expires_at as nat);
    let first_sep = r.len() as int;
    let last_sep = first_sep + 1 + c.len();
    assert(b[last_sep] == SEPARATOR);
    assert forall|j: int| last_sep < j < b.len() implies b[j] != SEPARATOR by {
        assert(b[j] == e[j - last_sep - 1]);
    }
    lemma_last_separator(b, b.len() as int, last_sep);
    assert(b[first_sep] == SEPARATOR);
    assert forall|j: int| first_sep < j < last_sep implies b[j] != SEPARATOR by {
        assert(b[j] == c[j - first_sep - 1]);
    }
    lemma_last_separator(b, last_sep, first_sep);
    assert(b.subrange(0, first_sep) =~= r);
    assert(b.subrange(first_sep + 1, last_sep) =~= c);
    assert(b.subrange(last_sep + 1, b.len() as int) =~= e);
}

/// Relies on `String::from_utf8`: it accepts exactly the well-formed UTF-8
/// byte sequences, and then holds the characters they encode.
#[verifier::external_body]
fn string_from_utf8(b: Vec<u8>) -> (r: Option<String>)
    ensures
        r is Some <==> valid_utf8(b@),
        r matches Some(s) ==> s@ == decode_utf8(b@),
{
    String::from_utf8(b).ok()
}

fn find_separator_before(b: &Vec<u8>, end: usize) -> (r: Option<usize>)
    requires
        end <= b@.len(),
    ensures
        r matches Some(p) ==> p as int == last_separator(b@, end as int),
        r is None ==> last_separator(b@, end as int) == -1,
{
    let mut i: usize = end;
    while i > 0
        invariant
            i <= end <= b@.len(),
            last_separator(b@, end as int) == last_separator(b@, i as int),
        decreases i,
    {
        if b[i - 1] == SEPARATOR {
            return Some(i - 1);
        }
        i = i - 1;
    }
    None
}

fn copy_prefix(b: &Vec<u8>, end: usize) -> (r: Vec<u8>)
    requires
        end <= b@.len(),
    ensures
        r@ == b@.subrange(0, end as int),
{
    let mut out: Vec<u8> = Vec::new();
    let mut i: usize = 0;
    while i < end
        invariant
            i <= end <= b@.len(),
            out@ == b@.subrange(0, i as int),
        decreases end - i,
    {
        out.push(b[i]);
        proof {
            assert(out@ =~= b@.subrange(0, i as int + 1));
        }
        i = i + 1;
    }
    out
}

impl CacheEntry {
    /// A record of `response` made at `now` that lives `ttl_days` days.
    pub fn new_at(response: String, now: u64, ttl_days: u64) -> (r: Self)
        ensures
            r.response@ == response@,
            r.created_at == now,
            r.expires_at == expiry_of(now, ttl_days),
    {
        let expires_at = match ttl_days.checked_mul(SECS_PER_DAY) {
            Some(span) => match now.checked_add(span) {
                Some(t) => t,
                None => u64::MAX,
            },
            None => {
                proof {
                    assert(now + ttl_days * SECS_PER_DAY > u64::MAX) by (nonlinear_arith)
                        requires
                            ttl_days * SECS_PER_DAY > u64::MAX,
                    ;
                }
                u64::MAX
            },
        };
        CacheEntry { response, created_at: now, expires_at }
    }

    /// A record of `response` made now that lives `ttl_days` days.
    pub fn new(response: String, ttl_days: u64) -> (r: Self)
        ensures
            r.response@ == response@,
            r.expires_at == expiry_of(r.created_at, ttl_days),
    {
        let now = unix_now();
        Self::new_at(response, now, ttl_days)
    }

    /// The encoding `response|created_at|expires_at`.
    pub fn to_bytes(&self) -> (r: Vec<u8>)
        ensures
            r@ == entry_bytes(self.response@, self.created_at, self.expires_at),
    {
        let mut out = vstd::slice::slice_to_vec(self.response.as_str().as_bytes());
        out.push(SEPARATOR);
        let mut c = u64_to_dec(self.created_at);
        out.append(&mut c);
        out.push(SEPARATOR);
        let mut e = u64_to_dec(self.expires_at);
        out.append(&mut e);
        out
    }

    /// Decodes a record; fails with a cache error when the bytes are not one.
    pub fn from_bytes(bytes: &[u8]) -> (r: Result<Self, AppError>)
        ensures
            match decode_entry(bytes@) {
                Some((response, created_at, expires_at)) => r matches Ok(e) && e.response@
                    == response && e.created_at == created_at && e.expires_at == expires_at,
                None => r matches Err(AppError::CacheError(_)),
            },
    {
        let b = vstd::slice::slice_to_vec(bytes);
        let n = b.len();
        proof {
            lemma_last_separator_range(b@, n as int);
        }
        let last_sep = match find_separator_before(&b, n) {
            Some(p) => p,
            None => {
                proof {
                    assert(last_separator(b@, -1) == -1);
                }
                return Err(AppError::CacheError("Invalid cache entry format".to_string()));
            },
        };
        proof {
            lemma_last_separator_range(b@, last_sep as int);
        }
        let first_sep = match find_separator_before(&b, last_sep) {
            Some(p) => p,
            None => {
                return Err(AppError::CacheError("Invalid cache entry format".to_string()));
            },
        };
        let response = match string_from_utf8(copy_prefix(&b, first_sep)) {
            Some(s) => s,
            None => {
                return Err(
                    AppError::CacheError("Failed to deserialize cache entry".to_string()),
                );
            },
        };
        let created_at = match parse_u64(&b, first_sep + 1, last_sep) {
            Some(v) => v,
            None => {
                return Err(AppError::CacheError("Invalid created_at timestamp".to_string()));
            },
        };
        let expires_at = match parse_u64(&b, last_sep + 1, n) {
            Some(v) => v,
            None => {
                return Err(AppError::CacheError("Invalid expires_at timestamp".to_string()));
            },
        };
        Ok(CacheEntry { response, created_at, expires_at })
    }

    /// Whether the record had expired at time `now`: a record lives up to,
    /// but not including, its expiry second.
    pub fn is_expired_at(&self, now: u64) -> (r: bool)
        ensures
            r == (self.expires_at <= now),
    {
        self.expires_at <= now
    }

    /// Whether the record has expired by the current time.
    pub fn is_expired(&self) -> (r: bool)
        ensures
            self.expires_at == 0 ==> r,
    {
        self.is_expired_at(unix_now())
    }
}

} // verus!
