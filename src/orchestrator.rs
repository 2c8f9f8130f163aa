use vstd::prelude::*;
use crate::model::{
    basic_edns, edns_view, no_flags, Answer, AnswerView, CacheEntry, CacheKey, EdnsBlock,
    EntryView, HeaderFlags, KeyView, Resolved, ResolvedView, FIXED_TTL_MS, RCODE_FORM_ERR,
    RCODE_SERV_FAIL,
};
use crate::wire::{decode_reply, decoded_from, decodes, edns_fields, encode_query, encoded_query};
use crate::record_cache::{
    get_model, lemma_get_keeps_lookups, lemma_get_unique, lemma_put_keeps_other,
    lemma_put_then_lookup, lemma_put_unique, has_key, keys_unique, lookup_model, put_model, CacheView, RecordCache,
};

verus! {

/// Why a fetch from the upstream resolver gave no answer.
pub enum ResolveError {
    /// The outbound query could not be encoded.
    Encode,
    /// The upstream call itself failed.
    Transport,
    /// The upstream response could not be decoded.
    Decode,
}

/// The response code that a failed fetch becomes.
pub open spec fn error_rcode(e: ResolveError) -> u16 {
    match e {
        ResolveError::Encode => RCODE_FORM_ERR,
        _ => RCODE_SERV_FAIL,
    }
}

/// The response code that a failed fetch becomes.
pub fn error_code(e: &ResolveError) -> (r: u16)
    ensures
        r == error_rcode(*e),
{
    match e {
        ResolveError::Encode => RCODE_FORM_ERR,
        _ => RCODE_SERV_FAIL,
    }
}

/// The instant at which an entry stored at `now` becomes stale.
pub open spec fn expiry(now: u64) -> u64 {
    if now + FIXED_TTL_MS <= u64::MAX {
        (now + FIXED_TTL_MS) as u64
    } else {
        u64::MAX
    }
}

/// What the cache says of one query.
pub enum Lookup {
    /// A fresh entry: answer with it, and ask the upstream nothing.
    Fresh(Resolved),
    /// A stale entry: answer with it now, and refresh it in the background.
    Stale(Resolved),
    /// Nothing cached: fetch from the upstream and wait for it.
    Miss,
}

/// Whether the cache holds a fresh entry for `k` at `now`.
pub open spec fn is_fresh(s: CacheView, k: KeyView, now: u64) -> bool {
    match lookup_model(s, k) {
        Some(e) => now < e.0,
        None => false,
    }
}

/// How a cached answer is served to a query with the given DNSSEC-OK flag:
/// no header flag set, and a fresh EDNS block carrying that flag.
pub open spec fn served_view(a: AnswerView, dnssec_ok: bool) -> ResolvedView {
    (no_flags(), Some(basic_edns(dnssec_ok)), a)
}

/// Serves a cached answer to a query with the given DNSSEC-OK flag.
pub fn served(answer: Answer, dnssec_ok: bool) -> (r: Resolved)
    ensures
        r@ == served_view(answer@, dnssec_ok),
{
    Resolved { flags: HeaderFlags::none(), edns: Some(EdnsBlock::basic(dnssec_ok)), answer }
}

/// Consults the cache for `key` at instant `now` (milliseconds).
pub fn lookup_cached(cache: &mut RecordCache, key: &CacheKey, now: u64) -> (r: Lookup)
    requires
        old(cache).wf(),
    ensures
        final(cache).wf(),
        final(cache).cap() == old(cache).cap(),
        final(cache)@ == get_model(old(cache)@, key@),
        match r {
            Lookup::Fresh(x) => lookup_model(old(cache)@, key@) matches Some(e) && now < e.0 && x@
                == served_view(e.1, key@.3),
            Lookup::Stale(x) => lookup_model(old(cache)@, key@) matches Some(e) && now >= e.0 && x@
                == served_view(e.1, key@.3),
            Lookup::Miss => !has_key(old(cache)@, key@),
        },
{
    match cache.get(key) {
        None => Lookup::Miss,
        Some(e) => {
            if now < e.valid_until {
                Lookup::Fresh(served(e.answer, key.is_dnssec()))
            } else {
                Lookup::Stale(served(e.answer, key.is_dnssec()))
            }
        },
    }
}

/// The entry that an answer fetched at `now` is stored as.
pub fn fresh_entry(answer: Answer, now: u64) -> (r: CacheEntry)
    ensures
        r@ == (expiry(now), answer@),
{
    CacheEntry { valid_until: now.saturating_add(FIXED_TTL_MS), answer }
}

/// Takes the outcome of a fetch made at `now` for `key`: its answer is stored
/// with a fresh expiry and the whole outcome returned; a failure stores
/// nothing and becomes its response code.
pub fn complete_fetch(
    cache: &mut RecordCache,
    key: CacheKey,
    now: u64,
    outcome: Result<Resolved, ResolveError>,
) -> (r: Result<Resolved, u16>)
    requires
        old(cache).wf(),
    ensures
        final(cache).wf(),
        final(cache).cap() == old(cache).cap(),
        match outcome {
            Ok(x) => r matches Ok(y) && y@ == x@ && final(cache)@ == put_model(
                old(cache)@,
                old(cache).cap(),
                key@,
                (expiry(now), x@.2),
            ),
            Err(e) => r == Err::<Resolved, u16>(error_rcode(e)) && final(cache)@ == old(cache)@,
        },
{
    match outcome {
        Ok(x) => {
            let stored = x.answer.copy();
            cache.put(key, fresh_entry(stored, now));
            Ok(x)
        },
        Err(e) => Err(error_code(&e)),
    }
}

/// The query sent upstream for a question as received, with message id `id`
/// and the fixed fields of the request's EDNS block, if it had one.
pub fn upstream_query(id: u16, name: &Vec<u8>, qclass: u16, qtype: u16, edns: &Option<EdnsBlock>) -> (r:
    Result<Vec<u8>, ResolveError>)
    ensures
        match encoded_query((id, name@, qclass, qtype, edns_fields(edns_view(*edns)))) {
            Some(b) => r matches Ok(x) && x@ == b,
            None => r matches Err(e) && e is Encode,
        },
{
    encode_query(id, name, qclass, qtype, edns)
}

/// Takes what the upstream sent back for `key`, asked at `now`: the bytes of
/// a response, or the failure of the call. A well-formed response is stored
/// and returned as in `complete_fetch`; bytes that do not decode, like a
/// failed call, store nothing and become a server failure.
pub fn complete_upstream(
    cache: &mut RecordCache,
    key: CacheKey,
    now: u64,
    reply: Result<Vec<u8>, ResolveError>,
) -> (r: Result<Resolved, u16>)
    requires
        old(cache).wf(),
    ensures
        final(cache).wf(),
        final(cache).cap() == old(cache).cap(),
        match reply {
            Ok(b) => if decodes(b@) {
                r matches Ok(x) && decoded_from(b@, x@) && final(cache)@ == put_model(
                    old(cache)@,
                    old(cache).cap(),
                    key@,
                    (expiry(now), x@.2),
                )
            } else {
                r == Err::<Resolved, u16>(RCODE_SERV_FAIL) && final(cache)@ == old(cache)@
            },
            Err(e) => r == Err::<Resolved, u16>(error_rcode(e)) && final(cache)@ == old(cache)@,
        },
{
    match reply {
        Ok(b) => complete_fetch(cache, key, now, decode_reply(&b)),
        Err(e) => complete_fetch(cache, key, now, Err(e)),
    }
}

/// An answer fetched and stored at `now` is served fresh, with no further
/// upstream call, by every lookup before its expiry.
pub proof fn lemma_fetch_then_fresh(
    s: CacheView,
    cap: nat,
    k: KeyView,
    a: AnswerView,
    now: u64,
    later: u64,
)
    requires
        keys_unique(s),
        cap > 0,
        s.len() <= cap,
        now <= later,
        later < expiry(now),
    ensures
        is_fresh(put_model(s, cap, k, (expiry(now), a)), k, later),
        lookup_model(put_model(s, cap, k, (expiry(now), a)), k) == Some((expiry(now), a)),
{
    lemma_put_then_lookup(s, cap, k, (expiry(now), a));
}

/// A stale entry stays in the cache after it is served, and once its
/// background refresh completes at `done`, the next lookups see the new
/// answer with an expiry counted from `done`.
pub proof fn lemma_stale_then_refreshed(
    s: CacheView,
    cap: nat,
    k: KeyView,
    now: u64,
    done: u64,
    fresh: AnswerView,
)
    requires
        keys_unique(s),
        cap > 0,
        s.len() <= cap,
        has_key(s, k),
        !is_fresh(s, k, now),
    ensures
        lookup_model(get_model(s, k), k) == lookup_model(s, k),
        lookup_model(put_model(get_model(s, k), cap, k, (expiry(done), fresh)), k) == Some(
            (expiry(done), fresh),
        ),
{
    lemma_get_keeps_lookups(s, k, k);
    lemma_get_unique(s, k);
    lemma_put_then_lookup(get_model(s, k), cap, k, (expiry(done), fresh));
}

/// Keys that differ only in the DNSSEC flag are held apart: storing an entry
/// under one leaves the entry of the other as it was, unless the store
/// evicted that other entry as the least recently used of a full cache.
pub proof fn lemma_dnssec_keys_apart(
    s: CacheView,
    cap: nat,
    name: Seq<u8>,
    qclass: u16,
    qtype: u16,
    dnssec: bool,
    e: EntryView,
)
    requires
        keys_unique(s),
        cap > 0,
        s.len() <= cap,
        !(s.len() >= cap && !has_key(s, (name, qclass, qtype, dnssec)) && s[0].0 == (
            name,
            qclass,
            qtype,
            !dnssec,
        )),
    ensures
        lookup_model(put_model(s, cap, (name, qclass, qtype, dnssec), e), (name, qclass, qtype, !dnssec))
            == lookup_model(s, (name, qclass, qtype, !dnssec)),
{
    lemma_put_keeps_other(s, cap, (name, qclass, qtype, dnssec), (name, qclass, qtype, !dnssec), e);
}

/// Resolving the same question with the DNSSEC flag clear and then set fills
/// two entries: after both stores a cache of capacity two or more holds each
/// key with its own entry.
pub proof fn lemma_dnssec_keys_both_held(
    s: CacheView,
    cap: nat,
    name: Seq<u8>,
    qclass: u16,
    qtype: u16,
    e1: EntryView,
    e2: EntryView,
)
    requires
        keys_unique(s),
        cap >= 2,
        s.len() <= cap,
    ensures
        ({
            let k1 = (name, qclass, qtype, false);
            let k2 = (name, qclass, qtype, true);
            let s3 = put_model(put_model(s, cap, k1, e1), cap, k2, e2);
            lookup_model(s3, k1) == Some(e1) && lookup_model(s3, k2) == Some(e2)
        }),
{
    let k1 = (name, qclass, qtype, false);
    let k2 = (name, qclass, qtype, true);
    let s2 = put_model(s, cap, k1, e1);
    lemma_put_unique(s, cap, k1, e1);
    lemma_put_then_lookup(s, cap, k1, e1);
    assert(s2[s2.len() - 1].0 == k1);
    if s2.len() >= 2 && s2[0].0 == k1 {
        assert(s2[0].0 == s2[s2.len() - 1].0);
    }
    lemma_put_keeps_other(s2, cap, k2, k1, e2);
    lemma_put_then_lookup(s2, cap, k2, e2);
}

} // verus!
