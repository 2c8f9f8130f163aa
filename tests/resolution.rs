use dns_cache::assembler::{
    classify_request, error_reply, merge_results, nsid_option, response_edns, RequestAction,
};
use dns_cache::model::{Answer, CacheEntry, CacheKey, EdnsBlock, HeaderFlags, Resolved, FIXED_TTL_MS};
use dns_cache::orchestrator::{complete_fetch, error_code, fresh_entry, lookup_cached, Lookup, ResolveError};
use dns_cache::record_cache::RecordCache;

const TYPE_A: u16 = 1;
const TYPE_AAAA: u16 = 28;
const CLASS_IN: u16 = 1;

fn answer(code: u16, answers: &[&[u8]]) -> Answer {
    Answer {
        response_code: code,
        answers: answers.iter().map(|r| r.to_vec()).collect(),
        name_servers: Vec::new(),
        additionals: Vec::new(),
    }
}

fn resolved(a: Answer) -> Resolved {
    Resolved { flags: HeaderFlags::none(), edns: None, answer: a }
}

fn key(name: &str, qtype: u16, dnssec: bool) -> CacheKey {
    CacheKey::new(&name.as_bytes().to_vec(), CLASS_IN, qtype, dnssec)
}

fn entry(valid_until: u64, rec: &[u8]) -> CacheEntry {
    CacheEntry { valid_until, answer: answer(0, &[rec]) }
}

fn fresh_answers(l: Lookup) -> Option<Vec<Vec<u8>>> {
    match l {
        Lookup::Fresh(x) => Some(x.answer.answers),
        _ => None,
    }
}

fn stale_answers(l: Lookup) -> Option<Vec<Vec<u8>>> {
    match l {
        Lookup::Stale(x) => Some(x.answer.answers),
        _ => None,
    }
}

#[test]
fn cold_miss_then_hit() {
    let mut cache = RecordCache::new(16);
    let q = key("example.com", TYPE_A, false);
    assert!(matches!(lookup_cached(&mut cache, &q, 0), Lookup::Miss));
    let fetched = complete_fetch(&mut cache, q.copy(), 0, Ok(resolved(answer(0, &[b"93.184.216.34"]))));
    assert_eq!(fetched.ok().unwrap().answer.answers, vec![b"93.184.216.34".to_vec()]);
    assert_eq!(cache.len(), 1);
    let again = lookup_cached(&mut cache, &q, FIXED_TTL_MS - 1);
    assert_eq!(fresh_answers(again), Some(vec![b"93.184.216.34".to_vec()]));
    assert_eq!(cache.len(), 1);
}

#[test]
fn stale_entry_served_then_refreshed() {
    let mut cache = RecordCache::new(16);
    let q = key("example.com", TYPE_A, false);
    complete_fetch(&mut cache, q.copy(), 1000, Ok(resolved(answer(0, &[b"old"])))).unwrap();
    let stale = lookup_cached(&mut cache, &q, 6000);
    assert_eq!(stale_answers(stale), Some(vec![b"old".to_vec()]));
    complete_fetch(&mut cache, q.copy(), 6100, Ok(resolved(answer(0, &[b"new"])))).unwrap();
    assert_eq!(fresh_answers(lookup_cached(&mut cache, &q, 7000)), Some(vec![b"new".to_vec()]));
    assert_eq!(fresh_answers(lookup_cached(&mut cache, &q, 11099)), Some(vec![b"new".to_vec()]));
    assert_eq!(stale_answers(lookup_cached(&mut cache, &q, 11100)), Some(vec![b"new".to_vec()]));
}

#[test]
fn failed_fetch_caches_nothing() {
    let mut cache = RecordCache::new(4);
    let q = key("example.com", TYPE_A, false);
    assert!(matches!(complete_fetch(&mut cache, q.copy(), 0, Err(ResolveError::Transport)), Err(2)));
    assert!(matches!(complete_fetch(&mut cache, q.copy(), 0, Err(ResolveError::Decode)), Err(2)));
    assert!(matches!(complete_fetch(&mut cache, q.copy(), 0, Err(ResolveError::Encode)), Err(1)));
    assert_eq!(cache.len(), 0);
    assert!(matches!(lookup_cached(&mut cache, &q, 0), Lookup::Miss));
}

#[test]
fn error_codes_of_fetch_failures() {
    assert_eq!(error_code(&ResolveError::Encode), 1);
    assert_eq!(error_code(&ResolveError::Transport), 2);
    assert_eq!(error_code(&ResolveError::Decode), 2);
}

#[test]
fn lru_evicts_least_recently_used() {
    let mut cache = RecordCache::new(3);
    for (i, name) in ["k1.test", "k2.test", "k3.test", "k4.test"].iter().enumerate() {
        cache.put(key(name, TYPE_A, false), entry(100, &[i as u8]));
    }
    assert_eq!(cache.len(), 3);
    assert!(!cache.contains(&key("k1.test", TYPE_A, false)));
    for name in ["k2.test", "k3.test", "k4.test"] {
        assert!(cache.get(&key(name, TYPE_A, false)).is_some());
    }
}

#[test]
fn get_refreshes_recency() {
    let mut cache = RecordCache::new(3);
    cache.put(key("k1.test", TYPE_A, false), entry(100, b"1"));
    cache.put(key("k2.test", TYPE_A, false), entry(100, b"2"));
    cache.put(key("k3.test", TYPE_A, false), entry(100, b"3"));
    assert!(cache.get(&key("k1.test", TYPE_A, false)).is_some());
    cache.put(key("k4.test", TYPE_A, false), entry(100, b"4"));
    assert!(cache.contains(&key("k1.test", TYPE_A, false)));
    assert!(!cache.contains(&key("k2.test", TYPE_A, false)));
}

#[test]
fn put_replaces_entry_wholesale() {
    let mut cache = RecordCache::new(2);
    cache.put(key("a.test", TYPE_A, false), entry(100, b"first"));
    cache.put(key("a.test", TYPE_A, false), entry(200, b"second"));
    assert_eq!(cache.len(), 1);
    let e = cache.get(&key("a.test", TYPE_A, false)).unwrap();
    assert_eq!(e.valid_until, 200);
    assert_eq!(e.answer.answers, vec![b"second".to_vec()]);
}

#[test]
fn dnssec_flag_separates_keys() {
    let mut cache = RecordCache::new(8);
    let plain = key("example.com", TYPE_A, false);
    let signed = key("example.com", TYPE_A, true);
    assert!(!plain.same_as(&signed));
    complete_fetch(&mut cache, plain.copy(), 0, Ok(resolved(answer(0, &[b"plain"])))).unwrap();
    assert!(matches!(lookup_cached(&mut cache, &signed, 0), Lookup::Miss));
    complete_fetch(&mut cache, signed.copy(), 10_000, Ok(resolved(answer(0, &[b"signed"])))).unwrap();
    assert_eq!(cache.len(), 2);
    assert_eq!(stale_answers(lookup_cached(&mut cache, &plain, 10_000)), Some(vec![b"plain".to_vec()]));
    assert_eq!(fresh_answers(lookup_cached(&mut cache, &signed, 10_000)), Some(vec![b"signed".to_vec()]));
}

#[test]
fn names_compare_without_case() {
    let a = key("Example.COM", TYPE_A, false);
    let b = key("example.com", TYPE_A, false);
    assert!(a.same_as(&b));
    assert_eq!(a.name(), &b"example.com".to_vec());
    assert!(!a.same_as(&key("example.com", TYPE_AAAA, false)));
}

#[test]
fn expiry_is_fixed_interval() {
    assert_eq!(fresh_entry(answer(0, &[]), 1000).valid_until, 6000);
    assert_eq!(fresh_entry(answer(0, &[]), u64::MAX - 1).valid_until, u64::MAX);
}

#[test]
fn merge_all_succeed() {
    let results = vec![
        Ok(resolved(Answer {
            response_code: 0,
            answers: vec![b"a.test A".to_vec()],
            name_servers: vec![b"ns1".to_vec()],
            additionals: vec![],
        })),
        Ok(resolved(Answer {
            response_code: 3,
            answers: vec![b"b.test AAAA".to_vec(), b"b.test AAAA 2".to_vec()],
            name_servers: vec![b"ns2".to_vec()],
            additionals: vec![b"extra".to_vec()],
        })),
    ];
    let merged = merge_results(&results).ok().unwrap().answer;
    assert_eq!(merged.response_code, 0);
    assert_eq!(
        merged.answers,
        vec![b"a.test A".to_vec(), b"b.test AAAA".to_vec(), b"b.test AAAA 2".to_vec()]
    );
    assert_eq!(merged.name_servers, vec![b"ns1".to_vec(), b"ns2".to_vec()]);
    assert_eq!(merged.additionals, vec![b"extra".to_vec()]);
}

#[test]
fn merge_one_fails() {
    let results = vec![Ok(resolved(answer(0, &[b"a.test A"]))), Err(2)];
    assert!(matches!(merge_results(&results), Err(2)));
    let two_failures = vec![Ok(resolved(answer(0, &[b"a"]))), Err(1), Err(2)];
    assert!(matches!(merge_results(&two_failures), Err(1)));
    let first_fails = vec![Err(2), Ok(resolved(answer(0, &[b"b"])))];
    assert!(matches!(merge_results(&first_fails), Err(2)));
}

#[test]
fn nsid_injected_only_when_asked_and_configured() {
    let name = Some(b"srv1".to_vec());
    assert_eq!(nsid_option(true, &name), Some(b"srv1".to_vec()));
    assert_eq!(nsid_option(true, &None), None);
    assert_eq!(nsid_option(false, &name), None);
}

#[test]
fn malformed_requests_rejected_before_lookup() {
    assert!(matches!(classify_request(false, 0, 0), RequestAction::Reject(1)));
    assert!(matches!(classify_request(false, 4, 1), RequestAction::Reject(4)));
    assert!(matches!(classify_request(true, 0, 1), RequestAction::Reject(1)));
    assert!(matches!(classify_request(false, 0, 2), RequestAction::Dispatch));
    let reply = error_reply(4242, 4, 4);
    assert_eq!((reply.id, reply.op_code, reply.response_code), (4242, 4, 4));
}

#[test]
fn merge_keeps_first_header_and_edns() {
    let mut flags = HeaderFlags::none();
    flags.recursion_available = true;
    flags.authentic_data = true;
    let mut edns = EdnsBlock::basic(true);
    edns.max_payload = 4096;
    let first = Resolved { flags, edns: Some(edns), answer: answer(0, &[b"a"]) };
    let results = vec![Ok(first), Ok(resolved(answer(2, &[b"b"])))];
    let merged = merge_results(&results).ok().unwrap();
    assert!(merged.flags.recursion_available && merged.flags.authentic_data);
    assert!(!merged.flags.authoritative);
    let e = merged.edns.unwrap();
    assert_eq!((e.max_payload, e.dnssec_ok), (4096, true));
    assert_eq!(merged.answer.response_code, 0);
    assert_eq!(merged.answer.answers, vec![b"a".to_vec(), b"b".to_vec()]);
}

#[test]
fn cache_hit_served_with_fresh_edns() {
    let mut cache = RecordCache::new(4);
    let q = key("example.com", TYPE_A, true);
    let mut upstream = resolved(answer(0, &[b"x"]));
    upstream.flags.authoritative = true;
    complete_fetch(&mut cache, q.copy(), 0, Ok(upstream)).ok().unwrap();
    match lookup_cached(&mut cache, &q, 1) {
        Lookup::Fresh(x) => {
            assert!(!x.flags.authoritative);
            let e = x.edns.unwrap();
            assert_eq!((e.dnssec_ok, e.max_payload, e.version, e.options.len()), (true, 512, 0, 0));
        }
        _ => panic!("expected a fresh entry"),
    }
}

#[test]
fn response_edns_sets_or_drops_nsid() {
    let mut base = EdnsBlock::basic(true);
    base.options = vec![(3, b"upstream".to_vec()), (10, b"cookie".to_vec())];
    let with = response_edns(&Some(base.copy()), true, &Some(b"srv1".to_vec()));
    assert_eq!(with.options, vec![(10, b"cookie".to_vec()), (3, b"srv1".to_vec())]);
    assert!(with.dnssec_ok);
    let without = response_edns(&Some(base.copy()), false, &Some(b"srv1".to_vec()));
    assert_eq!(without.options, vec![(10, b"cookie".to_vec())]);
    let unnamed = response_edns(&Some(base), true, &None);
    assert_eq!(unnamed.options, vec![(10, b"cookie".to_vec())]);
    let fresh = response_edns(&None, true, &Some(b"srv1".to_vec()));
    assert_eq!((fresh.dnssec_ok, fresh.max_payload), (false, 512));
    assert_eq!(fresh.options, vec![(3, b"srv1".to_vec())]);
}
