use dns_cache::model::{CacheKey, EdnsBlock};
use dns_cache::wire::decode_reply;
use dns_cache::orchestrator::{complete_upstream, lookup_cached, upstream_query, Lookup, ResolveError};
use dns_cache::record_cache::RecordCache;
use std::str::FromStr;
use trust_dns_proto::op::{Edns, Message, MessageType, Query};
use trust_dns_proto::rr::{DNSClass, Name, RData, Record, RecordType};
use trust_dns_proto::serialize::binary::{BinDecodable, BinEncodable};

fn example_key(dnssec: bool) -> CacheKey {
    CacheKey::new(&b"Example.com.".to_vec(), 1, 1, dnssec)
}

fn example_reply() -> (Vec<u8>, Vec<u8>) {
    let name = Name::from_str("example.com.").unwrap();
    let record = Record::from_rdata(name.clone(), 300, RData::A([93, 184, 216, 34].into()));
    let mut msg = Message::new();
    msg.set_id(7).set_message_type(MessageType::Response);
    msg.add_query(Query::query(name, RecordType::A));
    msg.add_answer(record.clone());
    (msg.to_bytes().unwrap(), record.to_bytes().unwrap())
}

#[test]
fn upstream_query_encodes_the_question() {
    let edns = Some(EdnsBlock::basic(true));
    let bytes = upstream_query(4242, &b"Example.com.".to_vec(), 1, 1, &edns).ok().unwrap();
    let msg = Message::from_bytes(&bytes).unwrap();
    assert_eq!(msg.id(), 4242);
    assert_eq!(msg.message_type(), MessageType::Query);
    assert_eq!(msg.queries().len(), 1);
    let q = &msg.queries()[0];
    assert_eq!(q.name().to_ascii(), "Example.com.");
    assert_eq!(q.query_type(), RecordType::A);
    assert_eq!(q.query_class(), DNSClass::IN);
    assert!(msg.edns().unwrap().dnssec_ok());
    let plain = upstream_query(1, &b"example.com.".to_vec(), 1, 28, &None).ok().unwrap();
    assert!(Message::from_bytes(&plain).unwrap().edns().is_none());
}

#[test]
fn upstream_reply_is_decoded_and_cached() {
    let (reply, record) = example_reply();
    let mut cache = RecordCache::new(8);
    let key = example_key(false);
    let answer = complete_upstream(&mut cache, key.copy(), 0, Ok(reply)).ok().unwrap();
    assert_eq!(answer.answer.response_code, 0);
    assert_eq!(answer.answer.answers, vec![record.clone()]);
    assert!(answer.answer.name_servers.is_empty());
    assert!(answer.edns.is_none());
    match lookup_cached(&mut cache, &key, 10) {
        Lookup::Fresh(x) => assert_eq!(x.answer.answers, vec![record]),
        _ => panic!("expected a fresh entry"),
    }
}

#[test]
fn undecodable_reply_is_server_failure() {
    let mut cache = RecordCache::new(8);
    let r = complete_upstream(&mut cache, example_key(false), 0, Ok(vec![1, 2, 3]));
    assert!(matches!(r, Err(2)));
    let r = complete_upstream(&mut cache, example_key(false), 0, Err(ResolveError::Transport));
    assert!(matches!(r, Err(2)));
    assert_eq!(cache.len(), 0);
}

#[test]
fn reply_header_and_edns_are_decoded() {
    let name = Name::from_str("example.com.").unwrap();
    let mut msg = Message::new();
    msg.set_id(9).set_message_type(MessageType::Response);
    msg.set_authoritative(true).set_recursion_available(true);
    msg.add_query(Query::query(name, RecordType::A));
    let mut edns = Edns::new();
    edns.set_dnssec_ok(true);
    edns.set_max_payload(1232);
    msg.set_edns(edns);
    let decoded = decode_reply(&msg.to_bytes().unwrap()).ok().unwrap();
    assert!(decoded.flags.authoritative && decoded.flags.recursion_available);
    assert!(!decoded.flags.truncated);
    let e = decoded.edns.unwrap();
    assert_eq!((e.dnssec_ok, e.max_payload, e.version), (true, 1232, 0));
    assert!(decoded.answer.answers.is_empty());
}
