use vstd::prelude::*;
use crate::model::{
    Answer, AnswerView, EdnsBlock, EdnsView, FlagsView, HeaderFlags, Resolved, ResolvedView,
    edns_view,
};
use crate::orchestrator::ResolveError;
use trust_dns_proto::op::{Message, Query};
use trust_dns_proto::rr::{DNSClass, Name, Record, RecordType};
use trust_dns_proto::serialize::binary::{BinDecodable, BinEncodable};

verus! {

/// The wire form of a one-question query: id, name, class, type and the
/// fixed fields of its EDNS block, if any; none where the question cannot be
/// encoded.
pub uninterp spec fn encoded_query(q: (u16, Seq<u8>, u16, u16, Option<(u8, u8, bool, u16)>)) -> Option<Seq<u8>>;

/// The response code of a wire-encoded response and how many records each
/// of its sections holds; none where the bytes are no well-formed message or
/// a record cannot be written back.
pub uninterp spec fn answer_summary(b: Seq<u8>) -> Option<(u16, nat, nat, nat)>;

/// The header flags of a wire-encoded response; none where the bytes are no
/// well-formed message.
pub uninterp spec fn header_flags_of(b: Seq<u8>) -> Option<FlagsView>;

/// The fixed fields of the EDNS block of a wire-encoded response, if it has
/// one; none where the bytes are no well-formed message.
pub uninterp spec fn edns_fields_of(b: Seq<u8>) -> Option<Option<(u8, u8, bool, u16)>>;

/// The part of an answer that the bytes determine.
pub open spec fn answer_shape(a: AnswerView) -> (u16, nat, nat, nat) {
    (a.0, a.1.len(), a.2.len(), a.3.len())
}

/// The fixed fields of an EDNS block.
pub open spec fn edns_fields(e: Option<EdnsView>) -> Option<(u8, u8, bool, u16)> {
    match e {
        Some(x) => Some((x.0, x.1, x.2, x.3)),
        None => None,
    }
}

/// Whether a decoded response agrees with everything the bytes determine.
pub open spec fn decoded_from(b: Seq<u8>, r: ResolvedView) -> bool {
    &&& answer_summary(b) == Some(answer_shape(r.2))
    &&& header_flags_of(b) == Some(r.0)
    &&& edns_fields_of(b) == Some(edns_fields(r.1))
}

/// Whether the bytes decode at all.
pub open spec fn decodes(b: Seq<u8>) -> bool {
    answer_summary(b) is Some && header_flags_of(b) is Some && edns_fields_of(b) is Some
}

/// Relies on trust-dns-proto: `Name::from_ascii`, `DNSClass::from_u16`,
/// `Query::query`, the `Edns` setters and `Message::to_bytes` build and
/// encode a standard query with one question and an EDNS block with the given
/// fixed fields and no options.
#[verifier::external_body]
pub(crate) fn encode_query(id: u16, name: &Vec<u8>, qclass: u16, qtype: u16, edns: &Option<EdnsBlock>) -> (r:
    Result<Vec<u8>, ResolveError>)
    ensures
        match r {
            Ok(b) => encoded_query((id, name@, qclass, qtype, edns_fields(edns_view(*edns)))) == Some(b@),
            Err(e) => encoded_query((id, name@, qclass, qtype, edns_fields(edns_view(*edns)))) is None
                && e is Encode,
        },
{
    let qname = Name::from_ascii(String::from_utf8(name.clone()).map_err(|_| ResolveError::Encode)?).map_err(|_| ResolveError::Encode)?;
    let mut query = Query::query(qname, RecordType::from(qtype));
    query.set_query_class(DNSClass::from_u16(qclass).map_err(|_| ResolveError::Encode)?);
    let mut msg = Message::new();
    msg.set_id(id).add_query(query);
    for b in edns.iter() {
        let e = msg.edns_mut();
        e.set_rcode_high(b.rcode_high);
        e.set_version(b.version);
        e.set_dnssec_ok(b.dnssec_ok);
        e.set_max_payload(b.max_payload);
    }
    msg.to_bytes().map_err(|_| ResolveError::Encode)
}

/// Relies on trust-dns-proto: `Message::from_bytes` decodes a response and
/// `Record::to_bytes` gives each of its records back in wire form.
#[verifier::external_body]
fn decode_answer(bytes: &Vec<u8>) -> (r: Result<Answer, ResolveError>)
    ensures
        match r {
            Ok(a) => answer_summary(bytes@) == Some(answer_shape(a@)),
            Err(e) => answer_summary(bytes@) is None && e is Decode,
        },
{
    let m = Message::from_bytes(bytes).map_err(|_| ResolveError::Decode)?;
    let enc = |rs: &[Record]| rs.iter().map(|r| r.to_bytes()).collect::<Result<Vec<Vec<u8>>, _>>().map_err(|_| ResolveError::Decode);
    Ok(Answer { response_code: u16::from(m.response_code()), answers: enc(m.answers())?, name_servers: enc(m.name_servers())?, additionals: enc(m.additionals())? })
}

/// Relies on trust-dns-proto: `Message::from_bytes` decodes a response, whose
/// header flags are read out.
#[verifier::external_body]
fn decode_flags(bytes: &Vec<u8>) -> (r: Result<HeaderFlags, ResolveError>)
    ensures
        match r {
            Ok(f) => header_flags_of(bytes@) == Some(f@),
            Err(e) => header_flags_of(bytes@) is None && e is Decode,
        },
{
    let m = Message::from_bytes(bytes).map_err(|_| ResolveError::Decode)?;
    Ok(HeaderFlags { authoritative: m.authoritative(), truncated: m.truncated(), recursion_desired: m.recursion_desired(), recursion_available: m.recursion_available(), authentic_data: m.authentic_data(), checking_disabled: m.checking_disabled() })
}

/// Relies on trust-dns-proto: `Message::from_bytes` decodes a response, whose
/// EDNS block is read out with its options as code and data; the options come
/// in the order of a hash map, so only the fixed fields are stated.
#[verifier::external_body]
fn decode_edns(bytes: &Vec<u8>) -> (r: Result<Option<EdnsBlock>, ResolveError>)
    ensures
        match r {
            Ok(e) => edns_fields_of(bytes@) == Some(edns_fields(edns_view(e))),
            Err(e) => edns_fields_of(bytes@) is None && e is Decode,
        },
{
    let m = Message::from_bytes(bytes).map_err(|_| ResolveError::Decode)?;
    Ok(m.edns().map(|e| EdnsBlock { rcode_high: e.rcode_high(), version: e.version(), dnssec_ok: e.dnssec_ok(), max_payload: e.max_payload(), options: e.options().options().iter().map(|(c, o)| (u16::from(*c), Vec::<u8>::from(o))).collect() }))
}

/// Decodes a response: its header flags, EDNS block and answer.
pub fn decode_reply(bytes: &Vec<u8>) -> (r: Result<Resolved, ResolveError>)
    ensures
        match r {
            Ok(x) => decoded_from(bytes@, x@),
            Err(e) => !decodes(bytes@) && e is Decode,
        },
{
    let answer = match decode_answer(bytes) {
        Ok(a) => a,
        Err(e) => return Err(e),
    };
    let flags = match decode_flags(bytes) {
        Ok(f) => f,
        Err(e) => return Err(e),
    };
    let edns = match decode_edns(bytes) {
        Ok(x) => x,
        Err(e) => return Err(e),
    };
    Ok(Resolved { flags, edns, answer })
}

} // verus!
