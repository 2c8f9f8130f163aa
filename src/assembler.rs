use vstd::prelude::*;
use crate::model::{
    append_records, basic_edns, copy_bytes, copy_edns, edns_view, options_view, records_view,
    Answer, EdnsBlock, EdnsView, Resolved, ResolvedView, RCODE_FORM_ERR, RCODE_NOT_IMP,
};

verus! {

/// The operation code of a standard query.
pub const OPCODE_QUERY: u8 = 0;

/// What to do with an inbound message.
pub enum RequestAction {
    /// Resolve each query in order and merge the results.
    Dispatch,
    /// Answer at once with an error response carrying this code; neither the
    /// cache nor the upstream is consulted.
    Reject(u16),
}

/// Decides how an inbound message is answered: a response sent as a request
/// is a format error, an operation other than a standard query is not
/// implemented, and a query without questions is a format error.
pub fn classify_request(is_response: bool, op_code: u8, query_count: usize) -> (r: RequestAction)
    ensures
        is_response ==> r == RequestAction::Reject(RCODE_FORM_ERR),
        !is_response && op_code != OPCODE_QUERY ==> r == RequestAction::Reject(RCODE_NOT_IMP),
        !is_response && op_code == OPCODE_QUERY && query_count == 0 ==> r == RequestAction::Reject(
            RCODE_FORM_ERR,
        ),
        r == RequestAction::Dispatch <==> (!is_response && op_code == OPCODE_QUERY && query_count > 0),
{
    if is_response {
        RequestAction::Reject(RCODE_FORM_ERR)
    } else if op_code != OPCODE_QUERY {
        RequestAction::Reject(RCODE_NOT_IMP)
    } else if query_count == 0 {
        RequestAction::Reject(RCODE_FORM_ERR)
    } else {
        RequestAction::Dispatch
    }
}

/// The header of an error response: it mirrors the request's id and
/// operation code.
pub struct ErrorReply {
    pub id: u16,
    pub op_code: u8,
    pub response_code: u16,
}

/// The error response to a request with id `id` and operation `op_code`.
pub fn error_reply(id: u16, op_code: u8, response_code: u16) -> (r: ErrorReply)
    ensures
        r.id == id,
        r.op_code == op_code,
        r.response_code == response_code,
{
    ErrorReply { id, op_code, response_code }
}

/// The view of a list of per-query results.
pub open spec fn results_view(v: Vec<Result<Resolved, u16>>) -> Seq<Result<ResolvedView, u16>> {
    v@.map_values(
        |x: Result<Resolved, u16>|
            match x {
                Ok(a) => Ok(a@),
                Err(c) => Err(c),
            },
    )
}

/// The records of one section of a result: 1 answers, 2 name servers,
/// 3 additionals; a failure has none.
pub open spec fn section_of(x: Result<ResolvedView, u16>, which: int) -> Seq<Seq<u8>> {
    match x {
        Ok(a) => if which == 1 {
            a.2.1
        } else if which == 2 {
            a.2.2
        } else {
            a.2.3
        },
        Err(_) => Seq::empty(),
    }
}

/// One section of every result, concatenated in order.
pub open spec fn concat_section(s: Seq<Result<ResolvedView, u16>>, which: int) -> Seq<Seq<u8>>
    decreases s.len(),
{
    if s.len() == 0 {
        Seq::empty()
    } else {
        concat_section(s.drop_last(), which) + section_of(s.last(), which)
    }
}

/// The code of the first failure in `s`, if any.
pub open spec fn first_failure(s: Seq<Result<ResolvedView, u16>>) -> Option<u16>
    decreases s.len(),
{
    if s.len() == 0 {
        None
    } else {
        match s[0] {
            Err(c) => Some(c),
            Ok(_) => first_failure(s.drop_first()),
        }
    }
}

proof fn lemma_first_failure_prefix(s: Seq<Result<ResolvedView, u16>>, i: int)
    requires
        0 <= i <= s.len(),
        forall|j: int| 0 <= j < i ==> s[j] is Ok,
    ensures
        first_failure(s) == first_failure(s.subrange(i, s.len() as int)),
    decreases i,
{
    if i > 0 {
        assert(s[0] is Ok);
        let t = s.drop_first();
        assert forall|j: int| 0 <= j < i - 1 implies t[j] is Ok by {
            assert(t[j] == s[j + 1]);
        }
        lemma_first_failure_prefix(t, i - 1);
        assert(t.subrange(i - 1, t.len() as int) =~= s.subrange(i, s.len() as int));
    } else {
        assert(s.subrange(0, s.len() as int) =~= s);
    }
}

/// The merged response of a request whose results all succeeded: the first
/// result's header flags, EDNS block and response code, and each section
/// concatenated in query order.
pub open spec fn merged_view(s: Seq<Result<ResolvedView, u16>>) -> ResolvedView {
    let first = s[0]->Ok_0;
    (first.0, first.1, (first.2.0, concat_section(s, 1), concat_section(s, 2), concat_section(s, 3)))
}

/// Merges the per-query results of one request, given in query order. The
/// first failure in that order answers the whole request; otherwise the
/// response takes the first result's header flags, EDNS block and response
/// code, and every section concatenated in order. Name-server records go to
/// the authority section.
pub fn merge_results(results: &Vec<Result<Resolved, u16>>) -> (r: Result<Resolved, u16>)
    requires
        results.len() > 0,
    ensures
        match first_failure(results_view(*results)) {
            Some(c) => r == Err::<Resolved, u16>(c),
            None => r matches Ok(m) && m@ == merged_view(results_view(*results)),
        },
{
    let ghost s = results_view(*results);
    let mut answers: Vec<Vec<u8>> = Vec::new();
    let mut name_servers: Vec<Vec<u8>> = Vec::new();
    let mut additionals: Vec<Vec<u8>> = Vec::new();
    let mut head: Option<Resolved> = None;
    let mut i: usize = 0;
    assert(records_view(answers) =~= concat_section(s.subrange(0, 0), 1));
    assert(records_view(name_servers) =~= concat_section(s.subrange(0, 0), 2));
    assert(records_view(additionals) =~= concat_section(s.subrange(0, 0), 3));
    while i < results.len()
        invariant
            s == results_view(*results),
            s.len() == results.len(),
            i <= results.len(),
            forall|j: int| 0 <= j < i ==> s[j] is Ok,
            i > 0 ==> (head matches Some(h) && h@.0 == s[0]->Ok_0.0 && h@.1 == s[0]->Ok_0.1
                && h@.2.0 == s[0]->Ok_0.2.0),
            records_view(answers) == concat_section(s.subrange(0, i as int), 1),
            records_view(name_servers) == concat_section(s.subrange(0, i as int), 2),
            records_view(additionals) == concat_section(s.subrange(0, i as int), 3),
        decreases results.len() - i,
    {
        assert(s[i as int] == match results@[i as int] {
            Ok(a) => Ok(a@),
            Err(c) => Err::<ResolvedView, u16>(c),
        });
        match &results[i] {
            Err(c) => {
                proof {
                    lemma_first_failure_prefix(s, i as int);
                }
                return Err(*c);
            },
            Ok(a) => {
                if i == 0 {
                    let empty = Answer {
                        response_code: a.answer.response_code,
                        answers: Vec::new(),
                        name_servers: Vec::new(),
                        additionals: Vec::new(),
                    };
                    head = Some(Resolved { flags: a.flags.copy(), edns: copy_edns(&a.edns), answer: empty });
                }
                append_records(&mut answers, &a.answer.answers);
                append_records(&mut name_servers, &a.answer.name_servers);
                append_records(&mut additionals, &a.answer.additionals);
                assert(s.subrange(0, i + 1).drop_last() =~= s.subrange(0, i as int));
                i += 1;
            },
        }
    }
    proof {
        lemma_first_failure_prefix(s, i as int);
        assert(s.subrange(0, i as int) =~= s);
    }
    match head {
        Some(h) => Ok(Resolved {
            flags: h.flags,
            edns: h.edns,
            answer: Answer { response_code: h.answer.response_code, answers, name_servers, additionals },
        }),
        None => Err(RCODE_FORM_ERR),
    }
}

/// The NSID option of the response: the server's identity, where the request
/// asked for it and the server has one; otherwise none.
pub fn nsid_option(nsid_requested: bool, server_name: &Option<Vec<u8>>) -> (r: Option<Vec<u8>>)
    ensures
        r is Some <==> (nsid_requested && server_name is Some),
        r is Some ==> r->Some_0@ == server_name->Some_0@,
{
    if nsid_requested {
        match server_name {
            Some(n) => Some(copy_bytes(n)),
            None => None,
        }
    } else {
        None
    }
}

/// The option code of NSID.
pub const NSID_CODE: u16 = 3;

/// The options of `s` other than NSID, in order.
pub open spec fn without_nsid(s: Seq<(u16, Seq<u8>)>) -> Seq<(u16, Seq<u8>)>
    decreases s.len(),
{
    if s.len() == 0 {
        Seq::empty()
    } else if s.last().0 == NSID_CODE {
        without_nsid(s.drop_last())
    } else {
        without_nsid(s.drop_last()).push(s.last())
    }
}

/// The EDNS block of the response: the first result's block, or a fresh one
/// where it had none, with any NSID option taken out, and the server's
/// identity put in where the request asked for it and the server has one.
pub open spec fn response_edns_view(
    base: Option<EdnsView>,
    nsid_requested: bool,
    server_name: Option<Seq<u8>>,
) -> EdnsView {
    let b = match base {
        Some(e) => e,
        None => basic_edns(false),
    };
    let kept = without_nsid(b.4);
    (
        b.0,
        b.1,
        b.2,
        b.3,
        if nsid_requested && server_name is Some {
            kept.push((NSID_CODE, server_name->Some_0))
        } else {
            kept
        },
    )
}

/// The view of an optional byte string.
pub open spec fn bytes_view(v: Option<Vec<u8>>) -> Option<Seq<u8>> {
    match v {
        Some(b) => Some(b@),
        None => None,
    }
}

/// Builds the EDNS block of the response from the first result's block.
pub fn response_edns(base: &Option<EdnsBlock>, nsid_requested: bool, server_name: &Option<Vec<u8>>) -> (r:
    EdnsBlock)
    ensures
        r@ == response_edns_view(edns_view(*base), nsid_requested, bytes_view(*server_name)),
{
    let b = match base {
        Some(e) => e.copy(),
        None => EdnsBlock::basic(false),
    };
    let ghost src = options_view(b.options);
    let mut kept: Vec<(u16, Vec<u8>)> = Vec::new();
    let mut i: usize = 0;
    assert(options_view(kept) =~= without_nsid(src.subrange(0, 0)));
    while i < b.options.len()
        invariant
            i <= b.options.len(),
            src == options_view(b.options),
            options_view(kept) == without_nsid(src.subrange(0, i as int)),
        decreases b.options.len() - i,
    {
        let ghost before = kept;
        assert(src.subrange(0, i + 1).drop_last() =~= src.subrange(0, i as int));
        if b.options[i].0 != NSID_CODE {
            kept.push((b.options[i].0, copy_bytes(&b.options[i].1)));
            assert(options_view(kept) =~= options_view(before).push(src[i as int]));
        }
        i += 1;
    }
    assert(src.subrange(0, i as int) =~= src);
    match nsid_option(nsid_requested, server_name) {
        Some(n) => {
            let ghost before = kept;
            kept.push((NSID_CODE, n));
            assert(options_view(kept) =~= options_view(before).push((NSID_CODE, server_name->Some_0@)));
        },
        None => {},
    }
    EdnsBlock {
        rcode_high: b.rcode_high,
        version: b.version,
        dnssec_ok: b.dnssec_ok,
        max_payload: b.max_payload,
        options: kept,
    }
}

} // verus!
