//! The query handler: turns one decoded inbound request into a response or
//! into a resolution demand, consulting the TTL cache.
//!
//! A request with no question gets an empty response; a live cache entry
//! answers directly; an expired entry is removed and the query is resolved
//! afresh; a miss is resolved. Every response carries the request's id and
//! op-code and has recursion available set.

use vstd::prelude::*;
use crate::types::{Message, MessageV, Question, RecordV, Record, RCODE_NO_ERROR, RCODE_SERV_FAIL,
    copy_questions};
use crate::cache::{TtlCache, CacheEntryV, live_lookup};
use crate::name::{canon_spec, canonical_name};
use crate::resolver::Outcome;

verus! {

/// What the handler decided for one request.
pub enum HandlerOutcome {
    /// Answer the client with this message.
    Respond(Message),
    /// The cache cannot answer: resolve `(qname, qtype)` and build the
    /// response from the resolver's result.
    NeedResolve { qname: Vec<u8>, qtype: u16 },
}

/// The empty response to a request without questions: the request's id and
/// op-code, recursion available, all sections empty.
pub open spec fn empty_response_spec(id: u16, op_code: u8) -> MessageV {
    MessageV {
        id,
        op_code,
        response_code: RCODE_NO_ERROR,
        is_response: true,
        recursion_desired: false,
        recursion_available: true,
        questions: Seq::empty(),
        answers: Seq::empty(),
        authorities: Seq::empty(),
        additionals: Seq::empty(),
    }
}

/// The response served from a live cache entry: the first question and the
/// cached records, recursion available.
pub open spec fn hit_response_spec(req: MessageV, records: Seq<RecordV>) -> MessageV {
    MessageV {
        id: req.id,
        op_code: req.op_code,
        response_code: RCODE_NO_ERROR,
        is_response: true,
        recursion_desired: false,
        recursion_available: true,
        questions: seq![req.questions[0]],
        answers: records,
        authorities: Seq::empty(),
        additionals: Seq::empty(),
    }
}

/// The response built from a fresh resolution: every question of the
/// request, the resolver's answers and authorities, recursion available.
pub open spec fn resolved_response_spec(
    req: MessageV,
    answers: Seq<RecordV>,
    authorities: Seq<RecordV>,
) -> MessageV {
    MessageV {
        id: req.id,
        op_code: req.op_code,
        response_code: RCODE_NO_ERROR,
        is_response: true,
        recursion_desired: false,
        recursion_available: true,
        questions: req.questions,
        answers,
        authorities,
        additionals: Seq::empty(),
    }
}

/// The failure response: the request's id and op-code with the server
/// failure code, recursion available, all sections empty.
pub open spec fn servfail_spec(id: u16, op_code: u8) -> MessageV {
    MessageV {
        id,
        op_code,
        response_code: RCODE_SERV_FAIL,
        is_response: true,
        recursion_desired: false,
        recursion_available: true,
        questions: Seq::empty(),
        answers: Seq::empty(),
        authorities: Seq::empty(),
        additionals: Seq::empty(),
    }
}

/// What `handle_request` guarantees: an empty-question request gets the
/// empty response; a live entry under the canonical key of the first
/// question answers from the cache; otherwise the query goes to the
/// resolver, with an expired entry removed first. An entry past its expiry
/// is never served.
pub open spec fn handler_post(
    r: HandlerOutcome,
    req: MessageV,
    pre: Map<(Seq<u8>, u16), CacheEntryV>,
    post: Map<(Seq<u8>, u16), CacheEntryV>,
    now: u64,
) -> bool {
    if req.questions.len() == 0 {
        &&& post == pre
        &&& match r {
            HandlerOutcome::Respond(m) => m@ == empty_response_spec(req.id, req.op_code),
            _ => false,
        }
    } else {
        let q = req.questions[0];
        let k = (canon_spec(q.name), q.qtype);
        match live_lookup(pre, k, now) {
            Some(e) => {
                &&& post == pre
                &&& match r {
                    HandlerOutcome::Respond(m) => m@ == hit_response_spec(req, e.records),
                    _ => false,
                }
            },
            None => {
                &&& post == pre.remove(k)
                &&& match r {
                    HandlerOutcome::NeedResolve { qname, qtype } => qname@ == q.name && qtype
                        == q.qtype,
                    _ => false,
                }
            },
        }
    }
}

/// Handles one decoded request against the cache at instant `now`.
pub fn handle_request(request: &Message, cache: &mut TtlCache, now: u64) -> (r: HandlerOutcome)
    ensures
        handler_post(r, request@, old(cache)@, final(cache)@, now),
{
    if request.questions.len() == 0 {
        let m = Message {
            id: request.id,
            op_code: request.op_code,
            response_code: RCODE_NO_ERROR,
            is_response: true,
            recursion_desired: false,
            recursion_available: true,
            questions: Vec::new(),
            answers: Vec::new(),
            authorities: Vec::new(),
            additionals: Vec::new(),
        };
        assert(m@ =~~= empty_response_spec(request@.id, request@.op_code));
        return HandlerOutcome::Respond(m);
    }
    let q0 = &request.questions[0];
    let ghost k = (canon_spec(q0@.name), q0@.qtype);
    let key_name = canonical_name(&q0.name);
    let cached = cache.lookup(&key_name, q0.qtype);
    match cached {
        Some(entry) => {
            if entry.expires_at > now {
                let mut questions: Vec<Question> = Vec::new();
                questions.push(q0.clone());
                let m = Message {
                    id: request.id,
                    op_code: request.op_code,
                    response_code: RCODE_NO_ERROR,
                    is_response: true,
                    recursion_desired: false,
                    recursion_available: true,
                    questions,
                    answers: entry.records,
                    authorities: Vec::new(),
                    additionals: Vec::new(),
                };
                proof {
                    let e = live_lookup(cache@, k, now).unwrap();
                    assert(m@.answers =~= e.records);
                    assert(m@ =~~= hit_response_spec(request@, e.records));
                }
                return HandlerOutcome::Respond(m);
            } else {
                cache.remove(&key_name, q0.qtype);
                return HandlerOutcome::NeedResolve { qname: q0.name.clone(), qtype: q0.qtype };
            }
        },
        None => {
            proof {
                assert(old(cache)@.remove(k) =~= old(cache)@);
            }
            return HandlerOutcome::NeedResolve { qname: q0.name.clone(), qtype: q0.qtype };
        },
    }
}

/// Builds the response for a freshly resolved query: every question of the
/// request, the resolver's answers and authorities, recursion available.
pub fn build_resolved_response(
    request: &Message,
    answers: Vec<Record>,
    authorities: Vec<Record>,
) -> (r: Message)
    ensures
        r@ == resolved_response_spec(request@, answers.deep_view(), authorities.deep_view()),
{
    let questions = copy_questions(&request.questions);
    let m = Message {
        id: request.id,
        op_code: request.op_code,
        response_code: RCODE_NO_ERROR,
        is_response: true,
        recursion_desired: false,
        recursion_available: true,
        questions,
        answers,
        authorities,
        additionals: Vec::new(),
    };
    assert(m@ =~~= resolved_response_spec(
        request@,
        m.answers.deep_view(),
        m.authorities.deep_view(),
    ));
    m
}

/// Builds the server-failure response carrying the request's id and op-code.
pub fn servfail_response(id: u16, op_code: u8) -> (r: Message)
    ensures
        r@ == servfail_spec(id, op_code),
{
    let m = Message {
        id,
        op_code,
        response_code: RCODE_SERV_FAIL,
        is_response: true,
        recursion_desired: false,
        recursion_available: true,
        questions: Vec::new(),
        answers: Vec::new(),
        authorities: Vec::new(),
        additionals: Vec::new(),
    };
    assert(m@ =~~= servfail_spec(id, op_code));
    m
}

/// Builds the reply for a finished resolution attempt: a completed
/// resolution becomes the resolved response carrying its answers and
/// authorities; a transport failure becomes the server-failure response.
/// A resolution still waiting on an upstream fan-out has no reply.
pub fn resolution_response(request: &Message, outcome: Outcome) -> (r: Message)
    requires
        !(outcome matches Outcome::NeedUpstream { .. }),
    ensures
        outcome matches Outcome::Done { answers, authorities } ==> r@ == resolved_response_spec(
            request@,
            answers.deep_view(),
            authorities.deep_view(),
        ),
        outcome matches Outcome::Failed ==> r@ == servfail_spec(request@.id, request@.op_code),
{
    match outcome {
        Outcome::Done { answers, authorities } => build_resolved_response(
            request,
            answers,
            authorities,
        ),
        Outcome::Failed => servfail_response(request.id, request.op_code),
        Outcome::NeedUpstream { .. } => servfail_response(request.id, request.op_code),
    }
}

/// Every response the handler path can emit answers its request: same id,
/// same op-code, recursion available set; the normal path copies every
/// question of the request, and the cache-hit path carries exactly the
/// first question.
pub proof fn lemma_response_matches_request(
    req: MessageV,
    records: Seq<RecordV>,
    answers: Seq<RecordV>,
    authorities: Seq<RecordV>,
)
    ensures
        hit_response_spec(req, records).id == req.id,
        hit_response_spec(req, records).op_code == req.op_code,
        hit_response_spec(req, records).recursion_available,
        hit_response_spec(req, records).answers == records,
        req.questions.len() > 0 ==> hit_response_spec(req, records).questions == seq![
            req.questions[0],
        ],
        resolved_response_spec(req, answers, authorities).id == req.id,
        resolved_response_spec(req, answers, authorities).op_code == req.op_code,
        resolved_response_spec(req, answers, authorities).recursion_available,
        resolved_response_spec(req, answers, authorities).questions == req.questions,
        empty_response_spec(req.id, req.op_code).id == req.id,
        empty_response_spec(req.id, req.op_code).op_code == req.op_code,
        empty_response_spec(req.id, req.op_code).recursion_available,
        servfail_spec(req.id, req.op_code).id == req.id,
        servfail_spec(req.id, req.op_code).op_code == req.op_code,
        servfail_spec(req.id, req.op_code).recursion_available,
        servfail_spec(req.id, req.op_code).response_code == RCODE_SERV_FAIL,
{
}

} // verus!
