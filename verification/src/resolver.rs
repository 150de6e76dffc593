//! The iterative resolver: root, TLD, authoritative descent, with CNAME
//! handling, glue lookup and cache population.
//!
//! The resolver is a deterministic state machine over the upstream
//! responses received so far. One call replays the resolution over the
//! event list: when the list runs out at a query point, it returns
//! [`Outcome::NeedUpstream`] with the query to send and the servers to try,
//! in order; the caller performs the fan-out, appends the first decoded
//! response (or `NoResponse`) to the list, and calls again. Replay keeps
//! every decision of the machine inside the crate, where it is verified.

use vstd::prelude::*;
use crate::types::{Record, Question, Message, IpAddress, MessageV, RecordV, RDataV, RT_A, RT_AAAA, RT_CNAME,
    extract_ip_from_rdata, ip_of_rdata_spec, copy_records};
use crate::cache::{TtlCache, CacheEntryV, min_ttl_spec, fresh_entry_spec, make_fresh_entry};
use crate::name::{canon_spec, canonical_name};

verus! {

/// Resolutions deeper than this yield an empty answer set.
pub const MAX_RECURSION_DEPTH: u8 = 10;

/// What one upstream fan-out produced: the first successfully decoded
/// response in submission order, or nothing at all.
pub enum UpstreamEvent {
    Response(Message),
    NoResponse,
}

/// The result of one replay of the resolver.
pub enum Outcome {
    /// The resolution finished with these answers and authorities.
    Done { answers: Vec<Record>, authorities: Vec<Record> },
    /// A fan-out produced no decodable response: the transport error
    /// propagates to the handler.
    Failed,
    /// The machine needs one more upstream fan-out: send `request` to each
    /// of `servers` in order and hand back the first decoded response.
    NeedUpstream { request: Message, servers: Vec<IpAddress> },
}

/// An outbound iterative query: recursion desired is clear, exactly one
/// question, all record sections empty.
pub open spec fn is_iterative_query(m: MessageV) -> bool {
    &&& !m.is_response
    &&& !m.recursion_desired
    &&& !m.recursion_available
    &&& m.op_code == 0
    &&& m.response_code == 0
    &&& m.questions.len() == 1
    &&& m.answers.len() == 0
    &&& m.authorities.len() == 0
    &&& m.additionals.len() == 0
}

/// An outbound iterative query asking for `(qname, qtype)`.
pub open spec fn is_upstream_query_for(m: MessageV, qname: Seq<u8>, qtype: u16) -> bool {
    &&& is_iterative_query(m)
    &&& m.questions[0].name == qname
    &&& m.questions[0].qtype == qtype
}

/// The fan-out produced no decodable response.
pub open spec fn event_is_no_response(e: UpstreamEvent) -> bool {
    e matches UpstreamEvent::NoResponse
}

/// The answer section of the response an event carries; empty for a
/// failed fan-out.
pub open spec fn event_answers(e: UpstreamEvent) -> Seq<RecordV> {
    match e {
        UpstreamEvent::Response(m) => m@.answers,
        UpstreamEvent::NoResponse => Seq::empty(),
    }
}

/// The authority section of the response an event carries.
pub open spec fn event_authorities(e: UpstreamEvent) -> Seq<RecordV> {
    match e {
        UpstreamEvent::Response(m) => m@.authorities,
        UpstreamEvent::NoResponse => Seq::empty(),
    }
}

/// The additional section of the response an event carries.
pub open spec fn event_additionals(e: UpstreamEvent) -> Seq<RecordV> {
    match e {
        UpstreamEvent::Response(m) => m@.additionals,
        UpstreamEvent::NoResponse => Seq::empty(),
    }
}

/// The glue addresses a referral event carries: for each delegated
/// name-server name, in the order the NS records appear, the matching
/// address records of the additional section, in section order.
pub open spec fn event_glue(e: UpstreamEvent) -> Seq<IpAddress> {
    glue_ips_spec(ns_names_spec(event_authorities(e)), event_additionals(e))
}

/// A referral with glue: a decoded response with no answers whose
/// additional section yields at least one address for the referred names.
pub open spec fn event_is_glued_referral(e: UpstreamEvent) -> bool {
    &&& !event_is_no_response(e)
    &&& event_answers(e).len() == 0
    &&& event_glue(e).len() > 0
}

/// A glue-less referral: a decoded response with no answers that names at
/// least one name server but carries no address for any of them.
pub open spec fn event_is_glueless_referral(e: UpstreamEvent) -> bool {
    &&& !event_is_no_response(e)
    &&& event_answers(e).len() == 0
    &&& ns_names_spec(event_authorities(e)).len() > 0
    &&& event_glue(e).len() == 0
}

/// A dead end: a decoded response with neither answers nor name servers.
pub open spec fn event_is_dead_end(e: UpstreamEvent) -> bool {
    &&& !event_is_no_response(e)
    &&& event_answers(e).len() == 0
    &&& event_authorities(e).len() == 0
}

/// The addresses carried by a record list: each class-IN address record's
/// IP, in list order.
pub open spec fn ips_of_records(rs: Seq<RecordV>) -> Seq<IpAddress>
    decreases rs.len(),
{
    if rs.len() == 0 {
        Seq::empty()
    } else {
        let rest = ips_of_records(rs.drop_last());
        match ip_of_rdata_spec(rs.last()) {
            Some(ip) => rest.push(ip),
            None => rest,
        }
    }
}

/// An event that ends one replay by itself: a failed fan-out, a response
/// with answers, or a dead end.
pub open spec fn event_is_terminal(e: UpstreamEvent) -> bool {
    ||| event_is_no_response(e)
    ||| event_answers(e).len() > 0
    ||| event_is_dead_end(e)
}

/// No event from position `from` on carries an answer record.
pub open spec fn no_answer_events(events: Seq<UpstreamEvent>, from: int) -> bool {
    forall|j: int| from <= j < events.len() ==> event_answers(#[trigger] events[j]).len() == 0
}

/// When a finished resolution returns no answers beside a non-empty
/// authority set, that set is the authority section of one of the events
/// consumed in positions `from` up to `upto`.
pub open spec fn empty_done_authorities_from(
    o: Outcome,
    events: Seq<UpstreamEvent>,
    from: int,
    upto: int,
) -> bool {
    match o {
        Outcome::Done { answers, authorities } => (answers@.len() == 0 && authorities@.len() > 0)
            ==> exists|j: int|
            from <= j < upto && authorities.deep_view() == event_authorities(
                #[trigger] events[j],
            ),
        _ => true,
    }
}

/// Every outbound upstream query is iterative (recursion desired is clear).
pub open spec fn outcome_queries_iterative(o: Outcome) -> bool {
    match o {
        Outcome::NeedUpstream { request, servers } => is_iterative_query(request@),
        _ => true,
    }
}

/// The outcome is a finished resolution with an empty answer set and an
/// empty authority set.
pub open spec fn outcome_is_empty_done(o: Outcome) -> bool {
    match o {
        Outcome::Done { answers, authorities } => answers@.len() == 0 && authorities@.len() == 0,
        _ => false,
    }
}

/// When the outcome carries a non-empty answer set for `(qname, qtype)`,
/// the cache holds it under the canonical key, expiring at `now` plus the
/// minimum TTL across the answers.
pub open spec fn done_answers_cached(
    o: Outcome,
    m: Map<(Seq<u8>, u16), CacheEntryV>,
    qname: Seq<u8>,
    qtype: u16,
    now: u64,
) -> bool {
    match o {
        Outcome::Done { answers, authorities } => answers@.len() > 0 ==> m.contains_key(
            (canon_spec(qname), qtype),
        ) && m[(canon_spec(qname), qtype)] == fresh_entry_spec(answers.deep_view(), now),
        _ => true,
    }
}

/// A cache entry made from a fresh answer set at `now`.
pub open spec fn is_fresh_entry(e: CacheEntryV, now: u64) -> bool {
    &&& e.records.len() > 0
    &&& e.expires_at == now + min_ttl_spec(e.records)
}

/// The resolver only adds or overwrites entries made from fresh answer
/// sets at `now`; it never removes an entry.
pub open spec fn cache_only_refreshed(
    pre: Map<(Seq<u8>, u16), CacheEntryV>,
    post: Map<(Seq<u8>, u16), CacheEntryV>,
    now: u64,
) -> bool {
    &&& forall|k: (Seq<u8>, u16)| pre.contains_key(k) ==> post.contains_key(k)
    &&& forall|k: (Seq<u8>, u16)| #[trigger]
        post.contains_key(k) ==> pre.contains_key(k) || is_fresh_entry(post[k], now)
    &&& forall|k: (Seq<u8>, u16)|
        post.contains_key(k) && pre.contains_key(k) ==> post[k] == pre[k] || is_fresh_entry(
            post[k],
            now,
        )
}

/// Chaining two refresh-only evolutions is a refresh-only evolution.
proof fn lemma_refreshed_trans(
    a: Map<(Seq<u8>, u16), CacheEntryV>,
    b: Map<(Seq<u8>, u16), CacheEntryV>,
    c: Map<(Seq<u8>, u16), CacheEntryV>,
    now: u64,
)
    requires
        cache_only_refreshed(a, b, now),
        cache_only_refreshed(b, c, now),
    ensures
        cache_only_refreshed(a, c, now),
{
    assert forall|k: (Seq<u8>, u16)| #[trigger]
        c.contains_key(k) implies a.contains_key(k) || is_fresh_entry(c[k], now) by {
        if !a.contains_key(k) {
            if b.contains_key(k) {
                if !is_fresh_entry(c[k], now) {
                    assert(c[k] == b[k]);
                }
            }
        }
    }
    assert forall|k: (Seq<u8>, u16)|
        c.contains_key(k) && a.contains_key(k) implies c[k] == a[k] || is_fresh_entry(
        c[k],
        now,
    ) by {
        assert(b.contains_key(k));
        if !is_fresh_entry(c[k], now) {
            assert(c[k] == b[k]);
        }
    }
}

/// Inserting a fresh entry keeps the evolution refresh-only.
proof fn lemma_refreshed_insert(
    a: Map<(Seq<u8>, u16), CacheEntryV>,
    b: Map<(Seq<u8>, u16), CacheEntryV>,
    k: (Seq<u8>, u16),
    e: CacheEntryV,
    now: u64,
)
    requires
        cache_only_refreshed(a, b, now),
        is_fresh_entry(e, now),
    ensures
        cache_only_refreshed(a, b.insert(k, e), now),
{
    let c = b.insert(k, e);
    assert forall|x: (Seq<u8>, u16)| a.contains_key(x) implies c.contains_key(x) by {
        assert(b.contains_key(x));
    }
    assert forall|x: (Seq<u8>, u16)| #[trigger]
        c.contains_key(x) implies a.contains_key(x) || is_fresh_entry(c[x], now) by {
        if x != k {
            assert(b.contains_key(x));
        }
    }
}

/// Relies on rand::random: draws a fresh 16-bit query id; nothing is
/// promised of its value.
#[verifier::external_body]
fn random_u16() -> u16 {
    rand::random::<u16>()
}

/// Builds one outbound iterative query for `(qname, qtype)` with a fresh
/// random id; recursion desired is clear.
pub fn build_upstream_query(qname: &Vec<u8>, qtype: u16) -> (r: Message)
    ensures
        is_upstream_query_for(r@, qname@, qtype),
{
    let id = random_u16();
    let mut questions: Vec<Question> = Vec::new();
    questions.push(Question { name: qname.clone(), qtype });
    let r = Message {
        id,
        op_code: 0,
        response_code: 0,
        is_response: false,
        recursion_desired: false,
        recursion_available: false,
        questions,
        answers: Vec::new(),
        authorities: Vec::new(),
        additionals: Vec::new(),
    };
    assert(r@.questions.len() == 1 && r@.questions[0].name == qname@);
    r
}

/// The target of the first answer record whose type code is CNAME, when
/// that record indeed carries alias data.
pub open spec fn cname_target_spec(answers: Seq<RecordV>) -> Option<Seq<u8>>
    decreases answers.len(),
{
    if answers.len() == 0 {
        None
    } else if answers[0].rtype == RT_CNAME {
        match answers[0].data {
            RDataV::Cname(n) => Some(n),
            _ => None,
        }
    } else {
        cname_target_spec(answers.drop_first())
    }
}

/// Finds the first CNAME answer and returns its target.
pub fn first_cname_target(answers: &Vec<Record>) -> (r: Option<Vec<u8>>)
    ensures
        match r {
            Some(n) => cname_target_spec(answers.deep_view()) == Some(n@),
            None => cname_target_spec(answers.deep_view()) is None,
        },
{
    let ghost dv = answers.deep_view();
    let mut i: usize = 0;
    assert(dv.skip(0) =~= dv);
    while i < answers.len()
        invariant
            i <= answers@.len(),
            dv == answers.deep_view(),
            dv.len() == answers@.len(),
            cname_target_spec(dv) == cname_target_spec(dv.skip(i as int)),
        decreases answers.len() - i,
    {
        proof {
            assert(dv.skip(i as int).len() > 0);
            assert(dv.skip(i as int)[0] == dv[i as int]);
            assert(dv[i as int] == answers@[i as int]@);
        }
        if answers[i].rtype == RT_CNAME {
            match &answers[i].data {
                crate::types::RData::Cname(n) => {
                    return Some(n.clone());
                },
                _ => {
                    return None;
                },
            }
        }
        proof {
            assert(dv.skip(i as int).drop_first() =~= dv.skip(i as int + 1));
        }
        i = i + 1;
    }
    assert(dv.skip(answers@.len() as int) =~= Seq::empty());
    None
}

/// The name carried by an NS record of class IN.
pub open spec fn ns_name_of(r: RecordV) -> Option<Seq<u8>> {
    if r.class_in {
        match r.data {
            RDataV::Ns(n) => Some(n),
            _ => None,
        }
    } else {
        None
    }
}

/// The names of the delegated name servers, in the order their NS records
/// appear in the authority section.
pub open spec fn ns_names_spec(auths: Seq<RecordV>) -> Seq<Seq<u8>>
    decreases auths.len(),
{
    if auths.len() == 0 {
        Seq::empty()
    } else {
        let rest = ns_names_spec(auths.drop_last());
        match ns_name_of(auths.last()) {
            Some(n) => rest.push(n),
            None => rest,
        }
    }
}

/// Collects the delegated name-server names from the authority section.
pub fn collect_ns_names(auths: &Vec<Record>) -> (r: Vec<Vec<u8>>)
    ensures
        r.deep_view() == ns_names_spec(auths.deep_view()),
{
    let ghost dv = auths.deep_view();
    let mut out: Vec<Vec<u8>> = Vec::new();
    let mut i: usize = 0;
    while i < auths.len()
        invariant
            i <= auths@.len(),
            dv == auths.deep_view(),
            dv.len() == auths@.len(),
            out.deep_view() == ns_names_spec(dv.take(i as int)),
        decreases auths.len() - i,
    {
        proof {
            assert(dv.take(i as int + 1).drop_last() =~= dv.take(i as int));
            assert(dv.take(i as int + 1).last() == dv[i as int]);
            assert(dv[i as int] == auths@[i as int]@);
        }
        if auths[i].class_in {
            match &auths[i].data {
                crate::types::RData::Ns(n) => {
                    out.push(n.clone());
                    assert(out.deep_view() =~~= ns_names_spec(dv.take(i as int + 1)));
                },
                _ => {},
            }
        }
        i = i + 1;
    }
    assert(dv.take(auths@.len() as int) =~= dv);
    out
}

/// The glue addresses for one name-server name: the IPs of the address
/// records in the additional section whose owner name matches it, compared
/// in canonical form, in section order.
pub open spec fn glue_for_spec(adds: Seq<RecordV>, ns: Seq<u8>) -> Seq<IpAddress>
    decreases adds.len(),
{
    if adds.len() == 0 {
        Seq::empty()
    } else {
        let rest = glue_for_spec(adds.drop_last(), ns);
        if canon_spec(adds.last().name) == canon_spec(ns) {
            match ip_of_rdata_spec(adds.last()) {
                Some(ip) => rest.push(ip),
                None => rest,
            }
        } else {
            rest
        }
    }
}

/// All glue addresses: for each name-server name in order, its glue
/// addresses from the additional section.
pub open spec fn glue_ips_spec(names: Seq<Seq<u8>>, adds: Seq<RecordV>) -> Seq<IpAddress>
    decreases names.len(),
{
    if names.len() == 0 {
        Seq::empty()
    } else {
        glue_ips_spec(names.drop_last(), adds) + glue_for_spec(adds, names.last())
    }
}

/// Byte-string equality.
fn bytes_eq(a: &Vec<u8>, b: &Vec<u8>) -> (r: bool)
    ensures
        r == (a@ == b@),
{
    if a.len() != b.len() {
        assert(a@ != b@);
        return false;
    }
    let mut i: usize = 0;
    while i < a.len()
        invariant
            i <= a@.len(),
            a@.len() == b@.len(),
            forall|j: int| 0 <= j < i ==> a@[j] == b@[j],
        decreases a.len() - i,
    {
        if a[i] != b[i] {
            return false;
        }
        i = i + 1;
    }
    assert(a@ =~= b@);
    true
}

/// Collects the glue addresses for every name-server name, glue order
/// following NS order, additionals scanned in section order.
pub fn collect_glue(names: &Vec<Vec<u8>>, adds: &Vec<Record>) -> (r: Vec<IpAddress>)
    ensures
        r.deep_view() == glue_ips_spec(names.deep_view(), adds.deep_view()),
{
    let ghost nv = names.deep_view();
    let ghost av = adds.deep_view();
    let mut out: Vec<IpAddress> = Vec::new();
    let mut i: usize = 0;
    while i < names.len()
        invariant
            i <= names@.len(),
            nv == names.deep_view(),
            av == adds.deep_view(),
            nv.len() == names@.len(),
            av.len() == adds@.len(),
            out@ == glue_ips_spec(nv.take(i as int), av),
        decreases names.len() - i,
    {
        proof {
            assert(nv.take(i as int + 1).drop_last() =~= nv.take(i as int));
            assert(nv.take(i as int + 1).last() == nv[i as int]);
            assert(nv[i as int] == names@[i as int]@);
        }
        let ns_canon = canonical_name(&names[i]);
        let mut j: usize = 0;
        while j < adds.len()
            invariant
                j <= adds@.len(),
                nv == names.deep_view(),
                av == adds.deep_view(),
                av.len() == adds@.len(),
                i < names@.len(),
                nv[i as int] == names@[i as int]@,
                ns_canon@ == canon_spec(nv[i as int]),
                out@ == glue_ips_spec(nv.take(i as int), av) + glue_for_spec(
                    av.take(j as int),
                    nv[i as int],
                ),
            decreases adds.len() - j,
        {
            proof {
                assert(av.take(j as int + 1).drop_last() =~= av.take(j as int));
                assert(av.take(j as int + 1).last() == av[j as int]);
                assert(av[j as int] == adds@[j as int]@);
            }
            let add_canon = canonical_name(&adds[j].name);
            if bytes_eq(&add_canon, &ns_canon) {
                match extract_ip_from_rdata(&adds[j]) {
                    Some(ip) => {
                        out.push(ip);
                        proof {
                            let a = glue_ips_spec(nv.take(i as int), av);
                            let b = glue_for_spec(av.take(j as int), nv[i as int]);
                            let b2 = glue_for_spec(av.take(j as int + 1), nv[i as int]);
                            assert(av.take(j as int + 1).last() == av[j as int]);
                            assert(canon_spec(av[j as int].name) == canon_spec(nv[i as int]));
                            assert(ip_of_rdata_spec(av[j as int]) == Some(ip));
                            assert(b2 == b.push(ip));
                            assert(out@ =~= a + b2);
                        }
                    },
                    None => {},
                }
            }
            j = j + 1;
        }
        proof {
            assert(av.take(adds@.len() as int) =~= av);
            assert(out@ =~= glue_ips_spec(nv.take(i as int + 1), av));
        }
        i = i + 1;
    }
    assert(nv.take(names@.len() as int) =~= nv);
    assert(out.deep_view() =~= out@);
    out
}

/// One replay of the iterative resolution of `(qname, qtype)` at recursion
/// depth `depth`, consuming upstream events from position `idx` on.
fn resolve_go(
    qname: &Vec<u8>,
    qtype: u16,
    depth: u8,
    events: &Vec<UpstreamEvent>,
    idx: usize,
    cache: &mut TtlCache,
    now: u64,
) -> (r: (Outcome, usize))
    requires
        idx <= events@.len(),
        now + 0xffff_ffffu64 <= u64::MAX,
    ensures
        idx <= r.1 <= events@.len(),
        cache_only_refreshed(old(cache)@, final(cache)@, now),
        depth > MAX_RECURSION_DEPTH ==> outcome_is_empty_done(r.0) && final(cache)@ == old(cache)@
            && r.1 == idx,
        outcome_queries_iterative(r.0),
        r.0 matches Outcome::NeedUpstream { request, servers } ==> r.1 == events@.len(),
        done_answers_cached(r.0, final(cache)@, qname@, qtype, now),
        events@.len() == idx && depth <= MAX_RECURSION_DEPTH ==> (r.0 matches
            Outcome::NeedUpstream { request, servers } && is_upstream_query_for(
            request@,
            qname@,
            qtype,
        ) && servers.deep_view() == crate::roots::root_servers_spec()),
        depth <= MAX_RECURSION_DEPTH && idx < events@.len() && event_is_no_response(
            events@[idx as int],
        ) ==> (r.0 matches Outcome::Failed && r.1 == idx + 1),
        depth <= MAX_RECURSION_DEPTH && idx < events@.len() && event_answers(
            events@[idx as int],
        ).len() > 0 ==> (r.0 matches Outcome::Done { answers, authorities }
            && answers.deep_view() == event_answers(events@[idx as int])
            && authorities.deep_view() == event_authorities(events@[idx as int]) && r.1 == idx
            + 1),
        no_answer_events(events@, idx as int) ==> final(cache)@ == old(cache)@,
        r.0 matches Outcome::Failed ==> idx < r.1 && event_is_no_response(
            events@[r.1 - 1],
        ),
        depth <= MAX_RECURSION_DEPTH && idx < events@.len() && event_is_dead_end(
            events@[idx as int],
        ) ==> outcome_is_empty_done(r.0) && r.1 == idx + 1 && final(cache)@ == old(cache)@,
        depth <= MAX_RECURSION_DEPTH && events@.len() == idx + 1 && event_is_glued_referral(
            events@[idx as int],
        ) ==> (r.0 matches Outcome::NeedUpstream { request, servers } && is_upstream_query_for(
            request@,
            qname@,
            qtype,
        ) && servers.deep_view() == event_glue(events@[idx as int])),
        depth < MAX_RECURSION_DEPTH && events@.len() == idx + 1 && event_is_glueless_referral(
            events@[idx as int],
        ) ==> (r.0 matches Outcome::NeedUpstream { request, servers } && is_upstream_query_for(
            request@,
            ns_names_spec(event_authorities(events@[idx as int]))[0],
            RT_A,
        ) && servers.deep_view() == crate::roots::root_servers_spec()),
        depth < MAX_RECURSION_DEPTH && events@.len() == idx + 2 && event_is_glueless_referral(
            events@[idx as int],
        ) && event_is_terminal(events@[idx as int + 1]) ==> (r.0 matches Outcome::NeedUpstream {
            request,
            servers,
        } && is_upstream_query_for(
            request@,
            ns_names_spec(event_authorities(events@[idx as int]))[0],
            RT_AAAA,
        ) && servers.deep_view() == crate::roots::root_servers_spec()),
        depth < MAX_RECURSION_DEPTH && events@.len() == idx + 3 && event_is_glueless_referral(
            events@[idx as int],
        ) && ns_names_spec(event_authorities(events@[idx as int])).len() == 1
            && event_is_terminal(events@[idx as int + 1]) && event_is_terminal(
            events@[idx as int + 2],
        ) && (ips_of_records(event_answers(events@[idx as int + 1])) + ips_of_records(
            event_answers(events@[idx as int + 2]),
        )).len() > 0 ==> (r.0 matches Outcome::NeedUpstream { request, servers }
            && is_upstream_query_for(request@, qname@, qtype) && servers.deep_view()
            == ips_of_records(event_answers(events@[idx as int + 1])) + ips_of_records(
            event_answers(events@[idx as int + 2]),
        )),
        depth < MAX_RECURSION_DEPTH && events@.len() == idx + 3 && event_is_glueless_referral(
            events@[idx as int],
        ) && ns_names_spec(event_authorities(events@[idx as int])).len() == 1
            && event_is_terminal(events@[idx as int + 1]) && event_is_terminal(
            events@[idx as int + 2],
        ) && (ips_of_records(event_answers(events@[idx as int + 1])) + ips_of_records(
            event_answers(events@[idx as int + 2]),
        )).len() == 0 ==> (r.0 matches Outcome::Done { answers, authorities } && answers@.len()
            == 0 && authorities.deep_view() == event_authorities(events@[idx as int])),
        empty_done_authorities_from(r.0, events@, idx as int, r.1 as int),
    decreases events@.len() - idx,
{
    if depth > MAX_RECURSION_DEPTH {
        return (Outcome::Done { answers: Vec::new(), authorities: Vec::new() }, idx);
    }
    let mut servers: Vec<IpAddress> = crate::roots::root_servers();
    let mut i: usize = idx;
    loop
        invariant
            idx <= i <= events@.len(),
            depth <= MAX_RECURSION_DEPTH,
            now + 0xffff_ffffu64 <= u64::MAX,
            cache_only_refreshed(old(cache)@, cache@, now),
            i == idx ==> cache@ == old(cache)@ && servers.deep_view()
                == crate::roots::root_servers_spec(),
            i > idx && idx < events@.len() ==> !event_is_no_response(events@[idx as int])
                && event_answers(events@[idx as int]).len() == 0 && event_authorities(
                events@[idx as int],
            ).len() > 0,
            no_answer_events(events@, idx as int) ==> cache@ == old(cache)@,
            i == idx + 1 && idx < events@.len() && event_is_glued_referral(events@[idx as int])
                ==> servers.deep_view() == event_glue(events@[idx as int]),
            depth < MAX_RECURSION_DEPTH && events@.len() == idx + 1 && event_is_glueless_referral(
                events@[idx as int],
            ) ==> i == idx,
            depth < MAX_RECURSION_DEPTH && events@.len() == idx + 2 && event_is_glueless_referral(
                events@[idx as int],
            ) && event_is_terminal(events@[idx as int + 1]) ==> i == idx,
            depth < MAX_RECURSION_DEPTH && events@.len() == idx + 3 && event_is_glueless_referral(
                events@[idx as int],
            ) && ns_names_spec(event_authorities(events@[idx as int])).len() == 1
                && event_is_terminal(events@[idx as int + 1]) && event_is_terminal(
                events@[idx as int + 2],
            ) ==> (i == idx || (i == idx + 3 && servers@ == ips_of_records(event_answers(
                events@[idx as int + 1],
            )) + ips_of_records(event_answers(events@[idx as int + 2])) && servers@.len() > 0)),
        decreases events@.len() - i,
    {
        let ghost i0 = i;
        // Step 2/3: build the iterative query; one event answers one fan-out.
        if i == events.len() {
            let request = build_upstream_query(qname, qtype);
            proof {
                assert(servers.deep_view() =~= servers@);
            }
            return (Outcome::NeedUpstream { request, servers }, i);
        }
        let resp = match &events[i] {
            UpstreamEvent::NoResponse => {
                return (Outcome::Failed, i + 1);
            },
            UpstreamEvent::Response(m) => m,
        };
        i = i + 1;
        // Step 4: a non-empty answer section is accepted and cached under
        // the original name.
        if resp.answers.len() > 0 {
            let answers = copy_records(&resp.answers);
            let entry = make_fresh_entry(copy_records(&resp.answers), now);
            let ghost mid = cache@;
            let ghost ek = (canon_spec(qname@), qtype);
            let ghost ev = entry@;
            cache.insert(canonical_name(qname), qtype, entry);
            proof {
                lemma_refreshed_insert(old(cache)@, mid, ek, ev, now);
            }
            let authorities = copy_records(&resp.authorities);
            return (Outcome::Done { answers, authorities }, i);
        }
        // Step 5: CNAME following; textually after step 4, so it can fire
        // only on an empty answer section, which holds no CNAME.
        match first_cname_target(&resp.answers) {
            Some(target) => {
                let sub = resolve_go(&target, qtype, depth + 1, events, i, cache, now);
                proof {
                    assert(cname_target_spec(resp.answers.deep_view()) is None);
                }
                return sub;
            },
            None => {},
        }
        // Step 6: delegation descent.
        if resp.authorities.len() > 0 {
            let ns_names = collect_ns_names(&resp.authorities);
            let mut new_servers = collect_glue(&ns_names, &resp.additionals);
            if new_servers.len() == 0 {
                // Glue-less: resolve each name-server name for A then AAAA
                // one level deeper, collecting whatever addresses come back.
                proof {
                    assert(new_servers@ =~= Seq::<IpAddress>::empty());
                }
                let mut k: usize = 0;
                while k < ns_names.len()
                    invariant
                        k <= ns_names@.len(),
                        idx < i <= events@.len(),
                        idx <= i0 < i,
                        idx < events@.len() ==> !event_is_no_response(events@[idx as int])
                            && event_answers(events@[idx as int]).len() == 0
                            && event_authorities(events@[idx as int]).len() > 0,
                        i0 == idx ==> event_glue(events@[idx as int]).len() == 0,
                        no_answer_events(events@, idx as int) ==> cache@ == old(cache)@,
                        depth < MAX_RECURSION_DEPTH && events@.len() == idx + 1
                            && event_is_glueless_referral(events@[idx as int]) ==> k == 0 && i
                            == events@.len() && ns_names.deep_view() == ns_names_spec(
                            event_authorities(events@[idx as int]),
                        ),
                        depth < MAX_RECURSION_DEPTH && events@.len() == idx + 2
                            && event_is_glueless_referral(events@[idx as int])
                            && event_is_terminal(events@[idx as int + 1]) ==> k == 0 && i == idx
                            + 1 && ns_names.deep_view() == ns_names_spec(
                            event_authorities(events@[idx as int]),
                        ),
                        depth < MAX_RECURSION_DEPTH && events@.len() == idx + 3
                            && event_is_glueless_referral(events@[idx as int]) && ns_names_spec(
                            event_authorities(events@[idx as int]),
                        ).len() == 1 && event_is_terminal(events@[idx as int + 1])
                            && event_is_terminal(events@[idx as int + 2]) ==> (ns_names.deep_view()
                            == ns_names_spec(event_authorities(events@[idx as int])) && ((k == 0
                            && i == idx + 1 && new_servers@ == Seq::<IpAddress>::empty()) || (k == 1
                            && i == idx + 3 && new_servers@ == ips_of_records(event_answers(
                            events@[idx as int + 1],
                        )) + ips_of_records(event_answers(events@[idx as int + 2]))))),
                        depth <= MAX_RECURSION_DEPTH,
                        now + 0xffff_ffffu64 <= u64::MAX,
                        cache_only_refreshed(old(cache)@, cache@, now),
                    decreases ns_names.len() - k,
                {
                    let ghost before_a = cache@;
                    let (oa, ja) = resolve_go(&ns_names[k], RT_A, depth + 1, events, i, cache, now);
                    proof {
                        lemma_refreshed_trans(old(cache)@, before_a, cache@, now);
                    }
                    i = ja;
                    match oa {
                        Outcome::Done { answers, authorities } => {
                            let ghost ns_before = new_servers@;
                            let ghost adv = answers.deep_view();
                            proof {
                                assert(adv.take(0) =~= Seq::<RecordV>::empty());
                                assert(ns_before + ips_of_records(adv.take(0)) =~= ns_before);
                            }
                            let mut t: usize = 0;
                            while t < answers.len()
                                invariant
                                    t <= answers@.len(),
                                    adv == answers.deep_view(),
                                    adv.len() == answers@.len(),
                                    new_servers@ == ns_before + ips_of_records(
                                        adv.take(t as int),
                                    ),
                                decreases answers.len() - t,
                            {
                                proof {
                                    assert(adv.take(t as int + 1).drop_last() =~= adv.take(
                                        t as int,
                                    ));
                                    assert(adv.take(t as int + 1).last() == adv[t as int]);
                                    assert(adv[t as int] == answers@[t as int]@);
                                }
                                match extract_ip_from_rdata(&answers[t]) {
                                    Some(ip) => {
                                        new_servers.push(ip);
                                        assert(new_servers@ =~= ns_before + ips_of_records(
                                            adv.take(t as int + 1),
                                        ));
                                    },
                                    None => {
                                        assert(new_servers@ =~= ns_before + ips_of_records(
                                            adv.take(t as int + 1),
                                        ));
                                    },
                                }
                                t = t + 1;
                            }
                            proof {
                                assert(adv.take(answers@.len() as int) =~= adv);
                            }
                        },
                        Outcome::NeedUpstream { request, servers: s2 } => {
                            proof {
                                assert(ns_names.deep_view()[k as int] =~= ns_names@[k as int]@);
                            }
                            return (Outcome::NeedUpstream { request, servers: s2 }, i);
                        },
                        Outcome::Failed => {},
                    }
                    let ghost before_b = cache@;
                    let (ob, jb) = resolve_go(
                        &ns_names[k],
                        crate::types::RT_AAAA,
                        depth + 1,
                        events,
                        i,
                        cache,
                        now,
                    );
                    proof {
                        lemma_refreshed_trans(old(cache)@, before_b, cache@, now);
                    }
                    i = jb;
                    match ob {
                        Outcome::Done { answers, authorities } => {
                            let ghost ns_before = new_servers@;
                            let ghost adv = answers.deep_view();
                            proof {
                                assert(adv.take(0) =~= Seq::<RecordV>::empty());
                                assert(ns_before + ips_of_records(adv.take(0)) =~= ns_before);
                            }
                            let mut t: usize = 0;
                            while t < answers.len()
                                invariant
                                    t <= answers@.len(),
                                    adv == answers.deep_view(),
                                    adv.len() == answers@.len(),
                                    new_servers@ == ns_before + ips_of_records(
                                        adv.take(t as int),
                                    ),
                                decreases answers.len() - t,
                            {
                                proof {
                                    assert(adv.take(t as int + 1).drop_last() =~= adv.take(
                                        t as int,
                                    ));
                                    assert(adv.take(t as int + 1).last() == adv[t as int]);
                                    assert(adv[t as int] == answers@[t as int]@);
                                }
                                match extract_ip_from_rdata(&answers[t]) {
                                    Some(ip) => {
                                        new_servers.push(ip);
                                        assert(new_servers@ =~= ns_before + ips_of_records(
                                            adv.take(t as int + 1),
                                        ));
                                    },
                                    None => {
                                        assert(new_servers@ =~= ns_before + ips_of_records(
                                            adv.take(t as int + 1),
                                        ));
                                    },
                                }
                                t = t + 1;
                            }
                            proof {
                                assert(adv.take(answers@.len() as int) =~= adv);
                            }
                        },
                        Outcome::NeedUpstream { request, servers: s2 } => {
                            proof {
                                assert(ns_names.deep_view()[k as int] =~= ns_names@[k as int]@);
                            }
                            return (Outcome::NeedUpstream { request, servers: s2 }, i);
                        },
                        Outcome::Failed => {},
                    }
                    proof {
                        if depth < MAX_RECURSION_DEPTH && events@.len() == idx + 3
                            && event_is_glueless_referral(events@[idx as int]) && ns_names_spec(
                            event_authorities(events@[idx as int]),
                        ).len() == 1 && event_is_terminal(events@[idx as int + 1])
                            && event_is_terminal(events@[idx as int + 2]) {
                            assert(new_servers@ =~= ips_of_records(event_answers(
                                events@[idx as int + 1],
                            )) + ips_of_records(event_answers(events@[idx as int + 2])));
                        }
                    }
                    k = k + 1;
                }
            }
            if new_servers.len() == 0 {
                // Step 6, no address found: give back the referral.
                let authorities = copy_records(&resp.authorities);
                proof {
                    assert(idx <= i0 < i);
                    assert(authorities.deep_view() == event_authorities(events@[i0 as int]));
                }
                return (Outcome::Done { answers: Vec::new(), authorities }, i);
            }
            servers = new_servers;
        } else {
            // Step 7: neither answers nor name servers.
            return (Outcome::Done { answers: Vec::new(), authorities: Vec::new() }, i);
        }
    }
}

/// Resolves `(qname, qtype)` iteratively from the root servers, over the
/// upstream responses received so far.
///
/// The call replays the machine against `events`; on [`Outcome::NeedUpstream`]
/// the caller performs the fan-out, appends the resulting event and calls
/// again. A resolution deeper than [`MAX_RECURSION_DEPTH`] yields an empty
/// answer set; a fan-out with no decodable response fails the call. A
/// non-empty answer set is cached under the canonical `(qname, qtype)` key,
/// expiring at `now` plus the minimum TTL across the answers.
pub fn resolve(
    qname: &Vec<u8>,
    qtype: u16,
    depth: u8,
    events: &Vec<UpstreamEvent>,
    cache: &mut TtlCache,
    now: u64,
) -> (r: Outcome)
    requires
        now + 0xffff_ffffu64 <= u64::MAX,
    ensures
        cache_only_refreshed(old(cache)@, final(cache)@, now),
        depth > MAX_RECURSION_DEPTH ==> outcome_is_empty_done(r) && final(cache)@ == old(cache)@,
        outcome_queries_iterative(r),
        done_answers_cached(r, final(cache)@, qname@, qtype, now),
        events@.len() == 0 && depth <= MAX_RECURSION_DEPTH ==> (r matches Outcome::NeedUpstream {
            request,
            servers,
        } && is_upstream_query_for(request@, qname@, qtype) && servers.deep_view()
            == crate::roots::root_servers_spec()),
        depth <= MAX_RECURSION_DEPTH && events@.len() > 0 && event_is_no_response(events@[0])
            ==> r matches Outcome::Failed,
        depth <= MAX_RECURSION_DEPTH && events@.len() > 0 && event_answers(events@[0]).len() > 0
            ==> (r matches Outcome::Done { answers, authorities } && answers.deep_view()
            == event_answers(events@[0]) && authorities.deep_view() == event_authorities(
            events@[0],
        )),
        no_answer_events(events@, 0) ==> final(cache)@ == old(cache)@,
        r matches Outcome::Failed ==> exists|j: int|
            0 <= j < events@.len() && event_is_no_response(#[trigger] events@[j]),
        depth <= MAX_RECURSION_DEPTH && events@.len() > 0 && event_is_dead_end(events@[0])
            ==> outcome_is_empty_done(r) && final(cache)@ == old(cache)@,
        depth <= MAX_RECURSION_DEPTH && events@.len() == 1 && event_is_glued_referral(events@[0])
            ==> (r matches Outcome::NeedUpstream { request, servers } && is_upstream_query_for(
            request@,
            qname@,
            qtype,
        ) && servers.deep_view() == event_glue(events@[0])),
        depth < MAX_RECURSION_DEPTH && events@.len() == 1 && event_is_glueless_referral(events@[0])
            ==> (r matches Outcome::NeedUpstream { request, servers } && is_upstream_query_for(
            request@,
            ns_names_spec(event_authorities(events@[0]))[0],
            RT_A,
        ) && servers.deep_view() == crate::roots::root_servers_spec()),
        depth < MAX_RECURSION_DEPTH && events@.len() == 2 && event_is_glueless_referral(events@[0])
            && event_is_terminal(events@[1]) ==> (r matches Outcome::NeedUpstream {
            request,
            servers,
        } && is_upstream_query_for(
            request@,
            ns_names_spec(event_authorities(events@[0]))[0],
            RT_AAAA,
        ) && servers.deep_view() == crate::roots::root_servers_spec()),
        depth < MAX_RECURSION_DEPTH && events@.len() == 3 && event_is_glueless_referral(events@[0])
            && ns_names_spec(event_authorities(events@[0])).len() == 1 && event_is_terminal(
            events@[1],
        ) && event_is_terminal(events@[2]) && (ips_of_records(event_answers(events@[1]))
            + ips_of_records(event_answers(events@[2]))).len() > 0 ==> (r matches
            Outcome::NeedUpstream { request, servers } && is_upstream_query_for(
            request@,
            qname@,
            qtype,
        ) && servers.deep_view() == ips_of_records(event_answers(events@[1])) + ips_of_records(
            event_answers(events@[2]),
        )),
        depth < MAX_RECURSION_DEPTH && events@.len() == 3 && event_is_glueless_referral(events@[0])
            && ns_names_spec(event_authorities(events@[0])).len() == 1 && event_is_terminal(
            events@[1],
        ) && event_is_terminal(events@[2]) && (ips_of_records(event_answers(events@[1]))
            + ips_of_records(event_answers(events@[2]))).len() == 0 ==> (r matches Outcome::Done {
            answers,
            authorities,
        } && answers@.len() == 0 && authorities.deep_view() == event_authorities(events@[0])),
        empty_done_authorities_from(r, events@, 0, events@.len() as int),
{
    let (o, consumed) = resolve_go(qname, qtype, depth, events, 0, cache, now);
    proof {
        match o {
            Outcome::Failed => {
                assert(0 <= consumed - 1 < events@.len() && event_is_no_response(
                    events@[consumed as int - 1],
                ));
            },
            _ => {},
        }
    }
    o
}

} // verus!
