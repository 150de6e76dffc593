use dns_recursor::cache::TtlCache;
use dns_recursor::resolver::{resolve, build_upstream_query, Outcome, UpstreamEvent,
    MAX_RECURSION_DEPTH};
use dns_recursor::types::{Message, Record, Question, RData, IpAddress, RT_A, RT_NS, RT_AAAA};

fn question(name: &str, qtype: u16) -> Question {
    Question { name: name.as_bytes().to_vec(), qtype }
}

fn a_record(name: &str, ip: IpAddress, ttl: u32) -> Record {
    Record { name: name.as_bytes().to_vec(), rtype: RT_A, class_in: true, ttl, data: RData::A(ip) }
}

fn ns_record(zone: &str, ns: &str, ttl: u32) -> Record {
    Record {
        name: zone.as_bytes().to_vec(),
        rtype: RT_NS,
        class_in: true,
        ttl,
        data: RData::Ns(ns.as_bytes().to_vec()),
    }
}

fn response(answers: Vec<Record>, authorities: Vec<Record>, additionals: Vec<Record>) -> Message {
    Message {
        id: 1,
        op_code: 0,
        response_code: 0,
        is_response: true,
        recursion_desired: false,
        recursion_available: false,
        questions: Vec::new(),
        answers,
        authorities,
        additionals,
    }
}

fn need_upstream(o: &Outcome) -> (&Message, &Vec<IpAddress>) {
    match o {
        Outcome::NeedUpstream { request, servers } => (request, servers),
        other => panic!("expected NeedUpstream, got {:?}", kind_of(other)),
    }
}

fn kind_of(o: &Outcome) -> &'static str {
    match o {
        Outcome::Done { .. } => "Done",
        Outcome::Failed => "Failed",
        Outcome::NeedUpstream { .. } => "NeedUpstream",
    }
}

#[test]
fn upstream_query_has_recursion_desired_clear() {
    let q = build_upstream_query(&b"example.com.".to_vec(), RT_A);
    assert!(!q.recursion_desired);
    assert!(!q.is_response);
    assert_eq!(q.questions, vec![question("example.com.", RT_A)]);
    assert!(q.answers.is_empty());
    assert!(q.authorities.is_empty());
    assert!(q.additionals.is_empty());
}

#[test]
fn first_query_goes_to_the_thirteen_roots() {
    let mut cache = TtlCache::new();
    let events: Vec<UpstreamEvent> = Vec::new();
    let o = resolve(&b"example.com.".to_vec(), RT_A, 0, &events, &mut cache, 1000);
    let (req, servers) = need_upstream(&o);
    assert!(!req.recursion_desired);
    assert_eq!(req.questions, vec![question("example.com.", RT_A)]);
    assert_eq!(servers.len(), 26);
    assert_eq!(servers[0], IpAddress::V4(198, 41, 0, 4));
    assert_eq!(servers[1], IpAddress::V6(0x2001, 0x503, 0xba3e, 0, 0, 0, 0, 0x2));
    assert_eq!(servers[25], IpAddress::V6(0x2001, 0xdc3, 0, 0, 0, 0, 0, 0x35));
}

#[test]
fn depth_above_limit_returns_empty_sets() {
    let mut cache = TtlCache::new();
    let events: Vec<UpstreamEvent> = Vec::new();
    let o = resolve(
        &b"example.com.".to_vec(),
        RT_A,
        MAX_RECURSION_DEPTH + 1,
        &events,
        &mut cache,
        1000,
    );
    match o {
        Outcome::Done { answers, authorities } => {
            assert!(answers.is_empty());
            assert!(authorities.is_empty());
        },
        other => panic!("expected Done, got {:?}", kind_of(&other)),
    }
    assert!(cache.lookup(&b"example.com.".to_vec(), RT_A).is_none());
}

#[test]
fn iterative_resolution_with_glue() {
    let mut cache = TtlCache::new();
    let now: u64 = 1000;
    let qname = b"example.com.".to_vec();
    let mut events: Vec<UpstreamEvent> = Vec::new();

    // The root referral: com. NS a.gtld-servers.net. with glue.
    let o = resolve(&qname, RT_A, 0, &events, &mut cache, now);
    let (req, servers) = need_upstream(&o);
    assert_eq!(req.questions, vec![question("example.com.", RT_A)]);
    assert_eq!(servers.len(), 26);
    events.push(UpstreamEvent::Response(response(
        vec![],
        vec![ns_record("com.", "a.gtld-servers.net.", 172800)],
        vec![a_record("a.gtld-servers.net.", IpAddress::V4(192, 5, 6, 30), 172800)],
    )));

    // The TLD referral: example.com. NS ns1.example.com. with glue.
    let o = resolve(&qname, RT_A, 0, &events, &mut cache, now);
    let (req, servers) = need_upstream(&o);
    assert_eq!(req.questions, vec![question("example.com.", RT_A)]);
    assert_eq!(servers, &vec![IpAddress::V4(192, 5, 6, 30)]);
    events.push(UpstreamEvent::Response(response(
        vec![],
        vec![ns_record("example.com.", "ns1.example.com.", 3600)],
        vec![a_record("ns1.example.com.", IpAddress::V4(203, 0, 113, 1), 3600)],
    )));

    // The authoritative answer.
    let o = resolve(&qname, RT_A, 0, &events, &mut cache, now);
    let (_, servers) = need_upstream(&o);
    assert_eq!(servers, &vec![IpAddress::V4(203, 0, 113, 1)]);
    let final_answer = a_record("example.com.", IpAddress::V4(93, 184, 216, 34), 60);
    events.push(UpstreamEvent::Response(response(vec![final_answer.clone()], vec![], vec![])));

    let o = resolve(&qname, RT_A, 0, &events, &mut cache, now);
    match o {
        Outcome::Done { answers, authorities } => {
            assert_eq!(answers, vec![final_answer.clone()]);
            assert!(authorities.is_empty());
        },
        other => panic!("expected Done, got {:?}", kind_of(&other)),
    }
    let entry = cache.lookup(&qname, RT_A).expect("answer should be cached");
    assert_eq!(entry.records, vec![final_answer.clone()]);
    assert_eq!(entry.expires_at, now + 60);

    // The response to the client carries the client's id.
    let client_request = dns_recursor::types::Message {
        id: 0xabcd,
        op_code: 0,
        response_code: 0,
        is_response: false,
        recursion_desired: true,
        recursion_available: false,
        questions: vec![question("example.com.", RT_A)],
        answers: Vec::new(),
        authorities: Vec::new(),
        additionals: Vec::new(),
    };
    let reply = dns_recursor::handler::build_resolved_response(
        &client_request,
        vec![final_answer.clone()],
        Vec::new(),
    );
    assert_eq!(reply.id, 0xabcd);
    assert!(reply.recursion_available);
    assert_eq!(reply.answers, vec![final_answer]);
}

#[test]
fn cname_answer_is_cached_under_the_query_name() {
    // A response whose answer section holds the alias record is accepted by
    // the non-empty-answers step and cached under the original name; the
    // alias target's own resolution makes its own cache entry.
    let mut cache = TtlCache::new();
    let now: u64 = 2000;
    let cname = Record {
        name: b"www.example.com.".to_vec(),
        rtype: dns_recursor::types::RT_CNAME,
        class_in: true,
        ttl: 300,
        data: RData::Cname(b"example.com.".to_vec()),
    };
    let events = vec![UpstreamEvent::Response(response(vec![cname.clone()], vec![], vec![]))];
    let o = resolve(&b"www.example.com.".to_vec(), RT_A, 0, &events, &mut cache, now);
    match o {
        Outcome::Done { answers, .. } => assert_eq!(answers, vec![cname.clone()]),
        other => panic!("expected Done, got {:?}", kind_of(&other)),
    }
    let entry = cache.lookup(&b"www.example.com.".to_vec(), RT_A).unwrap();
    assert_eq!(entry.records, vec![cname]);
    assert_eq!(entry.expires_at, now + 300);

    // The target resolved on its own gets a separate entry.
    let a = a_record("example.com.", IpAddress::V4(93, 184, 216, 34), 120);
    let events = vec![UpstreamEvent::Response(response(vec![a.clone()], vec![], vec![]))];
    let o = resolve(&b"example.com.".to_vec(), RT_A, 0, &events, &mut cache, now);
    match o {
        Outcome::Done { answers, .. } => assert_eq!(answers, vec![a.clone()]),
        other => panic!("expected Done, got {:?}", kind_of(&other)),
    }
    let entry = cache.lookup(&b"example.com.".to_vec(), RT_A).unwrap();
    assert_eq!(entry.records, vec![a]);
    assert_eq!(entry.expires_at, now + 120);
    assert!(cache.lookup(&b"www.example.com.".to_vec(), RT_A).is_some());
}

#[test]
fn glueless_delegation_resolves_the_name_server_first() {
    let mut cache = TtlCache::new();
    let now: u64 = 3000;
    let qname = b"www.foo.test.".to_vec();
    let mut events: Vec<UpstreamEvent> = Vec::new();

    // Referral without glue.
    events.push(UpstreamEvent::Response(response(
        vec![],
        vec![ns_record("foo.test.", "ns1.foo.test.", 3600)],
        vec![],
    )));
    let o = resolve(&qname, RT_A, 0, &events, &mut cache, now);
    let (req, _) = need_upstream(&o);
    assert_eq!(req.questions, vec![question("ns1.foo.test.", RT_A)]);

    // The name server's own A answer.
    events.push(UpstreamEvent::Response(response(
        vec![a_record("ns1.foo.test.", IpAddress::V4(203, 0, 113, 9), 60)],
        vec![],
        vec![],
    )));
    let o = resolve(&qname, RT_A, 0, &events, &mut cache, now);
    let (req, _) = need_upstream(&o);
    assert_eq!(req.questions, vec![question("ns1.foo.test.", RT_AAAA)]);

    // No AAAA for the name server: an empty response ends that sub-lookup.
    events.push(UpstreamEvent::Response(response(vec![], vec![], vec![])));
    let o = resolve(&qname, RT_A, 0, &events, &mut cache, now);
    let (req, servers) = need_upstream(&o);
    assert_eq!(req.questions, vec![question("www.foo.test.", RT_A)]);
    assert_eq!(servers, &vec![IpAddress::V4(203, 0, 113, 9)]);

    // The discovered server answers.
    let final_answer = a_record("www.foo.test.", IpAddress::V4(198, 51, 100, 7), 30);
    events.push(UpstreamEvent::Response(response(vec![final_answer.clone()], vec![], vec![])));
    let o = resolve(&qname, RT_A, 0, &events, &mut cache, now);
    match o {
        Outcome::Done { answers, .. } => assert_eq!(answers, vec![final_answer]),
        other => panic!("expected Done, got {:?}", kind_of(&other)),
    }
}

#[test]
fn referral_without_addresses_returns_the_authorities() {
    let mut cache = TtlCache::new();
    let referral = ns_record("bar.test.", "ns1.bar.test.", 3600);
    // No glue, and the sub-lookups for the name server find nothing.
    let events = vec![
        UpstreamEvent::Response(response(vec![], vec![referral.clone()], vec![])),
        UpstreamEvent::Response(response(vec![], vec![], vec![])),
        UpstreamEvent::Response(response(vec![], vec![], vec![])),
    ];
    let o = resolve(&b"www.bar.test.".to_vec(), RT_A, 0, &events, &mut cache, 100);
    match o {
        Outcome::Done { answers, authorities } => {
            assert!(answers.is_empty());
            assert_eq!(authorities, vec![referral]);
        },
        other => panic!("expected Done, got {:?}", kind_of(&other)),
    }
    // Nothing was inserted along the way: every response was answer-less.
    assert!(cache.lookup(&b"www.bar.test.".to_vec(), RT_A).is_none());
    assert!(cache.entries().is_empty());
}

#[test]
fn empty_response_ends_the_resolution_with_nothing() {
    let mut cache = TtlCache::new();
    let events = vec![UpstreamEvent::Response(response(vec![], vec![], vec![]))];
    let o = resolve(&b"void.test.".to_vec(), RT_A, 0, &events, &mut cache, 100);
    match o {
        Outcome::Done { answers, authorities } => {
            assert!(answers.is_empty());
            assert!(authorities.is_empty());
        },
        other => panic!("expected Done, got {:?}", kind_of(&other)),
    }
    assert!(cache.entries().is_empty());
}

#[test]
fn resolution_outcome_becomes_the_client_reply() {
    let request = Message {
        id: 0x5151,
        op_code: 0,
        response_code: 0,
        is_response: false,
        recursion_desired: true,
        recursion_available: false,
        questions: vec![question("example.com.", RT_A)],
        answers: Vec::new(),
        authorities: Vec::new(),
        additionals: Vec::new(),
    };
    let a = a_record("example.com.", IpAddress::V4(93, 184, 216, 34), 60);
    let reply = dns_recursor::handler::resolution_response(
        &request,
        Outcome::Done { answers: vec![a.clone()], authorities: vec![] },
    );
    assert_eq!(reply.id, 0x5151);
    assert!(reply.recursion_available);
    assert_eq!(reply.answers, vec![a]);
    assert_eq!(reply.questions, request.questions);
    let failed = dns_recursor::handler::resolution_response(&request, Outcome::Failed);
    assert_eq!(failed.id, 0x5151);
    assert_eq!(failed.response_code, dns_recursor::types::RCODE_SERV_FAIL);
    assert!(failed.recursion_available);
}

#[test]
fn no_decodable_response_fails_the_call() {
    let mut cache = TtlCache::new();
    let events = vec![UpstreamEvent::NoResponse];
    let o = resolve(&b"nowhere.invalid.".to_vec(), 63, 0, &events, &mut cache, 100);
    assert!(matches!(o, Outcome::Failed));
    assert!(cache.lookup(&b"nowhere.invalid.".to_vec(), 63).is_none());
}

#[test]
fn glue_of_other_class_is_ignored() {
    let mut cache = TtlCache::new();
    let mut glue = a_record("ns1.baz.test.", IpAddress::V4(203, 0, 113, 77), 60);
    glue.class_in = false;
    let mut events = vec![UpstreamEvent::Response(response(
        vec![],
        vec![ns_record("baz.test.", "ns1.baz.test.", 3600)],
        vec![glue],
    ))];
    // The out-of-class glue gives no address, so the name server itself is
    // resolved next.
    let o = resolve(&b"www.baz.test.".to_vec(), RT_A, 0, &events, &mut cache, 100);
    let (req, _) = need_upstream(&o);
    assert_eq!(req.questions, vec![question("ns1.baz.test.", RT_A)]);
    // With matching glue of class IN the delegation is followed directly.
    let glue_in = a_record("NS1.BAZ.TEST", IpAddress::V4(203, 0, 113, 78), 60);
    events[0] = UpstreamEvent::Response(response(
        vec![],
        vec![ns_record("baz.test.", "ns1.baz.test.", 3600)],
        vec![glue_in],
    ));
    let o = resolve(&b"www.baz.test.".to_vec(), RT_A, 0, &events, &mut cache, 100);
    let (req, servers) = need_upstream(&o);
    assert_eq!(req.questions, vec![question("www.baz.test.", RT_A)]);
    assert_eq!(servers, &vec![IpAddress::V4(203, 0, 113, 78)]);
}
