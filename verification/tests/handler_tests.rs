use dns_recursor::cache::{TtlCache, CacheEntry};
use dns_recursor::handler::{handle_request, build_resolved_response, servfail_response,
    HandlerOutcome};
use dns_recursor::types::{Message, Record, Question, RData, IpAddress, RT_A, RCODE_SERV_FAIL,
    RCODE_NO_ERROR};

fn query(id: u16, name: &str, qtype: u16) -> Message {
    Message {
        id,
        op_code: 0,
        response_code: 0,
        is_response: false,
        recursion_desired: true,
        recursion_available: false,
        questions: vec![Question { name: name.as_bytes().to_vec(), qtype }],
        answers: Vec::new(),
        authorities: Vec::new(),
        additionals: Vec::new(),
    }
}

fn a_record(name: &str, ip: IpAddress, ttl: u32) -> Record {
    Record { name: name.as_bytes().to_vec(), rtype: RT_A, class_in: true, ttl, data: RData::A(ip) }
}

#[test]
fn cached_hit_answers_without_resolution() {
    let mut cache = TtlCache::new();
    let now: u64 = 10_000;
    let rec = a_record("example.com.", IpAddress::V4(93, 184, 216, 34), 300);
    cache.insert(
        b"example.com.".to_vec(),
        RT_A,
        CacheEntry { records: vec![rec.clone()], expires_at: now + 300 },
    );
    let req = query(0x1234, "example.com.", RT_A);
    match handle_request(&req, &mut cache, now) {
        HandlerOutcome::Respond(m) => {
            assert_eq!(m.id, 0x1234);
            assert_eq!(m.op_code, 0);
            assert!(m.recursion_available);
            assert!(m.is_response);
            assert_eq!(m.answers, vec![rec]);
            assert!(m.authorities.is_empty());
            assert_eq!(m.questions, req.questions);
        },
        HandlerOutcome::NeedResolve { .. } => panic!("a live entry must answer from the cache"),
    }
}

#[test]
fn hit_key_is_case_and_dot_insensitive() {
    let mut cache = TtlCache::new();
    let now: u64 = 10_000;
    let rec = a_record("example.com.", IpAddress::V4(93, 184, 216, 34), 300);
    cache.insert(
        b"example.com.".to_vec(),
        RT_A,
        CacheEntry { records: vec![rec], expires_at: now + 300 },
    );
    // The queried name differs in case and lacks the trailing dot.
    let req = query(7, "Example.COM", RT_A);
    assert!(matches!(handle_request(&req, &mut cache, now), HandlerOutcome::Respond(_)));
}

#[test]
fn expired_entry_is_removed_and_resolved_afresh() {
    let mut cache = TtlCache::new();
    let rec = a_record("example.com.", IpAddress::V4(93, 184, 216, 34), 300);
    cache.insert(
        b"example.com.".to_vec(),
        RT_A,
        CacheEntry { records: vec![rec], expires_at: 500 },
    );
    let req = query(9, "example.com.", RT_A);
    // The lookup happens at the expiry instant itself: the entry is stale.
    match handle_request(&req, &mut cache, 500) {
        HandlerOutcome::NeedResolve { qname, qtype } => {
            assert_eq!(qname, b"example.com.".to_vec());
            assert_eq!(qtype, RT_A);
        },
        HandlerOutcome::Respond(_) => panic!("a stale entry must never be served"),
    }
    assert!(cache.lookup(&b"example.com.".to_vec(), RT_A).is_none());
}

#[test]
fn entry_is_live_strictly_before_its_expiry() {
    let mut cache = TtlCache::new();
    let rec = a_record("example.com.", IpAddress::V4(93, 184, 216, 34), 300);
    cache.insert(
        b"example.com.".to_vec(),
        RT_A,
        CacheEntry { records: vec![rec.clone()], expires_at: 500 },
    );
    let req = query(9, "example.com.", RT_A);
    match handle_request(&req, &mut cache, 499) {
        HandlerOutcome::Respond(m) => assert_eq!(m.answers, vec![rec]),
        HandlerOutcome::NeedResolve { .. } => panic!("a live entry must answer from the cache"),
    }
}

#[test]
fn two_lookups_within_the_window_return_the_same_records() {
    let mut cache = TtlCache::new();
    let rec = a_record("example.com.", IpAddress::V4(93, 184, 216, 34), 300);
    cache.insert(
        b"example.com.".to_vec(),
        RT_A,
        CacheEntry { records: vec![rec.clone()], expires_at: 1300 },
    );
    let req = query(1, "example.com.", RT_A);
    let first = match handle_request(&req, &mut cache, 1000) {
        HandlerOutcome::Respond(m) => m.answers,
        HandlerOutcome::NeedResolve { .. } => panic!("first lookup must hit"),
    };
    let second = match handle_request(&req, &mut cache, 1299) {
        HandlerOutcome::Respond(m) => m.answers,
        HandlerOutcome::NeedResolve { .. } => panic!("second lookup must hit, not go upstream"),
    };
    assert_eq!(first, second);
    assert_eq!(first, vec![rec]);
}

#[test]
fn miss_asks_for_resolution_with_the_query_name() {
    let mut cache = TtlCache::new();
    let req = query(3, "fresh.test.", RT_A);
    match handle_request(&req, &mut cache, 100) {
        HandlerOutcome::NeedResolve { qname, qtype } => {
            assert_eq!(qname, b"fresh.test.".to_vec());
            assert_eq!(qtype, RT_A);
        },
        HandlerOutcome::Respond(_) => panic!("an empty cache cannot answer"),
    }
}

#[test]
fn request_without_questions_gets_an_empty_response() {
    let mut cache = TtlCache::new();
    let mut req = query(0x42, "ignored.", RT_A);
    req.questions.clear();
    req.op_code = 2;
    match handle_request(&req, &mut cache, 100) {
        HandlerOutcome::Respond(m) => {
            assert_eq!(m.id, 0x42);
            assert_eq!(m.op_code, 2);
            assert!(m.recursion_available);
            assert!(m.is_response);
            assert!(m.questions.is_empty());
            assert!(m.answers.is_empty());
        },
        HandlerOutcome::NeedResolve { .. } => panic!("no question, nothing to resolve"),
    }
}

#[test]
fn resolved_response_copies_every_question() {
    let mut req = query(0xabcd, "example.com.", RT_A);
    req.questions.push(Question { name: b"second.test.".to_vec(), qtype: RT_A });
    let answers = vec![a_record("example.com.", IpAddress::V4(93, 184, 216, 34), 60)];
    let authorities = vec![a_record("ns.example.com.", IpAddress::V4(203, 0, 113, 1), 60)];
    let m = build_resolved_response(&req, answers.clone(), authorities.clone());
    assert_eq!(m.id, 0xabcd);
    assert_eq!(m.op_code, 0);
    assert!(m.recursion_available);
    assert!(m.is_response);
    assert_eq!(m.response_code, RCODE_NO_ERROR);
    assert_eq!(m.questions, req.questions);
    assert_eq!(m.answers, answers);
    assert_eq!(m.authorities, authorities);
    assert!(m.additionals.is_empty());
}

#[test]
fn servfail_carries_the_request_header() {
    let m = servfail_response(0x7777, 1);
    assert_eq!(m.id, 0x7777);
    assert_eq!(m.op_code, 1);
    assert_eq!(m.response_code, RCODE_SERV_FAIL);
    assert!(m.recursion_available);
    assert!(m.is_response);
    assert!(m.questions.is_empty());
    assert!(m.answers.is_empty());
}
