use dns_recursor::cache::{TtlCache, CacheEntry};
use dns_recursor::control::{monitor_step, server_step, prefetch_round, supervisor_decide,
    MonitorState, MonitorEvent, MonitorDecision, ServerEvent, ServerDecision, EpochEvent,
    HEARTBEAT_TIMEOUT_SECS, RESTART_BACKOFF_SECS};
use dns_recursor::name::canonical_name;
use dns_recursor::types::{Record, RData, IpAddress, RT_A};

fn a_record(name: &str, ip: IpAddress, ttl: u32) -> Record {
    Record { name: name.as_bytes().to_vec(), rtype: RT_A, class_in: true, ttl, data: RData::A(ip) }
}

#[test]
fn beats_within_the_window_keep_the_monitor_alive() {
    // One beat every ten seconds, with a wake-up between any two beats:
    // the monitor never times out.
    let mut st = MonitorState { last_beat: 0 };
    let mut t: u64 = 0;
    for _ in 0..20 {
        t += 10;
        let (next, d) = monitor_step(st, MonitorEvent::Beat { at: t });
        assert_eq!(d, MonitorDecision::KeepWaiting);
        st = next;
        let (next, d) = monitor_step(st, MonitorEvent::Silence { at: t + 9 });
        assert_eq!(d, MonitorDecision::KeepWaiting);
        st = next;
    }
}

#[test]
fn silence_for_the_timeout_fails_the_epoch() {
    let st = MonitorState { last_beat: 100 };
    let (_, d) = monitor_step(st, MonitorEvent::Silence { at: 100 + HEARTBEAT_TIMEOUT_SECS });
    assert_eq!(d, MonitorDecision::ExitTimedOut);
    let (_, d) = monitor_step(st, MonitorEvent::Silence { at: 99 + HEARTBEAT_TIMEOUT_SECS });
    assert_eq!(d, MonitorDecision::KeepWaiting);
}

#[test]
fn cancellation_exits_every_loop() {
    let st = MonitorState { last_beat: 0 };
    let (_, d) = monitor_step(st, MonitorEvent::Cancelled);
    assert_eq!(d, MonitorDecision::ExitClean);
    assert_eq!(server_step(ServerEvent::Cancelled), ServerDecision::Exit);
    let mut cache = TtlCache::new();
    cache.insert(
        b"kept.test.".to_vec(),
        RT_A,
        CacheEntry {
            records: vec![a_record("kept.test.", IpAddress::V4(1, 1, 1, 1), 10)],
            expires_at: 1,
        },
    );
    // A cancelled sweep reports exit and touches nothing, not even an
    // expired entry.
    assert!(prefetch_round(true, &mut cache, 100).is_none());
    assert!(cache.lookup(&b"kept.test.".to_vec(), RT_A).is_some());
}

#[test]
fn server_loop_beats_on_each_datagram_and_survives_errors() {
    assert_eq!(server_step(ServerEvent::Datagram), ServerDecision::BeatAndHandle);
    assert_eq!(server_step(ServerEvent::RecvError), ServerDecision::KeepServing);
}

#[test]
fn sweep_removes_expired_and_lists_near_expiry_entries() {
    let mut cache = TtlCache::new();
    let now: u64 = 1000;
    cache.insert(
        b"gone.test.".to_vec(),
        RT_A,
        CacheEntry {
            records: vec![a_record("gone.test.", IpAddress::V4(1, 1, 1, 1), 10)],
            expires_at: now,
        },
    );
    cache.insert(
        b"soon.test.".to_vec(),
        RT_A,
        CacheEntry {
            records: vec![a_record("soon.test.", IpAddress::V4(2, 2, 2, 2), 10)],
            expires_at: now + 59,
        },
    );
    cache.insert(
        b"fine.test.".to_vec(),
        RT_A,
        CacheEntry {
            records: vec![a_record("fine.test.", IpAddress::V4(3, 3, 3, 3), 10)],
            expires_at: now + 60,
        },
    );
    let keys = prefetch_round(false, &mut cache, now).expect("an uncancelled sweep reports keys");
    assert!(cache.lookup(&b"gone.test.".to_vec(), RT_A).is_none());
    assert!(cache.lookup(&b"soon.test.".to_vec(), RT_A).is_some());
    assert!(cache.lookup(&b"fine.test.".to_vec(), RT_A).is_some());
    assert_eq!(keys, vec![(b"soon.test.".to_vec(), RT_A)]);
}

#[test]
fn supervisor_always_cancels_and_backs_off_one_second() {
    let plan = supervisor_decide(EpochEvent::MonitorEnded { failed: true });
    assert!(plan.cancel_siblings);
    assert_eq!(plan.backoff_secs, RESTART_BACKOFF_SECS);
    assert!(plan.failed);
    let plan = supervisor_decide(EpochEvent::RestartDue);
    assert!(plan.cancel_siblings);
    assert_eq!(plan.backoff_secs, 1);
    assert!(!plan.failed);
    let plan = supervisor_decide(EpochEvent::ServerEnded { failed: false });
    assert!(plan.cancel_siblings);
    assert!(!plan.failed);
}

#[test]
fn monitor_timeout_drives_a_restart() {
    // The server never receives a datagram: the monitor times out at
    // thirty seconds, the supervisor cancels and restarts after one second.
    let st = MonitorState { last_beat: 0 };
    let (_, d) = monitor_step(st, MonitorEvent::Silence { at: HEARTBEAT_TIMEOUT_SECS });
    assert_eq!(d, MonitorDecision::ExitTimedOut);
    let plan = supervisor_decide(EpochEvent::MonitorEnded { failed: true });
    assert!(plan.cancel_siblings);
    assert_eq!(plan.backoff_secs, 1);
}

#[test]
fn canonical_name_lowercases_and_appends_the_dot() {
    assert_eq!(canonical_name(&b"Example.COM".to_vec()), b"example.com.".to_vec());
    assert_eq!(canonical_name(&b"example.com.".to_vec()), b"example.com.".to_vec());
    assert_eq!(canonical_name(&b"".to_vec()), b".".to_vec());
    let once = canonical_name(&b"MiXeD.Test".to_vec());
    assert_eq!(canonical_name(&once), once);
}
