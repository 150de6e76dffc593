//! The supervisory control plane: the heartbeat monitor, the server loop's
//! per-event decision, the prefetch sweep, and the supervisor's restart
//! policy.
//!
//! Each long-lived loop is modelled as a step function from its state and
//! the event it woke on to its next state and decision; the loop itself,
//! with its awaits and timers, runs outside the crate and feeds events in.

use vstd::prelude::*;
use crate::cache::TtlCache;

verus! {

/// Heartbeat silence that triggers supervisor intervention, in seconds.
pub const HEARTBEAT_TIMEOUT_SECS: u64 = 30;
/// The scheduled restart interval of one supervision epoch, in seconds.
pub const RESTART_INTERVAL_SECS: u64 = 600;
/// The pause before the supervisor starts the next epoch, in seconds.
pub const RESTART_BACKOFF_SECS: u64 = 1;
/// Entries whose remaining TTL drops below this are refreshed, in seconds.
pub const PREFETCH_THRESHOLD_SECS: u64 = 60;
/// The pause between two prefetch sweeps, in seconds.
pub const SWEEP_INTERVAL_SECS: u64 = 60;
/// The timeout on each upstream send and receive, in seconds.
pub const UPSTREAM_TIMEOUT_SECS: u64 = 2;
/// The UDP port the server listens on.
pub const DNS_PORT: u16 = 5353;
/// The largest datagram the server reads or writes, in bytes.
pub const MAX_UDP_PAYLOAD: usize = 512;

/// The monitor's state: when the latest heartbeat arrived.
#[derive(Clone, Copy, Debug, PartialEq, Eq, Structural)]
pub struct MonitorState {
    pub last_beat: u64,
}

/// What the monitor woke on.
#[derive(Clone, Copy, Debug, PartialEq, Eq, Structural)]
pub enum MonitorEvent {
    /// The cancellation signal fired.
    Cancelled,
    /// A heartbeat arrived at instant `at`.
    Beat { at: u64 },
    /// The monitor woke at instant `at` without a heartbeat having arrived.
    Silence { at: u64 },
}

/// What the monitor decides.
#[derive(Clone, Copy, Debug, PartialEq, Eq, Structural)]
pub enum MonitorDecision {
    /// Cancellation: exit cleanly.
    ExitClean,
    /// Keep waiting for the next event.
    KeepWaiting,
    /// Heartbeat silence reached the timeout: fail the epoch.
    ExitTimedOut,
}

/// The monitor's step: cancellation exits cleanly, a beat resets the
/// window, and silence at or past the timeout fails the epoch.
pub open spec fn monitor_step_spec(st: MonitorState, ev: MonitorEvent) -> (
    MonitorState,
    MonitorDecision,
) {
    match ev {
        MonitorEvent::Cancelled => (st, MonitorDecision::ExitClean),
        MonitorEvent::Beat { at } => (
            MonitorState { last_beat: at },
            MonitorDecision::KeepWaiting,
        ),
        MonitorEvent::Silence { at } => if at >= st.last_beat + HEARTBEAT_TIMEOUT_SECS {
            (st, MonitorDecision::ExitTimedOut)
        } else {
            (st, MonitorDecision::KeepWaiting)
        },
    }
}

/// One step of the heartbeat monitor.
pub fn monitor_step(st: MonitorState, ev: MonitorEvent) -> (r: (MonitorState, MonitorDecision))
    ensures
        r == monitor_step_spec(st, ev),
{
    match ev {
        MonitorEvent::Cancelled => (st, MonitorDecision::ExitClean),
        MonitorEvent::Beat { at } => (
            MonitorState { last_beat: at },
            MonitorDecision::KeepWaiting,
        ),
        MonitorEvent::Silence { at } => {
            if at >= st.last_beat && at - st.last_beat >= HEARTBEAT_TIMEOUT_SECS {
                (st, MonitorDecision::ExitTimedOut)
            } else {
                (st, MonitorDecision::KeepWaiting)
            }
        },
    }
}

/// The monitor's state after a run of events.
pub open spec fn monitor_run(st: MonitorState, evs: Seq<MonitorEvent>) -> MonitorState
    decreases evs.len(),
{
    if evs.len() == 0 {
        st
    } else {
        monitor_run(monitor_step_spec(st, evs[0]).0, evs.drop_first())
    }
}

/// No step of the run decides to fail the epoch.
pub open spec fn monitor_never_times_out(st: MonitorState, evs: Seq<MonitorEvent>) -> bool
    decreases evs.len(),
{
    if evs.len() == 0 {
        true
    } else {
        monitor_step_spec(st, evs[0]).1 != MonitorDecision::ExitTimedOut
            && monitor_never_times_out(monitor_step_spec(st, evs[0]).0, evs.drop_first())
    }
}

/// Every silent wake-up of the run happens strictly within the timeout
/// window of the latest beat before it.
pub open spec fn wakeups_within_window(st: MonitorState, evs: Seq<MonitorEvent>) -> bool {
    forall|i: int|
        0 <= i < evs.len() ==> match #[trigger] evs[i] {
            MonitorEvent::Silence { at } => at < monitor_run(st, evs.take(i)).last_beat
                + HEARTBEAT_TIMEOUT_SECS,
            _ => true,
        }
}

/// Heartbeat liveness: while the server keeps beating often enough that
/// every silent wake-up of the monitor falls strictly inside the timeout
/// window of the latest beat, the monitor never times out; a server that
/// services at least one datagram per interval shorter than the timeout
/// keeps every wake-up inside that window.
pub proof fn lemma_heartbeat_liveness(st: MonitorState, evs: Seq<MonitorEvent>)
    requires
        wakeups_within_window(st, evs),
    ensures
        monitor_never_times_out(st, evs),
    decreases evs.len(),
{
    if evs.len() > 0 {
        assert(evs.take(0) =~= Seq::<MonitorEvent>::empty());
        assert(monitor_run(st, evs.take(0)) == st);
        let st1 = monitor_step_spec(st, evs[0]).0;
        let tail = evs.drop_first();
        assert forall|i: int|
            0 <= i < tail.len() implies match #[trigger] tail[i] {
            MonitorEvent::Silence { at } => at < monitor_run(st1, tail.take(i)).last_beat
                + HEARTBEAT_TIMEOUT_SECS,
            _ => true,
        } by {
            assert(evs[i + 1] == tail[i]);
            assert(evs.take(i + 1).drop_first() =~= tail.take(i));
            assert(evs.take(i + 1)[0] == evs[0]);
            assert(monitor_run(st, evs.take(i + 1)) == monitor_run(st1, tail.take(i)));
        }
        lemma_heartbeat_liveness(st1, tail);
    }
}

/// What the server loop woke on.
#[derive(Clone, Copy, Debug, PartialEq, Eq, Structural)]
pub enum ServerEvent {
    /// The cancellation signal fired.
    Cancelled,
    /// A datagram arrived.
    Datagram,
    /// The receive call failed.
    RecvError,
}

/// What the server loop decides.
#[derive(Clone, Copy, Debug, PartialEq, Eq, Structural)]
pub enum ServerDecision {
    /// Cancellation: leave the loop.
    Exit,
    /// Emit a heartbeat (best effort) and handle the datagram in its own task.
    BeatAndHandle,
    /// Log and keep receiving.
    KeepServing,
}

/// The server loop's step: cancellation exits; a datagram emits a beat and
/// is handled; a receive error is tolerated.
pub open spec fn server_step_spec(ev: ServerEvent) -> ServerDecision {
    match ev {
        ServerEvent::Cancelled => ServerDecision::Exit,
        ServerEvent::Datagram => ServerDecision::BeatAndHandle,
        ServerEvent::RecvError => ServerDecision::KeepServing,
    }
}

/// One step of the server loop.
pub fn server_step(ev: ServerEvent) -> (r: ServerDecision)
    ensures
        r == server_step_spec(ev),
{
    match ev {
        ServerEvent::Cancelled => ServerDecision::Exit,
        ServerEvent::Datagram => ServerDecision::BeatAndHandle,
        ServerEvent::RecvError => ServerDecision::KeepServing,
    }
}

/// One prefetch sweep at instant `now`. When the cancellation signal is
/// set, nothing happens and the sweep reports exit. Otherwise every expired
/// entry is removed, and the keys of the remaining entries whose TTL runs
/// out within the prefetch threshold are returned for refresh.
pub fn prefetch_round(cancelled: bool, cache: &mut TtlCache, now: u64) -> (r: Option<
    Vec<(Vec<u8>, u16)>,
>)
    requires
        now + 0xffff_ffffu64 <= u64::MAX,
    ensures
        cancelled ==> r is None && final(cache)@ == old(cache)@,
        !cancelled ==> r is Some,
        !cancelled ==> forall|k: (Seq<u8>, u16)|
            final(cache)@.contains_key(k) <==> (old(cache)@.contains_key(k) && old(
                cache,
            )@[k].expires_at > now),
        !cancelled ==> forall|k: (Seq<u8>, u16)|
            final(cache)@.contains_key(k) ==> final(cache)@[k] == old(cache)@[k],
        match r {
            Some(keys) => {
                &&& forall|t: int|
                    0 <= t < keys@.len() ==> final(cache)@.contains_key(
                        (#[trigger] keys@[t].0@, keys@[t].1),
                    ) && final(cache)@[(keys@[t].0@, keys@[t].1)].expires_at < now
                        + PREFETCH_THRESHOLD_SECS
                &&& forall|k: (Seq<u8>, u16)|
                    final(cache)@.contains_key(k) && final(cache)@[k].expires_at < now
                        + PREFETCH_THRESHOLD_SECS ==> exists|t: int|
                        0 <= t < keys@.len() && ((#[trigger] keys@[t].0@, keys@[t].1) == k)
            },
            None => true,
        },
{
    if cancelled {
        return None;
    }
    cache.remove_expired(now);
    let snap = cache.entries();
    let mut keys: Vec<(Vec<u8>, u16)> = Vec::new();
    let mut i: usize = 0;
    while i < snap.len()
        invariant
            i <= snap@.len(),
            now + 0xffff_ffffu64 <= u64::MAX,
            forall|j: int|
                0 <= j < snap@.len() ==> cache@.contains_key((#[trigger] snap@[j].0@, snap@[j].1))
                    && snap@[j].2@ == cache@[(snap@[j].0@, snap@[j].1)],
            forall|t: int|
                0 <= t < keys@.len() ==> cache@.contains_key(
                    (#[trigger] keys@[t].0@, keys@[t].1),
                ) && cache@[(keys@[t].0@, keys@[t].1)].expires_at < now + PREFETCH_THRESHOLD_SECS,
            forall|j: int|
                0 <= j < i && snap@[j].2@.expires_at < now + PREFETCH_THRESHOLD_SECS
                    ==> exists|t: int|
                    0 <= t < keys@.len() && ((#[trigger] keys@[t].0@, keys@[t].1) == (
                    snap@[j].0@,
                    snap@[j].1,
                    )),
        decreases snap.len() - i,
    {
        let ghost prev = keys@;
        if snap[i].2.expires_at < now + PREFETCH_THRESHOLD_SECS {
            let name = snap[i].0.clone();
            proof {
                assert(name@ =~= snap@[i as int].0@);
            }
            keys.push((name, snap[i].1));
            assert(keys@[keys@.len() - 1].0@ == snap@[i as int].0@);
            assert(keys@[keys@.len() - 1].1 == snap@[i as int].1);
        }
        proof {
            assert forall|j: int|
                0 <= j < i + 1 && snap@[j].2@.expires_at < now + PREFETCH_THRESHOLD_SECS
                    implies exists|t: int|
                0 <= t < keys@.len() && ((#[trigger] keys@[t].0@, keys@[t].1) == (
                snap@[j].0@,
                snap@[j].1,
                )) by {
                if j < i {
                    let t = choose|t: int|
                        0 <= t < prev.len() && ((#[trigger] prev[t].0@, prev[t].1) == (
                        snap@[j].0@,
                        snap@[j].1,
                        ));
                    assert(keys@[t] == prev[t]);
                    assert(0 <= t < keys@.len() && ((keys@[t].0@, keys@[t].1) == (
                    snap@[j].0@,
                    snap@[j].1,
                    )));
                } else {
                    let t = keys@.len() - 1;
                    assert(0 <= t < keys@.len() && ((keys@[t].0@, keys@[t].1) == (
                    snap@[j].0@,
                    snap@[j].1,
                    )));
                }
            }
        }
        i = i + 1;
    }
    proof {
        assert forall|k: (Seq<u8>, u16)|
            cache@.contains_key(k) && cache@[k].expires_at < now + PREFETCH_THRESHOLD_SECS
                implies exists|t: int|
            0 <= t < keys@.len() && ((#[trigger] keys@[t].0@, keys@[t].1) == k) by {
            let j = choose|j: int|
                0 <= j < snap@.len() && ((#[trigger] snap@[j].0@, snap@[j].1) == k);
            assert(snap@[j].2@ == cache@[k]);
        }
    }
    Some(keys)
}

/// What ended the supervision epoch.
#[derive(Clone, Copy, Debug, PartialEq, Eq, Structural)]
pub enum EpochEvent {
    /// The server task returned; `failed` when it returned an error.
    ServerEnded { failed: bool },
    /// The monitor task returned; `failed` when it returned an error.
    MonitorEnded { failed: bool },
    /// The scheduled restart interval elapsed.
    RestartDue,
}

/// The supervisor's plan for the end of an epoch.
#[derive(Clone, Copy, Debug, PartialEq, Eq, Structural)]
pub struct EpochPlan {
    /// Cancel the signal so the siblings drain cooperatively.
    pub cancel_siblings: bool,
    /// Sleep this long before the next epoch, in seconds.
    pub backoff_secs: u64,
    /// Whether the epoch ended in failure (reported, then restarted anyway).
    pub failed: bool,
}

/// The supervisor's policy: whatever ends the epoch, cancel the siblings,
/// back off one second and start the next epoch; only the failure flag of
/// the finished task is carried into the report.
pub open spec fn supervisor_plan_spec(ev: EpochEvent) -> EpochPlan {
    EpochPlan {
        cancel_siblings: true,
        backoff_secs: RESTART_BACKOFF_SECS,
        failed: match ev {
            EpochEvent::ServerEnded { failed } => failed,
            EpochEvent::MonitorEnded { failed } => failed,
            EpochEvent::RestartDue => false,
        },
    }
}

/// Decides how one supervision epoch ends.
pub fn supervisor_decide(ev: EpochEvent) -> (r: EpochPlan)
    ensures
        r == supervisor_plan_spec(ev),
{
    let failed = match ev {
        EpochEvent::ServerEnded { failed } => failed,
        EpochEvent::MonitorEnded { failed } => failed,
        EpochEvent::RestartDue => false,
    };
    EpochPlan { cancel_siblings: true, backoff_secs: RESTART_BACKOFF_SECS, failed }
}

/// Cancellation termination: on the cancellation signal, the server loop
/// and the monitor decide to exit at their next wake-up; the prefetcher's
/// sweep reports exit in the same way (see `prefetch_round`).
pub proof fn lemma_cancellation_termination(st: MonitorState)
    ensures
        server_step_spec(ServerEvent::Cancelled) == ServerDecision::Exit,
        monitor_step_spec(st, MonitorEvent::Cancelled).1 == MonitorDecision::ExitClean,
{
}

} // verus!
