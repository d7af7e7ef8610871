//! The windowed state store: for each source address, the ports it was seen
//! probing and when; and for each source address, when it was last alerted on.
//!
//! Times are monotonic nanoseconds counted from the store's creation. Each
//! operation comes in two forms: one that reads the store's clock, and one (`_at`)
//! that takes the time as an argument.
//!
//! Operations that change the store take `&mut self`. Tasks that share a store
//! lock it; splitting addresses over several independently locked stores keeps
//! work on different addresses from waiting on one lock.
use vstd::prelude::*;
use dashmap::DashMap;
use std::collections::HashSet;
use std::time::{Duration, Instant};
use crate::ip::{ip_key, IpAddress};

verus! {

broadcast use vstd::std_specs::hash::group_hash_axioms;

#[verifier::external_type_specification]
#[verifier::external_body]
#[verifier::reject_recursive_types(K)]
#[verifier::reject_recursive_types(V)]
#[verifier::reject_recursive_types(S)]
pub struct ExDashMap<K, V, S>(DashMap<K, V, S>);

#[verifier::external_type_specification]
#[verifier::external_body]
pub struct ExInstant(Instant);

/// Relies on `Instant::now`; nothing is assumed of the instant it returns.
pub assume_specification[ Instant::now ]() -> Instant;

/// Relies on `Instant::elapsed`; nothing is assumed of the duration it returns.
pub assume_specification[ Instant::elapsed ](i: &Instant) -> Duration;

/// Relies on `Duration::as_nanos`; nothing is assumed of the count it returns.
pub assume_specification[ Duration::as_nanos ](d: &Duration) -> u128;

/// One observation: a port that an address was seen probing, and when.
#[derive(Clone, Copy, Debug, PartialEq, Eq, Structural)]
pub struct ScanEvent {
    pub port: u16,
    /// Monotonic nanoseconds since the store was created.
    pub seen_at: u64,
}

/// What the history map holds: each key's observations in the order recorded.
pub uninterp spec fn histories_of(m: DashMap<u32, Vec<ScanEvent>>) -> Map<u32, Seq<ScanEvent>>;

/// What the cooldown map holds: each key's time of last alert.
pub uninterp spec fn alert_times_of(m: DashMap<u32, u64>) -> Map<u32, u64>;

/// Relies on `DashMap::new`: a new map is empty.
#[verifier::external_body]
fn new_history_map() -> (r: DashMap<u32, Vec<ScanEvent>>)
    ensures
        histories_of(r).is_empty(),
        histories_of(r).dom().finite(),
{
    DashMap::new()
}

/// Relies on `DashMap::new`: a new map is empty.
#[verifier::external_body]
fn new_alert_map() -> (r: DashMap<u32, u64>)
    ensures
        alert_times_of(r).is_empty(),
        alert_times_of(r).dom().finite(),
{
    DashMap::new()
}

/// Relies on `DashMap::remove`: takes the value under `k` out of the map, if any.
#[verifier::external_body]
fn take_history(m: &mut DashMap<u32, Vec<ScanEvent>>, k: u32) -> (r: Option<Vec<ScanEvent>>)
    ensures
        histories_of(*final(m)) == histories_of(*old(m)).remove(k),
        match r {
            Some(v) => histories_of(*old(m)).contains_key(k) && v@ == histories_of(*old(m))[k],
            None => !histories_of(*old(m)).contains_key(k),
        },
{
    m.remove(&k).map(|(_, v)| v)
}

/// Relies on `DashMap::insert`: stores `v` under `k`, replacing what was there.
#[verifier::external_body]
fn put_history(m: &mut DashMap<u32, Vec<ScanEvent>>, k: u32, v: Vec<ScanEvent>)
    ensures
        histories_of(*final(m)) == histories_of(*old(m)).insert(k, v@),
{
    m.insert(k, v);
}

/// Relies on `DashMap::view`: runs the count on the value under `k`, if any.
#[verifier::external_body]
fn count_window_ports(m: &DashMap<u32, Vec<ScanEvent>>, k: u32, window_secs: u64, now: u64) -> (r:
    Option<usize>)
    ensures
        match r {
            Some(c) => histories_of(*m).contains_key(k) && c == window_ports(
                histories_of(*m)[k],
                window_secs,
                now,
            ).len(),
            None => !histories_of(*m).contains_key(k),
        },
{
    m.view(&k, |_, events| history_window_count(events, window_secs, now))
}

/// Relies on `DashMap::retain`: keeps exactly the entries for which the test holds.
#[verifier::external_body]
fn retain_fresh_histories(m: &mut DashMap<u32, Vec<ScanEvent>>, max_age_secs: u64, now: u64)
    ensures
        histories_of(*final(m)) == fresh_histories(histories_of(*old(m)), max_age_secs, now),
{
    m.retain(|_, events| history_is_fresh(events, max_age_secs, now))
}

/// Relies on `DashMap::len`: the number of entries.
#[verifier::external_body]
fn history_count(m: &DashMap<u32, Vec<ScanEvent>>) -> (r: usize)
    ensures
        r == histories_of(*m).dom().len(),
{
    m.len()
}

/// Relies on `DashMap::get`: the value under `k`, if any.
#[verifier::external_body]
fn alert_time(m: &DashMap<u32, u64>, k: u32) -> (r: Option<u64>)
    ensures
        r == (if alert_times_of(*m).contains_key(k) {
            Some(alert_times_of(*m)[k])
        } else {
            None
        }),
{
    m.get(&k).map(|t| *t)
}

/// Relies on `DashMap::insert`: stores `t` under `k`, replacing what was there.
#[verifier::external_body]
fn set_alert_time(m: &mut DashMap<u32, u64>, k: u32, t: u64)
    ensures
        alert_times_of(*final(m)) == alert_times_of(*old(m)).insert(k, t),
{
    m.insert(k, t);
}

/// Relies on `DashMap::retain`: keeps exactly the entries for which the test holds.
#[verifier::external_body]
fn retain_live_alerts(m: &mut DashMap<u32, u64>, max_age_secs: u64, now: u64)
    ensures
        alert_times_of(*final(m)) == live_alerts(alert_times_of(*old(m)), max_age_secs, now),
{
    m.retain(|_, t| alert_is_live(*t, max_age_secs, now))
}

/// The store shared by the ingestion tasks.
pub struct SharedState {
    scan_map: DashMap<u32, Vec<ScanEvent>>,
    alert_cooldown: DashMap<u32, u64>,
    origin: Instant,
}

impl SharedState {
    /// Observations per address key, in the order recorded.
    pub closed spec fn histories(&self) -> Map<u32, Seq<ScanEvent>> {
        histories_of(self.scan_map)
    }

    /// Time of the last alert per address key.
    pub closed spec fn alerts(&self) -> Map<u32, u64> {
        alert_times_of(self.alert_cooldown)
    }

    /// Both maps are finite, and every history holds at least one observation.
    pub open spec fn wf(&self) -> bool {
        &&& self.histories().dom().finite()
        &&& self.alerts().dom().finite()
        &&& forall|k: u32| #[trigger]
            self.histories().contains_key(k) ==> self.histories()[k].len() > 0
    }

    /// An empty store, whose clock starts now.
    pub fn new() -> (r: SharedState)
        ensures
            r.wf(),
            r.histories().is_empty(),
            r.alerts().is_empty(),
    {
        SharedState {
            scan_map: new_history_map(),
            alert_cooldown: new_alert_map(),
            origin: Instant::now(),
        }
    }

    /// The store's clock: nanoseconds since creation, saturating at `u64::MAX`.
    pub fn now(&self) -> u64 {
        let n = self.origin.elapsed().as_nanos();
        if n > u64::MAX as u128 {
            u64::MAX
        } else {
            n as u64
        }
    }

    /// Appends an observation of `port`, made at `now`, to the history of `ip`.
    pub fn record_event_at(&mut self, ip: IpAddress, port: u16, now: u64)
        requires
            old(self).wf(),
        ensures
            final(self).wf(),
            final(self).histories() == old(self).histories().insert(
                ip_key(ip),
                history_of(old(self).histories(), ip_key(ip)).push(ScanEvent { port, seen_at: now }),
            ),
            final(self).alerts() == old(self).alerts(),
    {
        let k = ip.key();
        let mut events = match take_history(&mut self.scan_map, k) {
            Some(v) => v,
            None => Vec::new(),
        };
        events.push(ScanEvent { port, seen_at: now });
        put_history(&mut self.scan_map, k, events);
        assert(self.histories() =~= old(self).histories().insert(
            k,
            history_of(old(self).histories(), k).push(ScanEvent { port, seen_at: now }),
        ));
    }

    /// Appends an observation of `port`, made now, to the history of `ip`.
    pub fn record_event(&mut self, ip: IpAddress, port: u16)
        requires
            old(self).wf(),
        ensures
            final(self).wf(),
            exists|t: u64|
                final(self).histories() == old(self).histories().insert(
                    ip_key(ip),
                    history_of(old(self).histories(), ip_key(ip)).push(
                        ScanEvent { port, seen_at: t },
                    ),
                ),
            final(self).alerts() == old(self).alerts(),
    {
        let now = self.now();
        self.record_event_at(ip, port, now);
    }

    /// The number of distinct ports that `ip` was seen on within the last
    /// `window_secs` seconds before `now`; zero for an unknown address.
    pub fn unique_ports_in_window_at(&self, ip: &IpAddress, window_secs: u64, now: u64) -> (r:
        usize)
        ensures
            r == window_ports(history_of(self.histories(), ip_key(*ip)), window_secs, now).len(),
    {
        match count_window_ports(&self.scan_map, ip.key(), window_secs, now) {
            Some(c) => c,
            None => {
                assert(window_ports(Seq::empty(), window_secs, now) =~= Set::empty());
                0
            },
        }
    }

    /// The number of distinct ports that `ip` was seen on within the last
    /// `window_secs` seconds; zero for an unknown address.
    pub fn unique_ports_in_window(&self, ip: &IpAddress, window_secs: u64) -> (r: usize)
        ensures
            exists|t: u64|
                r == window_ports(history_of(self.histories(), ip_key(*ip)), window_secs, t).len(),
    {
        let now = self.now();
        self.unique_ports_in_window_at(ip, window_secs, now)
    }

    /// `ip` was alerted on less than `cooldown_secs` seconds before `now`.
    pub fn is_in_cooldown_at(&self, ip: &IpAddress, cooldown_secs: u64, now: u64) -> (r: bool)
        ensures
            r == in_cooldown(self.alerts(), ip_key(*ip), cooldown_secs, now),
    {
        match alert_time(&self.alert_cooldown, ip.key()) {
            None => false,
            Some(t) => age_below(now, t, cooldown_secs),
        }
    }

    /// `ip` was alerted on less than `cooldown_secs` seconds ago.
    pub fn is_in_cooldown(&self, ip: &IpAddress, cooldown_secs: u64) -> (r: bool)
        ensures
            exists|t: u64| r == in_cooldown(self.alerts(), ip_key(*ip), cooldown_secs, t),
    {
        let now = self.now();
        self.is_in_cooldown_at(ip, cooldown_secs, now)
    }

    /// Notes that `ip` was alerted on at `now`, replacing any earlier time.
    pub fn mark_alerted_at(&mut self, ip: IpAddress, now: u64)
        requires
            old(self).wf(),
        ensures
            final(self).wf(),
            final(self).alerts() == old(self).alerts().insert(ip_key(ip), now),
            final(self).histories() == old(self).histories(),
    {
        set_alert_time(&mut self.alert_cooldown, ip.key(), now);
    }

    /// Notes that `ip` was alerted on now, replacing any earlier time.
    pub fn mark_alerted(&mut self, ip: IpAddress)
        requires
            old(self).wf(),
        ensures
            final(self).wf(),
            exists|t: u64| final(self).alerts() == old(self).alerts().insert(ip_key(ip), t),
            final(self).histories() == old(self).histories(),
    {
        let now = self.now();
        self.mark_alerted_at(ip, now);
    }

    /// Evicts, as of `now`, every history with no observation within `max_age_secs`
    /// seconds, and every alert time at least that old. Returns the number of
    /// histories evicted.
    pub fn cleanup_old_entries_at(&mut self, max_age_secs: u64, now: u64) -> (r: usize)
        requires
            old(self).wf(),
        ensures
            final(self).wf(),
            final(self).histories() == fresh_histories(old(self).histories(), max_age_secs, now),
            final(self).alerts() == live_alerts(old(self).alerts(), max_age_secs, now),
            r + final(self).histories().dom().len() == old(self).histories().dom().len(),
    {
        let before = history_count(&self.scan_map);
        retain_fresh_histories(&mut self.scan_map, max_age_secs, now);
        retain_live_alerts(&mut self.alert_cooldown, max_age_secs, now);
        let after = history_count(&self.scan_map);
        proof {
            let h0 = old(self).histories();
            let a0 = old(self).alerts();
            assert(self.histories().dom() =~= h0.dom().filter(
                |k: u32| is_fresh(h0[k], max_age_secs, now),
            ));
            assert(self.alerts().dom() =~= a0.dom().filter(
                |k: u32| age(now, a0[k]) < nanos(max_age_secs),
            ));
            vstd::set_lib::lemma_len_subset(self.histories().dom(), h0.dom());
        }
        before - after
    }

    /// Evicts every history with no observation within `max_age_secs` seconds, and
    /// every alert time at least that old. Returns the number of histories evicted.
    pub fn cleanup_old_entries(&mut self, max_age_secs: u64) -> (r: usize)
        requires
            old(self).wf(),
        ensures
            final(self).wf(),
            exists|t: u64|
                final(self).histories() == fresh_histories(old(self).histories(), max_age_secs, t)
                    && final(self).alerts() == live_alerts(old(self).alerts(), max_age_secs, t),
            r + final(self).histories().dom().len() == old(self).histories().dom().len(),
    {
        let now = self.now();
        self.cleanup_old_entries_at(max_age_secs, now)
    }
}

impl Default for SharedState {
    fn default() -> (r: SharedState)
        ensures
            r.wf(),
            r.histories().is_empty(),
            r.alerts().is_empty(),
    {
        SharedState::new()
    }
}

/// Time elapsed from `t` to `now`; zero when `t` is later than `now`.
pub open spec fn age(now: u64, t: u64) -> int {
    if now >= t {
        now - t
    } else {
        0
    }
}

pub open spec fn nanos(secs: u64) -> int {
    secs as int * 1_000_000_000
}

/// The distinct ports among the observations whose age is at most the window.
pub open spec fn window_ports(h: Seq<ScanEvent>, window_secs: u64, now: u64) -> Set<u16> {
    Set::new(
        |p: u16|
            exists|i: int|
                0 <= i < h.len() && #[trigger] h[i].port == p && age(now, h[i].seen_at) <= nanos(
                    window_secs,
                ),
    )
}

/// At least one observation is no older than the horizon.
pub open spec fn is_fresh(h: Seq<ScanEvent>, max_age_secs: u64, now: u64) -> bool {
    exists|i: int| 0 <= i < h.len() && age(now, #[trigger] h[i].seen_at) <= nanos(max_age_secs)
}

/// The histories that a cleanup keeps.
pub open spec fn fresh_histories(m: Map<u32, Seq<ScanEvent>>, max_age_secs: u64, now: u64) -> Map<
    u32,
    Seq<ScanEvent>,
> {
    m.restrict(m.dom().filter(|k: u32| is_fresh(m[k], max_age_secs, now)))
}

/// The alert times that a cleanup keeps: those younger than the horizon.
pub open spec fn live_alerts(m: Map<u32, u64>, max_age_secs: u64, now: u64) -> Map<u32, u64> {
    m.restrict(m.dom().filter(|k: u32| age(now, m[k]) < nanos(max_age_secs)))
}

/// The observations held for `k`; none when there is no entry.
pub open spec fn history_of(m: Map<u32, Seq<ScanEvent>>, k: u32) -> Seq<ScanEvent> {
    if m.contains_key(k) {
        m[k]
    } else {
        Seq::empty()
    }
}

/// `k` was alerted on less than `cooldown_secs` before `now`.
pub open spec fn in_cooldown(m: Map<u32, u64>, k: u32, cooldown_secs: u64, now: u64) -> bool {
    m.contains_key(k) && age(now, m[k]) < nanos(cooldown_secs)
}

/// The age of `t` at `now` is at most `secs` seconds.
pub fn age_within(now: u64, t: u64, secs: u64) -> (r: bool)
    ensures
        r == (age(now, t) <= nanos(secs)),
{
    let a: u64 = if now >= t {
        now - t
    } else {
        0
    };
    (a as u128) <= (secs as u128) * 1_000_000_000
}

/// The age of `t` at `now` is less than `secs` seconds.
pub fn age_below(now: u64, t: u64, secs: u64) -> (r: bool)
    ensures
        r == (age(now, t) < nanos(secs)),
{
    let a: u64 = if now >= t {
        now - t
    } else {
        0
    };
    (a as u128) < (secs as u128) * 1_000_000_000
}

/// Counts the distinct ports among the observations no older than the window.
pub fn history_window_count(events: &Vec<ScanEvent>, window_secs: u64, now: u64) -> (r: usize)
    ensures
        r == window_ports(events@, window_secs, now).len(),
{
    let mut seen: HashSet<u16> = HashSet::new();
    let n = events.len();
    let mut i: usize = 0;
    while i < n
        invariant
            n == events@.len(),
            i <= n,
            seen@ == window_ports(events@.take(i as int), window_secs, now),
            seen@.finite(),
        decreases n - i,
    {
        let e = events[i];
        let ghost before = events@.take(i as int);
        let ghost after = events@.take(i + 1);
        assert(after == before.push(e));
        proof {
            lemma_window_ports_push(before, e, window_secs, now);
        }
        if age_within(now, e.seen_at, window_secs) {
            seen.insert(e.port);
        }
        i = i + 1;
    }
    assert(events@.take(n as int) =~= events@);
    seen.len()
}

/// Some observation is no older than the horizon.
pub fn history_is_fresh(events: &Vec<ScanEvent>, max_age_secs: u64, now: u64) -> (r: bool)
    ensures
        r == is_fresh(events@, max_age_secs, now),
{
    let n = events.len();
    let mut i: usize = 0;
    while i < n
        invariant
            n == events@.len(),
            i <= n,
            forall|j: int| 0 <= j < i ==> age(now, #[trigger] events@[j].seen_at) > nanos(max_age_secs),
        decreases n - i,
    {
        if age_within(now, events[i].seen_at, max_age_secs) {
            return true;
        }
        i = i + 1;
    }
    false
}

/// An alert time is younger than the horizon.
pub fn alert_is_live(t: u64, max_age_secs: u64, now: u64) -> (r: bool)
    ensures
        r == (age(now, t) < nanos(max_age_secs)),
{
    age_below(now, t, max_age_secs)
}

/// Recording one more observation adds its port to the window exactly when the
/// observation lies in the window.
pub proof fn lemma_window_ports_push(h: Seq<ScanEvent>, e: ScanEvent, window_secs: u64, now: u64)
    ensures
        window_ports(h.push(e), window_secs, now) == (if age(now, e.seen_at) <= nanos(
            window_secs,
        ) {
            window_ports(h, window_secs, now).insert(e.port)
        } else {
            window_ports(h, window_secs, now)
        }),
{
    let g = h.push(e);
    let lhs = window_ports(g, window_secs, now);
    let old_set = window_ports(h, window_secs, now);
    assert forall|p: u16| old_set.contains(p) implies lhs.contains(p) by {
        let i = choose|i: int|
            0 <= i < h.len() && #[trigger] h[i].port == p && age(now, h[i].seen_at) <= nanos(
                window_secs,
            );
        assert(g[i] == h[i]);
    }
    assert forall|p: u16| lhs.contains(p) && p != e.port implies old_set.contains(p) by {
        let i = choose|i: int|
            0 <= i < g.len() && #[trigger] g[i].port == p && age(now, g[i].seen_at) <= nanos(
                window_secs,
            );
        assert(i < h.len());
        assert(g[i] == h[i]);
    }
    if age(now, e.seen_at) <= nanos(window_secs) {
        assert(g[h.len() as int] == e);
        assert(lhs.contains(e.port));
        assert(lhs =~= old_set.insert(e.port));
    } else {
        assert forall|p: u16| lhs.contains(p) implies old_set.contains(p) by {
            let i = choose|i: int|
                0 <= i < g.len() && #[trigger] g[i].port == p && age(now, g[i].seen_at) <= nanos(
                    window_secs,
                );
            assert(i < h.len());
            assert(g[i] == h[i]);
        }
        assert(lhs =~= old_set);
    }
}

/// Recording an observation for one address changes only that address's window:
/// its port joins the window when the observation lies in it, and a port already
/// in the window is not counted again.
pub proof fn lemma_record_window(
    before: Map<u32, Seq<ScanEvent>>,
    k: u32,
    e: ScanEvent,
    other: u32,
    window_secs: u64,
    now: u64,
)
    ensures
        ({
            let after = before.insert(k, history_of(before, k).push(e));
            let old_ports = window_ports(history_of(before, k), window_secs, now);
            &&& window_ports(history_of(after, k), window_secs, now) == (if age(now, e.seen_at)
                <= nanos(window_secs) {
                old_ports.insert(e.port)
            } else {
                old_ports
            })
            &&& old_ports.contains(e.port) ==> window_ports(history_of(after, k), window_secs, now)
                == old_ports
            &&& other != k ==> history_of(after, other) == history_of(before, other)
        }),
{
    let after = before.insert(k, history_of(before, k).push(e));
    lemma_window_ports_push(history_of(before, k), e, window_secs, now);
    let old_ports = window_ports(history_of(before, k), window_secs, now);
    if old_ports.contains(e.port) {
        assert(old_ports.insert(e.port) =~= old_ports);
    }
}

/// As time advances with nothing recorded, the window only loses ports: an
/// observation that has left the window never comes back into it.
pub proof fn lemma_window_expiry(h: Seq<ScanEvent>, window_secs: u64, now1: u64, now2: u64)
    requires
        now1 <= now2,
    ensures
        window_ports(h, window_secs, now2).subset_of(window_ports(h, window_secs, now1)),
        forall|i: int|
            0 <= i < h.len() && age(now1, #[trigger] h[i].seen_at) > nanos(window_secs) ==> age(
                now2,
                h[i].seen_at,
            ) > nanos(window_secs),
{
    assert forall|p: u16| window_ports(h, window_secs, now2).contains(p) implies window_ports(
        h,
        window_secs,
        now1,
    ).contains(p) by {
        let i = choose|i: int|
            0 <= i < h.len() && #[trigger] h[i].port == p && age(now2, h[i].seen_at) <= nanos(
                window_secs,
            );
        assert(age(now1, h[i].seen_at) <= age(now2, h[i].seen_at));
    }
}

/// Right after an alert is noted at `now`, the address is in cooldown for any
/// positive duration, and it leaves cooldown once that duration has elapsed.
pub proof fn lemma_cooldown_after_mark(
    alerts: Map<u32, u64>,
    k: u32,
    now: u64,
    cooldown_secs: u64,
    later: u64,
)
    requires
        cooldown_secs > 0,
    ensures
        in_cooldown(alerts.insert(k, now), k, cooldown_secs, now),
        later >= now && later - now >= nanos(cooldown_secs) ==> !in_cooldown(
            alerts.insert(k, now),
            k,
            cooldown_secs,
            later,
        ),
{
}

/// The time of the most recent observation of a non-empty history.
pub open spec fn latest_seen(h: Seq<ScanEvent>) -> u64
    decreases h.len(),
{
    if h.len() <= 1 {
        h[0].seen_at
    } else if latest_seen(h.drop_last()) >= h.last().seen_at {
        latest_seen(h.drop_last())
    } else {
        h.last().seen_at
    }
}

proof fn lemma_latest_seen(h: Seq<ScanEvent>)
    requires
        h.len() > 0,
    ensures
        exists|i: int| 0 <= i < h.len() && #[trigger] h[i].seen_at == latest_seen(h),
        forall|i: int| 0 <= i < h.len() ==> #[trigger] h[i].seen_at <= latest_seen(h),
    decreases h.len(),
{
    if h.len() > 1 {
        let g = h.drop_last();
        lemma_latest_seen(g);
        assert forall|i: int| 0 <= i < h.len() implies #[trigger] h[i].seen_at <= latest_seen(h) by {
            if i < g.len() {
                assert(h[i] == g[i]);
            }
        }
        if latest_seen(g) >= h.last().seen_at {
            let j = choose|j: int| 0 <= j < g.len() && #[trigger] g[j].seen_at == latest_seen(g);
            assert(h[j] == g[j]);
            assert(h[j].seen_at == latest_seen(h));
        } else {
            assert(h[h.len() - 1].seen_at == latest_seen(h));
        }
    } else {
        assert(h[0].seen_at == latest_seen(h));
    }
}

/// A cleanup evicts an address exactly when its most recent observation is older
/// than the horizon; older observations beside a recent one do not matter.
pub proof fn lemma_eviction_rule(m: Map<u32, Seq<ScanEvent>>, k: u32, max_age_secs: u64, now: u64)
    requires
        m.contains_key(k),
        m[k].len() > 0,
    ensures
        fresh_histories(m, max_age_secs, now).contains_key(k) <==> age(now, latest_seen(m[k]))
            <= nanos(max_age_secs),
{
    let h = m[k];
    lemma_latest_seen(h);
    if age(now, latest_seen(h)) <= nanos(max_age_secs) {
        let i = choose|i: int| 0 <= i < h.len() && #[trigger] h[i].seen_at == latest_seen(h);
        assert(is_fresh(h, max_age_secs, now));
    }
    if is_fresh(h, max_age_secs, now) {
        let i = choose|i: int|
            0 <= i < h.len() && age(now, #[trigger] h[i].seen_at) <= nanos(max_age_secs);
        assert(h[i].seen_at <= latest_seen(h));
    }
}

/// The histories left by recording `calls` (address key and observation) in order,
/// starting from an empty store.
pub open spec fn replay(calls: Seq<(u32, ScanEvent)>) -> Map<u32, Seq<ScanEvent>>
    decreases calls.len(),
{
    if calls.len() == 0 {
        Map::empty()
    } else {
        let m = replay(calls.drop_last());
        let (k, e) = calls.last();
        m.insert(k, history_of(m, k).push(e))
    }
}

/// The distinct ports among the calls for `k` whose age at `now` is at most the window.
pub open spec fn called_ports(calls: Seq<(u32, ScanEvent)>, k: u32, window_secs: u64, now: u64) -> Set<
    u16,
> {
    Set::new(
        |p: u16|
            exists|i: int|
                0 <= i < calls.len() && calls[i].0 == k && #[trigger] calls[i].1.port == p && age(
                    now,
                    calls[i].1.seen_at,
                ) <= nanos(window_secs),
    )
}

/// After any sequence of recordings, the window of an address holds exactly the
/// distinct ports of its recordings that lie in the window: repeated ports count
/// once, and other addresses' recordings do not count.
pub proof fn lemma_replay_window(calls: Seq<(u32, ScanEvent)>, k: u32, window_secs: u64, now: u64)
    ensures
        window_ports(history_of(replay(calls), k), window_secs, now) == called_ports(
            calls,
            k,
            window_secs,
            now,
        ),
    decreases calls.len(),
{
    if calls.len() == 0 {
        assert(window_ports(history_of(replay(calls), k), window_secs, now) =~= Set::empty());
        assert(called_ports(calls, k, window_secs, now) =~= Set::empty());
    } else {
        let prev = calls.drop_last();
        lemma_replay_window(prev, k, window_secs, now);
        let m = replay(prev);
        let (k2, e) = calls.last();
        let before = called_ports(prev, k, window_secs, now);
        let after = called_ports(calls, k, window_secs, now);
        let last = calls.len() - 1;
        assert(calls[last] == (k2, e));
        assert forall|p: u16| before.contains(p) implies after.contains(p) by {
            let i = choose|i: int|
                0 <= i < prev.len() && prev[i].0 == k && #[trigger] prev[i].1.port == p && age(
                    now,
                    prev[i].1.seen_at,
                ) <= nanos(window_secs);
            assert(calls[i] == prev[i]);
        }
        assert forall|p: u16| after.contains(p) && !before.contains(p) implies (k2 == k && p
            == e.port && age(now, e.seen_at) <= nanos(window_secs)) by {
            let i = choose|i: int|
                0 <= i < calls.len() && calls[i].0 == k && #[trigger] calls[i].1.port == p && age(
                    now,
                    calls[i].1.seen_at,
                ) <= nanos(window_secs);
            if i < prev.len() {
                assert(calls[i] == prev[i]);
            }
        }
        if k2 == k {
            lemma_window_ports_push(history_of(m, k), e, window_secs, now);
            if age(now, e.seen_at) <= nanos(window_secs) {
                assert(after.contains(e.port));
                assert(after =~= before.insert(e.port));
            } else {
                assert(after =~= before);
            }
        } else {
            assert(history_of(replay(calls), k) == history_of(m, k));
            assert(after =~= before);
        }
    }
}

} // verus!
