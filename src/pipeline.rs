//! The decision taken for each log line: read it, record it, evaluate its source,
//! and decide whether an alert goes out. Receiving datagrams and sending alerts
//! are left to the program around the library, which acts on the decision.
use vstd::prelude::*;
use crate::config::DetectionConfig;
use crate::detector::{evaluate_at, evaluation, DetectionResult};
use crate::ip::{ip_key, IpAddress};
use crate::parser::{LogEntry, LogParser, Parser, Reading};
use crate::state::{age, history_of, in_cooldown, nanos, ScanEvent, SharedState};
use crate::text::chars_of;
use vstd::string::StrSliceExecFns;

verus! {

/// What was made of one line that held a drop event.
pub struct LineDecision {
    /// The event read from the line.
    pub entry: LogEntry,
    /// The classification of the event's source, with the event recorded.
    pub detection: DetectionResult,
    /// An alert is to be dispatched: a scan was detected and the source was not in
    /// cooldown. The store already notes the alert.
    pub alert: bool,
}

/// How recording a drop event from `ip` to `port` moves the store from (`h0`, `a0`)
/// to (`h1`, `a1`) at time `now`: the event is appended to the history of `ip`, `ip`
/// is classified, and an alert is decided (and noted) when a scan is found outside
/// the cooldown.
pub open spec fn entry_step(
    h0: Map<u32, Seq<ScanEvent>>,
    a0: Map<u32, u64>,
    ip: IpAddress,
    port: u16,
    c: DetectionConfig,
    now: u64,
    d: LineDecision,
    h1: Map<u32, Seq<ScanEvent>>,
    a1: Map<u32, u64>,
) -> bool {
    let k = ip_key(ip);
    let h = h0.insert(k, history_of(h0, k).push(ScanEvent { port, seen_at: now }));
    &&& h1 == h
    &&& d.detection == evaluation(h, ip, c, now)
    &&& d.alert == (!(d.detection is Clean) && !in_cooldown(a0, k, c.alert_cooldown_secs, now))
    &&& a1 == (if d.alert {
        a0.insert(k, now)
    } else {
        a0
    })
}

/// How one line moves the store from (`h0`, `a0`) to (`h1`, `a1`) at time `now`,
/// and what is decided: a line that is no drop event changes nothing; a drop event
/// goes through `entry_step`.
pub open spec fn line_step(
    h0: Map<u32, Seq<ScanEvent>>,
    a0: Map<u32, u64>,
    reading: Option<Reading>,
    c: DetectionConfig,
    now: u64,
    r: Option<LineDecision>,
    h1: Map<u32, Seq<ScanEvent>>,
    a1: Map<u32, u64>,
) -> bool {
    match reading {
        None => r is None && h1 == h0 && a1 == a0,
        Some((ip, port, action)) => match r {
            None => false,
            Some(d) => {
                &&& d.entry.source_ip == ip
                &&& d.entry.dest_port == port
                &&& d.entry.action@ == action
                &&& entry_step(h0, a0, ip, port, c, now, d, h1, a1)
            },
        },
    }
}

/// The lines of a payload: the pieces between newline characters, in order. A
/// payload without a newline is one line; blank pieces read as no event.
pub open spec fn lines_of(s: Seq<char>) -> Seq<Seq<char>>
    decreases s.len(),
{
    if s.len() == 0 {
        seq![Seq::empty()]
    } else {
        let l = lines_of(s.drop_last());
        if s.last() == '\n' {
            l.push(Seq::empty())
        } else {
            l.update(l.len() - 1, l.last().push(s.last()))
        }
    }
}

pub proof fn lemma_lines_of_nonempty(s: Seq<char>)
    ensures
        lines_of(s).len() >= 1,
    decreases s.len(),
{
    if s.len() > 0 {
        lemma_lines_of_nonempty(s.drop_last());
    }
}

/// Splits a payload into its lines, as `lines_of` describes.
pub fn split_lines<'a>(payload: &'a str) -> (r: Vec<&'a str>)
    ensures
        r@.len() == lines_of(payload@).len(),
        forall|j: int| 0 <= j < r@.len() ==> (#[trigger] r@[j])@ == lines_of(payload@)[j],
{
    let s = chars_of(payload);
    let n = s.len();
    let mut out: Vec<&'a str> = Vec::new();
    let mut start: usize = 0;
    let mut i: usize = 0;
    proof {
        assert(s@.take(0) =~= Seq::<char>::empty());
    }
    while i < n
        invariant
            n == s@.len(),
            s@ == payload@,
            start <= i <= n,
            out@.len() + 1 == lines_of(s@.take(i as int)).len(),
            forall|j: int| 0 <= j < out@.len() ==> (#[trigger] out@[j])@ == lines_of(
                s@.take(i as int),
            )[j],
            lines_of(s@.take(i as int)).last() == s@.subrange(start as int, i as int),
        decreases n - i,
    {
        assert(s@.take(i + 1).drop_last() =~= s@.take(i as int));
        assert(s@.take(i + 1).last() == s@[i as int]);
        if s[i] == '\n' {
            let piece = payload.substring_char(start, i);
            out.push(piece);
            start = i + 1;
            assert(s@.subrange(start as int, i + 1) =~= Seq::<char>::empty());
        } else {
            assert(s@.subrange(start as int, i + 1) =~= s@.subrange(start as int, i as int).push(
                s@[i as int],
            ));
        }
        i = i + 1;
        proof {
            lemma_lines_of_nonempty(s@.take(i - 1));
        }
    }
    let last = payload.substring_char(start, n);
    out.push(last);
    assert(s@.take(n as int) =~= s@);
    out
}

/// Records a drop event at time `now`, evaluates its source, and decides whether an
/// alert goes out.
pub fn process_entry_at(
    state: &mut SharedState,
    entry: LogEntry,
    config: &DetectionConfig,
    now: u64,
) -> (d: LineDecision)
    requires
        old(state).wf(),
        config.valid(),
    ensures
        final(state).wf(),
        d.entry == entry,
        entry_step(
            old(state).histories(),
            old(state).alerts(),
            entry.source_ip,
            entry.dest_port,
            *config,
            now,
            d,
            final(state).histories(),
            final(state).alerts(),
        ),
{
    let ip = entry.source_ip;
    state.record_event_at(ip, entry.dest_port, now);
    let detection = evaluate_at(&ip, state, config, now);
    let alert = detection.is_threat() && !state.is_in_cooldown_at(
        &ip,
        config.alert_cooldown_secs,
        now,
    );
    if alert {
        state.mark_alerted_at(ip, now);
    }
    LineDecision { entry, detection, alert }
}

/// Records a drop event at the store's current time, evaluates its source, and
/// decides whether an alert goes out.
pub fn process_entry(state: &mut SharedState, entry: LogEntry, config: &DetectionConfig) -> (d:
    LineDecision)
    requires
        old(state).wf(),
        config.valid(),
    ensures
        final(state).wf(),
        d.entry == entry,
        exists|t: u64|
            entry_step(
                old(state).histories(),
                old(state).alerts(),
                entry.source_ip,
                entry.dest_port,
                *config,
                t,
                d,
                final(state).histories(),
                final(state).alerts(),
            ),
{
    let now = state.now();
    process_entry_at(state, entry, config, now)
}

/// Processes one log line at time `now`.
pub fn process_line_at(
    state: &mut SharedState,
    parser: &Parser,
    config: &DetectionConfig,
    line: &str,
    now: u64,
) -> (r: Option<LineDecision>)
    requires
        old(state).wf(),
        config.valid(),
    ensures
        final(state).wf(),
        line_step(
            old(state).histories(),
            old(state).alerts(),
            parser.reading(line@),
            *config,
            now,
            r,
            final(state).histories(),
            final(state).alerts(),
        ),
{
    match parser.parse(line) {
        Some(entry) => Some(process_entry_at(state, entry, config, now)),
        None => None,
    }
}

/// Processes one log line at the store's current time.
pub fn process_line(
    state: &mut SharedState,
    parser: &Parser,
    config: &DetectionConfig,
    line: &str,
) -> (r: Option<LineDecision>)
    requires
        old(state).wf(),
        config.valid(),
    ensures
        final(state).wf(),
        exists|t: u64|
            line_step(
                old(state).histories(),
                old(state).alerts(),
                parser.reading(line@),
                *config,
                t,
                r,
                final(state).histories(),
                final(state).alerts(),
            ),
{
    let now = state.now();
    process_line_at(state, parser, config, line, now)
}

/// While less than the cooldown has passed since an address was last alerted on, an
/// event from it raises no alert; once the cooldown has passed, an event raises an
/// alert exactly when a scan is detected.
pub proof fn lemma_cooldown_gates_alerts(
    h0: Map<u32, Seq<ScanEvent>>,
    a0: Map<u32, u64>,
    ip: IpAddress,
    port: u16,
    c: DetectionConfig,
    now: u64,
    d: LineDecision,
    h1: Map<u32, Seq<ScanEvent>>,
    a1: Map<u32, u64>,
)
    requires
        entry_step(h0, a0, ip, port, c, now, d, h1, a1),
        a0.contains_key(ip_key(ip)),
    ensures
        age(now, a0[ip_key(ip)]) < nanos(c.alert_cooldown_secs) ==> !d.alert && a1 == a0,
        age(now, a0[ip_key(ip)]) >= nanos(c.alert_cooldown_secs) ==> (d.alert <==> !(
        d.detection is Clean)),
{
}

/// A run of `n` events from one address: step `i` takes the store from
/// (`hs[i]`, `as_[i]`) to (`hs[i + 1]`, `as_[i + 1]`) at time `times[i]`, with
/// times that never go back.
pub open spec fn event_run(
    hs: Seq<Map<u32, Seq<ScanEvent>>>,
    as_: Seq<Map<u32, u64>>,
    ip: IpAddress,
    ports: Seq<u16>,
    c: DetectionConfig,
    times: Seq<u64>,
    ds: Seq<LineDecision>,
) -> bool {
    let n = ds.len();
    &&& hs.len() == n + 1
    &&& as_.len() == n + 1
    &&& ports.len() == n
    &&& times.len() == n
    &&& forall|i: int|
        0 <= i < n ==> #[trigger] entry_step(
            hs[i],
            as_[i],
            ip,
            ports[i],
            c,
            times[i],
            ds[i],
            hs[i + 1],
            as_[i + 1],
        )
    &&& forall|i: int, j: int| 0 <= i <= j < n ==> times[i] <= times[j]
}

proof fn lemma_alert_time_kept(
    hs: Seq<Map<u32, Seq<ScanEvent>>>,
    as_: Seq<Map<u32, u64>>,
    ip: IpAddress,
    ports: Seq<u16>,
    c: DetectionConfig,
    times: Seq<u64>,
    ds: Seq<LineDecision>,
    i: int,
    m: int,
)
    requires
        event_run(hs, as_, ip, ports, c, times, ds),
        0 <= i < m <= ds.len(),
        ds[i].alert,
        forall|j: int| i < j < m ==> !(#[trigger] ds[j]).alert,
    ensures
        as_[m].contains_key(ip_key(ip)) && as_[m][ip_key(ip)] == times[i],
    decreases m - i,
{
    if m > i + 1 {
        lemma_alert_time_kept(hs, as_, ip, ports, c, times, ds, i, m - 1);
        let p = m - 1;
        assert(entry_step(hs[p], as_[p], ip, ports[p], c, times[p], ds[p], hs[p + 1], as_[p + 1]));
        assert(!ds[m - 1].alert);
    } else {
        assert(entry_step(hs[i], as_[i], ip, ports[i], c, times[i], ds[i], hs[i + 1], as_[i + 1]));
    }
}

/// Over a run of events from one address that lasts less than the cooldown, at
/// most one event raises an alert; and when the address is out of cooldown as the
/// run starts, the first event that detects a scan raises it.
pub proof fn lemma_one_alert_per_run(
    hs: Seq<Map<u32, Seq<ScanEvent>>>,
    as_: Seq<Map<u32, u64>>,
    ip: IpAddress,
    ports: Seq<u16>,
    c: DetectionConfig,
    times: Seq<u64>,
    ds: Seq<LineDecision>,
)
    requires
        event_run(hs, as_, ip, ports, c, times, ds),
        ds.len() > 0,
        times[ds.len() - 1] - times[0] < nanos(c.alert_cooldown_secs),
    ensures
        forall|i: int, j: int| 0 <= i < j < ds.len() ==> !((#[trigger] ds[i]).alert && (#[trigger] ds[j]).alert),
        forall|j: int|
            0 <= j < ds.len() && !in_cooldown(as_[0], ip_key(ip), c.alert_cooldown_secs, times[0])
                && !((#[trigger] ds[j]).detection is Clean) && (forall|i: int|
                0 <= i < j ==> (#[trigger] ds[i]).detection is Clean) ==> ds[j].alert,
{
    let n = ds.len() as int;
    let k = ip_key(ip);
    assert forall|i: int, j: int| 0 <= i < j < n implies !((#[trigger] ds[i]).alert && (#[trigger] ds[j]).alert) by {
        if ds[i].alert && ds[j].alert {
            let j1 = choose_first(ds, i, j);
            lemma_alert_time_kept(hs, as_, ip, ports, c, times, ds, i, j1);
            assert(entry_step(hs[j1], as_[j1], ip, ports[j1], c, times[j1], ds[j1], hs[j1 + 1], as_[j1 + 1]));
            assert(times[i] <= times[j1]);
            assert(times[0] <= times[i]);
            assert(times[j1] <= times[n - 1]);
            assert(in_cooldown(as_[j1], k, c.alert_cooldown_secs, times[j1]));
        }
    }
    assert forall|j: int|
        0 <= j < n && !in_cooldown(as_[0], k, c.alert_cooldown_secs, times[0])
            && !((#[trigger] ds[j]).detection is Clean) && (forall|i: int|
            0 <= i < j ==> (#[trigger] ds[i]).detection is Clean) implies ds[j].alert by {
        lemma_no_alert_keeps(hs, as_, ip, ports, c, times, ds, j);
        assert(entry_step(hs[j], as_[j], ip, ports[j], c, times[j], ds[j], hs[j + 1], as_[j + 1]));
        assert(times[0] <= times[j]);
    }
}

/// The first index after `i`, up to `j`, whose event raised an alert.
proof fn choose_first(ds: Seq<LineDecision>, i: int, j: int) -> (f: int)
    requires
        i < j < ds.len(),
        ds[j].alert,
    ensures
        i < f <= j,
        ds[f].alert,
        forall|x: int| i < x < f ==> !(#[trigger] ds[x]).alert,
    decreases j - i,
{
    if ds[i + 1].alert || i + 1 == j {
        i + 1
    } else {
        choose_first(ds, i + 1, j)
    }
}

proof fn lemma_no_alert_keeps(
    hs: Seq<Map<u32, Seq<ScanEvent>>>,
    as_: Seq<Map<u32, u64>>,
    ip: IpAddress,
    ports: Seq<u16>,
    c: DetectionConfig,
    times: Seq<u64>,
    ds: Seq<LineDecision>,
    j: int,
)
    requires
        event_run(hs, as_, ip, ports, c, times, ds),
        0 <= j < ds.len(),
        forall|i: int| 0 <= i < j ==> (#[trigger] ds[i]).detection is Clean,
    ensures
        as_[j] == as_[0],
    decreases j,
{
    if j > 0 {
        lemma_no_alert_keeps(hs, as_, ip, ports, c, times, ds, j - 1);
        let p = j - 1;
        assert(entry_step(hs[p], as_[p], ip, ports[p], c, times[p], ds[p], hs[p + 1], as_[p + 1]));
        assert(ds[j - 1].detection is Clean);
    }
}

} // verus!
