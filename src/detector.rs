//! Classification of an address's recent activity as a fast scan, a slow scan,
//! both, or neither.
use vstd::prelude::*;
use crate::config::DetectionConfig;
use crate::ip::{ip_key, IpAddress};
use crate::state::{history_of, window_ports, ScanEvent, SharedState};

verus! {

/// The outcome of evaluating one address.
#[derive(Clone, Copy, Debug, PartialEq, Eq, Structural)]
pub enum DetectionResult {
    /// No threshold exceeded.
    Clean,
    /// More distinct ports than the fast threshold within the fast window.
    FastScan { ports: usize, window_secs: u64 },
    /// More distinct ports than the slow threshold within the slow window.
    SlowScan { ports: usize, window_mins: u64 },
    /// Both thresholds exceeded.
    BothScans { fast_ports: usize, slow_ports: usize },
}

/// The classification of two port counts: a threshold is exceeded only by a count
/// strictly above it.
pub open spec fn classification(fast: usize, slow: usize, c: DetectionConfig) -> DetectionResult {
    let is_fast = fast > c.fast_scan_ports;
    let is_slow = slow > c.slow_scan_ports;
    if is_fast && is_slow {
        DetectionResult::BothScans { fast_ports: fast, slow_ports: slow }
    } else if is_fast {
        DetectionResult::FastScan { ports: fast, window_secs: c.fast_scan_window_secs }
    } else if is_slow {
        DetectionResult::SlowScan { ports: slow, window_mins: c.slow_scan_window_mins }
    } else {
        DetectionResult::Clean
    }
}

/// Distinct ports of `ip` within `window_secs` seconds before `now`.
pub open spec fn port_count(
    h: Map<u32, Seq<ScanEvent>>,
    ip: IpAddress,
    window_secs: u64,
    now: u64,
) -> usize {
    window_ports(history_of(h, ip_key(ip)), window_secs, now).len() as usize
}

/// The classification of `ip`, given the store's histories `h`, at `now`.
pub open spec fn evaluation(
    h: Map<u32, Seq<ScanEvent>>,
    ip: IpAddress,
    c: DetectionConfig,
    now: u64,
) -> DetectionResult {
    classification(
        port_count(h, ip, c.fast_scan_window_secs, now),
        port_count(h, ip, (c.slow_scan_window_mins * 60) as u64, now),
        c,
    )
}

/// Classifies a fast-window count and a slow-window count.
pub fn classify(fast_ports: usize, slow_ports: usize, config: &DetectionConfig) -> (r: DetectionResult)
    ensures
        r == classification(fast_ports, slow_ports, *config),
{
    let is_fast = fast_ports > config.fast_scan_ports;
    let is_slow = slow_ports > config.slow_scan_ports;
    if is_fast && is_slow {
        DetectionResult::BothScans { fast_ports, slow_ports }
    } else if is_fast {
        DetectionResult::FastScan { ports: fast_ports, window_secs: config.fast_scan_window_secs }
    } else if is_slow {
        DetectionResult::SlowScan { ports: slow_ports, window_mins: config.slow_scan_window_mins }
    } else {
        DetectionResult::Clean
    }
}

/// Evaluates `ip` against both thresholds, with the store's contents at `now`.
pub fn evaluate_at(ip: &IpAddress, state: &SharedState, config: &DetectionConfig, now: u64) -> (r:
    DetectionResult)
    requires
        config.valid(),
    ensures
        r == evaluation(state.histories(), *ip, *config, now),
{
    let fast_ports = state.unique_ports_in_window_at(ip, config.fast_scan_window_secs, now);
    let slow_window_secs = config.slow_window_secs();
    let slow_ports = state.unique_ports_in_window_at(ip, slow_window_secs, now);
    classify(fast_ports, slow_ports, config)
}

/// Evaluates `ip` against both thresholds, with the store's contents now.
pub fn evaluate(ip: &IpAddress, state: &SharedState, config: &DetectionConfig) -> (r: DetectionResult)
    requires
        config.valid(),
    ensures
        exists|t: u64| r == evaluation(state.histories(), *ip, *config, t),
{
    let now = state.now();
    evaluate_at(ip, state, config, now)
}

/// Every pair of counts falls in exactly one class, fixed by the counts and the
/// thresholds; a count equal to its threshold is no detection.
pub proof fn lemma_classification(fast: usize, slow: usize, c: DetectionConfig)
    ensures
        classification(fast, slow, c) is Clean <==> fast <= c.fast_scan_ports && slow
            <= c.slow_scan_ports,
        classification(fast, slow, c) is FastScan <==> fast > c.fast_scan_ports && slow
            <= c.slow_scan_ports,
        classification(fast, slow, c) is SlowScan <==> fast <= c.fast_scan_ports && slow
            > c.slow_scan_ports,
        classification(fast, slow, c) is BothScans <==> fast > c.fast_scan_ports && slow
            > c.slow_scan_ports,
        fast == c.fast_scan_ports ==> !(classification(fast, slow, c) is FastScan)
            && !(classification(fast, slow, c) is BothScans),
        slow == c.slow_scan_ports ==> !(classification(fast, slow, c) is SlowScan)
            && !(classification(fast, slow, c) is BothScans),
{
}

impl DetectionResult {
    /// A scan of either kind was detected.
    pub fn is_threat(&self) -> (r: bool)
        ensures
            r == !(*self is Clean),
    {
        !matches!(self, DetectionResult::Clean)
    }

    /// The kind of scan, for logs: `CLEAN`, `FAST_SCAN`, `SLOW_SCAN` or `FAST+SLOW_SCAN`.
    pub fn scan_type_label(&self) -> (r: &'static str)
        ensures
            r@ == scan_label(*self),
    {
        proof {
            reveal_strlit("CLEAN");
            reveal_strlit("FAST_SCAN");
            reveal_strlit("SLOW_SCAN");
            reveal_strlit("FAST+SLOW_SCAN");
        }
        match self {
            DetectionResult::Clean => "CLEAN",
            DetectionResult::FastScan { .. } => "FAST_SCAN",
            DetectionResult::SlowScan { .. } => "SLOW_SCAN",
            DetectionResult::BothScans { .. } => "FAST+SLOW_SCAN",
        }
    }
}

pub open spec fn scan_label(r: DetectionResult) -> Seq<char> {
    match r {
        DetectionResult::Clean => "CLEAN"@,
        DetectionResult::FastScan { .. } => "FAST_SCAN"@,
        DetectionResult::SlowScan { .. } => "SLOW_SCAN"@,
        DetectionResult::BothScans { .. } => "FAST+SLOW_SCAN"@,
    }
}

} // verus!
