//! The settings the service runs with. Reading them from a file is left to the
//! program around the library.
use vstd::prelude::*;
use crate::text::{decimal, push_decimal, push_str};

verus! {

/// All settings.
#[derive(Clone, Debug)]
pub struct Config {
    pub listener: ListenerConfig,
    pub detection: DetectionConfig,
    pub siem: SiemConfig,
    pub email: EmailConfig,
}

/// Where log lines arrive, and in which format.
#[derive(Clone, Debug)]
pub struct ListenerConfig {
    /// Address to listen on, such as `0.0.0.0`.
    pub bind_address: String,
    /// UDP port that firewall logs arrive on.
    pub port: u16,
    /// Log format: `gaia` or `cef`.
    pub parser: String,
}

/// Thresholds and time windows of detection.
#[derive(Clone, Copy, Debug)]
pub struct DetectionConfig {
    /// A fast scan is more than this many distinct ports within the fast window.
    pub fast_scan_ports: usize,
    /// Length of the fast window, in seconds.
    pub fast_scan_window_secs: u64,
    /// A slow scan is more than this many distinct ports within the slow window.
    pub slow_scan_ports: usize,
    /// Length of the slow window, in minutes.
    pub slow_scan_window_mins: u64,
    /// Seconds between two cleanups of the store.
    pub cleanup_interval_secs: u64,
    /// Least number of seconds between two alerts on one address.
    pub alert_cooldown_secs: u64,
}

/// The SIEM that receives alerts over UDP.
#[derive(Clone, Debug)]
pub struct SiemConfig {
    pub address: String,
    pub port: u16,
}

/// The mail relay that alert e-mails go through.
#[derive(Clone, Debug)]
pub struct EmailConfig {
    pub smtp_server: String,
    pub smtp_port: u16,
    pub username: String,
    pub password: String,
    pub from: String,
    pub to: String,
    /// When false, no e-mail is sent.
    pub enabled: bool,
}

/// `host:port`.
pub open spec fn host_port(host: Seq<char>, port: u16) -> Seq<char> {
    host + seq![':'] + decimal(port as nat)
}

impl DetectionConfig {
    /// The slow window in seconds fits in a `u64`.
    pub open spec fn valid(&self) -> bool {
        self.slow_scan_window_mins <= u64::MAX / 60
    }

    /// Length of the slow window, in seconds.
    pub fn slow_window_secs(&self) -> (r: u64)
        requires
            self.valid(),
        ensures
            r == self.slow_scan_window_mins * 60,
    {
        self.slow_scan_window_mins * 60
    }
}

fn join_host_port(host: &String, port: u16) -> (r: String)
    ensures
        r@ == host_port(host@, port),
{
    let mut out = host.clone();
    push_str(&mut out, ":");
    push_decimal(&mut out, port as u128);
    proof {
        reveal_strlit(":");
    }
    out
}

impl Config {
    /// The address the listener binds, as `host:port`.
    pub fn listener_addr(&self) -> (r: String)
        ensures
            r@ == host_port(self.listener.bind_address@, self.listener.port),
    {
        join_host_port(&self.listener.bind_address, self.listener.port)
    }

    /// The SIEM's address, as `host:port`.
    pub fn siem_addr(&self) -> (r: String)
        ensures
            r@ == host_port(self.siem.address@, self.siem.port),
    {
        join_host_port(&self.siem.address, self.siem.port)
    }

    /// Length of the slow window, in seconds.
    pub fn slow_scan_window_secs(&self) -> (r: u64)
        requires
            self.detection.valid(),
        ensures
            r == self.detection.slow_scan_window_mins * 60,
    {
        self.detection.slow_window_secs()
    }
}

} // verus!
