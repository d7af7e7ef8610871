//! The text of outbound alerts: the CEF record sent to the SIEM, and the subject
//! and body of the alert e-mail. Sending them is left to the program around the
//! library.
use vstd::prelude::*;
use crate::detector::{scan_label, DetectionResult};
use crate::ip::{dotted, IpAddress};
use crate::parser::wall_clock_millis;
use crate::text::{decimal, push_decimal, push_str};

verus! {

/// An alert to dispatch: the source address and what was detected.
#[derive(Clone, Copy, Debug)]
pub struct AlertPayload {
    pub ip: IpAddress,
    pub result: DetectionResult,
}

/// The signature id, name, severity and extension of the CEF record for a detection.
pub open spec fn alert_fields(ip: IpAddress, r: DetectionResult) -> (
    Seq<char>,
    Seq<char>,
    nat,
    Seq<char>,
) {
    match r {
        DetectionResult::FastScan { ports, window_secs } => (
            "IDS001"@,
            "Fast Port Scan Detected"@,
            8,
            "src="@ + dotted(ip) + " cs1Label=ScanType cs1=FastScan cs2Label=UniquePorts cs2="@
                + decimal(ports as nat) + " cs3Label=WindowSecs cs3="@ + decimal(
                window_secs as nat,
            ),
        ),
        DetectionResult::SlowScan { ports, window_mins } => (
            "IDS002"@,
            "Slow Port Scan Detected"@,
            6,
            "src="@ + dotted(ip) + " cs1Label=ScanType cs1=SlowScan cs2Label=UniquePorts cs2="@
                + decimal(ports as nat) + " cs3Label=WindowMins cs3="@ + decimal(
                window_mins as nat,
            ),
        ),
        DetectionResult::BothScans { fast_ports, slow_ports } => (
            "IDS003"@,
            "Combined Fast+Slow Port Scan Detected"@,
            9,
            "src="@ + dotted(ip)
                + " cs1Label=ScanType cs1=FastAndSlowScan cs2Label=FastPorts cs2="@ + decimal(
                fast_ports as nat,
            ) + " cs3Label=SlowPorts cs3="@ + decimal(slow_ports as nat),
        ),
        DetectionResult::Clean => (Seq::empty(), Seq::empty(), 0, Seq::empty()),
    }
}

/// The CEF record for a detection, after a syslog timestamp and host name.
pub open spec fn alert_text(stamp: Seq<char>, ip: IpAddress, r: DetectionResult) -> Seq<char> {
    let (sig, name, severity, extension) = alert_fields(ip, r);
    stamp + " rust-ids CEF:0|RustIDS|NetworkScanner|0.1.0|"@ + sig + "|"@ + name + "|"@ + decimal(
        severity,
    ) + "|"@ + extension
}

/// The syslog timestamp (`%b %d %H:%M:%S`, UTC) of a time given in milliseconds since
/// the Unix epoch; none when the time is outside the calendar's range.
pub uninterp spec fn syslog_stamp_of(unix_millis: int) -> Option<Seq<char>>;

/// The e-mail timestamp (`%Y-%m-%d %H:%M:%S UTC`) of a time given in milliseconds
/// since the Unix epoch; none when the time is outside the calendar's range.
pub uninterp spec fn email_stamp_of(unix_millis: int) -> Option<Seq<char>>;

/// Relies on chrono's `DateTime::from_timestamp_millis` and its `%b %d %H:%M:%S`
/// formatting: the text depends on the time alone.
#[verifier::external_body]
fn format_syslog_stamp(unix_millis: i64) -> (r: Option<String>)
    ensures
        match r {
            Some(t) => syslog_stamp_of(unix_millis as int) == Some(t@),
            None => syslog_stamp_of(unix_millis as int) is None,
        },
{
    match chrono::DateTime::from_timestamp_millis(unix_millis) {
        Some(t) => Some(t.format("%b %d %H:%M:%S").to_string()),
        None => None,
    }
}

/// Relies on chrono's `DateTime::from_timestamp_millis` and its
/// `%Y-%m-%d %H:%M:%S UTC` formatting: the text depends on the time alone.
#[verifier::external_body]
fn format_email_stamp(unix_millis: i64) -> (r: Option<String>)
    ensures
        match r {
            Some(t) => email_stamp_of(unix_millis as int) == Some(t@),
            None => email_stamp_of(unix_millis as int) is None,
        },
{
    match chrono::DateTime::from_timestamp_millis(unix_millis) {
        Some(t) => Some(t.format("%Y-%m-%d %H:%M:%S UTC").to_string()),
        None => None,
    }
}

/// Builds the CEF record for a detection, after the syslog timestamp `stamp`.
pub fn build_alert_message(stamp: &str, payload: &AlertPayload) -> (r: String)
    requires
        !(payload.result is Clean),
    ensures
        r@ == alert_text(stamp@, payload.ip, payload.result),
{
    let mut ext = String::new();
    push_str(&mut ext, "src=");
    let ip_text = payload.ip.to_dotted();
    push_str(&mut ext, ip_text.as_str());
    let severity: u128;
    let mut out = String::new();
    push_str(&mut out, stamp);
    push_str(&mut out, " rust-ids CEF:0|RustIDS|NetworkScanner|0.1.0|");
    match payload.result {
        DetectionResult::FastScan { ports, window_secs } => {
            push_str(&mut ext, " cs1Label=ScanType cs1=FastScan cs2Label=UniquePorts cs2=");
            push_decimal(&mut ext, ports as u128);
            push_str(&mut ext, " cs3Label=WindowSecs cs3=");
            push_decimal(&mut ext, window_secs as u128);
            push_str(&mut out, "IDS001");
            push_str(&mut out, "|");
            push_str(&mut out, "Fast Port Scan Detected");
            severity = 8;
        },
        DetectionResult::SlowScan { ports, window_mins } => {
            push_str(&mut ext, " cs1Label=ScanType cs1=SlowScan cs2Label=UniquePorts cs2=");
            push_decimal(&mut ext, ports as u128);
            push_str(&mut ext, " cs3Label=WindowMins cs3=");
            push_decimal(&mut ext, window_mins as u128);
            push_str(&mut out, "IDS002");
            push_str(&mut out, "|");
            push_str(&mut out, "Slow Port Scan Detected");
            severity = 6;
        },
        DetectionResult::BothScans { fast_ports, slow_ports } => {
            push_str(&mut ext, " cs1Label=ScanType cs1=FastAndSlowScan cs2Label=FastPorts cs2=");
            push_decimal(&mut ext, fast_ports as u128);
            push_str(&mut ext, " cs3Label=SlowPorts cs3=");
            push_decimal(&mut ext, slow_ports as u128);
            push_str(&mut out, "IDS003");
            push_str(&mut out, "|");
            push_str(&mut out, "Combined Fast+Slow Port Scan Detected");
            severity = 9;
        },
        DetectionResult::Clean => {
            severity = 0;
        },
    }
    push_str(&mut out, "|");
    push_decimal(&mut out, severity);
    push_str(&mut out, "|");
    push_str(&mut out, ext.as_str());
    let ghost (sig, name, sev, extension) = alert_fields(payload.ip, payload.result);
    assert(ext@ =~= extension);
    assert(out@ =~= alert_text(stamp@, payload.ip, payload.result));
    out
}

/// The CEF record for a detection, stamped with the time `unix_millis`; none when
/// that time cannot be written as a date.
pub fn alert_message_at(payload: &AlertPayload, unix_millis: i64) -> (r: Option<String>)
    requires
        !(payload.result is Clean),
    ensures
        match syslog_stamp_of(unix_millis as int) {
            Some(stamp) => r matches Some(m) && m@ == alert_text(stamp, payload.ip, payload.result),
            None => r is None,
        },
{
    match format_syslog_stamp(unix_millis) {
        Some(stamp) => Some(build_alert_message(stamp.as_str(), payload)),
        None => None,
    }
}

/// The CEF record for a detection, stamped with the current time.
pub fn alert_message(payload: &AlertPayload) -> (r: Option<String>)
    requires
        !(payload.result is Clean),
    ensures
        exists|t: i64|
            match #[trigger] syslog_stamp_of(t as int) {
                Some(stamp) => r matches Some(m) && m@ == alert_text(
                    stamp,
                    payload.ip,
                    payload.result,
                ),
                None => r is None,
            },
{
    let now = wall_clock_millis();
    alert_message_at(payload, now)
}

/// The subject of the alert e-mail.
pub open spec fn email_subject_text(payload: AlertPayload) -> Seq<char> {
    "[IDS ALERT] "@ + scan_label(payload.result) + " detectat de la "@ + dotted(payload.ip)
}

/// The body of the alert e-mail: when, from where, what, and the CEF record.
pub open spec fn email_body_text(stamp: Seq<char>, payload: AlertPayload, message: Seq<char>) -> Seq<
    char,
> {
    "RUST IDS ALERT\n========================\nTimestamp:  "@ + stamp + "\nIP Sursă:   "@ + dotted(
        payload.ip,
    ) + "\nTip Scan:   "@ + scan_label(payload.result) + "\n\nMesaj CEF:\n"@ + message
        + "\n\nAcțiune recomandată: Investigați imediat IP-ul sursă."@
}

/// Builds the subject of the alert e-mail.
pub fn email_subject(payload: &AlertPayload) -> (r: String)
    ensures
        r@ == email_subject_text(*payload),
{
    let mut out = String::new();
    push_str(&mut out, "[IDS ALERT] ");
    push_str(&mut out, payload.result.scan_type_label());
    push_str(&mut out, " detectat de la ");
    let ip_text = payload.ip.to_dotted();
    push_str(&mut out, ip_text.as_str());
    out
}

/// Builds the body of the alert e-mail, with the timestamp `stamp`.
pub fn build_email_body(stamp: &str, payload: &AlertPayload, message: &str) -> (r: String)
    ensures
        r@ == email_body_text(stamp@, *payload, message@),
{
    let mut out = String::new();
    push_str(&mut out, "RUST IDS ALERT\n========================\nTimestamp:  ");
    push_str(&mut out, stamp);
    push_str(&mut out, "\nIP Sursă:   ");
    let ip_text = payload.ip.to_dotted();
    push_str(&mut out, ip_text.as_str());
    push_str(&mut out, "\nTip Scan:   ");
    push_str(&mut out, payload.result.scan_type_label());
    push_str(&mut out, "\n\nMesaj CEF:\n");
    push_str(&mut out, message);
    push_str(&mut out, "\n\nAcțiune recomandată: Investigați imediat IP-ul sursă.");
    out
}

/// The body of the alert e-mail, stamped with the time `unix_millis`; none when that
/// time cannot be written as a date.
pub fn email_body_at(payload: &AlertPayload, message: &str, unix_millis: i64) -> (r: Option<
    String,
>)
    ensures
        match email_stamp_of(unix_millis as int) {
            Some(stamp) => r matches Some(b) && b@ == email_body_text(stamp, *payload, message@),
            None => r is None,
        },
{
    match format_email_stamp(unix_millis) {
        Some(stamp) => Some(build_email_body(stamp.as_str(), payload, message)),
        None => None,
    }
}

/// The body of the alert e-mail, stamped with the current time.
pub fn email_body(payload: &AlertPayload, message: &str) -> (r: Option<String>)
    ensures
        exists|t: i64|
            match #[trigger] email_stamp_of(t as int) {
                Some(stamp) => r matches Some(b) && b@ == email_body_text(
                    stamp,
                    *payload,
                    message@,
                ),
                None => r is None,
            },
{
    let now = wall_clock_millis();
    email_body_at(payload, message, now)
}

} // verus!
