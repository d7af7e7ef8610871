//! Checkpoint Gaia raw syslog lines, such as
//! `Sep 3 15:12:20 192.168.99.1 Checkpoint: drop 192.168.11.7 proto: tcp; service: 22; s_port: 1352`.
//!
//! A line is read at the first `Checkpoint:` marker that is followed by blanks, an
//! action word, blanks and an address made of digits and dots, and then, further on
//! the same line, by `service:`, optional blanks and a port number.
use vstd::prelude::*;
use crate::ip::{ipv4_of, parse_ipv4};
use crate::parser::{wall_clock_millis, LogEntry, LogParser, Reading};
use crate::text::{
    chars_of, has_at, lower_all, lower_equals, matches_at, port_of, parse_port, push_str, run_end,
    scan_run, CharClass, lemma_run_end_bounds,
};

verus! {

/// Parser for Checkpoint Gaia raw logs.
#[derive(Clone, Copy)]
pub struct GaiaParser;

pub open spec fn gaia_marker() -> Seq<char> {
    "Checkpoint:"@
}

pub open spec fn service_key() -> Seq<char> {
    "service:"@
}

/// A `service:` label at `q`, followed by optional blanks and at least one digit.
pub open spec fn service_at(s: Seq<char>, q: int) -> bool {
    let d0 = run_end(s, q + service_key().len(), CharClass::Space);
    has_at(s, q, service_key()) && run_end(s, d0, CharClass::Digit) > d0
}

/// First `service:` label at or after `q` that carries a port, before the line ends.
pub open spec fn service_from(s: Seq<char>, q: int) -> Option<int>
    decreases s.len() - q,
{
    if q < 0 || q >= s.len() {
        None
    } else if service_at(s, q) {
        Some(q)
    } else if s[q] == '\n' {
        None
    } else {
        service_from(s, q + 1)
    }
}

/// Bounds of the action, the address and the port when the pattern matches at `p`.
pub open spec fn gaia_fields_at(s: Seq<char>, p: int) -> Option<(int, int, int, int, int, int)> {
    let a0 = run_end(s, p + gaia_marker().len(), CharClass::Space);
    let a1 = run_end(s, a0, CharClass::Word);
    let i0 = run_end(s, a1, CharClass::Space);
    let i1 = run_end(s, i0, CharClass::Address);
    if !has_at(s, p, gaia_marker()) || a0 == p + gaia_marker().len() || a1 == a0 || i0 == a1
        || i1 == i0 {
        None
    } else {
        match service_from(s, i1) {
            None => None,
            Some(q) => {
                let d0 = run_end(s, q + service_key().len(), CharClass::Space);
                Some((a0, a1, i0, i1, d0, run_end(s, d0, CharClass::Digit)))
            },
        }
    }
}

/// The first match of the pattern at or after `p`.
pub open spec fn gaia_scan(s: Seq<char>, p: int) -> Option<(int, int, int, int, int, int)>
    decreases s.len() + 1 - p,
{
    if p < 0 || p > s.len() {
        None
    } else if gaia_fields_at(s, p) is Some {
        gaia_fields_at(s, p)
    } else {
        gaia_scan(s, p + 1)
    }
}

/// What a Gaia line says: the first match must carry the action `drop` (in any
/// case), a valid address and a valid port.
pub open spec fn gaia_reading(s: Seq<char>) -> Option<Reading> {
    match gaia_scan(s, 0) {
        None => None,
        Some((a0, a1, i0, i1, d0, d1)) => {
            if lower_all(s.subrange(a0, a1)) != "drop"@ {
                None
            } else {
                match (ipv4_of(s.subrange(i0, i1)), port_of(s.subrange(d0, d1))) {
                    (Some(ip), Some(port)) => Some((ip, port, "drop"@)),
                    _ => None,
                }
            }
        },
    }
}

fn find_service(s: &Vec<char>, from: usize, key: &Vec<char>) -> (r: Option<usize>)
    requires
        from <= s@.len(),
        key@ == service_key(),
    ensures
        r matches Some(q) ==> service_from(s@, from as int) == Some(q as int) && q < s@.len(),
        r is None ==> service_from(s@, from as int) is None,
{
    let n = s.len();
    let mut q = from;
    while q < n
        invariant
            n == s@.len(),
            from <= q <= n,
            key@ == service_key(),
            service_from(s@, q as int) == service_from(s@, from as int),
        decreases n - q,
    {
        if matches_at(s, q, key) {
            proof {
                lemma_run_end_bounds(s@, q + key@.len(), CharClass::Space);
            }
            let d0 = scan_run(s, q + key.len(), CharClass::Space);
            if scan_run(s, d0, CharClass::Digit) > d0 {
                return Some(q);
            }
        }
        if s[q] == '\n' {
            return None;
        }
        q = q + 1;
    }
    None
}

fn fields_at(s: &Vec<char>, p: usize, marker: &Vec<char>, key: &Vec<char>) -> (r: Option<
    (usize, usize, usize, usize, usize, usize),
>)
    requires
        p <= s@.len(),
        marker@ == gaia_marker(),
        key@ == service_key(),
    ensures
        r matches Some((a0, a1, i0, i1, d0, d1)) ==> gaia_fields_at(s@, p as int) == Some(
            (a0 as int, a1 as int, i0 as int, i1 as int, d0 as int, d1 as int),
        ) && a0 <= a1 <= i0 <= i1 <= d0 <= d1 <= s@.len(),
        r is None ==> gaia_fields_at(s@, p as int) is None,
{
    let n = s.len();
    if !matches_at(s, p, marker) {
        return None;
    }
    let a0 = scan_run(s, p + marker.len(), CharClass::Space);
    let a1 = scan_run(s, a0, CharClass::Word);
    let i0 = scan_run(s, a1, CharClass::Space);
    let i1 = scan_run(s, i0, CharClass::Address);
    if a0 == p + marker.len() || a1 == a0 || i0 == a1 || i1 == i0 {
        return None;
    }
    match find_service(s, i1, key) {
        None => None,
        Some(q) => {
            proof {
                lemma_service_bounds(s@, i1 as int, q as int);
            }
            let d0 = scan_run(s, q + key.len(), CharClass::Space);
            let d1 = scan_run(s, d0, CharClass::Digit);
            Some((a0, a1, i0, i1, d0, d1))
        },
    }
}

proof fn lemma_service_bounds(s: Seq<char>, from: int, q: int)
    requires
        0 <= from,
        service_from(s, from) == Some(q),
    ensures
        from <= q < s.len(),
        service_at(s, q),
        q + service_key().len() <= s.len(),
    decreases s.len() - from,
{
    if from < s.len() && !service_at(s, from) && s[from] != '\n' {
        lemma_service_bounds(s, from + 1, q);
    }
}

impl GaiaParser {
    pub fn new() -> (r: GaiaParser) {
        GaiaParser
    }

    /// Reads the address and port of the first pattern match in `s`; none when there
    /// is no match, or its action, address or port is not acceptable.
    fn read_chars(&self, s: &Vec<char>) -> (r: Option<(crate::ip::IpAddress, u16)>)
        ensures
            match (r, gaia_reading(s@)) {
                (None, None) => true,
                (Some((ip, port)), Some((ip2, port2, _))) => ip == ip2 && port == port2,
                _ => false,
            },
    {
        let marker = chars_of("Checkpoint:");
        let key = chars_of("service:");
        let drop = chars_of("drop");
        let n = s.len();
        let mut p: usize = 0;
        while p < n
            invariant
                p <= n,
                n == s@.len(),
                marker@ == gaia_marker(),
                key@ == service_key(),
                drop@ == "drop"@,
                gaia_scan(s@, p as int) == gaia_scan(s@, 0),
            decreases n + 1 - p,
        {
            match fields_at(s, p, &marker, &key) {
                Some((a0, a1, i0, i1, d0, d1)) => {
                    if !lower_equals(s, a0, a1, &drop) {
                        return None;
                    }
                    let ip = parse_ipv4(s, i0, i1);
                    let port = parse_port(s, d0, d1);
                    return match (ip, port) {
                        (Some(ip), Some(port)) => Some((ip, port)),
                        _ => None,
                    };
                },
                None => {},
            }
            p = p + 1;
        }
        proof {
            reveal_strlit("Checkpoint:");
            assert(!has_at(s@, n as int, gaia_marker()));
            assert(gaia_fields_at(s@, n as int) is None);
            assert(gaia_scan(s@, n + 1) is None);
            assert(gaia_scan(s@, n as int) is None);
        }
        None
    }
}

impl LogParser for GaiaParser {
    open spec fn reading(&self, line: Seq<char>) -> Option<Reading> {
        gaia_reading(line)
    }

    fn parse_at(&self, line: &str, timestamp: i64) -> (r: Option<LogEntry>) {
        let s = chars_of(line);
        match self.read_chars(&s) {
            None => None,
            Some((ip, port)) => {
                let mut action = String::new();
                push_str(&mut action, "drop");
                Some(LogEntry { source_ip: ip, dest_port: port, action, timestamp })
            },
        }
    }

    fn parse(&self, line: &str) -> (r: Option<LogEntry>) {
        let now = wall_clock_millis();
        self.parse_at(line, now)
    }

    open spec fn format_name(&self) -> Seq<char> {
        "Checkpoint Gaia Raw"@
    }

    fn name(&self) -> (r: &'static str) {
        "Checkpoint Gaia Raw"
    }
}

} // verus!
