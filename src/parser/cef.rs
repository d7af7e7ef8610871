//! ArcSight Common Event Format lines, such as
//! `Nov 20 15:30:00 fw CEF:0|Vendor|Prod|1.0|sig|Name|5|src=10.0.0.5 dpt=80 act=Drop`.
//!
//! Whatever precedes the first `CEF:` marker is a syslog prefix and is skipped. From the
//! marker on, the payload must hold at least seven `|` separators (seven header fields and
//! the extension). The `src=`, `dpt=` and `act=` keys are looked up by name, each at its
//! first occurrence in the line, as vendors leave keys out or reorder them.
use vstd::prelude::*;
use crate::ip::{ipv4_of, parse_ipv4, IpAddress};
use crate::parser::{wall_clock_millis, LogEntry, LogParser, Reading};
use crate::text::{
    chars_of, count_char, count_from, find_from, find_keyed_run, find_literal, keyed_run,
    lemma_find_from, lower_all, lower_equals, parse_port, port_of, push_str, CharClass,
};
use vstd::string::StrSliceExecFns;

verus! {

/// Parser for ArcSight CEF logs, with or without a syslog prefix.
#[derive(Clone, Copy)]
pub struct CefParser;

pub open spec fn cef_marker() -> Seq<char> {
    "CEF:"@
}

/// The action a line states, in lower case, or `unknown` when it states none.
pub open spec fn cef_action(s: Seq<char>) -> Seq<char> {
    match keyed_run(s, "act="@, CharClass::Word) {
        Some((a0, a1)) => lower_all(s.subrange(a0, a1)),
        None => "unknown"@,
    }
}

/// What a CEF line says: a marker, seven separators after it, a valid `src=`
/// address, a valid `dpt=` port, and the action `drop` or `deny` (in any case).
pub open spec fn cef_reading(s: Seq<char>) -> Option<Reading> {
    match find_from(s, cef_marker(), 0) {
        None => None,
        Some(m) => {
            if count_char(s.subrange(m, s.len() as int), '|') < 7 {
                None
            } else {
                match (
                    keyed_run(s, "src="@, CharClass::Address),
                    keyed_run(s, "dpt="@, CharClass::Digit),
                ) {
                    (Some((i0, i1)), Some((d0, d1))) => {
                        match (ipv4_of(s.subrange(i0, i1)), port_of(s.subrange(d0, d1))) {
                            (Some(ip), Some(port)) => {
                                if cef_action(s) == "drop"@ || cef_action(s) == "deny"@ {
                                    Some((ip, port, cef_action(s)))
                                } else {
                                    None
                                }
                            },
                            _ => None,
                        }
                    },
                    _ => None,
                }
            }
        },
    }
}

impl CefParser {
    pub fn new() -> (r: CefParser) {
        CefParser
    }

    /// The line holds a `CEF:` marker somewhere.
    pub fn is_cef(line: &str) -> (r: bool)
        ensures
            r == find_from(line@, cef_marker(), 0) is Some,
    {
        let s = chars_of(line);
        let marker = chars_of("CEF:");
        find_literal(&s, &marker, 0).is_some()
    }

    /// The part of the line from its first `CEF:` marker on.
    pub fn extract_cef_portion(line: &str) -> (r: Option<&str>)
        ensures
            match find_from(line@, cef_marker(), 0) {
                None => r is None,
                Some(m) => r matches Some(p) && p@ == line@.subrange(m, line@.len() as int),
            },
    {
        let s = chars_of(line);
        let marker = chars_of("CEF:");
        match find_literal(&s, &marker, 0) {
            None => None,
            Some(m) => {
                proof {
                    lemma_find_from(s@, marker@, 0);
                }
                let n = line.unicode_len();
                Some(line.substring_char(m, n))
            },
        }
    }

    /// The payload holds at least the seven separators of a CEF header.
    pub fn validate_header(cef_portion: &str) -> (r: bool)
        ensures
            r == (count_char(cef_portion@, '|') >= 7),
    {
        let s = chars_of(cef_portion);
        let pipes = count_from(&s, 0, '|');
        assert(s@.subrange(0, s@.len() as int) =~= s@);
        pipes >= 7
    }
}

impl LogParser for CefParser {
    open spec fn reading(&self, line: Seq<char>) -> Option<Reading> {
        cef_reading(line)
    }

    fn parse_at(&self, line: &str, timestamp: i64) -> (r: Option<LogEntry>) {
        if !Self::is_cef(line) {
            return None;
        }
        let portion = match Self::extract_cef_portion(line) {
            Some(p) => p,
            None => {
                return None;
            },
        };
        if !Self::validate_header(portion) {
            return None;
        }
        let s = chars_of(line);
        let src_key = chars_of("src=");
        let dpt_key = chars_of("dpt=");
        let act_key = chars_of("act=");
        let source_ip: IpAddress = match find_keyed_run(&s, &src_key, CharClass::Address) {
            Some((i0, i1)) => match parse_ipv4(&s, i0, i1) {
                Some(ip) => ip,
                None => {
                    return None;
                },
            },
            None => {
                return None;
            },
        };
        let dest_port: u16 = match find_keyed_run(&s, &dpt_key, CharClass::Digit) {
            Some((d0, d1)) => match parse_port(&s, d0, d1) {
                Some(port) => port,
                None => {
                    return None;
                },
            },
            None => {
                return None;
            },
        };
        let drop = chars_of("drop");
        let deny = chars_of("deny");
        let mut action = String::new();
        match find_keyed_run(&s, &act_key, CharClass::Word) {
            Some((a0, a1)) => {
                if lower_equals(&s, a0, a1, &drop) {
                    push_str(&mut action, "drop");
                } else if lower_equals(&s, a0, a1, &deny) {
                    push_str(&mut action, "deny");
                } else {
                    return None;
                }
            },
            None => {
                proof {
                    reveal_strlit("unknown");
                    reveal_strlit("drop");
                    reveal_strlit("deny");
                    assert("unknown"@.len() != "drop"@.len());
                    assert("unknown"@.len() != "deny"@.len());
                }
                return None;
            },
        }
        Some(LogEntry { source_ip, dest_port, action, timestamp })
    }

    fn parse(&self, line: &str) -> (r: Option<LogEntry>) {
        let now = wall_clock_millis();
        self.parse_at(line, now)
    }

    open spec fn format_name(&self) -> Seq<char> {
        "ArcSight CEF"@
    }

    fn name(&self) -> (r: &'static str) {
        "ArcSight CEF"
    }
}

} // verus!
