//! Firewall log lines of either vendor format, read into one kind of event.
pub mod cef;
pub mod gaia;

use vstd::prelude::*;
use crate::ip::IpAddress;
use crate::parser::cef::{cef_reading, CefParser};
use crate::parser::gaia::{gaia_reading, GaiaParser};
use crate::text::{chars_of, lower_all, lower_equals};

verus! {

/// A drop event read from a log line.
pub struct LogEntry {
    /// Address the dropped packet came from.
    pub source_ip: IpAddress,
    /// Destination port of the dropped packet.
    pub dest_port: u16,
    /// The firewall's action, in lower case: `drop` or `deny`.
    pub action: String,
    /// When the line was read: milliseconds since the Unix epoch, UTC.
    pub timestamp: i64,
}

/// What a line says: source address, destination port and action.
pub type Reading = (IpAddress, u16, Seq<char>);

/// `r` is the event that `reading` describes, or absent exactly when `reading` is.
pub open spec fn entry_agrees(r: Option<LogEntry>, reading: Option<Reading>) -> bool {
    match (r, reading) {
        (None, None) => true,
        (Some(e), Some((ip, port, action))) => e.source_ip == ip && e.dest_port == port
            && e.action@ == action,
        _ => false,
    }
}

/// Reads one log line of a vendor format into a drop event.
pub trait LogParser {
    /// What this parser reads from a line, if the line is a drop event it accepts.
    spec fn reading(&self, line: Seq<char>) -> Option<Reading>;

    /// Reads `line`, stamping the event with `timestamp`.
    fn parse_at(&self, line: &str, timestamp: i64) -> (r: Option<LogEntry>)
        ensures
            entry_agrees(r, self.reading(line@)),
            r matches Some(e) ==> e.timestamp == timestamp,
    ;

    /// Reads `line`, stamping the event with the current time.
    fn parse(&self, line: &str) -> (r: Option<LogEntry>)
        ensures
            entry_agrees(r, self.reading(line@)),
    ;

    /// The name of the format.
    spec fn format_name(&self) -> Seq<char>;

    /// Name of the format, for logs.
    fn name(&self) -> (r: &'static str)
        ensures
            r@ == self.format_name(),
    ;
}

/// The parser chosen once at startup.
#[derive(Clone, Copy)]
pub enum Parser {
    Gaia(GaiaParser),
    Cef(CefParser),
}

impl LogParser for Parser {
    open spec fn reading(&self, line: Seq<char>) -> Option<Reading> {
        match self {
            Parser::Gaia(_) => gaia_reading(line),
            Parser::Cef(_) => cef_reading(line),
        }
    }

    open spec fn format_name(&self) -> Seq<char> {
        match self {
            Parser::Gaia(p) => p.format_name(),
            Parser::Cef(p) => p.format_name(),
        }
    }

    fn parse_at(&self, line: &str, timestamp: i64) -> (r: Option<LogEntry>) {
        match self {
            Parser::Gaia(p) => p.parse_at(line, timestamp),
            Parser::Cef(p) => p.parse_at(line, timestamp),
        }
    }

    fn parse(&self, line: &str) -> (r: Option<LogEntry>) {
        match self {
            Parser::Gaia(p) => p.parse(line),
            Parser::Cef(p) => p.parse(line),
        }
    }

    fn name(&self) -> (r: &'static str) {
        match self {
            Parser::Gaia(p) => p.name(),
            Parser::Cef(p) => p.name(),
        }
    }
}

/// The parser that a configured format name selects, in any letter case:
/// `gaia` or `cef`.
pub open spec fn parser_named(name: Seq<char>) -> Option<bool> {
    if lower_all(name) == "gaia"@ {
        Some(false)
    } else if lower_all(name) == "cef"@ {
        Some(true)
    } else {
        None
    }
}

/// Looks up the parser for a format name; `None` when the name is neither
/// `gaia` nor `cef` (in any letter case).
pub fn lookup_parser(name: &str) -> (r: Option<Parser>)
    ensures
        match parser_named(name@) {
            None => r is None,
            Some(is_cef) => r matches Some(p) && (p is Cef <==> is_cef),
        },
{
    let s = chars_of(name);
    let gaia = chars_of("gaia");
    let cef = chars_of("cef");
    assert(s@.subrange(0, s@.len() as int) =~= s@);
    if lower_equals(&s, 0, s.len(), &gaia) {
        Some(Parser::Gaia(GaiaParser::new()))
    } else if lower_equals(&s, 0, s.len(), &cef) {
        Some(Parser::Cef(CefParser::new()))
    } else {
        None
    }
}

/// The parser for a format name; an unknown name falls back to the Gaia parser.
pub fn create_parser(parser_type: &str) -> (r: Parser)
    ensures
        r is Cef <==> parser_named(parser_type@) == Some(true),
        r.format_name() == (if parser_named(parser_type@) == Some(true) {
            "ArcSight CEF"@
        } else {
            "Checkpoint Gaia Raw"@
        }),
{
    match lookup_parser(parser_type) {
        Some(p) => p,
        None => Parser::Gaia(GaiaParser::new()),
    }
}

/// Relies on chrono's `Utc::now`: the wall-clock time, as milliseconds since the
/// Unix epoch.
#[verifier::external_body]
pub(crate) fn wall_clock_millis() -> i64 {
    chrono::Utc::now().timestamp_millis()
}

} // verus!
