//! Detection of port scans in firewall drop logs.
//!
//! Log lines of two vendor formats are read into drop events (`parser`), each
//! event is appended to its source address's history in a windowed store
//! (`state`), the address is classified as a fast scan, a slow scan, both or
//! neither (`detector`), and alerts outside a per-address cooldown are decided
//! (`pipeline`) and written out as CEF records and e-mail text (`alert`).
pub mod alert;
pub mod config;
pub mod detector;
pub mod ip;
pub mod parser;
pub mod pipeline;
pub mod state;
pub mod text;
