//! Keeps a domain's A record at the provider in step with the host's public IPv4
//! address, or lists the domain's records.
//!
//! `ipv4` models addresses and reads and writes their dotted-decimal form; `text`
//! holds the string operations taken from std and serde_json; `run` is the run
//! itself, a machine that takes what the outside world reports and says what to do
//! next.

pub mod ipv4;
pub mod run;
pub mod text;
