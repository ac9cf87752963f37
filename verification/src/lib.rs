//! Live-memory evidence: a process image held as regions and modules, and the
//! scans, disassembly and reports that read it.

pub mod analysis;
pub mod aob;
pub mod arguments;
pub mod bytes;
pub mod callers;
pub mod decode;
pub mod dispatch;
pub mod evidence;
pub mod find;
pub mod flow;
pub mod hits;
pub mod hydra;
pub mod json;
pub mod ledger;
pub mod ledger_reports;
pub mod memory;
pub mod options;
pub mod patterns;
pub mod pe;
pub mod plain;
pub mod pointers;
pub mod processes;
pub mod render;
pub mod render_code;
pub mod render_scans;
pub mod render_tools;
pub mod reports;
pub mod requests;
pub mod router;
pub mod rtti;
pub mod search;
pub mod seqs;
pub mod server;
pub mod shapes;
pub mod snapshot;
pub mod structs;
pub mod tally;
pub mod text;
pub mod text_scan;
pub mod text_session;
pub mod tools;
pub mod transfer;
pub mod values;
