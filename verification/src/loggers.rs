//! The sink variants: terminal, file, and fan-out. All three share the same
//! shape of contract: `enabled` consults the sink's own filter engine, and
//! `log` checks the filter and then renders, handing the caller what is to
//! be written.

pub mod file;
pub mod multi;
pub mod term;
