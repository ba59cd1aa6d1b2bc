//! A small log-record sink library: a module-path filter engine that decides
//! which records are enabled, and a deterministic rendering pipeline that
//! turns a record into bytes for a terminal, a file, or a fan-out of sinks.

mod clock;
mod digits;
mod level;
mod text;

pub mod error;
pub mod filters;
pub mod loggers;
pub mod options;
pub mod render;

pub use error::Error;
pub use level::Level;
pub use level::LevelFilter;
pub use loggers::file::FileLogger;
pub use loggers::multi::MultiLogger;
pub use loggers::multi::Sink;
pub use loggers::multi::SinkOutput;
pub use loggers::term::TermLogger;
pub use options::Options;
pub use options::color::Color;
pub use options::color::ColorConfig;
pub use options::style::StyleConfig;
pub use options::time::TimeConfig;
