//! An asynchronous, fault-tolerant log-forwarding pipeline.
//!
//! Log records are captured at their call sites, echoed to a local sink,
//! and shipped to a remote collector over a persistent connection, without
//! ever blocking or failing the caller that emitted the log.

mod chan;
mod sink;

pub mod level;
pub mod logger;
pub mod parse;
pub mod wire;
pub mod worker;

pub use level::Level;
pub use parse::parse;
pub use parse::parse_frame;
pub use wire::frame;
pub use logger::CapturePlan;
pub use logger::EnvTcpLogger;
pub use logger::InitError;
pub use logger::InitGuard;
pub use logger::LogRecord;
pub use logger::RecordOutcome;
pub use logger::plan_capture;
pub use wire::WireMessage;
pub use wire::WireView;
pub use worker::Attempt;
pub use worker::Diagnostic;
pub use worker::LinkState;
pub use worker::Worker;
