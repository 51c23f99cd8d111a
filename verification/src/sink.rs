//! The local sink capability: env_logger's `Logger`.
//!
//! The sink formats and writes human-readable output and owns the
//! enabled-check; both are outside concerns, reached through the trusted
//! wrappers below. Nothing is assumed of what the sink does with a record.

use vstd::prelude::*;

use crate::level::Level;

verus! {

/// env_logger's `Logger`, declared so the library can hold the capability
/// and call it. A value of it is opaque here; its configuration decides
/// which records are enabled.
#[verifier::external_type_specification]
#[verifier::external_body]
pub struct ExEnvLogger(env_logger::Logger);

/// Relies on `env_logger::Logger::enabled` (its `log::Log` impl): asks the
/// sink's filter whether records with this level and target are enabled.
/// The answer depends on the sink's configuration; nothing is assumed of it.
#[verifier::external_body]
pub(crate) fn sink_enabled(sink: &env_logger::Logger, level: Level, target: &str) -> bool {
    let lv = match level {
        Level::Trace => log::Level::Trace,
        Level::Debug => log::Level::Debug,
        Level::Info => log::Level::Info,
        Level::Warn => log::Level::Warn,
        Level::Error => log::Level::Error,
    };
    log::Log::enabled(sink, &log::Metadata::builder().level(lv).target(target).build())
}

/// One record of the `log` framework, declared so the library can carry
/// it through to the sink. A value of it is opaque here.
#[verifier::external_type_specification]
#[verifier::external_body]
pub struct ExRecord<'a>(log::Record<'a>);

/// Relies on `env_logger::Logger::log` (its `log::Log` impl): hands the
/// record to the sink, which formats and writes it. Its own failures are
/// the sink's concern and are not propagated.
#[verifier::external_body]
pub(crate) fn sink_write(sink: &env_logger::Logger, record: &log::Record) {
    log::Log::log(sink, record)
}

/// Relies on `env_logger::Logger::flush` (its `log::Log` impl).
#[verifier::external_body]
pub(crate) fn sink_flush(sink: &env_logger::Logger) {
    log::Log::flush(sink)
}

} // verus!
