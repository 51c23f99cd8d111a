//! The capture front-end: turns a log call into a local sink write plus a
//! queued remote message, synchronously, from arbitrary caller contexts.
//!
//! `record` never blocks on network work and never fails its caller: it
//! asks the sink whether the record is enabled, serializes the enabled
//! record to the wire encoding — which is total, so serialization cannot
//! fail — enqueues the encoded text, and owes the caller exactly one
//! local sink write of the unchanged record, performed through
//! [`EnvTcpLogger::forward_to_sink`]. The only reportable failure is a
//! dead queue, which is returned as a diagnostic and otherwise ignored.

use vstd::prelude::*;
use vstd::string::*;

use crate::level::Level;
use crate::sink::sink_enabled;
use crate::sink::sink_flush;
use crate::sink::sink_write;
use crate::wire::WireMessage;
use crate::wire::WireView;
use crate::wire::json_of;
use crate::worker::Diagnostic;

verus! {

/// One log record, as captured at a call site.
pub struct LogRecord {
    pub level: Level,
    pub target: String,
    pub message: String,
}

/// The actions the capture front-end takes for one record: at most one
/// local sink write, at most one enqueue.
pub struct CapturePlan {
    pub sink_write: Option<LogRecord>,
    pub enqueue: Option<String>,
}

/// The wire message derived from one record plus the process hostname.
pub open spec fn wire_view_of(
    hostname: Seq<char>,
    level: Level,
    target: Seq<char>,
    message: Seq<char>,
) -> WireView {
    WireView { hostname: hostname, level: level.name(), message: message, module: target }
}

/// Decides what the capture front-end does for one record. An enabled
/// record is forwarded to the local sink exactly once, unchanged, and
/// exactly its encoded wire message is enqueued; a disabled record has no
/// effect at all.
pub fn plan_capture(
    hostname: &str,
    enabled: bool,
    level: Level,
    target: &str,
    message: &str,
) -> (p: CapturePlan)
    ensures
        enabled ==> (p.sink_write matches Some(r) && r.level == level && r.target@ == target@
            && r.message@ == message@),
        enabled ==> (p.enqueue matches Some(e) && e@ == json_of(
            wire_view_of(hostname@, level, target@, message@),
        )),
        !enabled ==> p.sink_write is None && p.enqueue is None,
{
    if !enabled {
        CapturePlan { sink_write: None, enqueue: None }
    } else {
        let wm = WireMessage {
            hostname: String::from_str(hostname),
            level: String::from_str(level.as_str()),
            message: String::from_str(message),
            module: String::from_str(target),
        };
        let encoded = wm.encode();
        proof {
            assert(wm@ =~= wire_view_of(hostname@, level, target@, message@));
        }
        CapturePlan {
            sink_write: Some(
                LogRecord {
                    level,
                    target: String::from_str(target),
                    message: String::from_str(message),
                },
            ),
            enqueue: Some(encoded),
        }
    }
}

/// What one `record` call did: the owed local sink write, if the record
/// was enabled, and the diagnostic to report, if enqueueing failed.
pub struct RecordOutcome {
    pub sink_write: Option<LogRecord>,
    pub diagnostic: Option<Diagnostic>,
}

/// The process-wide logger: the immutable hostname, the local sink
/// capability, and the producer handle of the queue.
pub struct EnvTcpLogger {
    hostname: String,
    sink: env_logger::Logger,
    tx: std::sync::mpsc::Sender<String>,
}

impl EnvTcpLogger {
    /// The stored hostname.
    pub closed spec fn hostname_view(self) -> Seq<char> {
        self.hostname@
    }

    /// Builds the logger state from the hostname, the local sink and the
    /// producer handle of the queue.
    pub fn new(
        hostname: String,
        sink: env_logger::Logger,
        tx: std::sync::mpsc::Sender<String>,
    ) -> (l: EnvTcpLogger)
        ensures
            l.hostname_view() == hostname@,
    {
        EnvTcpLogger { hostname, sink, tx }
    }

    /// Whether records with this level and target are enabled, delegated
    /// verbatim to the local sink's enabled-check.
    pub fn enabled(&self, level: Level, target: &str) -> bool {
        sink_enabled(&self.sink, level, target)
    }

    /// Captures one record: if the sink reports it enabled, enqueues its
    /// encoded wire message for remote delivery and owes the caller one
    /// local sink write, the record unchanged. Never blocks on network
    /// work and never fails the caller; the one reportable failure — a
    /// dead queue — comes back as a diagnostic to print, and the record
    /// is otherwise dropped from remote delivery only.
    pub fn record(&self, level: Level, target: &str, message: &str) -> (r: RecordOutcome)
        ensures
            r.sink_write matches Some(rec) ==> rec.level == level && rec.target@ == target@
                && rec.message@ == message@,
            r.diagnostic is Some ==> r.diagnostic == Some(Diagnostic::SendFailed),
            r.sink_write is None ==> r.diagnostic is None,
    {
        let enabled = sink_enabled(&self.sink, level, target);
        let plan = plan_capture(self.hostname.as_str(), enabled, level, target, message);
        let diagnostic = match plan.enqueue {
            None => None,
            Some(payload) => match self.tx.send(payload) {
                Ok(sent) => None,
                Err(unsent) => Some(Diagnostic::SendFailed),
            },
        };
        RecordOutcome { sink_write: plan.sink_write, diagnostic }
    }

    /// Forwards one framework record, unchanged, to the local sink, which
    /// formats and writes it.
    pub fn forward_to_sink(&self, record: &log::Record) {
        sink_write(&self.sink, record)
    }

    /// Flushes the local sink.
    pub fn flush(&self) {
        sink_flush(&self.sink)
    }
}

/// The error of a second attempt to install the process-wide logger.
#[derive(Clone, Copy, PartialEq, Eq, Structural, Debug)]
pub enum InitError {
    AlreadyInitialized,
}

/// A one-shot guard: the process-wide logger is installed at most once.
/// A second attempt fails the attempt alone and leaves the installed
/// logger untouched.
pub struct InitGuard {
    installed: bool,
}

impl InitGuard {
    /// True once a logger has been installed through this guard.
    pub closed spec fn is_installed(self) -> bool {
        self.installed
    }

    /// A fresh guard: nothing installed yet.
    pub fn new() -> (g: InitGuard)
        ensures
            !g.is_installed(),
    {
        InitGuard { installed: false }
    }

    /// Claims the one installation. Succeeds exactly on the first call;
    /// every later call returns the initialization error and changes
    /// nothing.
    pub fn try_install(&mut self) -> (r: Result<(), InitError>)
        ensures
            final(self).is_installed(),
            !old(self).is_installed() ==> r is Ok,
            old(self).is_installed() ==> r == Result::<(), InitError>::Err(
                InitError::AlreadyInitialized,
            ),
    {
        if self.installed {
            Err(InitError::AlreadyInitialized)
        } else {
            self.installed = true;
            Ok(())
        }
    }
}

} // verus!
