//! Tests of the capture front-end, the one-shot installation guard, and
//! the delivery worker's state machine.

use env_tcp_logger::Diagnostic;
use env_tcp_logger::EnvTcpLogger;
use env_tcp_logger::InitError;
use env_tcp_logger::InitGuard;
use env_tcp_logger::Level;
use env_tcp_logger::Worker;
use env_tcp_logger::plan_capture;

fn verbose_sink() -> env_logger::Logger {
    env_logger::Builder::new().filter_level(log::LevelFilter::Trace).build()
}

fn quiet_sink() -> env_logger::Logger {
    env_logger::Builder::new().filter_level(log::LevelFilter::Off).build()
}

#[test]
fn capture_plan_enabled_record() {
    let plan = plan_capture("host1", true, Level::Info, "auth", "login ok");
    let owed = plan.sink_write.expect("an enabled record owes one sink write");
    assert_eq!(owed.level, Level::Info);
    assert_eq!(owed.target, "auth");
    assert_eq!(owed.message, "login ok");
    assert_eq!(
        plan.enqueue.as_deref(),
        Some("{\"hostname\":\"host1\",\"level\":\"INFO\",\"message\":\"login ok\",\"module\":\"auth\"}")
    );
}

#[test]
fn capture_plan_disabled_record() {
    let plan = plan_capture("host1", false, Level::Info, "auth", "login ok");
    assert!(plan.sink_write.is_none());
    assert!(plan.enqueue.is_none());
}

#[test]
fn record_enqueues_encoded_message() {
    let (tx, rx) = std::sync::mpsc::channel();
    let logger = EnvTcpLogger::new("host1".to_string(), verbose_sink(), tx);
    let outcome = logger.record(Level::Info, "auth", "login ok");
    assert!(outcome.sink_write.is_some());
    assert!(outcome.diagnostic.is_none());
    let queued = rx.try_recv().expect("one message queued");
    assert_eq!(
        queued,
        "{\"hostname\":\"host1\",\"level\":\"INFO\",\"message\":\"login ok\",\"module\":\"auth\"}"
    );
    assert!(rx.try_recv().is_err());
}

#[test]
fn record_disabled_has_no_effect() {
    let (tx, rx) = std::sync::mpsc::channel();
    let logger = EnvTcpLogger::new("host1".to_string(), quiet_sink(), tx);
    let outcome = logger.record(Level::Info, "auth", "login ok");
    assert!(outcome.sink_write.is_none());
    assert!(outcome.diagnostic.is_none());
    assert!(rx.try_recv().is_err());
}

#[test]
fn record_reports_dead_queue() {
    let (tx, rx) = std::sync::mpsc::channel::<String>();
    drop(rx);
    let logger = EnvTcpLogger::new("host1".to_string(), verbose_sink(), tx);
    let outcome = logger.record(Level::Error, "auth", "boom");
    // the record was enabled, so the local sink write is still owed
    assert!(outcome.sink_write.is_some());
    assert_eq!(outcome.diagnostic, Some(Diagnostic::SendFailed));
}

#[test]
fn enabled_delegates_to_sink() {
    let (tx, _rx) = std::sync::mpsc::channel();
    let logger = EnvTcpLogger::new("h".to_string(), verbose_sink(), tx);
    assert!(logger.enabled(Level::Trace, "anything"));
    let (tx2, _rx2) = std::sync::mpsc::channel();
    let quiet = EnvTcpLogger::new("h".to_string(), quiet_sink(), tx2);
    assert!(!quiet.enabled(Level::Error, "anything"));
}

#[test]
fn init_guard_is_one_shot() {
    let mut guard = InitGuard::new();
    assert!(guard.try_install().is_ok());
    assert_eq!(guard.try_install(), Err(InitError::AlreadyInitialized));
    assert_eq!(guard.try_install(), Err(InitError::AlreadyInitialized));
}

#[test]
fn worker_drains_in_order_after_outage() {
    // collector unreachable at startup: producers keep enqueueing, the
    // worker keeps retrying, and nothing already queued is touched
    let mut worker = Worker::new();
    let mut queued: Vec<String> = Vec::new();
    for attempt in 0..3 {
        let d = worker.on_connect(false);
        assert_eq!(d, Some(Diagnostic::ConnectFailed));
        assert!(!worker.is_live());
        queued.push(format!("message {attempt}"));
    }
    // the collector becomes reachable: queued messages drain in order
    assert_eq!(worker.on_connect(true), None);
    assert!(worker.is_live());
    let mut wire: Vec<String> = Vec::new();
    for message in queued.iter() {
        let framed = worker.begin_delivery(message.clone());
        assert_eq!(framed, format!("{message}\u{0}"));
        assert_eq!(worker.finish_delivery(true), None);
        wire.push(framed);
    }
    assert_eq!(
        wire,
        vec![
            "message 0\u{0}".to_string(),
            "message 1\u{0}".to_string(),
            "message 2\u{0}".to_string(),
        ]
    );
}

#[test]
fn worker_write_failure_drops_one_and_continues() {
    // collector resets mid-stream: the worker reports the write error,
    // reconnects, and continues with the next message, not the lost one
    let mut worker = Worker::new();
    assert_eq!(worker.on_connect(true), None);
    let first = worker.begin_delivery("first".to_string());
    assert_eq!(first, "first\u{0}");
    assert_eq!(worker.finish_delivery(true), None);
    let second = worker.begin_delivery("second".to_string());
    assert_eq!(second, "second\u{0}");
    assert_eq!(worker.finish_delivery(false), Some(Diagnostic::WriteFailed));
    assert!(!worker.is_live());
    // reconnect after the backoff; the third message goes through
    assert_eq!(worker.on_connect(true), None);
    let third = worker.begin_delivery("third".to_string());
    assert_eq!(third, "third\u{0}");
    assert_eq!(worker.finish_delivery(true), None);
}

#[test]
fn diagnostics_have_fixed_texts() {
    assert_eq!(Diagnostic::ConnectFailed.describe(), "TCP socket log error: connect failed");
    assert_eq!(Diagnostic::WriteFailed.describe(), "TCP socket log error: write failed");
    assert_eq!(Diagnostic::SendFailed.describe(), "error sending TCP socket channel message");
}
