//! The errors of the library.

use vstd::prelude::*;

use crate::text::{concat, concat3, concat4, decimal_of};

verus! {

/// Why an operation failed.
#[derive(Debug, Clone, PartialEq, Eq)]
pub enum KronError {
    InvalidCron(String),
    InvalidTimezone(String),
    TimerNotFound(String),
    /// Reading or writing failed, with the message of the failure.
    LogIo(String),
    /// A value could not be encoded or decoded, with the message of the failure.
    LogSerde(String),
    CorruptLog { path: String, line: usize, source: String },
    AlreadyStarted,
    AlreadyStopped,
    ShutdownTimeout { timeout_ms: u64 },
    DataDirLocked { path: String },
    InvalidSnapshot(String),
    IpcUnavailable(String),
}

/// A [`KronError`] with its texts as sequences of characters.
pub enum KronErrorView {
    InvalidCron(Seq<char>),
    InvalidTimezone(Seq<char>),
    TimerNotFound(Seq<char>),
    LogIo(Seq<char>),
    LogSerde(Seq<char>),
    CorruptLog { path: Seq<char>, line: nat, source: Seq<char> },
    AlreadyStarted,
    AlreadyStopped,
    ShutdownTimeout { timeout_ms: u64 },
    DataDirLocked { path: Seq<char> },
    InvalidSnapshot(Seq<char>),
    IpcUnavailable(Seq<char>),
}

impl View for KronError {
    type V = KronErrorView;

    open spec fn view(&self) -> KronErrorView {
        match self {
            KronError::InvalidCron(s) => KronErrorView::InvalidCron(s@),
            KronError::InvalidTimezone(s) => KronErrorView::InvalidTimezone(s@),
            KronError::TimerNotFound(s) => KronErrorView::TimerNotFound(s@),
            KronError::LogIo(s) => KronErrorView::LogIo(s@),
            KronError::LogSerde(s) => KronErrorView::LogSerde(s@),
            KronError::CorruptLog { path, line, source } => KronErrorView::CorruptLog {
                path: path@,
                line: *line as nat,
                source: source@,
            },
            KronError::AlreadyStarted => KronErrorView::AlreadyStarted,
            KronError::AlreadyStopped => KronErrorView::AlreadyStopped,
            KronError::ShutdownTimeout { timeout_ms } => KronErrorView::ShutdownTimeout {
                timeout_ms: *timeout_ms,
            },
            KronError::DataDirLocked { path } => KronErrorView::DataDirLocked { path: path@ },
            KronError::InvalidSnapshot(s) => KronErrorView::InvalidSnapshot(s@),
            KronError::IpcUnavailable(s) => KronErrorView::IpcUnavailable(s@),
        }
    }
}

impl KronErrorView {
    /// What the error says.
    pub open spec fn message(self) -> Seq<char> {
        match self {
            KronErrorView::InvalidCron(s) => "invalid cron expression: "@ + s,
            KronErrorView::InvalidTimezone(s) => "invalid timezone: "@ + s,
            KronErrorView::TimerNotFound(s) => "timer not found: "@ + s,
            KronErrorView::LogIo(s) => "log I/O error: "@ + s,
            KronErrorView::LogSerde(s) => "log serialization error: "@ + s,
            KronErrorView::CorruptLog { path, line, source } => "corrupt log line "@
                + crate::text::decimal(line) + " in "@ + path + ": "@ + source,
            KronErrorView::AlreadyStarted => "engine already started"@,
            KronErrorView::AlreadyStopped => "engine has already been shut down"@,
            KronErrorView::ShutdownTimeout { timeout_ms } => "shutdown timed out after "@
                + crate::text::decimal(timeout_ms as nat) + "ms"@,
            KronErrorView::DataDirLocked { path } => "data directory is already locked: "@ + path,
            KronErrorView::InvalidSnapshot(s) => "invalid snapshot: "@ + s,
            KronErrorView::IpcUnavailable(s) => "IPC unavailable: "@ + s,
        }
    }

    /// Whether the caller's input is at fault rather than the state of the system.
    pub open spec fn is_value_error(self) -> bool {
        self is InvalidCron || self is InvalidTimezone
    }
}

impl KronError {
    /// The message of the error.
    pub fn message(&self) -> (r: String)
        ensures
            r@ == self@.message(),
    {
        match self {
            KronError::InvalidCron(s) => concat("invalid cron expression: ", s),
            KronError::InvalidTimezone(s) => concat("invalid timezone: ", s),
            KronError::TimerNotFound(s) => concat("timer not found: ", s),
            KronError::LogIo(s) => concat("log I/O error: ", s),
            KronError::LogSerde(s) => concat("log serialization error: ", s),
            KronError::CorruptLog { path, line, source } => {
                let number = decimal_of(*line as u64);
                let head = concat4("corrupt log line ", &number, " in ", path);
                concat3(&head, ": ", source)
            },
            KronError::AlreadyStarted => "engine already started".to_string(),
            KronError::AlreadyStopped => "engine has already been shut down".to_string(),
            KronError::ShutdownTimeout { timeout_ms } => concat3(
                "shutdown timed out after ",
                &decimal_of(*timeout_ms),
                "ms",
            ),
            KronError::DataDirLocked { path } => concat("data directory is already locked: ", path),
            KronError::InvalidSnapshot(s) => concat("invalid snapshot: ", s),
            KronError::IpcUnavailable(s) => concat("IPC unavailable: ", s),
        }
    }

    /// Whether the caller's input is at fault rather than the state of the system.
    pub fn is_value_error(&self) -> (r: bool)
        ensures
            r == self@.is_value_error(),
    {
        matches!(self, KronError::InvalidCron(_) | KronError::InvalidTimezone(_))
    }
}

} // verus!
