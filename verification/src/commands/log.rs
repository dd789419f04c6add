//! The commands about the log.

use vstd::prelude::*;

use crate::ipc::{IpcRequest, IpcResponse};

verus! {

/// What may be done with the log.
#[derive(Debug, PartialEq, Eq)]
pub enum LogCommand {
    Compact,
}

/// The request that the command makes to the engine that is running.
pub fn run(command: LogCommand) -> (r: IpcRequest)
    ensures
        command is Compact ==> r == IpcRequest::Compact,
{
    match command {
        LogCommand::Compact => IpcRequest::Compact,
    }
}

/// What is done once the engine that is running was asked to compact the log.
#[derive(Debug, PartialEq, Eq)]
pub enum CompactOutcome {
    /// It is done: say so.
    Done { line: String },
    /// It failed.
    Failed { message: String },
    /// No engine is running: lock the data directory and compact the log here.
    CompactHere,
}

/// What is done once the engine that is running was asked to compact the log, given its
/// answer, if there is one.
pub fn compact(answer: Option<IpcResponse>) -> (r: CompactOutcome)
    ensures
        match answer {
            Some(IpcResponse::Success { .. }) => r is Done && r->line@
                == "compacted via active runtime"@,
            Some(IpcResponse::Error { message }) => r == (CompactOutcome::Failed { message }),
            None => r == CompactOutcome::CompactHere,
        },
{
    match answer {
        Some(IpcResponse::Success { .. }) => CompactOutcome::Done {
            line: "compacted via active runtime".to_string(),
        },
        Some(IpcResponse::Error { message }) => CompactOutcome::Failed { message },
        None => CompactOutcome::CompactHere,
    }
}

} // verus!
