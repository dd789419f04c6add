//! The commands about the engine that is running.

use vstd::prelude::*;

use crate::ipc::{IpcRequest, IpcResponse};

verus! {

/// What may be asked about the engine that is running.
#[derive(Debug, PartialEq, Eq)]
pub enum RuntimeCommand {
    Status,
    Shutdown,
}

/// The request that the command makes.
pub fn run(command: RuntimeCommand) -> (r: IpcRequest)
    ensures
        r == match command {
            RuntimeCommand::Status => IpcRequest::RuntimeStatus,
            RuntimeCommand::Shutdown => IpcRequest::Shutdown,
        },
{
    match command {
        RuntimeCommand::Status => IpcRequest::RuntimeStatus,
        RuntimeCommand::Shutdown => IpcRequest::Shutdown,
    }
}

/// The data of an answer, or the message of its error.
pub fn data_of(response: IpcResponse) -> (r: Result<String, String>)
    ensures
        match response {
            IpcResponse::Success { data } => r == Ok::<_, String>(data),
            IpcResponse::Error { message } => r == Err::<String, _>(message),
        },
{
    match response {
        IpcResponse::Success { data } => Ok(data),
        IpcResponse::Error { message } => Err(message),
    }
}

} // verus!
