//! Outcomes and events of running an action.
use vstd::prelude::*;

use crate::catalog::ActionId;

verus! {

#[derive(Clone, Copy, Debug, PartialEq, Eq, Structural)]
pub enum ExecutionStatus {
    Succeeded,
    Failed,
    Cancelled,
}

/// How a run ended: the exit code is present when no signal ended the process.
#[derive(Clone, Debug, PartialEq, Eq)]
pub struct ExecutionResult {
    pub action_id: ActionId,
    pub status: ExecutionStatus,
    pub exit_code: Option<u32>,
    pub signal: Option<String>,
}

/// What a running action reports.
#[derive(Clone, Debug, PartialEq, Eq)]
pub enum RuntimeEvent {
    Started { action_id: ActionId },
    Output(Vec<u8>),
    Exited(ExecutionResult),
    Failed(String),
}

/// Why an action could not be started.
#[derive(Debug)]
pub enum StartError {
    Allocate(String),
    OpenReader(String),
    OpenWriter(String),
    Spawn { action: ActionId, message: String },
    Monitor(std::io::Error),
}

/// The status of a finished process: a requested cancellation wins; otherwise
/// it succeeded exactly when no signal ended it and its exit code is zero.
pub open spec fn status_of(cancelled: bool, exit_code: u32, signal: Option<Seq<char>>) -> ExecutionStatus {
    if cancelled {
        ExecutionStatus::Cancelled
    } else if signal is None && exit_code == 0 {
        ExecutionStatus::Succeeded
    } else {
        ExecutionStatus::Failed
    }
}

/// The result reported when a process has been waited for.
pub fn exit_result(action_id: ActionId, cancelled: bool, exit_code: u32, signal: Option<String>) -> (r:
    ExecutionResult)
    ensures
        r.action_id@ == action_id@,
        r.status == status_of(
            cancelled,
            exit_code,
            match signal {
                Some(s) => Some(s@),
                None => None,
            },
        ),
        r.exit_code == (if signal is None {
            Some(exit_code)
        } else {
            None
        }),
        r.signal == signal,
{
    let status = if cancelled {
        ExecutionStatus::Cancelled
    } else if signal.is_none() && exit_code == 0 {
        ExecutionStatus::Succeeded
    } else {
        ExecutionStatus::Failed
    };
    let code = if signal.is_none() {
        Some(exit_code)
    } else {
        None
    };
    ExecutionResult { action_id, status, exit_code: code, signal }
}

/// The event for one read from the terminal: the bytes read, or nothing once
/// the read reports end of output (zero bytes) or fails (`None`).
pub fn output_chunk(buffer: &[u8], read: Option<usize>) -> (r: Option<RuntimeEvent>)
    requires
        read matches Some(n) ==> n <= buffer@.len(),
    ensures
        match read {
            Some(n) if n > 0 => r matches Some(RuntimeEvent::Output(bytes)) && bytes@
                == buffer@.take(n as int),
            _ => r is None,
        },
{
    match read {
        Some(n) => {
            if n == 0 {
                None
            } else {
                let part = vstd::slice::slice_subrange(buffer, 0, n);
                let bytes = vstd::slice::slice_to_vec(part);
                assert(bytes@ =~= buffer@.take(n as int));
                Some(RuntimeEvent::Output(bytes))
            }
        },
        None => None,
    }
}

} // verus!
