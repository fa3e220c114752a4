use vstd::prelude::*;

verus! {

/// The kinds of operating-system error that the automation tells apart.
#[derive(Debug, Clone, Copy, PartialEq, Eq, Structural)]
pub enum IoKind {
    NotFound,
    PermissionDenied,
    AlreadyExists,
    WouldBlock,
    InvalidInput,
    InvalidData,
    Interrupted,
    Other,
}

/// What the automation reads of a failed file operation: its kind, the raw operating-system
/// code when there is one, and the text it displays.
#[derive(Debug, Clone)]
pub struct IoFailure {
    pub kind: IoKind,
    pub raw_os_error: Option<i32>,
    pub message: String,
}

impl IoFailure {
    pub fn new(kind: IoKind, raw_os_error: Option<i32>, message: String) -> (e: Self)
        ensures
            e.kind == kind,
            e.raw_os_error == raw_os_error,
            e.message == message,
    {
        IoFailure { kind, raw_os_error, message }
    }
}

/// Windows reports a file that another process holds open as a sharing (32) or lock (33)
/// violation.
pub open spec fn is_sharing_or_lock_code(code: Option<i32>) -> bool {
    code == Some(32i32) || code == Some(33i32)
}

pub open spec fn transient_io(e: IoFailure) -> bool {
    is_sharing_or_lock_code(e.raw_os_error) || e.kind == IoKind::WouldBlock || e.kind
        == IoKind::Interrupted
}

/// Whether the failure only means that the file is busy for the moment.
pub fn is_transient_file_access_error(error: &IoFailure) -> (b: bool)
    ensures
        b == transient_io(*error),
{
    let code = match error.raw_os_error {
        Some(c) => c == 32 || c == 33,
        None => false,
    };
    code || matches!(error.kind, IoKind::WouldBlock) || matches!(error.kind, IoKind::Interrupted)
}

} // verus!
