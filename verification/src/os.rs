//! Failures that the operating system reports, as plain values.

use vstd::prelude::*;

verus! {

/// The `HRESULT` that a failed call came back with.
#[derive(Clone, Copy, Debug, PartialEq, Eq, Structural)]
pub struct OsError {
    pub code: i32,
}

impl OsError {
    /// An error without any failure information.
    pub fn empty() -> (e: OsError)
        ensures
            e == (OsError { code: 0 }),
    {
        OsError { code: 0 }
    }
}

/// The class of an I/O failure.
#[derive(Clone, Copy, Debug, PartialEq, Eq, Structural)]
pub enum IoErrorKind {
    Other,
    WouldBlock,
    NotFound,
}

/// An I/O failure.
#[derive(Clone, Copy, Debug, PartialEq, Eq, Structural)]
pub enum IoError {
    /// A call into the system failed.
    Os(OsError),
    /// A non-blocking read found nothing to read.
    WouldBlock,
    /// Waiting for an event failed.
    WaitFailed,
    /// Waiting for a set of events failed.
    WaitForMultipleObjectsFailed,
    /// An interrupt line has no event to signal.
    EventNotSetUp,
}

impl IoError {
    /// The class that a failure belongs to.
    pub open spec fn spec_kind(self) -> IoErrorKind {
        match self {
            IoError::WouldBlock => IoErrorKind::WouldBlock,
            IoError::EventNotSetUp => IoErrorKind::NotFound,
            _ => IoErrorKind::Other,
        }
    }

    /// The text of a failure, where `detail` is the text of the system's error.
    pub open spec fn spec_message(self, detail: Seq<char>) -> Seq<char> {
        match self {
            IoError::Os(_) => detail,
            IoError::WouldBlock => "would block"@,
            IoError::WaitFailed => "wait failed"@,
            IoError::WaitForMultipleObjectsFailed => "WaitForMultipleObjects failed"@,
            IoError::EventNotSetUp => "EventFd not set up for irq line"@,
        }
    }

    pub fn kind(&self) -> (kind: IoErrorKind)
        ensures
            kind == self.spec_kind(),
            kind is WouldBlock <==> *self is WouldBlock,
            kind is NotFound <==> *self is EventNotSetUp,
    {
        match self {
            IoError::WouldBlock => IoErrorKind::WouldBlock,
            IoError::EventNotSetUp => IoErrorKind::NotFound,
            _ => IoErrorKind::Other,
        }
    }

    pub fn message(&self, detail: &str) -> (text: String)
        ensures
            text@ == self.spec_message(detail@),
            *self is Os ==> text@ == detail@,
    {
        match self {
            IoError::Os(_) => detail.to_owned(),
            IoError::WouldBlock => "would block".to_owned(),
            IoError::WaitFailed => "wait failed".to_owned(),
            IoError::WaitForMultipleObjectsFailed => "WaitForMultipleObjects failed".to_owned(),
            IoError::EventNotSetUp => "EventFd not set up for irq line".to_owned(),
        }
    }
}

} // verus!
