//! What can go wrong, and what the sender is told about it.

use vstd::prelude::*;

verus! {

/// The status of a request that was served to its end.
pub const STATUS_OK: u16 = 200;

/// The status of a request that the sender got wrong.
pub const STATUS_BAD_REQUEST: u16 = 400;

/// The status of a request that carries more than the server takes.
pub const STATUS_PAYLOAD_TOO_LARGE: u16 = 413;

/// The status of a request that failed on the server's side.
pub const STATUS_INTERNAL_ERROR: u16 = 500;

/// Why a request was not served to its end.
#[derive(Clone, Copy, Debug, PartialEq, Eq, Structural)]
pub enum Fault {
    /// The sender broke the protocol: a broken multipart body, a part
    /// without a name, a file part without a usable file name or without a
    /// content type.
    Malformed,
    /// The request carries more than the ceiling allows.
    TooLarge,
    /// The files could not be written.
    Storage,
    /// The connection was lost while the body was being read. Nobody is
    /// left to answer.
    Transport,
}

/// How a request ended.
#[derive(Clone, Copy, Debug, PartialEq, Eq, Structural)]
pub enum Verdict {
    /// Every part was consumed and every file part is on disk.
    Saved,
    /// The request was given up.
    Failed(Fault),
}

/// Why the server could not be started.
#[derive(Clone, Copy, Debug, PartialEq, Eq, Structural)]
pub enum StartupFault {
    /// The system had no free port to offer.
    NoFreePort,
}

impl Fault {
    /// The status that answers a request given up for this reason; `None`
    /// where the sender is gone and no answer is due.
    pub open spec fn spec_status(self) -> Option<u16> {
        match self {
            Fault::Malformed => Some(STATUS_BAD_REQUEST),
            Fault::TooLarge => Some(STATUS_PAYLOAD_TOO_LARGE),
            Fault::Storage => Some(STATUS_INTERNAL_ERROR),
            Fault::Transport => None,
        }
    }

    /// The status that answers a request given up for this reason.
    pub fn status(self) -> (status: Option<u16>)
        ensures
            status == self.spec_status(),
    {
        match self {
            Fault::Malformed => Some(STATUS_BAD_REQUEST),
            Fault::TooLarge => Some(STATUS_PAYLOAD_TOO_LARGE),
            Fault::Storage => Some(STATUS_INTERNAL_ERROR),
            Fault::Transport => None,
        }
    }

    /// The fault behind a failed read of the body, told from the status that
    /// the multipart reader attaches to its error: 413 is the ceiling, any
    /// other status from 400 to 499 a sender's mistake, and everything else
    /// a connection that broke.
    pub open spec fn spec_of_read_status(status: u16) -> Fault {
        if status == STATUS_PAYLOAD_TOO_LARGE {
            Fault::TooLarge
        } else if 400 <= status <= 499 {
            Fault::Malformed
        } else {
            Fault::Transport
        }
    }

    /// The fault behind a failed read of the body.
    pub fn of_read_status(status: u16) -> (fault: Fault)
        ensures
            fault == Self::spec_of_read_status(status),
    {
        if status == STATUS_PAYLOAD_TOO_LARGE {
            Fault::TooLarge
        } else if 400 <= status && status <= 499 {
            Fault::Malformed
        } else {
            Fault::Transport
        }
    }
}

impl Verdict {
    /// The status that the sender is answered with; `None` where no answer
    /// is due.
    pub open spec fn spec_status(self) -> Option<u16> {
        match self {
            Verdict::Saved => Some(STATUS_OK),
            Verdict::Failed(fault) => fault.spec_status(),
        }
    }

    /// The status that the sender is answered with.
    pub fn status(self) -> (status: Option<u16>)
        ensures
            status == self.spec_status(),
    {
        match self {
            Verdict::Saved => Some(STATUS_OK),
            Verdict::Failed(fault) => fault.status(),
        }
    }

    /// Success is reported for `Saved` and for nothing else.
    pub fn is_success(self) -> (yes: bool)
        ensures
            yes == (self == Verdict::Saved),
            yes == (self.spec_status() == Some(STATUS_OK)),
    {
        match self {
            Verdict::Saved => true,
            Verdict::Failed(_) => false,
        }
    }
}

} // verus!
