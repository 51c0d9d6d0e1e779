//! What goes into the log and how loud, and what each class of error leads
//! to.

use vstd::prelude::*;

verus! {

/// How loud a log entry is.
#[derive(Clone, Copy, Debug, PartialEq, Eq, Structural)]
pub enum Severity {
    /// The normal course: a decision, a termination that went through.
    Info,
    /// An error that the loop lives with.
    Warning,
    /// An error that ends the start.
    Error,
}

/// The classes of error that the enforcer meets.
#[derive(Clone, Copy, Debug, PartialEq, Eq, Structural)]
pub enum ErrorClass {
    /// Trust could not be established at the start.
    Startup,
    /// The processes could not be listed for a cycle.
    Cycle,
    /// The executable of one process could not be fingerprinted.
    Process,
    /// A termination request failed.
    Action,
}

/// What the enforcer does about an error.
#[derive(Clone, Copy, Debug, PartialEq, Eq, Structural)]
pub enum Response {
    /// The start is given up: no audit without trust.
    Abort,
    /// The cycle is skipped; the next one comes after the usual sleep.
    SkipCycle,
    /// The process is left alone; the cycle goes on with the others.
    SkipProcess,
    /// Nothing more is done in this cycle; the next cycle looks again.
    LeaveToNextCycle,
}

impl ErrorClass {
    /// What the enforcer does about an error of this class. Only an error at
    /// the start stops it; an error about one process never turns against
    /// that process.
    pub open spec fn spec_response(self) -> Response {
        match self {
            ErrorClass::Startup => Response::Abort,
            ErrorClass::Cycle => Response::SkipCycle,
            ErrorClass::Process => Response::SkipProcess,
            ErrorClass::Action => Response::LeaveToNextCycle,
        }
    }

    /// What the enforcer does about an error of this class, see
    /// `spec_response`.
    #[verifier::when_used_as_spec(spec_response)]
    pub fn response(self) -> (response: Response)
        ensures
            response == self.spec_response(),
    {
        match self {
            ErrorClass::Startup => Response::Abort,
            ErrorClass::Cycle => Response::SkipCycle,
            ErrorClass::Process => Response::SkipProcess,
            ErrorClass::Action => Response::LeaveToNextCycle,
        }
    }

    /// How loud the log entry for an error of this class is: an error where
    /// the start is given up, a warning where the loop lives with it.
    pub open spec fn spec_severity(self) -> Severity {
        match self {
            ErrorClass::Startup => Severity::Error,
            _ => Severity::Warning,
        }
    }

    /// How loud the log entry for an error of this class is, see
    /// `spec_severity`.
    #[verifier::when_used_as_spec(spec_severity)]
    pub fn severity(self) -> (level: Severity)
        ensures
            level == self.spec_severity(),
    {
        match self {
            ErrorClass::Startup => Severity::Error,
            _ => Severity::Warning,
        }
    }
}

/// Something that the program around the engine should put in its log.
#[derive(Clone, Copy, Debug, PartialEq, Eq, Structural)]
pub enum Notice {
    /// The processes could not be listed; the cycle is skipped.
    SnapshotFailed,
    /// The executable of a process could not be read; the process is left
    /// alone.
    FingerprintFailed { process_id: i32 },
    /// The executable of a process is not the trusted one; the process will be
    /// terminated.
    Mismatch { process_id: i32 },
    /// The termination request for a process was delivered.
    Terminated { process_id: i32 },
    /// The termination request for a process failed; it is not tried again in
    /// this cycle.
    TerminationFailed { process_id: i32 },
}

impl Notice {
    /// The class of the error that this notice reports; none where it reports
    /// the normal course.
    pub open spec fn spec_error_class(self) -> Option<ErrorClass> {
        match self {
            Notice::SnapshotFailed => Some(ErrorClass::Cycle),
            Notice::FingerprintFailed { .. } => Some(ErrorClass::Process),
            Notice::TerminationFailed { .. } => Some(ErrorClass::Action),
            Notice::Mismatch { .. } => None,
            Notice::Terminated { .. } => None,
        }
    }

    /// The class of the error that this notice reports, see
    /// `spec_error_class`.
    #[verifier::when_used_as_spec(spec_error_class)]
    pub fn error_class(self) -> (class: Option<ErrorClass>)
        ensures
            class == self.spec_error_class(),
            class != Some(ErrorClass::Startup),
    {
        match self {
            Notice::SnapshotFailed => Some(ErrorClass::Cycle),
            Notice::FingerprintFailed { .. } => Some(ErrorClass::Process),
            Notice::TerminationFailed { .. } => Some(ErrorClass::Action),
            Notice::Mismatch { .. } => None,
            Notice::Terminated { .. } => None,
        }
    }

    /// How loud this notice is: as loud as the class of its error asks for,
    /// and information where it reports no error.
    pub open spec fn spec_severity(self) -> Severity {
        match self.spec_error_class() {
            Some(class) => class.spec_severity(),
            None => Severity::Info,
        }
    }

    /// How loud this notice is, see `spec_severity`. No notice of the audit
    /// loop is an error.
    #[verifier::when_used_as_spec(spec_severity)]
    pub fn severity(self) -> (level: Severity)
        ensures
            level == self.spec_severity(),
            level != Severity::Error,
    {
        match self.error_class() {
            Some(class) => class.severity(),
            None => Severity::Info,
        }
    }
}

} // verus!
