//! The verdict on one observed process.

use vstd::prelude::*;
use crate::fingerprint::{fingerprint_of, law_fingerprint_tells_digests_apart, sha256};
use crate::identity::{IdentityView, TrustedIdentity};
use crate::views::text_view;

verus! {

/// The process id of the system's root supervisor, which is never judged.
pub const INIT_PROCESS_ID: i32 = 1;

/// One entry of a process snapshot, as a mathematical value.
pub struct ProcessView {
    /// The process id.
    pub process_id: i32,
    /// The path of the executable behind the process, where it is known.
    pub executable_path: Option<Seq<char>>,
}

/// One entry of a process snapshot.
#[derive(Clone, Debug, PartialEq, Eq)]
pub struct ObservedProcess {
    /// The process id. The system may give it to another process later.
    pub process_id: i32,
    /// The path of the executable behind the process, where it could be
    /// resolved.
    pub executable_path: Option<String>,
}

impl View for ObservedProcess {
    type V = ProcessView;

    open spec fn view(&self) -> ProcessView {
        ProcessView {
            process_id: self.process_id,
            executable_path: text_view(self.executable_path),
        }
    }
}

/// The outcome of the audit of one process.
#[derive(Clone, Copy, Debug, PartialEq, Eq, Structural)]
pub enum AuditDecision {
    /// The executable's path is the trusted path.
    Trusted,
    /// The path differs, the content's fingerprint is the trusted one.
    TrustedByContent,
    /// The content's fingerprint is not the trusted one.
    Mismatch,
    /// The fingerprint could not be computed.
    Unknown,
}

impl AuditDecision {
    /// Whether the process is to be terminated: only on a mismatch.
    pub open spec fn spec_calls_for_termination(self) -> bool {
        self == AuditDecision::Mismatch
    }

    /// Whether the process is to be terminated: only on a mismatch.
    #[verifier::when_used_as_spec(spec_calls_for_termination)]
    pub fn calls_for_termination(self) -> (strike: bool)
        ensures
            strike == self.spec_calls_for_termination(),
    {
        match self {
            AuditDecision::Mismatch => true,
            _ => false,
        }
    }
}

/// What can be said of a process before its executable is read.
#[derive(Clone, Copy, Debug, PartialEq, Eq, Structural)]
pub enum Triage {
    /// The process is the root supervisor or the enforcer itself: it is not
    /// judged at all.
    Exempt,
    /// The decision stands without a fingerprint.
    Settled(AuditDecision),
    /// The decision needs the fingerprint of the executable's content.
    Probe,
}

/// Whether a process id is left out of the audit: the root supervisor's and
/// the enforcer's own.
pub open spec fn is_exempt(self_pid: i32, process_id: i32) -> bool {
    process_id == INIT_PROCESS_ID || process_id == self_pid
}

/// What can be said of `process` before its executable is read.
pub open spec fn triage_of(identity: IdentityView, self_pid: i32, process: ProcessView) -> Triage {
    if is_exempt(self_pid, process.process_id) {
        Triage::Exempt
    } else {
        match process.executable_path {
            None => Triage::Settled(AuditDecision::Unknown),
            Some(path) => if path == identity.canonical_path {
                Triage::Settled(AuditDecision::Trusted)
            } else {
                Triage::Probe
            },
        }
    }
}

/// The decision on a process whose executable was probed: `probe` is the
/// fingerprint of its content, or nothing where it could not be computed.
pub open spec fn judged(identity: IdentityView, probe: Option<Seq<char>>) -> AuditDecision {
    match probe {
        None => AuditDecision::Unknown,
        Some(found) => if found == identity.content_fingerprint {
            AuditDecision::TrustedByContent
        } else {
            AuditDecision::Mismatch
        },
    }
}

/// The decision on a process that is not exempt, given what a probe of its
/// executable gives.
pub open spec fn decision_of(
    identity: IdentityView,
    process: ProcessView,
    probe: Option<Seq<char>>,
) -> AuditDecision {
    match process.executable_path {
        None => AuditDecision::Unknown,
        Some(path) => if path == identity.canonical_path {
            AuditDecision::Trusted
        } else {
            judged(identity, probe)
        },
    }
}

/// A process whose executable has the very content of the trusted executable
/// is trusted by content, wherever the file lies.
pub proof fn law_same_content_is_trusted(identity: IdentityView, trusted: Seq<u8>, found: Seq<u8>)
    requires
        identity.content_fingerprint == fingerprint_of(trusted),
        found == trusted,
    ensures
        judged(identity, Some(fingerprint_of(found))) == AuditDecision::TrustedByContent,
{
}

/// A process whose executable has another digest than the trusted executable
/// is a mismatch.
pub proof fn law_other_content_is_a_mismatch(
    identity: IdentityView,
    trusted: Seq<u8>,
    found: Seq<u8>,
)
    requires
        identity.content_fingerprint == fingerprint_of(trusted),
        sha256(found) != sha256(trusted),
    ensures
        judged(identity, Some(fingerprint_of(found))) == AuditDecision::Mismatch,
{
    law_fingerprint_tells_digests_apart(found, trusted);
}

/// The view of a snapshot: the views of its entries, in order.
pub open spec fn snapshot_view(list: Seq<ObservedProcess>) -> Seq<ProcessView> {
    Seq::new(list.len(), |i: int| list[i]@)
}

/// What can be said of `process` before its executable is read: nothing is
/// read or hashed here.
pub fn triage(identity: &TrustedIdentity, self_pid: i32, process: &ObservedProcess) -> (found:
    Triage)
    ensures
        found == triage_of(identity@, self_pid, process@),
{
    if process.process_id == INIT_PROCESS_ID || process.process_id == self_pid {
        return Triage::Exempt;
    }
    match &process.executable_path {
        None => Triage::Settled(AuditDecision::Unknown),
        Some(path) => {
            if *path == *identity.canonical_path() {
                Triage::Settled(AuditDecision::Trusted)
            } else {
                Triage::Probe
            }
        },
    }
}

/// The decision on a process whose executable was probed.
pub fn judge(identity: &TrustedIdentity, probe: &Option<String>) -> (decision: AuditDecision)
    ensures
        decision == judged(identity@, text_view(*probe)),
{
    match probe {
        None => AuditDecision::Unknown,
        Some(found) => {
            if *found == *identity.content_fingerprint() {
                AuditDecision::TrustedByContent
            } else {
                AuditDecision::Mismatch
            }
        },
    }
}

} // verus!
