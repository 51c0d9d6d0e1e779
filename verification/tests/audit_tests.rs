use proc_monitor::audit::{judge, triage, AuditDecision, ObservedProcess, Triage, INIT_PROCESS_ID};
use proc_monitor::fingerprint::fingerprint;
use proc_monitor::identity::TrustedIdentity;

const TRUSTED_PATH: &str = "/opt/app/server";
const TRUSTED_CONTENT: &[u8] = b"trusted bytes";
const SELF_PID: i32 = 4242;

fn identity() -> TrustedIdentity {
    TrustedIdentity::establish(TRUSTED_PATH.to_string(), TRUSTED_CONTENT, Ok(true)).unwrap()
}

fn process(process_id: i32, path: Option<&str>) -> ObservedProcess {
    ObservedProcess { process_id, executable_path: path.map(|p| p.to_string()) }
}

#[test]
fn triage_exempts_the_init_process() {
    assert_eq!(INIT_PROCESS_ID, 1);
    assert_eq!(triage(&identity(), SELF_PID, &process(1, Some("/sbin/init"))), Triage::Exempt);
    assert_eq!(triage(&identity(), SELF_PID, &process(1, None)), Triage::Exempt);
    assert_eq!(triage(&identity(), SELF_PID, &process(1, Some(TRUSTED_PATH))), Triage::Exempt);
}

#[test]
fn triage_exempts_the_enforcer_itself() {
    assert_eq!(
        triage(&identity(), SELF_PID, &process(SELF_PID, Some("/usr/bin/enforcer"))),
        Triage::Exempt
    );
    assert_eq!(triage(&identity(), 7, &process(7, Some("/usr/bin/enforcer"))), Triage::Exempt);
}

#[test]
fn triage_trusts_the_canonical_path_without_a_probe() {
    assert_eq!(
        triage(&identity(), SELF_PID, &process(100, Some(TRUSTED_PATH))),
        Triage::Settled(AuditDecision::Trusted)
    );
}

#[test]
fn triage_compares_paths_exactly() {
    for other in [
        "/opt/app/server ",
        "/opt/app//server",
        "/opt/app/server/",
        "/opt/app/Server",
        "opt/app/server",
        "/opt/app/./server",
        "",
    ] {
        assert_eq!(triage(&identity(), SELF_PID, &process(100, Some(other))), Triage::Probe);
    }
}

#[test]
fn triage_asks_for_a_probe_of_any_other_path() {
    assert_eq!(triage(&identity(), SELF_PID, &process(100, Some("/usr/bin/vim"))), Triage::Probe);
    assert_eq!(triage(&identity(), SELF_PID, &process(2, Some("/usr/bin/vim"))), Triage::Probe);
    assert_eq!(triage(&identity(), SELF_PID, &process(-5, Some("/usr/bin/vim"))), Triage::Probe);
}

#[test]
fn triage_leaves_a_process_without_a_path_unknown() {
    assert_eq!(
        triage(&identity(), SELF_PID, &process(100, None)),
        Triage::Settled(AuditDecision::Unknown)
    );
}

#[test]
fn judge_trusts_the_same_content_at_another_path() {
    let probe = Some(fingerprint(TRUSTED_CONTENT));
    assert_eq!(judge(&identity(), &probe), AuditDecision::TrustedByContent);
    let literal = Some(
        "6acd7c3c149b0fdbc542a20bb7ece8164ebf4b78148c3f65c2fddf208cc74e35".to_string(),
    );
    assert_eq!(judge(&identity(), &literal), AuditDecision::TrustedByContent);
}

#[test]
fn judge_finds_a_mismatch_for_other_content() {
    let probe = Some(fingerprint(b"other bytes"));
    assert_eq!(judge(&identity(), &probe), AuditDecision::Mismatch);
}

#[test]
fn judge_compares_fingerprints_exactly() {
    let upper = Some(fingerprint(TRUSTED_CONTENT).to_uppercase());
    assert_eq!(judge(&identity(), &upper), AuditDecision::Mismatch);
    assert_eq!(judge(&identity(), &Some(String::new())), AuditDecision::Mismatch);
}

#[test]
fn judge_leaves_a_failed_probe_unknown() {
    assert_eq!(judge(&identity(), &None), AuditDecision::Unknown);
}

#[test]
fn only_a_mismatch_calls_for_termination() {
    assert!(AuditDecision::Mismatch.calls_for_termination());
    assert!(!AuditDecision::Trusted.calls_for_termination());
    assert!(!AuditDecision::TrustedByContent.calls_for_termination());
    assert!(!AuditDecision::Unknown.calls_for_termination());
}
