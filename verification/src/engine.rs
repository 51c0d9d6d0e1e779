//! The audit loop as a state machine.
//!
//! The engine never touches the system. It names the next action (list the
//! processes, fingerprint a file, terminate a process, sleep), the program
//! around it performs the action and hands back what happened as an event.
//! One cycle is: take a snapshot, classify every process in it, terminate
//! every mismatch, sleep. Nothing is kept from one cycle to the next.
//!
//! The engine never blocks and never loops on its own: whoever drives it
//! decides between any two steps whether to go on, so a loop around it can be
//! stopped cleanly at any point.

use vstd::prelude::*;
use crate::audit::{
    is_exempt, judge, judged, snapshot_view, triage, triage_of, AuditDecision, ObservedProcess,
    ProcessView, Triage,
};
use crate::config::{poll_interval, poll_interval_of};
use crate::identity::{IdentityView, TrustedIdentity};
use crate::notice::Notice;

verus! {

/// Where the engine stands in a cycle, by what it waits for.
#[derive(Clone, Copy, Debug, PartialEq, Eq, Structural)]
pub enum Phase {
    /// Waiting for the process snapshot.
    Listing,
    /// Waiting for the fingerprint of the executable of the process at the
    /// cursor.
    Probing,
    /// Waiting for the outcome of the termination of the process at the
    /// cursor.
    Striking,
    /// Waiting for the end of the sleep between two cycles.
    Resting,
}

/// What the program around the engine reports back.
#[derive(Clone, Debug, PartialEq, Eq)]
pub enum Event {
    /// The processes that run now.
    Snapshot(Vec<ObservedProcess>),
    /// The processes could not be listed.
    SnapshotFailed,
    /// The fingerprint of the executable that was asked for.
    Fingerprinted(String),
    /// The executable that was asked for could not be read.
    FingerprintFailed,
    /// The termination request was delivered.
    Terminated,
    /// The termination request failed.
    TerminationFailed,
    /// The sleep is over.
    Woke,
}

/// An event as a mathematical value.
pub enum EventView {
    Snapshot(Seq<ProcessView>),
    SnapshotFailed,
    Fingerprinted(Seq<char>),
    FingerprintFailed,
    Terminated,
    TerminationFailed,
    Woke,
}

impl View for Event {
    type V = EventView;

    open spec fn view(&self) -> EventView {
        match self {
            Event::Snapshot(list) => EventView::Snapshot(snapshot_view(list@)),
            Event::SnapshotFailed => EventView::SnapshotFailed,
            Event::Fingerprinted(text) => EventView::Fingerprinted(text@),
            Event::FingerprintFailed => EventView::FingerprintFailed,
            Event::Terminated => EventView::Terminated,
            Event::TerminationFailed => EventView::TerminationFailed,
            Event::Woke => EventView::Woke,
        }
    }
}

/// What the engine asks the program around it to do next.
#[derive(Clone, Debug, PartialEq, Eq)]
pub enum Action {
    /// Take a snapshot of the running processes.
    ListProcesses,
    /// Fingerprint the content of the file at `path`, the executable of the
    /// process `process_id`.
    Fingerprint { process_id: i32, path: String },
    /// Ask for the termination of the process `process_id`.
    Terminate { process_id: i32 },
    /// Sleep for `seconds` seconds.
    Sleep { seconds: u64 },
}

/// An action as a mathematical value.
pub enum ActionView {
    ListProcesses,
    Fingerprint { process_id: i32, path: Seq<char> },
    Terminate { process_id: i32 },
    Sleep { seconds: u64 },
}

impl View for Action {
    type V = ActionView;

    open spec fn view(&self) -> ActionView {
        match self {
            Action::ListProcesses => ActionView::ListProcesses,
            Action::Fingerprint { process_id, path } => ActionView::Fingerprint {
                process_id: *process_id,
                path: path@,
            },
            Action::Terminate { process_id } => ActionView::Terminate { process_id: *process_id },
            Action::Sleep { seconds } => ActionView::Sleep { seconds: *seconds },
        }
    }
}

/// What one step of the engine gives back.
#[derive(Clone, Debug, PartialEq, Eq)]
pub struct Step {
    /// What to do next.
    pub action: Action,
    /// What to put in the log about the event that was handed in.
    pub notice: Option<Notice>,
}

/// The engine as a mathematical value.
#[verifier::ext_equal]
pub struct EngineView {
    /// What is allowed to run.
    pub identity: IdentityView,
    /// The enforcer's own process id.
    pub self_pid: i32,
    /// Seconds of sleep between two cycles.
    pub interval: u64,
    /// What the engine waits for.
    pub phase: Phase,
    /// The snapshot of the current cycle.
    pub snapshot: Seq<ProcessView>,
    /// The verdicts of the current cycle, one for each process classified so
    /// far, in the snapshot's order; none for an exempt process.
    pub verdicts: Seq<Option<AuditDecision>>,
    /// The process that the engine has asked about.
    pub cursor: int,
}

/// The verdict on a process that needs no probe.
pub open spec fn settled(identity: IdentityView, self_pid: i32, process: ProcessView) -> Option<
    AuditDecision,
> {
    match triage_of(identity, self_pid, process) {
        Triage::Settled(decision) => Some(decision),
        _ => None,
    }
}

/// The index of the first process at or after `from` whose verdict needs a
/// probe; the snapshot's length if there is none.
pub open spec fn next_probe(
    identity: IdentityView,
    self_pid: i32,
    snapshot: Seq<ProcessView>,
    from: int,
) -> int
    decreases snapshot.len() - from,
{
    if from >= snapshot.len() {
        snapshot.len() as int
    } else if from >= 0 && triage_of(identity, self_pid, snapshot[from]) == Triage::Probe {
        from
    } else {
        next_probe(identity, self_pid, snapshot, from + 1)
    }
}

/// The verdicts on the processes from `from` up to `to`, none of which needs
/// a probe.
pub open spec fn settled_between(
    identity: IdentityView,
    self_pid: i32,
    snapshot: Seq<ProcessView>,
    from: int,
    to: int,
) -> Seq<Option<AuditDecision>> {
    Seq::new((to - from) as nat, |k: int| settled(identity, self_pid, snapshot[from + k]))
}

/// The index of the first mismatch at or after `from`; the number of verdicts
/// if there is none.
pub open spec fn next_mismatch(verdicts: Seq<Option<AuditDecision>>, from: int) -> int
    decreases verdicts.len() - from,
{
    if from >= verdicts.len() {
        verdicts.len() as int
    } else if from >= 0 && verdicts[from] == Some(AuditDecision::Mismatch) {
        from
    } else {
        next_mismatch(verdicts, from + 1)
    }
}

/// The state at the start of a cycle: nothing is known.
pub open spec fn listing(state: EngineView) -> EngineView {
    EngineView {
        phase: Phase::Listing,
        snapshot: Seq::empty(),
        verdicts: Seq::empty(),
        cursor: 0,
        ..state
    }
}

/// The state at the end of a cycle: snapshot and verdicts are dropped.
pub open spec fn resting(state: EngineView) -> EngineView {
    EngineView {
        phase: Phase::Resting,
        snapshot: Seq::empty(),
        verdicts: Seq::empty(),
        cursor: 0,
        ..state
    }
}

/// The state of a new engine.
pub open spec fn initial(identity: IdentityView, self_pid: i32, interval: u64) -> EngineView {
    EngineView {
        identity,
        self_pid,
        interval,
        phase: Phase::Listing,
        snapshot: Seq::empty(),
        verdicts: Seq::empty(),
        cursor: 0,
    }
}

/// Goes on to the first mismatch at or after `from`, or to rest if there is
/// none.
pub open spec fn strike_from(state: EngineView, from: int) -> EngineView {
    let target = next_mismatch(state.verdicts, from);
    if target < state.verdicts.len() {
        EngineView { phase: Phase::Striking, cursor: target, ..state }
    } else {
        resting(state)
    }
}

/// Goes on classifying at `from`: settles what needs no probe, stops at the
/// first process that needs one, and turns to the mismatches when the
/// snapshot is through.
pub open spec fn resume(state: EngineView, from: int) -> EngineView {
    let stop = next_probe(state.identity, state.self_pid, state.snapshot, from);
    let verdicts = state.verdicts + settled_between(
        state.identity,
        state.self_pid,
        state.snapshot,
        from,
        stop,
    );
    if stop < state.snapshot.len() {
        EngineView { phase: Phase::Probing, verdicts, cursor: stop, ..state }
    } else {
        strike_from(EngineView { verdicts, ..state }, 0)
    }
}

/// The state after `event`. An event that the engine does not wait for
/// changes nothing.
pub open spec fn next(state: EngineView, event: EventView) -> EngineView {
    match (state.phase, event) {
        (Phase::Listing, EventView::Snapshot(list)) => resume(
            EngineView { snapshot: list, ..state },
            0,
        ),
        (Phase::Listing, EventView::SnapshotFailed) => resting(state),
        (Phase::Probing, EventView::Fingerprinted(text)) => resume(
            EngineView {
                verdicts: state.verdicts.push(Some(judged(state.identity, Some(text)))),
                ..state
            },
            state.cursor + 1,
        ),
        (Phase::Probing, EventView::FingerprintFailed) => resume(
            EngineView {
                verdicts: state.verdicts.push(Some(judged(state.identity, None))),
                ..state
            },
            state.cursor + 1,
        ),
        (Phase::Striking, EventView::Terminated) => strike_from(state, state.cursor + 1),
        (Phase::Striking, EventView::TerminationFailed) => strike_from(state, state.cursor + 1),
        (Phase::Resting, EventView::Woke) => listing(state),
        _ => state,
    }
}

/// The action that the engine waits on in `state`.
pub open spec fn pending_of(state: EngineView) -> ActionView {
    match state.phase {
        Phase::Listing => ActionView::ListProcesses,
        Phase::Probing => ActionView::Fingerprint {
            process_id: state.snapshot[state.cursor].process_id,
            path: state.snapshot[state.cursor].executable_path.unwrap(),
        },
        Phase::Striking => ActionView::Terminate {
            process_id: state.snapshot[state.cursor].process_id,
        },
        Phase::Resting => ActionView::Sleep { seconds: state.interval },
    }
}

/// What is to be logged when `event` arrives in `state`.
pub open spec fn notice_of(state: EngineView, event: EventView) -> Option<Notice> {
    match (state.phase, event) {
        (Phase::Listing, EventView::SnapshotFailed) => Some(Notice::SnapshotFailed),
        (Phase::Probing, EventView::Fingerprinted(text)) => if judged(state.identity, Some(text))
            == AuditDecision::Mismatch {
            Some(Notice::Mismatch { process_id: state.snapshot[state.cursor].process_id })
        } else {
            None
        },
        (Phase::Probing, EventView::FingerprintFailed) => Some(
            Notice::FingerprintFailed { process_id: state.snapshot[state.cursor].process_id },
        ),
        (Phase::Striking, EventView::Terminated) => Some(
            Notice::Terminated { process_id: state.snapshot[state.cursor].process_id },
        ),
        (Phase::Striking, EventView::TerminationFailed) => Some(
            Notice::TerminationFailed { process_id: state.snapshot[state.cursor].process_id },
        ),
        _ => None,
    }
}

/// Whether a verdict is one that the classification can give for a process.
pub open spec fn verdict_fits(
    identity: IdentityView,
    self_pid: i32,
    process: ProcessView,
    verdict: Option<AuditDecision>,
) -> bool {
    match triage_of(identity, self_pid, process) {
        Triage::Exempt => verdict is None,
        Triage::Settled(decision) => verdict == Some(decision),
        Triage::Probe => verdict == Some(AuditDecision::TrustedByContent) || verdict == Some(
            AuditDecision::Mismatch,
        ) || verdict == Some(AuditDecision::Unknown),
    }
}

/// The invariant of the engine's state.
pub open spec fn well_formed(state: EngineView) -> bool {
    &&& state.interval >= 1
    &&& state.verdicts.len() <= state.snapshot.len()
    &&& forall|i: int|
        0 <= i < state.verdicts.len() ==> verdict_fits(
            state.identity,
            state.self_pid,
            state.snapshot[i],
            #[trigger] state.verdicts[i],
        )
    &&& match state.phase {
        Phase::Listing => state.snapshot.len() == 0 && state.cursor == 0,
        Phase::Resting => state.snapshot.len() == 0 && state.cursor == 0,
        Phase::Probing => {
            &&& 0 <= state.cursor < state.snapshot.len()
            &&& state.verdicts.len() == state.cursor
            &&& triage_of(state.identity, state.self_pid, state.snapshot[state.cursor])
                == Triage::Probe
        },
        Phase::Striking => {
            &&& 0 <= state.cursor < state.snapshot.len()
            &&& state.verdicts.len() == state.snapshot.len()
            &&& state.verdicts[state.cursor] == Some(AuditDecision::Mismatch)
        },
    }
}

/// Whether an action is one that the engine may ask for: no termination of
/// an exempt process, and no reading of an exempt process's executable or of
/// the file at the trusted path.
pub open spec fn action_is_safe(identity: IdentityView, self_pid: i32, action: ActionView) -> bool {
    match action {
        ActionView::Terminate { process_id } => !is_exempt(self_pid, process_id),
        ActionView::Fingerprint { process_id, path } => !is_exempt(self_pid, process_id) && path
            != identity.canonical_path,
        _ => true,
    }
}

/// What a well-formed state waits on is safe; a termination request is for a
/// process that the current cycle found to be a mismatch, and a fingerprint
/// request is for a process whose verdict needs one.
pub proof fn lemma_pending_is_safe(state: EngineView)
    requires
        well_formed(state),
    ensures
        action_is_safe(state.identity, state.self_pid, pending_of(state)),
        pending_of(state) is Terminate ==> {
            &&& state.phase == Phase::Striking
            &&& state.verdicts[state.cursor] == Some(AuditDecision::Mismatch)
            &&& triage_of(state.identity, state.self_pid, state.snapshot[state.cursor])
                == Triage::Probe
        },
        pending_of(state) is Fingerprint ==> {
            &&& state.phase == Phase::Probing
            &&& triage_of(state.identity, state.self_pid, state.snapshot[state.cursor])
                == Triage::Probe
        },
{
}

/// A step changes neither the identity, nor the enforcer's own process id,
/// nor the sleep between cycles.
pub proof fn lemma_next_keeps_settings(state: EngineView, event: EventView)
    ensures
        next(state, event).identity == state.identity,
        next(state, event).self_pid == state.self_pid,
        next(state, event).interval == state.interval,
{
}

/// `next_probe` stays within the snapshot, finds a process that needs a
/// probe if it stops before the end, and passes over none.
pub proof fn lemma_next_probe(
    identity: IdentityView,
    self_pid: i32,
    snapshot: Seq<ProcessView>,
    from: int,
)
    requires
        0 <= from <= snapshot.len(),
    ensures
        from <= next_probe(identity, self_pid, snapshot, from) <= snapshot.len(),
        next_probe(identity, self_pid, snapshot, from) < snapshot.len() ==> triage_of(
            identity,
            self_pid,
            snapshot[next_probe(identity, self_pid, snapshot, from)],
        ) == Triage::Probe,
        forall|i: int|
            from <= i < next_probe(identity, self_pid, snapshot, from) ==> triage_of(
                identity,
                self_pid,
                #[trigger] snapshot[i],
            ) != Triage::Probe,
    decreases snapshot.len() - from,
{
    if from < snapshot.len() && triage_of(identity, self_pid, snapshot[from]) != Triage::Probe {
        lemma_next_probe(identity, self_pid, snapshot, from + 1);
    }
}

/// `next_mismatch` stays within the verdicts, finds a mismatch if it stops
/// before the end, and passes over none.
pub proof fn lemma_next_mismatch(verdicts: Seq<Option<AuditDecision>>, from: int)
    requires
        0 <= from <= verdicts.len(),
    ensures
        from <= next_mismatch(verdicts, from) <= verdicts.len(),
        next_mismatch(verdicts, from) < verdicts.len() ==> verdicts[next_mismatch(verdicts, from)]
            == Some(AuditDecision::Mismatch),
        forall|i: int|
            from <= i < next_mismatch(verdicts, from) ==> #[trigger] verdicts[i] != Some(
                AuditDecision::Mismatch,
            ),
    decreases verdicts.len() - from,
{
    if from < verdicts.len() && verdicts[from] != Some(AuditDecision::Mismatch) {
        lemma_next_mismatch(verdicts, from + 1);
    }
}

/// Turning to the mismatches keeps the invariant.
proof fn lemma_strike_from_well_formed(state: EngineView, from: int)
    requires
        state.interval >= 1,
        state.verdicts.len() == state.snapshot.len(),
        forall|i: int|
            0 <= i < state.verdicts.len() ==> verdict_fits(
                state.identity,
                state.self_pid,
                state.snapshot[i],
                #[trigger] state.verdicts[i],
            ),
        0 <= from <= state.verdicts.len(),
    ensures
        well_formed(strike_from(state, from)),
{
    lemma_next_mismatch(state.verdicts, from);
}

/// Going on with the classification keeps the invariant.
proof fn lemma_resume_well_formed(state: EngineView, from: int)
    requires
        state.interval >= 1,
        state.verdicts.len() == from,
        0 <= from <= state.snapshot.len(),
        forall|i: int|
            0 <= i < state.verdicts.len() ==> verdict_fits(
                state.identity,
                state.self_pid,
                state.snapshot[i],
                #[trigger] state.verdicts[i],
            ),
    ensures
        well_formed(resume(state, from)),
{
    let stop = next_probe(state.identity, state.self_pid, state.snapshot, from);
    lemma_next_probe(state.identity, state.self_pid, state.snapshot, from);
    let verdicts = state.verdicts + settled_between(
        state.identity,
        state.self_pid,
        state.snapshot,
        from,
        stop,
    );
    assert forall|i: int| 0 <= i < verdicts.len() implies verdict_fits(
        state.identity,
        state.self_pid,
        state.snapshot[i],
        #[trigger] verdicts[i],
    ) by {}
    if stop >= state.snapshot.len() {
        lemma_strike_from_well_formed(EngineView { verdicts, ..state }, 0);
    }
}

/// Every step keeps the invariant of the engine's state.
pub proof fn lemma_next_well_formed(state: EngineView, event: EventView)
    requires
        well_formed(state),
    ensures
        well_formed(next(state, event)),
{
    match (state.phase, event) {
        (Phase::Listing, EventView::Snapshot(list)) => {
            lemma_resume_well_formed(EngineView { snapshot: list, ..state }, 0);
        },
        (Phase::Probing, EventView::Fingerprinted(text)) => {
            let after = EngineView {
                verdicts: state.verdicts.push(Some(judged(state.identity, Some(text)))),
                ..state
            };
            assert forall|i: int| 0 <= i < after.verdicts.len() implies verdict_fits(
                after.identity,
                after.self_pid,
                after.snapshot[i],
                #[trigger] after.verdicts[i],
            ) by {}
            lemma_resume_well_formed(after, state.cursor + 1);
        },
        (Phase::Probing, EventView::FingerprintFailed) => {
            let after = EngineView {
                verdicts: state.verdicts.push(Some(judged(state.identity, None))),
                ..state
            };
            assert forall|i: int| 0 <= i < after.verdicts.len() implies verdict_fits(
                after.identity,
                after.self_pid,
                after.snapshot[i],
                #[trigger] after.verdicts[i],
            ) by {}
            lemma_resume_well_formed(after, state.cursor + 1);
        },
        (Phase::Striking, EventView::Terminated) => {
            lemma_strike_from_well_formed(state, state.cursor + 1);
        },
        (Phase::Striking, EventView::TerminationFailed) => {
            lemma_strike_from_well_formed(state, state.cursor + 1);
        },
        _ => {},
    }
}

/// Gives the processes from `from` on their verdicts as long as none needs a
/// probe, and says where it stopped.
fn settle(
    identity: &TrustedIdentity,
    self_pid: i32,
    snapshot: &Vec<ObservedProcess>,
    verdicts: &mut Vec<Option<AuditDecision>>,
    from: usize,
) -> (stop: usize)
    requires
        old(verdicts)@.len() == from,
        from <= snapshot@.len(),
    ensures
        stop == next_probe(identity@, self_pid, snapshot_view(snapshot@), from as int),
        from <= stop <= snapshot@.len(),
        final(verdicts)@ == old(verdicts)@ + settled_between(
            identity@,
            self_pid,
            snapshot_view(snapshot@),
            from as int,
            stop as int,
        ),
{
    let ghost processes = snapshot_view(snapshot@);
    let mut at: usize = from;
    while at < snapshot.len()
        invariant
            from <= at <= snapshot@.len(),
            processes == snapshot_view(snapshot@),
            next_probe(identity@, self_pid, processes, from as int) == next_probe(
                identity@,
                self_pid,
                processes,
                at as int,
            ),
            verdicts@ == old(verdicts)@ + settled_between(
                identity@,
                self_pid,
                processes,
                from as int,
                at as int,
            ),
        decreases snapshot@.len() - at,
    {
        match triage(identity, self_pid, &snapshot[at]) {
            Triage::Probe => {
                return at;
            },
            Triage::Exempt => {
                verdicts.push(None);
            },
            Triage::Settled(decision) => {
                verdicts.push(Some(decision));
            },
        }
        at = at + 1;
    }
    at
}

/// The index of the first mismatch at or after `from`.
fn find_mismatch(verdicts: &Vec<Option<AuditDecision>>, from: usize) -> (target: usize)
    requires
        from <= verdicts@.len(),
    ensures
        target == next_mismatch(verdicts@, from as int),
        from <= target <= verdicts@.len(),
{
    let mut at: usize = from;
    while at < verdicts.len()
        invariant
            from <= at <= verdicts@.len(),
            next_mismatch(verdicts@, from as int) == next_mismatch(verdicts@, at as int),
        decreases verdicts@.len() - at,
    {
        match verdicts[at] {
            Some(decision) => {
                if decision.calls_for_termination() {
                    return at;
                }
            },
            None => {},
        }
        at = at + 1;
    }
    at
}

/// The audit loop's state: the trusted identity, the enforcer's own process
/// id, the sleep between cycles, and what the current cycle has found so far.
#[derive(Debug)]
pub struct Engine {
    identity: TrustedIdentity,
    self_pid: i32,
    interval: u64,
    phase: Phase,
    snapshot: Vec<ObservedProcess>,
    verdicts: Vec<Option<AuditDecision>>,
    cursor: usize,
}

impl View for Engine {
    type V = EngineView;

    closed spec fn view(&self) -> EngineView {
        EngineView {
            identity: self.identity@,
            self_pid: self.self_pid,
            interval: self.interval,
            phase: self.phase,
            snapshot: snapshot_view(self.snapshot@),
            verdicts: self.verdicts@,
            cursor: self.cursor as int,
        }
    }
}

impl Engine {
    /// The invariant that every engine made by `new` and moved by `step`
    /// satisfies.
    pub open spec fn wf(&self) -> bool {
        well_formed(self@)
    }

    /// An engine at the start of its first cycle. It trusts `identity`, leaves
    /// `self_pid` alone and sleeps `poll_interval_seconds` between cycles, or
    /// the default where that is zero.
    pub fn new(identity: TrustedIdentity, self_pid: i32, poll_interval_seconds: u64) -> (engine:
        Engine)
        ensures
            engine.wf(),
            engine@ == initial(identity@, self_pid, poll_interval_of(Some(poll_interval_seconds))),
    {
        Engine {
            identity,
            self_pid,
            interval: poll_interval(Some(poll_interval_seconds)),
            phase: Phase::Listing,
            snapshot: Vec::new(),
            verdicts: Vec::new(),
            cursor: 0,
        }
    }

    /// The identity that the engine trusts.
    pub fn identity(&self) -> (identity: &TrustedIdentity)
        ensures
            identity@ == self@.identity,
    {
        &self.identity
    }

    /// What the engine waits for.
    pub fn phase(&self) -> (phase: Phase)
        ensures
            phase == self@.phase,
    {
        self.phase
    }

    /// The action that the engine waits on: the one to perform next.
    pub fn pending(&self) -> (action: Action)
        requires
            self.wf(),
        ensures
            action@ == pending_of(self@),
            action_is_safe(self@.identity, self@.self_pid, action@),
    {
        proof {
            lemma_pending_is_safe(self@);
        }
        match self.phase {
            Phase::Listing => Action::ListProcesses,
            Phase::Probing => {
                let process = &self.snapshot[self.cursor];
                match &process.executable_path {
                    Some(path) => Action::Fingerprint {
                        process_id: process.process_id,
                        path: path.clone(),
                    },
                    // Never taken: a process under probe has a path.
                    None => Action::ListProcesses,
                }
            },
            Phase::Striking => {
                let process = &self.snapshot[self.cursor];
                Action::Terminate { process_id: process.process_id }
            },
            Phase::Resting => Action::Sleep { seconds: self.interval },
        }
    }

    /// Drops what the cycle has found and waits for the sleep to end.
    fn rest(&mut self)
        ensures
            final(self)@ == resting(old(self)@),
    {
        self.phase = Phase::Resting;
        self.snapshot = Vec::new();
        self.verdicts = Vec::new();
        self.cursor = 0;
    }

    /// Turns to the first mismatch at or after `from`.
    fn strike(&mut self, from: usize)
        requires
            from <= old(self).verdicts@.len(),
        ensures
            final(self)@ == strike_from(old(self)@, from as int),
    {
        let target = find_mismatch(&self.verdicts, from);
        if target < self.verdicts.len() {
            self.phase = Phase::Striking;
            self.cursor = target;
        } else {
            self.rest();
        }
    }

    /// Goes on classifying at `from`.
    fn classify(&mut self, from: usize)
        requires
            old(self).verdicts@.len() == from,
            from <= old(self).snapshot@.len(),
        ensures
            final(self)@ == resume(old(self)@, from as int),
    {
        let stop = settle(&self.identity, self.self_pid, &self.snapshot, &mut self.verdicts, from);
        if stop < self.snapshot.len() {
            self.phase = Phase::Probing;
            self.cursor = stop;
        } else {
            self.strike(0);
        }
    }

    /// What is to be logged when `event` arrives.
    fn notice(&self, event: &Event) -> (notice: Option<Notice>)
        requires
            self.wf(),
        ensures
            notice == notice_of(self@, event@),
    {
        match self.phase {
            Phase::Listing => match event {
                Event::SnapshotFailed => Some(Notice::SnapshotFailed),
                _ => None,
            },
            Phase::Probing => {
                let process = &self.snapshot[self.cursor];
                match event {
                    Event::Fingerprinted(text) => {
                        if *text == *self.identity.content_fingerprint() {
                            None
                        } else {
                            Some(Notice::Mismatch { process_id: process.process_id })
                        }
                    },
                    Event::FingerprintFailed => Some(
                        Notice::FingerprintFailed { process_id: process.process_id },
                    ),
                    _ => None,
                }
            },
            Phase::Striking => {
                let process = &self.snapshot[self.cursor];
                match event {
                    Event::Terminated => Some(
                        Notice::Terminated { process_id: process.process_id },
                    ),
                    Event::TerminationFailed => Some(
                        Notice::TerminationFailed { process_id: process.process_id },
                    ),
                    _ => None,
                }
            },
            Phase::Resting => None,
        }
    }

    /// Takes in what happened and says what to do next.
    ///
    /// The new state is `next` of the old state and the event, the action is
    /// the one that the new state waits on, and the notice says what to log
    /// about the event. An event that the engine did not wait for changes
    /// nothing: the action that was pending is given again. Whatever the
    /// events, the action is never the termination of the root supervisor or
    /// of the enforcer itself, nor the reading of the file at the trusted
    /// path.
    pub fn step(&mut self, event: Event) -> (taken: Step)
        requires
            old(self).wf(),
        ensures
            final(self).wf(),
            final(self)@ == next(old(self)@, event@),
            taken.action@ == pending_of(final(self)@),
            taken.notice == notice_of(old(self)@, event@),
            action_is_safe(old(self)@.identity, old(self)@.self_pid, taken.action@),
    {
        let notice = self.notice(&event);
        proof {
            lemma_next_well_formed(self@, event@);
            lemma_pending_is_safe(next(self@, event@));
            // The cursor is below the snapshot's length, so it can go one up.
            assert(self@.snapshot.len() == self.snapshot.len());
        }
        match self.phase {
            Phase::Listing => match event {
                Event::Snapshot(list) => {
                    self.snapshot = list;
                    self.classify(0);
                },
                Event::SnapshotFailed => {
                    self.rest();
                },
                _ => {},
            },
            Phase::Probing => match event {
                Event::Fingerprinted(text) => {
                    let decision = judge(&self.identity, &Some(text));
                    self.verdicts.push(Some(decision));
                    let from = self.cursor + 1;
                    self.classify(from);
                },
                Event::FingerprintFailed => {
                    let decision = judge(&self.identity, &None);
                    self.verdicts.push(Some(decision));
                    let from = self.cursor + 1;
                    self.classify(from);
                },
                _ => {},
            },
            Phase::Striking => match event {
                Event::Terminated => {
                    let from = self.cursor + 1;
                    self.strike(from);
                },
                Event::TerminationFailed => {
                    let from = self.cursor + 1;
                    self.strike(from);
                },
                _ => {},
            },
            Phase::Resting => match event {
                Event::Woke => {
                    self.phase = Phase::Listing;
                },
                _ => {},
            },
        }
        let action = self.pending();
        Step { action, notice }
    }
}

} // verus!
