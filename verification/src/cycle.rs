//! What the engine does over a whole cycle, whatever the system answers.

use vstd::prelude::*;
use crate::audit::{
    decision_of, is_exempt, judged, triage_of, AuditDecision, ProcessView, Triage,
};
use crate::engine::{
    action_is_safe, lemma_next_keeps_settings, lemma_next_mismatch, lemma_next_probe,
    lemma_next_well_formed, lemma_pending_is_safe, next, next_probe, notice_of, pending_of,
    resting, resume, settled_between, strike_from, well_formed, ActionView, EngineView,
    EventView, Phase,
};
use crate::identity::IdentityView;
use crate::notice::{ErrorClass, Notice, Response};

verus! {

/// The state after a sequence of events.
pub open spec fn run(state: EngineView, events: Seq<EventView>) -> EngineView
    decreases events.len(),
{
    if events.len() == 0 {
        state
    } else {
        run(next(state, events.first()), events.drop_first())
    }
}

/// The actions that the engine asks for in answer to a sequence of events,
/// one after each event.
pub open spec fn trace(state: EngineView, events: Seq<EventView>) -> Seq<ActionView>
    decreases events.len(),
{
    if events.len() == 0 {
        Seq::empty()
    } else {
        seq![pending_of(next(state, events.first()))] + trace(
            next(state, events.first()),
            events.drop_first(),
        )
    }
}

/// The event that reports what a probe gave: a fingerprint, or nothing where
/// the executable could not be read.
pub open spec fn probe_answer(probe: Option<Seq<char>>) -> EventView {
    match probe {
        Some(text) => EventView::Fingerprinted(text),
        None => EventView::FingerprintFailed,
    }
}

/// The event that reports whether a termination request was delivered.
pub open spec fn kill_answer(delivered: bool) -> EventView {
    if delivered {
        EventView::Terminated
    } else {
        EventView::TerminationFailed
    }
}

/// Whether the executable of a process is read at all: the process is not
/// exempt, its path is known and is not the trusted path.
pub open spec fn needs_probe(identity: IdentityView, self_pid: i32, process: ProcessView) -> bool {
    triage_of(identity, self_pid, process) == Triage::Probe
}

/// The verdict on a process, given what a probe of its executable gives:
/// none for an exempt process, else the decision on it.
pub open spec fn verdict_with(
    identity: IdentityView,
    self_pid: i32,
    process: ProcessView,
    probe: Option<Seq<char>>,
) -> Option<AuditDecision> {
    if is_exempt(self_pid, process.process_id) {
        None
    } else {
        Some(decision_of(identity, process, probe))
    }
}

/// Whether a process is to be terminated, given what a probe of its
/// executable gives: its verdict is a mismatch.
pub open spec fn condemned(
    identity: IdentityView,
    self_pid: i32,
    process: ProcessView,
    probe: Option<Seq<char>>,
) -> bool {
    verdict_with(identity, self_pid, process, probe) == Some(AuditDecision::Mismatch)
}

/// The verdicts on a snapshot, given what the probes give.
pub open spec fn verdicts_with(
    identity: IdentityView,
    self_pid: i32,
    snapshot: Seq<ProcessView>,
    probes: Seq<Option<Seq<char>>>,
) -> Seq<Option<AuditDecision>> {
    Seq::new(snapshot.len(), |i: int| verdict_with(identity, self_pid, snapshot[i], probes[i]))
}

/// The fingerprint requests of a cycle for the processes from `from` on: one
/// for each process whose executable is read, in the snapshot's order.
pub open spec fn probe_requests(
    identity: IdentityView,
    self_pid: i32,
    snapshot: Seq<ProcessView>,
    from: int,
) -> Seq<ActionView>
    decreases snapshot.len() - from,
{
    if from < 0 || from >= snapshot.len() {
        Seq::empty()
    } else if needs_probe(identity, self_pid, snapshot[from]) {
        seq![
            ActionView::Fingerprint {
                process_id: snapshot[from].process_id,
                path: snapshot[from].executable_path.unwrap(),
            },
        ] + probe_requests(identity, self_pid, snapshot, from + 1)
    } else {
        probe_requests(identity, self_pid, snapshot, from + 1)
    }
}

/// The answers to the fingerprint requests for the processes from `from` on.
pub open spec fn probe_answers(
    identity: IdentityView,
    self_pid: i32,
    snapshot: Seq<ProcessView>,
    probes: Seq<Option<Seq<char>>>,
    from: int,
) -> Seq<EventView>
    decreases snapshot.len() - from,
{
    if from < 0 || from >= snapshot.len() {
        Seq::empty()
    } else if needs_probe(identity, self_pid, snapshot[from]) {
        seq![probe_answer(probes[from])] + probe_answers(
            identity,
            self_pid,
            snapshot,
            probes,
            from + 1,
        )
    } else {
        probe_answers(identity, self_pid, snapshot, probes, from + 1)
    }
}

/// The termination requests of a cycle for the processes from `from` on: one
/// for each condemned process, in the snapshot's order.
pub open spec fn termination_requests(
    identity: IdentityView,
    self_pid: i32,
    snapshot: Seq<ProcessView>,
    probes: Seq<Option<Seq<char>>>,
    from: int,
) -> Seq<ActionView>
    decreases snapshot.len() - from,
{
    if from < 0 || from >= snapshot.len() {
        Seq::empty()
    } else if condemned(identity, self_pid, snapshot[from], probes[from]) {
        seq![ActionView::Terminate { process_id: snapshot[from].process_id }]
            + termination_requests(identity, self_pid, snapshot, probes, from + 1)
    } else {
        termination_requests(identity, self_pid, snapshot, probes, from + 1)
    }
}

/// The answers to the termination requests for the processes from `from` on.
pub open spec fn termination_answers(
    identity: IdentityView,
    self_pid: i32,
    snapshot: Seq<ProcessView>,
    probes: Seq<Option<Seq<char>>>,
    kills: Seq<bool>,
    from: int,
) -> Seq<EventView>
    decreases snapshot.len() - from,
{
    if from < 0 || from >= snapshot.len() {
        Seq::empty()
    } else if condemned(identity, self_pid, snapshot[from], probes[from]) {
        seq![kill_answer(kills[from])] + termination_answers(
            identity,
            self_pid,
            snapshot,
            probes,
            kills,
            from + 1,
        )
    } else {
        termination_answers(identity, self_pid, snapshot, probes, kills, from + 1)
    }
}

/// The events of a cycle in which the snapshot could be taken: the snapshot,
/// then the answer to each fingerprint request, then the answer to each
/// termination request. `probes[i]` is what reading the executable of the
/// process at `i` gives, `kills[i]` whether its termination is delivered.
pub open spec fn cycle_events(
    identity: IdentityView,
    self_pid: i32,
    snapshot: Seq<ProcessView>,
    probes: Seq<Option<Seq<char>>>,
    kills: Seq<bool>,
) -> Seq<EventView> {
    seq![EventView::Snapshot(snapshot)] + probe_answers(identity, self_pid, snapshot, probes, 0)
        + termination_answers(identity, self_pid, snapshot, probes, kills, 0)
}

/// The first event of a sequence is taken first, the others after it.
proof fn lemma_unfold(state: EngineView, event: EventView, rest: Seq<EventView>)
    ensures
        run(state, seq![event] + rest) == run(next(state, event), rest),
        trace(state, seq![event] + rest) == seq![pending_of(next(state, event))] + trace(
            next(state, event),
            rest,
        ),
{
    assert((seq![event] + rest).drop_first() =~= rest);
}

/// A sequence of events can be taken in two parts.
proof fn lemma_split(state: EngineView, first: Seq<EventView>, second: Seq<EventView>)
    ensures
        run(state, first + second) == run(run(state, first), second),
        trace(state, first + second) == trace(state, first) + trace(run(state, first), second),
    decreases first.len(),
{
    if first.len() > 0 {
        assert((first + second).drop_first() =~= first.drop_first() + second);
        lemma_split(next(state, first.first()), first.drop_first(), second);
    }
}

/// A state with the full verdicts of a snapshot.
spec fn judged_state(
    base: EngineView,
    snapshot: Seq<ProcessView>,
    probes: Seq<Option<Seq<char>>>,
) -> EngineView {
    EngineView {
        snapshot,
        verdicts: verdicts_with(base.identity, base.self_pid, snapshot, probes),
        ..base
    }
}

/// A state with the verdicts of the first `upto` processes of a snapshot.
spec fn half_judged_state(
    base: EngineView,
    snapshot: Seq<ProcessView>,
    probes: Seq<Option<Seq<char>>>,
    upto: int,
) -> EngineView {
    EngineView {
        snapshot,
        verdicts: verdicts_with(base.identity, base.self_pid, snapshot, probes).take(upto),
        ..base
    }
}

/// From the turn to the mismatches on, the engine asks for the termination
/// of each condemned process from `from` on, then for sleep, and rests.
proof fn lemma_striking(
    base: EngineView,
    snapshot: Seq<ProcessView>,
    probes: Seq<Option<Seq<char>>>,
    kills: Seq<bool>,
    from: int,
)
    requires
        probes.len() == snapshot.len(),
        kills.len() == snapshot.len(),
        0 <= from <= snapshot.len(),
    ensures
        ({
            let state = strike_from(judged_state(base, snapshot, probes), from);
            let answers = termination_answers(
                base.identity,
                base.self_pid,
                snapshot,
                probes,
                kills,
                from,
            );
            &&& seq![pending_of(state)] + trace(state, answers) == termination_requests(
                base.identity,
                base.self_pid,
                snapshot,
                probes,
                from,
            ) + seq![ActionView::Sleep { seconds: base.interval }]
            &&& run(state, answers) == resting(base)
        }),
    decreases snapshot.len() - from,
{
    let identity = base.identity;
    let self_pid = base.self_pid;
    let state = strike_from(judged_state(base, snapshot, probes), from);
    if from < snapshot.len() {
        lemma_striking(base, snapshot, probes, kills, from + 1);
        if condemned(identity, self_pid, snapshot[from], probes[from]) {
            // The engine waits on the termination of the process at `from`;
            // the answer takes it to the first mismatch behind that process.
            lemma_unfold(
                state,
                kill_answer(kills[from]),
                termination_answers(identity, self_pid, snapshot, probes, kills, from + 1),
            );
            assert(seq![pending_of(state)] + trace(
                state,
                termination_answers(identity, self_pid, snapshot, probes, kills, from),
            ) =~= termination_requests(identity, self_pid, snapshot, probes, from) + seq![
                ActionView::Sleep { seconds: base.interval },
            ]);
        }
        // Else the process at `from` is passed over, by the engine as by
        // the requests and the answers.

    }
}

/// Classification from the process at `from` on ends with the verdicts of
/// the whole snapshot.
proof fn lemma_classified(
    base: EngineView,
    snapshot: Seq<ProcessView>,
    probes: Seq<Option<Seq<char>>>,
    from: int,
)
    requires
        probes.len() == snapshot.len(),
        0 <= from <= snapshot.len(),
    ensures
        ({
            let state = resume(half_judged_state(base, snapshot, probes, from), from);
            let answers = probe_answers(base.identity, base.self_pid, snapshot, probes, from);
            let turned = strike_from(judged_state(base, snapshot, probes), 0);
            &&& run(state, answers) == turned
            &&& seq![pending_of(state)] + trace(state, answers) == probe_requests(
                base.identity,
                base.self_pid,
                snapshot,
                from,
            ) + seq![pending_of(turned)]
        }),
    decreases snapshot.len() - from,
{
    let identity = base.identity;
    let self_pid = base.self_pid;
    let all = verdicts_with(identity, self_pid, snapshot, probes);
    let half = half_judged_state(base, snapshot, probes, from);
    let state = resume(half, from);
    if from == snapshot.len() {
        // Nothing is left to classify: the verdicts are complete.
        assert(half.verdicts + settled_between(identity, self_pid, snapshot, from, from) =~= all);
    } else {
        lemma_classified(base, snapshot, probes, from + 1);
        lemma_next_probe(identity, self_pid, snapshot, from + 1);
        let later_half = half_judged_state(base, snapshot, probes, from + 1);
        if needs_probe(identity, self_pid, snapshot[from]) {
            // The engine waits on the fingerprint of the process at `from`;
            // the answer gives that process its verdict.
            let told = state.verdicts.push(Some(judged(identity, probes[from])));
            assert(told =~= later_half.verdicts);
            lemma_unfold(
                state,
                probe_answer(probes[from]),
                probe_answers(identity, self_pid, snapshot, probes, from + 1),
            );
            assert(seq![pending_of(state)] + trace(
                state,
                probe_answers(identity, self_pid, snapshot, probes, from),
            ) =~= probe_requests(identity, self_pid, snapshot, from) + seq![
                pending_of(strike_from(judged_state(base, snapshot, probes), 0)),
            ]);
        } else {
            // The process at `from` is settled without a probe, on the way
            // to the next process that needs one.
            let stop = next_probe(identity, self_pid, snapshot, from);
            assert(half.verdicts + settled_between(identity, self_pid, snapshot, from, stop)
                =~= later_half.verdicts + settled_between(
                identity,
                self_pid,
                snapshot,
                from + 1,
                stop,
            ));
        }
    }
}

/// Every process of a snapshot gets exactly one verdict in a cycle, and the
/// verdict depends on nothing but the identity, the process and what the
/// probe of its executable gave: when the last fingerprint has come in, the
/// engine holds the verdicts that `verdicts_with` gives and turns to the
/// first mismatch, or to rest if there is none.
pub proof fn law_every_process_gets_its_verdict(
    start: EngineView,
    snapshot: Seq<ProcessView>,
    probes: Seq<Option<Seq<char>>>,
)
    requires
        well_formed(start),
        start.phase == Phase::Listing,
        probes.len() == snapshot.len(),
    ensures
        run(
            start,
            seq![EventView::Snapshot(snapshot)] + probe_answers(
                start.identity,
                start.self_pid,
                snapshot,
                probes,
                0,
            ),
        ) == strike_from(
            EngineView {
                snapshot,
                verdicts: verdicts_with(start.identity, start.self_pid, snapshot, probes),
                ..start
            },
            0,
        ),
{
    lemma_classified(start, snapshot, probes, 0);
    lemma_unfold(
        start,
        EventView::Snapshot(snapshot),
        probe_answers(start.identity, start.self_pid, snapshot, probes, 0),
    );
}

/// Whatever events arrive, in whatever order, the engine stays well-formed,
/// and no action that it asks for is the termination of the root supervisor
/// or of the enforcer itself, nor the reading of the file at the trusted path.
pub proof fn law_every_action_is_safe(start: EngineView, events: Seq<EventView>)
    requires
        well_formed(start),
    ensures
        well_formed(run(start, events)),
        trace(start, events).len() == events.len(),
        forall|k: int|
            0 <= k < events.len() ==> action_is_safe(
                start.identity,
                start.self_pid,
                #[trigger] trace(start, events)[k],
            ),
    decreases events.len(),
{
    if events.len() > 0 {
        let after = next(start, events.first());
        lemma_next_well_formed(start, events.first());
        lemma_next_keeps_settings(start, events.first());
        lemma_pending_is_safe(after);
        law_every_action_is_safe(after, events.drop_first());
        assert forall|k: int| 0 <= k < events.len() implies action_is_safe(
            start.identity,
            start.self_pid,
            #[trigger] trace(start, events)[k],
        ) by {}
    }
}

/// Whatever events arrive, the engine trusts the identity that it was made
/// with, leaves the same process alone as its own, and sleeps as long
/// between cycles: none of them is ever changed.
pub proof fn law_identity_never_changes(start: EngineView, events: Seq<EventView>)
    ensures
        run(start, events).identity == start.identity,
        run(start, events).self_pid == start.self_pid,
        run(start, events).interval == start.interval,
    decreases events.len(),
{
    if events.len() > 0 {
        lemma_next_keeps_settings(start, events.first());
        law_identity_never_changes(next(start, events.first()), events.drop_first());
    }
}

/// One whole cycle: whatever the snapshot holds and whatever the probes and
/// the termination requests give, the engine asks for the fingerprint of
/// each process whose executable is read, then for the termination of each
/// condemned process, each once and in the snapshot's order, then for sleep.
/// It asks for nothing else, and it ends the cycle at rest, with nothing kept.
pub proof fn law_cycle(
    start: EngineView,
    snapshot: Seq<ProcessView>,
    probes: Seq<Option<Seq<char>>>,
    kills: Seq<bool>,
)
    requires
        well_formed(start),
        start.phase == Phase::Listing,
        probes.len() == snapshot.len(),
        kills.len() == snapshot.len(),
    ensures
        trace(start, cycle_events(start.identity, start.self_pid, snapshot, probes, kills))
            == probe_requests(start.identity, start.self_pid, snapshot, 0) + termination_requests(
            start.identity,
            start.self_pid,
            snapshot,
            probes,
            0,
        ) + seq![ActionView::Sleep { seconds: start.interval }],
        run(start, cycle_events(start.identity, start.self_pid, snapshot, probes, kills))
            == resting(start),
{
    let identity = start.identity;
    let self_pid = start.self_pid;
    let state = resume(half_judged_state(start, snapshot, probes, 0), 0);
    let turned = strike_from(judged_state(start, snapshot, probes), 0);
    let probing = probe_answers(identity, self_pid, snapshot, probes, 0);
    let striking = termination_answers(identity, self_pid, snapshot, probes, kills, 0);
    let event = EventView::Snapshot(snapshot);
    // The snapshot starts the classification, the classification ends at the
    // turn to the mismatches, and from there the engine strikes and rests.
    lemma_unfold(start, event, probing + striking);
    lemma_classified(start, snapshot, probes, 0);
    lemma_split(state, probing, striking);
    lemma_striking(start, snapshot, probes, kills, 0);
    assert(cycle_events(identity, self_pid, snapshot, probes, kills) =~= seq![event] + (probing
        + striking));
    let requests = probe_requests(identity, self_pid, snapshot, 0);
    assert(trace(start, seq![event] + (probing + striking)) =~= requests + termination_requests(
        identity,
        self_pid,
        snapshot,
        probes,
        0,
    ) + seq![ActionView::Sleep { seconds: start.interval }]) by {
        assert(seq![pending_of(state)] + trace(state, probing) + trace(turned, striking)
            =~= seq![pending_of(state)] + (trace(state, probing) + trace(turned, striking)));
        assert(requests + seq![pending_of(turned)] + trace(turned, striking) =~= requests + (seq![
            pending_of(turned),
        ] + trace(turned, striking)));
    }
}

/// How often `action` stands in `actions`.
pub open spec fn occurrences(actions: Seq<ActionView>, action: ActionView) -> nat
    decreases actions.len(),
{
    if actions.len() == 0 {
        0
    } else if actions.first() == action {
        1 + occurrences(actions.drop_first(), action)
    } else {
        occurrences(actions.drop_first(), action)
    }
}

/// How many entries of the snapshot from `from` on have the process id
/// `process_id` and are condemned.
pub open spec fn condemned_entries(
    identity: IdentityView,
    self_pid: i32,
    snapshot: Seq<ProcessView>,
    probes: Seq<Option<Seq<char>>>,
    process_id: i32,
    from: int,
) -> nat
    decreases snapshot.len() - from,
{
    if from < 0 || from >= snapshot.len() {
        0
    } else if snapshot[from].process_id == process_id && condemned(
        identity,
        self_pid,
        snapshot[from],
        probes[from],
    ) {
        1 + condemned_entries(identity, self_pid, snapshot, probes, process_id, from + 1)
    } else {
        condemned_entries(identity, self_pid, snapshot, probes, process_id, from + 1)
    }
}

/// Occurrences add up over a concatenation.
proof fn lemma_occurrences_add(first: Seq<ActionView>, second: Seq<ActionView>, action: ActionView)
    ensures
        occurrences(first + second, action) == occurrences(first, action) + occurrences(
            second,
            action,
        ),
    decreases first.len(),
{
    if first.len() > 0 {
        assert((first + second).drop_first() =~= first.drop_first() + second);
        lemma_occurrences_add(first.drop_first(), second, action);
    }
}

/// No fingerprint request is a termination request.
proof fn lemma_no_termination_among_probes(
    identity: IdentityView,
    self_pid: i32,
    snapshot: Seq<ProcessView>,
    process_id: i32,
    from: int,
)
    ensures
        occurrences(
            probe_requests(identity, self_pid, snapshot, from),
            ActionView::Terminate { process_id },
        ) == 0,
    decreases snapshot.len() - from,
{
    if 0 <= from < snapshot.len() {
        lemma_no_termination_among_probes(identity, self_pid, snapshot, process_id, from + 1);
        if needs_probe(identity, self_pid, snapshot[from]) {
            assert(probe_requests(identity, self_pid, snapshot, from).drop_first()
                =~= probe_requests(identity, self_pid, snapshot, from + 1));
        }
    }
}

/// The termination requests for a process id are as many as the condemned
/// entries with that id.
proof fn lemma_terminations_counted(
    identity: IdentityView,
    self_pid: i32,
    snapshot: Seq<ProcessView>,
    probes: Seq<Option<Seq<char>>>,
    process_id: i32,
    from: int,
)
    ensures
        occurrences(
            termination_requests(identity, self_pid, snapshot, probes, from),
            ActionView::Terminate { process_id },
        ) == condemned_entries(identity, self_pid, snapshot, probes, process_id, from),
    decreases snapshot.len() - from,
{
    if 0 <= from < snapshot.len() {
        lemma_terminations_counted(identity, self_pid, snapshot, probes, process_id, from + 1);
        if condemned(identity, self_pid, snapshot[from], probes[from]) {
            assert(termination_requests(identity, self_pid, snapshot, probes, from).drop_first()
                =~= termination_requests(identity, self_pid, snapshot, probes, from + 1));
        }
    }
}

/// In one cycle the engine asks for the termination of a process id exactly
/// as often as the snapshot holds a condemned entry with that id: once for a
/// process that is listed once and condemned, never for one that is not
/// condemned.
pub proof fn law_one_termination_request_per_condemned_process(
    start: EngineView,
    snapshot: Seq<ProcessView>,
    probes: Seq<Option<Seq<char>>>,
    kills: Seq<bool>,
    process_id: i32,
)
    requires
        well_formed(start),
        start.phase == Phase::Listing,
        probes.len() == snapshot.len(),
        kills.len() == snapshot.len(),
    ensures
        occurrences(
            trace(start, cycle_events(start.identity, start.self_pid, snapshot, probes, kills)),
            ActionView::Terminate { process_id },
        ) == condemned_entries(start.identity, start.self_pid, snapshot, probes, process_id, 0),
        is_exempt(start.self_pid, process_id) ==> condemned_entries(
            start.identity,
            start.self_pid,
            snapshot,
            probes,
            process_id,
            0,
        ) == 0,
{
    let identity = start.identity;
    let self_pid = start.self_pid;
    let wanted = ActionView::Terminate { process_id };
    let probing = probe_requests(identity, self_pid, snapshot, 0);
    let striking = termination_requests(identity, self_pid, snapshot, probes, 0);
    let sleep = seq![ActionView::Sleep { seconds: start.interval }];
    law_cycle(start, snapshot, probes, kills);
    lemma_occurrences_add(probing + striking, sleep, wanted);
    lemma_occurrences_add(probing, striking, wanted);
    lemma_no_termination_among_probes(identity, self_pid, snapshot, process_id, 0);
    lemma_terminations_counted(identity, self_pid, snapshot, probes, process_id, 0);
    assert(occurrences(sleep, wanted) == 0) by {
        reveal_with_fuel(occurrences, 2);
    }
    if is_exempt(self_pid, process_id) {
        lemma_exempt_has_no_condemned_entry(identity, self_pid, snapshot, probes, process_id, 0);
    }
}

/// An exempt process id has no condemned entry.
proof fn lemma_exempt_has_no_condemned_entry(
    identity: IdentityView,
    self_pid: i32,
    snapshot: Seq<ProcessView>,
    probes: Seq<Option<Seq<char>>>,
    process_id: i32,
    from: int,
)
    requires
        is_exempt(self_pid, process_id),
    ensures
        condemned_entries(identity, self_pid, snapshot, probes, process_id, from) == 0,
    decreases snapshot.len() - from,
{
    if 0 <= from < snapshot.len() {
        lemma_exempt_has_no_condemned_entry(
            identity,
            self_pid,
            snapshot,
            probes,
            process_id,
            from + 1,
        );
    }
}

/// How many entries of the snapshot from `from` on have the process id
/// `process_id` and the executable `path`, and have their executable read.
pub open spec fn probed_entries(
    identity: IdentityView,
    self_pid: i32,
    snapshot: Seq<ProcessView>,
    process_id: i32,
    path: Seq<char>,
    from: int,
) -> nat
    decreases snapshot.len() - from,
{
    if from < 0 || from >= snapshot.len() {
        0
    } else if snapshot[from].process_id == process_id && snapshot[from].executable_path == Some(
        path,
    ) && needs_probe(identity, self_pid, snapshot[from]) {
        1 + probed_entries(identity, self_pid, snapshot, process_id, path, from + 1)
    } else {
        probed_entries(identity, self_pid, snapshot, process_id, path, from + 1)
    }
}

/// The fingerprint requests for a process id and a path are as many as the
/// entries with that id and that path whose executable is read.
proof fn lemma_probes_counted(
    identity: IdentityView,
    self_pid: i32,
    snapshot: Seq<ProcessView>,
    process_id: i32,
    path: Seq<char>,
    from: int,
)
    ensures
        occurrences(
            probe_requests(identity, self_pid, snapshot, from),
            ActionView::Fingerprint { process_id, path },
        ) == probed_entries(identity, self_pid, snapshot, process_id, path, from),
    decreases snapshot.len() - from,
{
    if 0 <= from < snapshot.len() {
        lemma_probes_counted(identity, self_pid, snapshot, process_id, path, from + 1);
        if needs_probe(identity, self_pid, snapshot[from]) {
            assert(probe_requests(identity, self_pid, snapshot, from).drop_first()
                =~= probe_requests(identity, self_pid, snapshot, from + 1));
        }
    }
}

/// No termination request is a fingerprint request.
proof fn lemma_no_probe_among_terminations(
    identity: IdentityView,
    self_pid: i32,
    snapshot: Seq<ProcessView>,
    probes: Seq<Option<Seq<char>>>,
    wanted: ActionView,
    from: int,
)
    requires
        wanted is Fingerprint,
    ensures
        occurrences(termination_requests(identity, self_pid, snapshot, probes, from), wanted) == 0,
    decreases snapshot.len() - from,
{
    if 0 <= from < snapshot.len() {
        lemma_no_probe_among_terminations(identity, self_pid, snapshot, probes, wanted, from + 1);
        if condemned(identity, self_pid, snapshot[from], probes[from]) {
            assert(termination_requests(identity, self_pid, snapshot, probes, from).drop_first()
                =~= termination_requests(identity, self_pid, snapshot, probes, from + 1));
        }
    }
}

/// A path that is the trusted path, or a process id that is exempt, has no
/// entry whose executable is read.
proof fn lemma_trusted_path_has_no_probed_entry(
    identity: IdentityView,
    self_pid: i32,
    snapshot: Seq<ProcessView>,
    process_id: i32,
    path: Seq<char>,
    from: int,
)
    requires
        path == identity.canonical_path || is_exempt(self_pid, process_id),
    ensures
        probed_entries(identity, self_pid, snapshot, process_id, path, from) == 0,
    decreases snapshot.len() - from,
{
    if 0 <= from < snapshot.len() {
        lemma_trusted_path_has_no_probed_entry(
            identity,
            self_pid,
            snapshot,
            process_id,
            path,
            from + 1,
        );
    }
}

/// In one cycle the engine asks for the fingerprint of a file on behalf of a
/// process exactly as often as the snapshot holds an entry for that process
/// and that file whose executable is read: never for the file at the trusted
/// path, and never on behalf of an exempt process.
pub proof fn law_one_fingerprint_request_per_probed_process(
    start: EngineView,
    snapshot: Seq<ProcessView>,
    probes: Seq<Option<Seq<char>>>,
    kills: Seq<bool>,
    process_id: i32,
    path: Seq<char>,
)
    requires
        well_formed(start),
        start.phase == Phase::Listing,
        probes.len() == snapshot.len(),
        kills.len() == snapshot.len(),
    ensures
        occurrences(
            trace(start, cycle_events(start.identity, start.self_pid, snapshot, probes, kills)),
            ActionView::Fingerprint { process_id, path },
        ) == probed_entries(start.identity, start.self_pid, snapshot, process_id, path, 0),
        path == start.identity.canonical_path || is_exempt(start.self_pid, process_id)
            ==> probed_entries(start.identity, start.self_pid, snapshot, process_id, path, 0) == 0,
{
    let identity = start.identity;
    let self_pid = start.self_pid;
    let wanted = ActionView::Fingerprint { process_id, path };
    let probing = probe_requests(identity, self_pid, snapshot, 0);
    let striking = termination_requests(identity, self_pid, snapshot, probes, 0);
    let sleep = seq![ActionView::Sleep { seconds: start.interval }];
    law_cycle(start, snapshot, probes, kills);
    lemma_occurrences_add(probing + striking, sleep, wanted);
    lemma_occurrences_add(probing, striking, wanted);
    lemma_probes_counted(identity, self_pid, snapshot, process_id, path, 0);
    lemma_no_probe_among_terminations(identity, self_pid, snapshot, probes, wanted, 0);
    assert(occurrences(sleep, wanted) == 0) by {
        reveal_with_fuel(occurrences, 2);
    }
    if path == identity.canonical_path || is_exempt(self_pid, process_id) {
        lemma_trusted_path_has_no_probed_entry(identity, self_pid, snapshot, process_id, path, 0);
    }
}

/// What the engine finds and does is put in the log: a mismatch when its
/// fingerprint comes in, a failed probe, a failed snapshot, and the outcome of
/// every termination request, each with the id of the process in question.
pub proof fn law_findings_are_logged(state: EngineView, text: Seq<char>)
    requires
        well_formed(state),
    ensures
        state.phase == Phase::Listing ==> notice_of(state, EventView::SnapshotFailed) == Some(
            Notice::SnapshotFailed,
        ),
        state.phase == Phase::Probing ==> {
            let process_id = state.snapshot[state.cursor].process_id;
            &&& text != state.identity.content_fingerprint ==> notice_of(
                state,
                EventView::Fingerprinted(text),
            ) == Some(Notice::Mismatch { process_id })
            &&& text == state.identity.content_fingerprint ==> notice_of(
                state,
                EventView::Fingerprinted(text),
            ) is None
            &&& notice_of(state, EventView::FingerprintFailed) == Some(
                Notice::FingerprintFailed { process_id },
            )
        },
        state.phase == Phase::Striking ==> {
            let process_id = state.snapshot[state.cursor].process_id;
            &&& pending_of(state) == ActionView::Terminate { process_id }
            &&& notice_of(state, EventView::Terminated) == Some(Notice::Terminated { process_id })
            &&& notice_of(state, EventView::TerminationFailed) == Some(
                Notice::TerminationFailed { process_id },
            )
        },
{
}

/// The engine meets every error as its class asks for. A snapshot that
/// failed ends the cycle at once. A fingerprint that failed settles the
/// process as unknown, which condemns nobody, and the classification goes on
/// behind it. A termination that failed leaves the engine where a delivered
/// one would have left it.
pub proof fn law_errors_are_met_as_their_class_asks(state: EngineView)
    requires
        well_formed(state),
    ensures
        state.phase == Phase::Listing ==> {
            &&& notice_of(state, EventView::SnapshotFailed).unwrap().spec_error_class() == Some(
                ErrorClass::Cycle,
            )
            &&& ErrorClass::Cycle.spec_response() == Response::SkipCycle
            &&& next(state, EventView::SnapshotFailed) == resting(state)
        },
        state.phase == Phase::Probing ==> {
            &&& notice_of(state, EventView::FingerprintFailed).unwrap().spec_error_class() == Some(
                ErrorClass::Process,
            )
            &&& ErrorClass::Process.spec_response() == Response::SkipProcess
            &&& next(state, EventView::FingerprintFailed) == resume(
                EngineView {
                    verdicts: state.verdicts.push(Some(AuditDecision::Unknown)),
                    ..state
                },
                state.cursor + 1,
            )
            &&& !condemned(state.identity, state.self_pid, state.snapshot[state.cursor], None)
        },
        state.phase == Phase::Striking ==> {
            &&& notice_of(state, EventView::TerminationFailed).unwrap().spec_error_class() == Some(
                ErrorClass::Action,
            )
            &&& ErrorClass::Action.spec_response() == Response::LeaveToNextCycle
            &&& next(state, EventView::TerminationFailed) == next(state, EventView::Terminated)
        },
{
}

/// A termination request is made once: whether it was delivered or failed,
/// the engine goes on to a later process or to rest, never back to the same
/// one in the same cycle.
pub proof fn law_no_retry_within_a_cycle(state: EngineView, delivered: bool)
    requires
        well_formed(state),
        state.phase == Phase::Striking,
    ensures
        next(state, kill_answer(delivered)).phase == Phase::Resting || (next(
            state,
            kill_answer(delivered),
        ).phase == Phase::Striking && next(state, kill_answer(delivered)).cursor > state.cursor),
        next(state, kill_answer(true)) == next(state, kill_answer(false)),
{
    lemma_next_mismatch(state.verdicts, state.cursor + 1);
}

/// A cycle in which the processes could not be listed asks for nothing but
/// sleep; after the sleep the engine asks for a snapshot again, as at the
/// start.
pub proof fn law_failed_snapshot_skips_the_cycle(start: EngineView)
    requires
        well_formed(start),
        start.phase == Phase::Listing,
    ensures
        trace(start, seq![EventView::SnapshotFailed, EventView::Woke]) == seq![
            ActionView::Sleep { seconds: start.interval },
            ActionView::ListProcesses,
        ],
        run(start, seq![EventView::SnapshotFailed, EventView::Woke]) == start,
{
    let events = seq![EventView::SnapshotFailed, EventView::Woke];
    assert(events =~= seq![EventView::SnapshotFailed] + seq![EventView::Woke]);
    lemma_unfold(start, EventView::SnapshotFailed, seq![EventView::Woke]);
    lemma_unfold(
        next(start, EventView::SnapshotFailed),
        EventView::Woke,
        Seq::<EventView>::empty(),
    );
}

/// The engine keeps nothing from one cycle to the next: after the sleep that
/// ends a cycle it is in the state in which it began the cycle.
pub proof fn law_cycles_are_independent(
    start: EngineView,
    snapshot: Seq<ProcessView>,
    probes: Seq<Option<Seq<char>>>,
    kills: Seq<bool>,
)
    requires
        well_formed(start),
        start.phase == Phase::Listing,
        probes.len() == snapshot.len(),
        kills.len() == snapshot.len(),
    ensures
        next(
            run(start, cycle_events(start.identity, start.self_pid, snapshot, probes, kills)),
            EventView::Woke,
        ) == start,
{
    law_cycle(start, snapshot, probes, kills);
}

/// A process that is the root supervisor or the enforcer itself is never
/// condemned, whatever a probe of its executable would give.
pub proof fn law_exempt_is_never_condemned(
    identity: IdentityView,
    self_pid: i32,
    process: ProcessView,
    probe: Option<Seq<char>>,
)
    requires
        is_exempt(self_pid, process.process_id),
    ensures
        !needs_probe(identity, self_pid, process),
        !condemned(identity, self_pid, process, probe),
{
}

/// A process whose executable is at the trusted path is trusted without a
/// look at the file: its executable is not read and it is not condemned.
pub proof fn law_trusted_path_is_not_probed(
    identity: IdentityView,
    self_pid: i32,
    process: ProcessView,
    probe: Option<Seq<char>>,
)
    requires
        process.executable_path == Some(identity.canonical_path),
    ensures
        !needs_probe(identity, self_pid, process),
        !condemned(identity, self_pid, process, probe),
        !is_exempt(self_pid, process.process_id) ==> verdict_with(
            identity,
            self_pid,
            process,
            probe,
        ) == Some(AuditDecision::Trusted),
{
}

/// A process is condemned only on evidence: its executable was read and the
/// fingerprint that came back is not the trusted one. A fingerprint that
/// could not be computed condemns nobody, nor does the trusted fingerprint
/// at another path.
pub proof fn law_condemned_only_on_mismatch(
    identity: IdentityView,
    self_pid: i32,
    process: ProcessView,
    probe: Option<Seq<char>>,
)
    ensures
        condemned(identity, self_pid, process, probe) <==> {
            &&& !is_exempt(self_pid, process.process_id)
            &&& process.executable_path is Some
            &&& process.executable_path != Some(identity.canonical_path)
            &&& probe is Some
            &&& probe != Some(identity.content_fingerprint)
        },
        probe is None ==> !condemned(identity, self_pid, process, probe),
        probe == Some(identity.content_fingerprint) ==> !condemned(
            identity,
            self_pid,
            process,
            probe,
        ),
{
}

} // verus!
