//! The one-shot update flow.
//!
//! One invocation of the flow — triggered at startup or from the tray menu —
//! queries the update source, notifies the window when a newer version
//! exists, tracks download progress, and absorbs every failure into a log
//! line. The flow is a pure transition function from a [`FlowState`] and a
//! [`FlowEvent`] (the outcome of the query, a received chunk, the
//! end-of-download callback, the install result) to the next state and the
//! ordered [`Effect`]s the host must perform. Each invocation holds its own
//! state, so concurrent invocations share nothing.

use vstd::prelude::*;

verus! {

/// Outcome of one query of the update source.
#[derive(Clone, PartialEq, Eq, Debug)]
pub enum CheckResult {
    /// A newer version than the installed one exists.
    UpdateFound {
        /// The version identifier of the newer release.
        version: String,
    },
    /// The installed version is current.
    UpToDate,
    /// The source could not be queried (network or source unreachable).
    CheckFailed {
        /// A description of the failure, for the log.
        reason: String,
    },
}

/// The events one flow invocation receives from the update transport,
/// in the order the transport delivers them.
#[derive(Clone, PartialEq, Eq, Debug)]
pub enum FlowEvent {
    /// The update-source query finished.
    Checked {
        /// What the query found.
        result: CheckResult,
    },
    /// One chunk of the update payload arrived.
    Chunk {
        /// Size of this chunk in bytes.
        len: u64,
        /// Total expected payload size in bytes, when the transport knows it.
        total: Option<u64>,
    },
    /// The payload is fully written; installation is about to begin.
    DownloadDone,
    /// The update was installed and is staged for the next restart.
    InstallDone,
    /// Download or installation failed.
    InstallFailed {
        /// A description of the failure, for the log.
        reason: String,
    },
}

/// State of one flow invocation. There is no failing terminal state: every
/// failure is logged and the invocation still ends in `Finished`, so nothing
/// ever propagates to the context that triggered the flow.
#[derive(Clone, Copy, PartialEq, Eq, Structural, Debug)]
pub enum FlowState {
    /// Waiting for the update-source query to finish.
    Checking,
    /// Downloading the payload; `downloaded` is this invocation's own running
    /// byte counter, reset to zero when the download starts.
    Downloading {
        /// Bytes received so far by this invocation.
        downloaded: u64,
    },
    /// The invocation is over; later events are ignored.
    Finished,
}

/// One observable effect the host must perform, in the order returned.
/// Log effects become console lines; nothing else leaves the flow.
#[derive(Clone, PartialEq, Eq, Debug)]
pub enum Effect {
    /// Log that no update is available. The user is not notified.
    LogNoUpdate,
    /// Log that the update source could not be queried.
    LogCheckFailed {
        /// The failure description.
        reason: String,
    },
    /// Log that a newer version was found.
    LogUpdateAvailable {
        /// The version identifier of the newer release.
        version: String,
    },
    /// Emit the window-scoped `update-available` event carrying the new
    /// version. Fire-and-forget: delivery failure is not a flow failure.
    EmitUpdateAvailable {
        /// The version identifier carried by the event.
        version: String,
    },
    /// Begin the chunked download-and-install of the payload.
    StartDownload,
    /// Report download progress after one chunk.
    LogProgress {
        /// The running total of bytes received by this invocation.
        downloaded: u64,
        /// Total expected payload size, when known.
        total: Option<u64>,
    },
    /// Log that the payload is fully written and installation begins.
    LogDownloadFinished,
    /// Log that the update is installed and staged for the next restart.
    LogInstalled,
    /// Log that download or installation failed. This line is all that a
    /// failure produces.
    LogInstallFailed {
        /// The failure description.
        reason: String,
    },
}

/// Byte-counter addition as the progress accumulator performs it: saturating
/// at `u64::MAX`, so the running total never decreases and never overflows.
pub open spec fn sat_add(a: u64, b: u64) -> u64 {
    if a + b > u64::MAX {
        u64::MAX
    } else {
        (a + b) as u64
    }
}

/// The flow's transition function.
///
/// - A query that finds nothing, or fails, ends the flow with a single log
///   line: no window event, no download, no error to the caller.
/// - A query that finds version `v` logs it, emits exactly one
///   `update-available` window event carrying `v`, and starts the download
///   with a fresh byte counter.
/// - Each chunk advances the counter (saturating) and reports the new total.
/// - The end-of-download callback logs that installation begins; the install
///   result ends the flow, with a success or a failure log line — a failure
///   is absorbed here, never passed upward.
/// - Events that do not belong to the current state are ignored.
pub open spec fn spec_step(s: FlowState, e: FlowEvent) -> (FlowState, Seq<Effect>) {
    match (s, e) {
        (FlowState::Checking, FlowEvent::Checked { result }) => match result {
            CheckResult::UpToDate => (FlowState::Finished, seq![Effect::LogNoUpdate]),
            CheckResult::CheckFailed { reason } => (
                FlowState::Finished,
                seq![Effect::LogCheckFailed { reason }],
            ),
            CheckResult::UpdateFound { version } => (
                FlowState::Downloading { downloaded: 0 },
                seq![
                    Effect::LogUpdateAvailable { version },
                    Effect::EmitUpdateAvailable { version },
                    Effect::StartDownload,
                ],
            ),
        },
        (FlowState::Downloading { downloaded }, FlowEvent::Chunk { len, total }) => (
            FlowState::Downloading { downloaded: sat_add(downloaded, len) },
            seq![Effect::LogProgress { downloaded: sat_add(downloaded, len), total }],
        ),
        (FlowState::Downloading { .. }, FlowEvent::DownloadDone) => (
            s,
            seq![Effect::LogDownloadFinished],
        ),
        (FlowState::Downloading { .. }, FlowEvent::InstallDone) => (
            FlowState::Finished,
            seq![Effect::LogInstalled],
        ),
        (FlowState::Downloading { .. }, FlowEvent::InstallFailed { reason }) => (
            FlowState::Finished,
            seq![Effect::LogInstallFailed { reason }],
        ),
        _ => (s, Seq::empty()),
    }
}

/// Advance one flow invocation by one event; returns the next state and the
/// effects the host must perform, in order.
pub fn step(s: FlowState, e: FlowEvent) -> (r: (FlowState, Vec<Effect>))
    ensures
        r.0 == spec_step(s, e).0,
        r.1@ == spec_step(s, e).1,
{
    match e {
        FlowEvent::Checked { result } => {
            if let FlowState::Checking = s {
                match result {
                    CheckResult::UpToDate => {
                        let mut effects: Vec<Effect> = Vec::new();
                        effects.push(Effect::LogNoUpdate);
                        proof {
                            assert(effects@ =~= spec_step(s, e).1);
                        }
                        (FlowState::Finished, effects)
                    },
                    CheckResult::CheckFailed { reason } => {
                        let mut effects: Vec<Effect> = Vec::new();
                        effects.push(Effect::LogCheckFailed { reason });
                        proof {
                            assert(effects@ =~= spec_step(s, e).1);
                        }
                        (FlowState::Finished, effects)
                    },
                    CheckResult::UpdateFound { version } => {
                        let mut effects: Vec<Effect> = Vec::new();
                        effects.push(Effect::LogUpdateAvailable { version: version.clone() });
                        effects.push(Effect::EmitUpdateAvailable { version });
                        effects.push(Effect::StartDownload);
                        proof {
                            assert(effects@ =~= spec_step(s, e).1);
                        }
                        (FlowState::Downloading { downloaded: 0 }, effects)
                    },
                }
            } else {
                (s, Vec::new())
            }
        },
        FlowEvent::Chunk { len, total } => {
            if let FlowState::Downloading { downloaded } = s {
                let next: u64 = downloaded.saturating_add(len);
                let mut effects: Vec<Effect> = Vec::new();
                effects.push(Effect::LogProgress { downloaded: next, total });
                proof {
                    assert(effects@ =~= spec_step(s, e).1);
                }
                (FlowState::Downloading { downloaded: next }, effects)
            } else {
                (s, Vec::new())
            }
        },
        FlowEvent::DownloadDone => {
            if let FlowState::Downloading { .. } = s {
                let mut effects: Vec<Effect> = Vec::new();
                effects.push(Effect::LogDownloadFinished);
                proof {
                    assert(effects@ =~= spec_step(s, e).1);
                }
                (s, effects)
            } else {
                (s, Vec::new())
            }
        },
        FlowEvent::InstallDone => {
            if let FlowState::Downloading { .. } = s {
                let mut effects: Vec<Effect> = Vec::new();
                effects.push(Effect::LogInstalled);
                proof {
                    assert(effects@ =~= spec_step(s, e).1);
                }
                (FlowState::Finished, effects)
            } else {
                (s, Vec::new())
            }
        },
        FlowEvent::InstallFailed { reason } => {
            if let FlowState::Downloading { .. } = s {
                let mut effects: Vec<Effect> = Vec::new();
                effects.push(Effect::LogInstallFailed { reason });
                proof {
                    assert(effects@ =~= spec_step(s, e).1);
                }
                (FlowState::Finished, effects)
            } else {
                (s, Vec::new())
            }
        },
    }
}

/// The state a fresh flow invocation starts from: waiting for the query.
pub fn initial_flow_state() -> (s: FlowState)
    ensures
        s == FlowState::Checking,
{
    FlowState::Checking
}

/// A whole invocation: the state and the concatenated effects after a
/// sequence of events, oldest first. The result is a function of the
/// invocation's own events alone, so concurrent invocations — each holding
/// its own state and fed its own events — cannot disturb one another.
pub open spec fn flow_run(s: FlowState, events: Seq<FlowEvent>) -> (FlowState, Seq<Effect>)
    decreases events.len(),
{
    if events.len() == 0 {
        (s, Seq::empty())
    } else {
        let first = spec_step(s, events[0]);
        let rest = flow_run(first.0, events.drop_first());
        (rest.0, first.1 + rest.1)
    }
}

/// How many `update-available` window events a trace of effects emits.
pub open spec fn emit_count(effects: Seq<Effect>) -> nat
    decreases effects.len(),
{
    if effects.len() == 0 {
        0
    } else {
        (if effects[0] is EmitUpdateAvailable {
            1nat
        } else {
            0nat
        }) + emit_count(effects.drop_first())
    }
}

/// The running totals a trace of effects reports, in trace order.
pub open spec fn progress_totals(effects: Seq<Effect>) -> Seq<u64>
    decreases effects.len(),
{
    if effects.len() == 0 {
        Seq::empty()
    } else {
        let rest = progress_totals(effects.drop_first());
        match effects[0] {
            Effect::LogProgress { downloaded, .. } => seq![downloaded] + rest,
            _ => rest,
        }
    }
}

/// A sequence of byte counts that never goes down.
pub open spec fn non_decreasing(totals: Seq<u64>) -> bool {
    forall|i: int, j: int| 0 <= i <= j < totals.len() ==> totals[i] <= totals[j]
}

proof fn lemma_emit_count_concat(a: Seq<Effect>, b: Seq<Effect>)
    ensures
        emit_count(a + b) == emit_count(a) + emit_count(b),
    decreases a.len(),
{
    if a.len() == 0 {
        assert(a + b =~= b);
    } else {
        assert((a + b).drop_first() =~= a.drop_first() + b);
        lemma_emit_count_concat(a.drop_first(), b);
    }
}

/// A trace without a single emit effect counts zero emits.
proof fn lemma_emit_free(effects: Seq<Effect>)
    requires
        forall|i: int| 0 <= i < effects.len() ==> !(effects[i] is EmitUpdateAvailable),
    ensures
        emit_count(effects) == 0,
    decreases effects.len(),
{
    if effects.len() > 0 {
        assert forall|i: int|
            0 <= i < effects.drop_first().len() implies !(effects.drop_first()[i]
            is EmitUpdateAvailable) by {
            assert(effects.drop_first()[i] == effects[i + 1]);
        }
        lemma_emit_free(effects.drop_first());
    }
}

/// A trace without a progress effect reports no totals.
proof fn lemma_no_progress_totals(effects: Seq<Effect>)
    requires
        forall|i: int| 0 <= i < effects.len() ==> !(effects[i] is LogProgress),
    ensures
        progress_totals(effects) =~= Seq::<u64>::empty(),
    decreases effects.len(),
{
    if effects.len() > 0 {
        assert forall|i: int|
            0 <= i < effects.drop_first().len() implies !(effects.drop_first()[i]
            is LogProgress) by {
            assert(effects.drop_first()[i] == effects[i + 1]);
        }
        lemma_no_progress_totals(effects.drop_first());
    }
}

/// What the two counters make of a trace of a single effect.
proof fn lemma_counts_singleton(x: Effect)
    ensures
        emit_count(seq![x]) == (if x is EmitUpdateAvailable {
            1nat
        } else {
            0nat
        }),
        progress_totals(seq![x]) =~= (match x {
            Effect::LogProgress { downloaded, .. } => seq![downloaded],
            _ => Seq::<u64>::empty(),
        }),
{
    assert(seq![x].drop_first() =~= Seq::<Effect>::empty());
    assert(emit_count(Seq::<Effect>::empty()) == 0);
    assert(progress_totals(Seq::<Effect>::empty()) =~= Seq::<u64>::empty());
    assert(progress_totals(seq![x]) =~= (match x {
        Effect::LogProgress { downloaded, .. } => seq![downloaded] + Seq::<u64>::empty(),
        _ => Seq::<u64>::empty(),
    }));
}

proof fn lemma_progress_totals_concat(a: Seq<Effect>, b: Seq<Effect>)
    ensures
        progress_totals(a + b) =~= progress_totals(a) + progress_totals(b),
    decreases a.len(),
{
    if a.len() == 0 {
        assert(a + b =~= b);
        assert(progress_totals(a) + progress_totals(b) =~= progress_totals(b));
    } else {
        assert((a + b).drop_first() =~= a.drop_first() + b);
        lemma_progress_totals_concat(a.drop_first(), b);
    }
}

/// Once an invocation is finished it is over for good: any further events
/// leave it finished and produce no effect at all.
pub proof fn lemma_finished_is_quiescent(events: Seq<FlowEvent>)
    ensures
        flow_run(FlowState::Finished, events).0 is Finished,
        flow_run(FlowState::Finished, events).1 =~= Seq::<Effect>::empty(),
    decreases events.len(),
{
    if events.len() > 0 {
        lemma_finished_is_quiescent(events.drop_first());
    }
}

/// Once the query phase is over, no event ever emits another window event:
/// whatever still happens — chunks, callbacks, install results, stray
/// queries — the trace from here on contains no emit.
proof fn lemma_no_emit_after_checking(s: FlowState, events: Seq<FlowEvent>)
    requires
        !(s is Checking),
    ensures
        !(flow_run(s, events).0 is Checking),
        emit_count(flow_run(s, events).1) == 0,
    decreases events.len(),
{
    if events.len() > 0 {
        let first = spec_step(s, events[0]);
        assert(emit_count(first.1) == 0) by {
            assert forall|i: int|
                0 <= i < first.1.len() implies !(first.1[i] is EmitUpdateAvailable) by {}
            lemma_emit_free(first.1);
        }
        lemma_no_emit_after_checking(first.0, events.drop_first());
        lemma_emit_count_concat(first.1, flow_run(first.0, events.drop_first()).1);
    }
}

/// The byte counter the next state carries, or zero where it carries none.
/// Every total a run reports stays at or above the counter it starts from.
pub open spec fn counter_floor(s: FlowState) -> u64 {
    match s {
        FlowState::Downloading { downloaded } => downloaded,
        _ => 0,
    }
}

proof fn lemma_totals_monotone_from(s: FlowState, events: Seq<FlowEvent>)
    ensures
        non_decreasing(progress_totals(flow_run(s, events).1)),
        forall|i: int|
            0 <= i < progress_totals(flow_run(s, events).1).len() ==> progress_totals(
                flow_run(s, events).1,
            )[i] >= counter_floor(s),
    decreases events.len(),
{
    if events.len() > 0 {
        let first = spec_step(s, events[0]);
        let rest = flow_run(first.0, events.drop_first());
        lemma_progress_totals_concat(first.1, rest.1);
        let t1 = progress_totals(first.1);
        let t2 = progress_totals(rest.1);
        if first.0 is Finished {
            lemma_finished_is_quiescent(events.drop_first());
            assert(t2 =~= Seq::<u64>::empty());
        } else {
            lemma_totals_monotone_from(first.0, events.drop_first());
        }
        match (s, events[0]) {
            (FlowState::Downloading { downloaded }, FlowEvent::Chunk { len, total }) => {
                let t = sat_add(downloaded, len);
                lemma_counts_singleton(Effect::LogProgress { downloaded: t, total });
                assert(t1 =~= seq![t]);
                assert(t >= downloaded);
                assert(counter_floor(first.0) == t);
                assert forall|i: int, j: int|
                    0 <= i <= j < (t1 + t2).len() implies (t1 + t2)[i] <= (t1 + t2)[j] by {
                    if 0 < j {
                        assert((t1 + t2)[j] == t2[j - 1]);
                        assert(t2[j - 1] >= t);
                    }
                    if 0 < i {
                        assert((t1 + t2)[i] == t2[i - 1]);
                    }
                }
                assert forall|i: int|
                    0 <= i < (t1 + t2).len() implies (t1 + t2)[i] >= counter_floor(s) by {
                    if 0 < i {
                        assert((t1 + t2)[i] == t2[i - 1]);
                        assert(t2[i - 1] >= t);
                    }
                }
            },
            _ => {
                assert(t1 =~= Seq::<u64>::empty()) by {
                    assert forall|i: int|
                        0 <= i < first.1.len() implies !(first.1[i] is LogProgress) by {}
                    lemma_no_progress_totals(first.1);
                }
                assert(t1 + t2 =~= t2);
                if !(first.0 is Finished) {
                    assert(counter_floor(first.0) >= counter_floor(s));
                }
            },
        }
    }
}

/// A flow whose query finds no update — or whose query fails — never touches
/// the window: its whole trace emits nothing, and the invocation still ends
/// in the (only, successful) terminal state.
pub proof fn lemma_no_update_emits_nothing(events: Seq<FlowEvent>)
    requires
        events.len() >= 1,
        events[0] matches FlowEvent::Checked { result } && !(result is UpdateFound),
    ensures
        flow_run(FlowState::Checking, events).0 is Finished,
        emit_count(flow_run(FlowState::Checking, events).1) == 0,
{
    let first = spec_step(FlowState::Checking, events[0]);
    let rest = flow_run(first.0, events.drop_first());
    assert(first.0 is Finished);
    assert(emit_count(first.1) == 0) by {
        assert forall|i: int| 0 <= i < first.1.len() implies !(first.1[i] is EmitUpdateAvailable) by {}
        lemma_emit_free(first.1);
    }
    lemma_finished_is_quiescent(events.drop_first());
    lemma_no_emit_after_checking(first.0, events.drop_first());
    lemma_emit_count_concat(first.1, rest.1);
}

/// A flow whose query finds version `v` emits exactly one `update-available`
/// window event over its whole trace; the event carries `v`, and it stands
/// before every progress report.
pub proof fn lemma_update_emits_once_before_progress(version: String, events: Seq<FlowEvent>)
    requires
        events.len() >= 1,
        events[0] == (FlowEvent::Checked {
            result: CheckResult::UpdateFound { version },
        }),
    ensures
        ({
            let effects = flow_run(FlowState::Checking, events).1;
            &&& emit_count(effects) == 1
            &&& effects.len() >= 3
            &&& effects[1] == (Effect::EmitUpdateAvailable { version })
            &&& forall|i: int| 0 <= i < effects.len() && effects[i] is LogProgress ==> i > 1
        }),
{
    let first = spec_step(FlowState::Checking, events[0]);
    let rest = flow_run(first.0, events.drop_first());
    let effects = flow_run(FlowState::Checking, events).1;
    let head = seq![Effect::LogUpdateAvailable { version }];
    let emit = seq![Effect::EmitUpdateAvailable { version }];
    let start = seq![Effect::StartDownload];
    assert(first.1 =~= head + emit + start);
    assert(emit_count(first.1) == 1) by {
        lemma_emit_count_concat(head + emit, start);
        lemma_emit_count_concat(head, emit);
        lemma_counts_singleton(Effect::LogUpdateAvailable { version });
        lemma_counts_singleton(Effect::EmitUpdateAvailable { version });
        lemma_counts_singleton(Effect::StartDownload);
    }
    lemma_no_emit_after_checking(first.0, events.drop_first());
    lemma_emit_count_concat(first.1, rest.1);
    assert(effects[1] == first.1[1]);
    assert forall|i: int| 0 <= i < effects.len() && effects[i] is LogProgress implies i > 1 by {
        if i <= 1 {
            assert(effects[i] == first.1[i]);
        }
    }
}

/// A failed download-and-install is absorbed where it happens: the flow logs
/// one line, ends in the (only, successful) terminal state, and no later
/// event produces anything more — nothing propagates to the context that
/// triggered the flow.
pub proof fn lemma_install_failure_swallowed(downloaded: u64, reason: String, later: Seq<FlowEvent>)
    ensures
        ({
            let first = spec_step(
                FlowState::Downloading { downloaded },
                FlowEvent::InstallFailed { reason },
            );
            &&& first.0 is Finished
            &&& first.1 =~= seq![Effect::LogInstallFailed { reason }]
            &&& flow_run(first.0, later).0 is Finished
            &&& flow_run(first.0, later).1 =~= Seq::<Effect>::empty()
        }),
{
    lemma_finished_is_quiescent(later);
}

/// Each invocation's reported running totals never decrease, whatever events
/// its transport delivers; and `flow_run` being a function of the
/// invocation's own state and events alone, two concurrent invocations
/// accumulate independently.
pub proof fn lemma_progress_totals_non_decreasing(events: Seq<FlowEvent>)
    ensures
        non_decreasing(progress_totals(flow_run(FlowState::Checking, events).1)),
{
    lemma_totals_monotone_from(FlowState::Checking, events);
}

} // verus!
