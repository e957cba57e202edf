use vstd::prelude::*;

verus! {

/// A point-in-time read of the three queue counts from the collection
/// store.
#[derive(Clone, Copy, PartialEq, Eq, Structural, Debug)]
pub struct CardCounts {
    pub new: u32,
    pub learn: u32,
    pub review: u32,
}

impl CardCounts {
    /// Total number of due cards: the learn and review queues together.
    pub fn total_due(&self) -> (r: u64)
        ensures
            r == self.learn + self.review,
    {
        self.learn as u64 + self.review as u64
    }
}

/// How an attempt against the store failed.  A locked store is the one
/// expected, transient condition; everything else is reported with detail
/// but retried just the same.
#[derive(Clone, Copy, PartialEq, Eq, Structural, Debug)]
pub enum FailureKind {
    Locked,
    Other,
}

/// Whether the loop reports once and stops, or runs until killed.
#[derive(Clone, Copy, PartialEq, Eq, Structural, Debug)]
pub enum Mode {
    OneShot,
    Continuous,
}

/// Where the polling loop stands.  `Done` is reached only in one-shot
/// mode.
#[derive(Clone, Copy, PartialEq, Eq, Structural, Debug)]
pub enum PollState {
    Opening,
    Querying,
    BusyRetry,
    ErrorRetry,
    Reporting { counts: CardCounts },
    Sleeping,
    Done { success: bool },
}

/// What the caller observed while carrying out the current state's
/// action.
#[derive(Clone, Copy, PartialEq, Eq, Structural, Debug)]
pub enum PollEvent {
    Opened,
    OpenFailed { kind: FailureKind },
    Counted { counts: CardCounts },
    CountFailed { kind: FailureKind },
    Reported,
    SleptRetry,
    SleptRefresh,
}

/// What the caller must do next.  Waits are blocking sleeps for the
/// caller-configured delays: the retry delay after a failed attempt, the
/// refresh delay after a reported cycle.
#[derive(Clone, Copy, PartialEq, Eq, Structural, Debug)]
pub enum PollAction {
    Open,
    Query,
    Report { due: u64, new_cards: u32 },
    NotifyBusyThenWaitRetry,
    NotifyErrorThenWaitRetry,
    WaitRefresh,
    Stop { success: bool },
}

/// The events that can be observed while acting for a state.
pub open spec fn event_fits(state: PollState, event: PollEvent) -> bool {
    match state {
        PollState::Opening => event is Opened || event is OpenFailed,
        PollState::Querying => event is Counted || event is CountFailed,
        PollState::Reporting { .. } => event is Reported,
        PollState::BusyRetry => event is SleptRetry,
        PollState::ErrorRetry => event is SleptRetry,
        PollState::Sleeping => event is SleptRefresh,
        PollState::Done { .. } => false,
    }
}

/// The retry state a failure leads to: a locked store is the expected
/// busy condition, anything else an error to report in full.
pub open spec fn spec_failure_state(kind: FailureKind) -> PollState {
    match kind {
        FailureKind::Locked => PollState::BusyRetry,
        FailureKind::Other => PollState::ErrorRetry,
    }
}

/// The transition relation of the loop.  Opening and querying classify
/// their failures; a report is followed by the refresh sleep in
/// continuous mode and ends a one-shot run; after the retry wait a
/// continuous loop starts over where a one-shot run stops, failed.
pub open spec fn spec_step(mode: Mode, state: PollState, event: PollEvent) -> PollState {
    match (state, event) {
        (PollState::Opening, PollEvent::Opened) => PollState::Querying,
        (PollState::Opening, PollEvent::OpenFailed { kind }) => spec_failure_state(kind),
        (PollState::Querying, PollEvent::Counted { counts }) => PollState::Reporting { counts },
        (PollState::Querying, PollEvent::CountFailed { kind }) => spec_failure_state(kind),
        (PollState::Reporting { .. }, PollEvent::Reported) => match mode {
            Mode::OneShot => PollState::Done { success: true },
            Mode::Continuous => PollState::Sleeping,
        },
        (PollState::BusyRetry, PollEvent::SleptRetry) => match mode {
            Mode::OneShot => PollState::Done { success: false },
            Mode::Continuous => PollState::Opening,
        },
        (PollState::ErrorRetry, PollEvent::SleptRetry) => match mode {
            Mode::OneShot => PollState::Done { success: false },
            Mode::Continuous => PollState::Opening,
        },
        (PollState::Sleeping, PollEvent::SleptRefresh) => PollState::Opening,
        _ => state,
    }
}

/// Advances the loop by one observed event, exactly as [`spec_step`]
/// says; in continuous mode no event ever reaches the terminal state.
pub fn step(mode: Mode, state: PollState, event: PollEvent) -> (next: PollState)
    requires
        event_fits(state, event),
    ensures
        next == spec_step(mode, state, event),
        mode is Continuous && !(state is Done) ==> !(next is Done),
{
    match (state, event) {
        (PollState::Opening, PollEvent::Opened) => PollState::Querying,
        (PollState::Opening, PollEvent::OpenFailed { kind }) => failure_state(kind),
        (PollState::Querying, PollEvent::Counted { counts }) => PollState::Reporting { counts },
        (PollState::Querying, PollEvent::CountFailed { kind }) => failure_state(kind),
        (PollState::Reporting { .. }, PollEvent::Reported) => match mode {
            Mode::OneShot => PollState::Done { success: true },
            Mode::Continuous => PollState::Sleeping,
        },
        (PollState::BusyRetry, PollEvent::SleptRetry) => match mode {
            Mode::OneShot => PollState::Done { success: false },
            Mode::Continuous => PollState::Opening,
        },
        (PollState::ErrorRetry, PollEvent::SleptRetry) => match mode {
            Mode::OneShot => PollState::Done { success: false },
            Mode::Continuous => PollState::Opening,
        },
        (PollState::Sleeping, PollEvent::SleptRefresh) => PollState::Opening,
        _ => state,
    }
}

/// The executable twin of [`spec_failure_state`].
pub fn failure_state(kind: FailureKind) -> (r: PollState)
    ensures
        r == spec_failure_state(kind),
{
    match kind {
        FailureKind::Locked => PollState::BusyRetry,
        FailureKind::Other => PollState::ErrorRetry,
    }
}

/// The action each state asks of the caller.
pub open spec fn spec_action_for(state: PollState) -> PollAction {
    match state {
        PollState::Opening => PollAction::Open,
        PollState::Querying => PollAction::Query,
        PollState::Reporting { counts } => PollAction::Report {
            due: (counts.learn + counts.review) as u64,
            new_cards: counts.new,
        },
        PollState::BusyRetry => PollAction::NotifyBusyThenWaitRetry,
        PollState::ErrorRetry => PollAction::NotifyErrorThenWaitRetry,
        PollState::Sleeping => PollAction::WaitRefresh,
        PollState::Done { success } => PollAction::Stop { success },
    }
}

/// What the caller must do in `state`, exactly [`spec_action_for`];
/// a report always carries `learn + review` as the due count.
pub fn action_for(state: PollState) -> (a: PollAction)
    ensures
        a == spec_action_for(state),
{
    match state {
        PollState::Opening => PollAction::Open,
        PollState::Querying => PollAction::Query,
        PollState::Reporting { counts } => PollAction::Report {
            due: counts.total_due(),
            new_cards: counts.new,
        },
        PollState::BusyRetry => PollAction::NotifyBusyThenWaitRetry,
        PollState::ErrorRetry => PollAction::NotifyErrorThenWaitRetry,
        PollState::Sleeping => PollAction::WaitRefresh,
        PollState::Done { success } => PollAction::Stop { success },
    }
}

/// In continuous mode the loop has no terminal state: from any live state
/// no event leads to `Done`.
pub proof fn lemma_continuous_never_done(state: PollState, event: PollEvent)
    requires
        !(state is Done),
    ensures
        !(spec_step(Mode::Continuous, state, event) is Done),
{
}

/// The informational line printed while the store is locked by the live
/// application.
pub fn busy_message() -> (r: &'static str)
    ensures
        r@ == "Anki is active"@,
{
    "Anki is active"
}

/// The short error line; the caller follows it with the failure detail it
/// observed.
pub fn error_message() -> (r: &'static str)
    ensures
        r@ == "Anki error"@,
{
    "Anki error"
}

} // verus!
