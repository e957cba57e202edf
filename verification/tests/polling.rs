use anki_counts::poll::{
    action_for, busy_message, error_message, step, CardCounts, FailureKind, Mode, PollAction,
    PollEvent, PollState,
};
use anki_counts::render::{report_line, Format};

const ZERO: CardCounts = CardCounts { new: 0, learn: 0, review: 0 };

#[test]
fn busy_then_success_cycle() {
    let mode = Mode::Continuous;
    let plain = Format { short: false, json: false };

    // Attempt 1: the store is locked.
    let s = PollState::Opening;
    assert_eq!(action_for(s), PollAction::Open);
    let s = step(mode, s, PollEvent::OpenFailed { kind: FailureKind::Locked });
    assert_eq!(s, PollState::BusyRetry);
    // The busy notification, then the retry delay — not the refresh delay.
    assert_eq!(action_for(s), PollAction::NotifyBusyThenWaitRetry);
    let s = step(mode, s, PollEvent::SleptRetry);
    assert_eq!(s, PollState::Opening);

    // Attempt 2: the store opens and reports all-zero counts.
    let s = step(mode, s, PollEvent::Opened);
    assert_eq!(s, PollState::Querying);
    assert_eq!(action_for(s), PollAction::Query);
    let s = step(mode, s, PollEvent::Counted { counts: ZERO });
    assert_eq!(s, PollState::Reporting { counts: ZERO });
    assert_eq!(action_for(s), PollAction::Report { due: 0, new_cards: 0 });
    assert_eq!(report_line(&ZERO, plain), "Anki - due: 0, new: 0");

    // After the report: the refresh delay, then attempt 3 begins.
    let s = step(mode, s, PollEvent::Reported);
    assert_eq!(s, PollState::Sleeping);
    assert_eq!(action_for(s), PollAction::WaitRefresh);
    let s = step(mode, s, PollEvent::SleptRefresh);
    assert_eq!(s, PollState::Opening);
}

#[test]
fn one_shot_success_terminates() {
    let mode = Mode::OneShot;
    let counts = CardCounts { new: 5, learn: 2, review: 3 };
    let s = PollState::Opening;
    let s = step(mode, s, PollEvent::Opened);
    let s = step(mode, s, PollEvent::Counted { counts });
    assert_eq!(s, PollState::Reporting { counts });
    let s = step(mode, s, PollEvent::Reported);
    assert_eq!(s, PollState::Done { success: true });
    assert_eq!(action_for(s), PollAction::Stop { success: true });
}

#[test]
fn one_shot_failure_fails_through() {
    let mode = Mode::OneShot;
    let s = PollState::Opening;
    let s = step(mode, s, PollEvent::OpenFailed { kind: FailureKind::Other });
    assert_eq!(s, PollState::ErrorRetry);
    assert_eq!(action_for(s), PollAction::NotifyErrorThenWaitRetry);
    let s = step(mode, s, PollEvent::SleptRetry);
    assert_eq!(s, PollState::Done { success: false });
}

#[test]
fn failures_are_classified_by_lock_state() {
    let s = step(Mode::Continuous, PollState::Opening, PollEvent::OpenFailed {
        kind: FailureKind::Locked,
    });
    assert_eq!(s, PollState::BusyRetry);
    let s = step(Mode::Continuous, PollState::Querying, PollEvent::CountFailed {
        kind: FailureKind::Other,
    });
    assert_eq!(s, PollState::ErrorRetry);
}

#[test]
fn query_failures_retry_like_open_failures() {
    let mode = Mode::Continuous;
    let s = PollState::Querying;
    let s = step(mode, s, PollEvent::CountFailed { kind: FailureKind::Locked });
    assert_eq!(s, PollState::BusyRetry);
    let s = step(mode, s, PollEvent::SleptRetry);
    assert_eq!(s, PollState::Opening);
}

#[test]
fn notification_lines() {
    assert_eq!(busy_message(), "Anki is active");
    assert_eq!(error_message(), "Anki error");
}

#[test]
fn total_due_sums_learn_and_review() {
    let counts = CardCounts { new: 5, learn: 2, review: 3 };
    assert_eq!(counts.total_due(), 5);
    let large = CardCounts { new: 0, learn: u32::MAX, review: u32::MAX };
    assert_eq!(large.total_due(), 2 * (u32::MAX as u64));
}
