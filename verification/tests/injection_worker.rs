//! The injection worker's decisions, driven through the scenarios the worker
//! thread goes through.

use swictation::injection_worker::{PendingText, Wait, WorkerEvent, WorkerState};

const RETRY: u64 = 5;

#[test]
fn recovers_after_initial_failure_without_replaying_unavailable_text() {
    let mut state = WorkerState::new(0);
    let mut events = Vec::new();
    let mut injected = Vec::new();

    assert!(state.should_create(0));
    events.extend(state.after_create(false, 0, RETRY));
    assert_eq!(events, vec![WorkerEvent::Unavailable]);

    let denied = PendingText::new("denied".into(), 1);
    assert!(!state.accepts(&denied));

    // Initialization starts at 5 and completes at 9; text queued meanwhile
    // must not be pasted once it succeeds.
    assert!(state.should_create(5));
    let during = PendingText::new("queued during initialization".into(), 7);
    events.extend(state.after_create(true, 9, RETRY));
    assert_eq!(events.last(), Some(&WorkerEvent::Ready { recovered: true }));
    assert!(!state.accepts(&during));

    let fresh = PendingText::new("fresh".into(), 10);
    assert!(state.accepts(&fresh));
    injected.push(fresh.text.clone());
    events.push(state.after_inject(true, &fresh, 10, RETRY));

    assert_eq!(injected, ["fresh"]);
    assert_eq!(events.last(), Some(&WorkerEvent::Injected { chars: 5 }));
    assert_eq!(events.len(), 3);
}

#[test]
fn denied_text_does_not_trigger_retries_and_channel_closure_exits_promptly() {
    let mut state = WorkerState::new(0);
    let mut attempts = 0;
    let mut events = Vec::new();
    attempts += 1;
    events.extend(state.after_create(false, 0, 60_000));
    assert_eq!(events, vec![WorkerEvent::Unavailable]);
    for i in 0..100 {
        let now = 1 + i;
        assert!(!state.should_create(now), "no retry before the interval");
        assert!(!state.accepts(&PendingText::new("discard".into(), now)));
    }
    assert_eq!(state.wait(100), Wait::AtMost(59_900));
    assert_eq!(attempts, 1);
    assert_eq!(events.len(), 1);
}

#[test]
fn failed_injection_is_not_replayed_and_worker_recovers() {
    let mut state = WorkerState::new(0);
    let mut events = Vec::new();
    events.extend(state.after_create(true, 0, RETRY));
    assert_eq!(events, vec![WorkerEvent::Ready { recovered: false }]);

    let failed = PendingText::new("failed".into(), 1);
    assert!(state.accepts(&failed));
    events.push(state.after_inject(false, &failed, 2, RETRY));
    assert_eq!(events.last(), Some(&WorkerEvent::InjectionFailed { chars: 6 }));
    assert!(!state.should_create(3));
    assert!(state.should_create(7));
    events.extend(state.after_create(true, 7, RETRY));
    assert_eq!(events.last(), Some(&WorkerEvent::Ready { recovered: true }));

    let works = PendingText::new("works".into(), 8);
    assert!(state.accepts(&works));
    events.push(state.after_inject(true, &works, 8, RETRY));
    assert_eq!(events.last(), Some(&WorkerEvent::Injected { chars: 5 }));
}

#[test]
fn ready_worker_drains_queued_text_exactly_once_on_channel_close() {
    let mut state = WorkerState::new(0);
    state.after_create(true, 0, RETRY);
    assert_eq!(state.wait(0), Wait::Blocking);
    let mut injected = Vec::new();
    for (i, text) in ["first", "second", "third"].into_iter().enumerate() {
        let pending = PendingText::new(text.into(), 1 + i as u64);
        if state.accepts(&pending) {
            injected.push(pending.text.clone());
            state.after_inject(true, &pending, 1 + i as u64, RETRY);
        }
    }
    assert_eq!(injected, ["first", "second", "third"]);
}
