use chat_notifier::dispatch::{join_batch, Action, Dispatcher, Event, RateGate, SendOutcome, BATCH_LIMIT};
use chat_notifier::error::MatrixClientError;

fn arrive(d: &mut Dispatcher, text: &str) -> Action {
    d.step(Event::Arrived(text.to_string()))
}

/// Feeds `messages` one by one, answering every flush with `Delivered`, then
/// ticks once to flush the rest. Returns the payloads sent.
fn deliver_all(d: &mut Dispatcher, messages: &[String]) -> Vec<String> {
    let mut sent = Vec::new();
    let mut pending = Vec::new();
    for m in messages {
        let mut action = d.step(Event::Arrived(m.clone()));
        while let Action::Flush { payload, .. } = action {
            sent.push(payload);
            action = d.step(Event::Attempted(SendOutcome::Delivered));
        }
        pending.push(m.clone());
    }
    let mut action = d.step(Event::Tick);
    while let Action::Flush { payload, .. } = action {
        sent.push(payload);
        action = d.step(Event::Attempted(SendOutcome::Delivered));
    }
    sent
}

#[test]
fn fifteen_messages_take_two_flushes() {
    let mut d = Dispatcher::new();
    let messages: Vec<String> = (0..15).map(|i| format!("Test {i}")).collect();
    let sent = deliver_all(&mut d, &messages);
    assert_eq!(sent.len(), 2);
    assert_eq!(sent[0], messages[..10].join("\n"));
    assert_eq!(sent[1], messages[10..].join("\n"));
    let delivered: usize = sent.iter().map(|p| p.split('\n').count()).sum();
    assert_eq!(delivered, 15);
    assert!(d.batch.is_empty());
}

#[test]
fn many_messages_arrive_in_order() {
    let mut d = Dispatcher::new();
    let messages: Vec<String> = (0..37).map(|i| format!("m{i}")).collect();
    let sent = deliver_all(&mut d, &messages);
    assert!(sent.len() >= 4);
    let joined: Vec<String> = sent.iter().flat_map(|p| p.split('\n').map(|s| s.to_string())).collect();
    assert_eq!(joined, messages);
}

#[test]
fn full_batch_flushes_without_timer() {
    let mut d = Dispatcher::new();
    for i in 0..BATCH_LIMIT - 1 {
        assert!(matches!(arrive(&mut d, &format!("{i}")), Action::Wait { reset_timer: false, discarded: None }));
    }
    match arrive(&mut d, "last") {
        Action::Flush { payload, not_before } => {
            assert_eq!(payload, "0\n1\n2\n3\n4\n5\n6\n7\n8\nlast");
            assert_eq!(not_before, 0);
        }
        _ => panic!("a full batch must be flushed"),
    }
}

#[test]
fn single_message_flushed_on_tick() {
    let mut d = Dispatcher::new();
    assert!(matches!(arrive(&mut d, "only"), Action::Wait { .. }));
    match d.step(Event::Tick) {
        Action::Flush { payload, .. } => assert_eq!(payload, "only"),
        _ => panic!("a pending message must be flushed at the tick"),
    }
    match d.step(Event::Attempted(SendOutcome::Delivered)) {
        Action::Wait { reset_timer, discarded } => {
            assert!(reset_timer);
            assert!(discarded.is_none());
        }
        _ => panic!("nothing is left to flush"),
    }
    assert!(d.batch.is_empty());
    assert!(!d.timed_out);
}

#[test]
fn tick_on_empty_batch_waits() {
    let mut d = Dispatcher::new();
    assert!(matches!(d.step(Event::Tick), Action::Wait { reset_timer: false, discarded: None }));
    assert!(!d.timed_out);
    assert!(matches!(arrive(&mut d, "next"), Action::Wait { reset_timer: false, discarded: None }));
}

#[test]
fn idle_tick_does_not_split_a_burst() {
    let mut d = Dispatcher::new();
    d.step(Event::Tick);
    let messages: Vec<String> = (0..15).map(|i| format!("Test {i}")).collect();
    let sent = deliver_all(&mut d, &messages);
    assert_eq!(sent.len(), 2);
    assert_eq!(sent[0], messages[..10].join("\n"));
    assert_eq!(sent[1], messages[10..].join("\n"));
}

#[test]
fn throttles_between_failures_do_not_count() {
    let mut d = Dispatcher::new();
    arrive(&mut d, "b");
    assert!(matches!(d.step(Event::Tick), Action::Flush { .. }));
    let mut reports = 0;
    for i in 1..=50u32 {
        for k in 0..3u64 {
            match d.step(Event::Attempted(SendOutcome::RateLimited(k))) {
                Action::Flush { payload, .. } => assert_eq!(payload, "b"),
                _ => panic!("a throttled batch is tried again"),
            }
        }
        match d.step(Event::Attempted(SendOutcome::Failed(MatrixClientError::Parsing))) {
            Action::Wait { discarded, .. } => {
                if let Some(gone) = discarded {
                    assert_eq!(i, 50);
                    assert_eq!(gone, vec!["b".to_string()]);
                    reports += 1;
                } else {
                    assert_eq!(d.retry, i);
                }
            }
            _ => panic!("a failed small batch waits for the timer"),
        }
        if i < 50 {
            assert!(matches!(d.step(Event::Tick), Action::Flush { .. }));
        }
    }
    assert_eq!(reports, 1);
    assert_eq!(d.retry, 0);
    assert!(d.batch.is_empty());
    arrive(&mut d, "b2");
    match d.step(Event::Tick) {
        Action::Flush { payload, .. } => assert_eq!(payload, "b2"),
        _ => panic!("the fresh batch is flushed at the tick"),
    }
}

#[test]
fn rate_limited_then_delivered() {
    let mut d = Dispatcher::new();
    arrive(&mut d, "a");
    arrive(&mut d, "b");
    let first = match d.step(Event::Tick) {
        Action::Flush { payload, not_before } => {
            assert_eq!(not_before, 0);
            payload
        }
        _ => panic!("expected a flush"),
    };
    let now = 5_000;
    match d.step(Event::Attempted(SendOutcome::RateLimited(now + 100))) {
        Action::Flush { payload, not_before } => {
            assert_eq!(payload, first);
            assert!(not_before >= now + 100);
        }
        _ => panic!("a throttled batch is tried again"),
    }
    assert_eq!(d.batch, vec!["a".to_string(), "b".to_string()]);
    assert!(matches!(d.step(Event::Attempted(SendOutcome::Delivered)), Action::Wait { reset_timer: true, discarded: None }));
    assert!(d.batch.is_empty());
    assert_eq!(d.gate.resume_at, now + 100);
}

#[test]
fn rate_limit_is_not_a_failure() {
    let mut d = Dispatcher::new();
    arrive(&mut d, "a");
    d.step(Event::Tick);
    for k in 0..60u64 {
        assert!(matches!(d.step(Event::Attempted(SendOutcome::RateLimited(k))), Action::Flush { .. }));
    }
    assert_eq!(d.retry, 0);
    assert_eq!(d.batch.len(), 1);
    assert_eq!(d.gate.resume_at, 59);
}

#[test]
fn give_up_after_fifty_failures() {
    let mut d = Dispatcher::new();
    arrive(&mut d, "lost");
    assert!(matches!(d.step(Event::Tick), Action::Flush { .. }));
    for i in 1..50u32 {
        match d.step(Event::Attempted(SendOutcome::Failed(MatrixClientError::Parsing))) {
            Action::Wait { reset_timer, discarded } => {
                assert!(reset_timer);
                assert!(discarded.is_none());
            }
            _ => panic!("a failed small batch waits for the timer"),
        }
        assert_eq!(d.retry, i);
        assert_eq!(d.batch, vec!["lost".to_string()]);
        assert!(matches!(d.step(Event::Tick), Action::Flush { .. }));
    }
    match d.step(Event::Attempted(SendOutcome::Failed(MatrixClientError::Status(500)))) {
        Action::Wait { discarded: Some(gone), reset_timer } => {
            assert!(reset_timer);
            assert_eq!(gone, vec!["lost".to_string()]);
        }
        _ => panic!("the fiftieth failure gives the batch up"),
    }
    assert_eq!(d.retry, 0);
    assert!(d.batch.is_empty());
    arrive(&mut d, "fresh");
    assert!(matches!(d.step(Event::Tick), Action::Flush { .. }));
    d.step(Event::Attempted(SendOutcome::Failed(MatrixClientError::HeaderParsing)));
    assert_eq!(d.retry, 1);
    assert_eq!(d.batch, vec!["fresh".to_string()]);
}

#[test]
fn failed_full_batch_is_retried_at_once() {
    let mut d = Dispatcher::new();
    for i in 0..BATCH_LIMIT {
        arrive(&mut d, &format!("{i}"));
    }
    assert!(matches!(
        d.step(Event::Attempted(SendOutcome::Failed(MatrixClientError::Parsing))),
        Action::Flush { .. }
    ));
    assert_eq!(d.retry, 1);
}

#[test]
fn closed_queue_exits() {
    let mut d = Dispatcher::new();
    arrive(&mut d, "pending");
    assert!(matches!(d.step(Event::Closed), Action::Exit));
    assert_eq!(d.batch.len(), 1);
}

#[test]
fn gate_only_moves_forward() {
    let mut g = RateGate::new();
    assert!(g.is_open(0));
    g.raise(500);
    assert_eq!(g.resume_at, 500);
    g.raise(100);
    assert_eq!(g.resume_at, 500);
    assert!(!g.is_open(499));
    assert!(g.is_open(500));
}

#[test]
fn join_uses_newlines() {
    assert_eq!(join_batch(&vec![]), "");
    assert_eq!(join_batch(&vec!["x".to_string()]), "x");
    assert_eq!(join_batch(&vec!["x".to_string(), "".to_string(), "z".to_string()]), "x\n\nz");
}
