use iocp_reactor::dispatch::{classify_wait, DispatchDecision, WAIT_TIMEOUT_CODE};
use iocp_reactor::events::CompletionRecord;
use iocp_reactor::port::{AssociateError, CompletionPort, WaitOutcome};

fn record(status: u32, bytes: u32, token: u64) -> CompletionRecord {
    CompletionRecord { status, bytes, token }
}

#[test]
fn to_event_keeps_every_field() {
    let e = record(3, 42, 9).to_event();
    assert_eq!(e.status_code, 3);
    assert_eq!(e.byte_count, 42);
    assert_eq!(e.context_token, 9);
}

#[test]
fn associate_twice_second_fails() {
    let mut port = CompletionPort::new(7);
    assert_eq!(port.associate(31), Ok(0));
    assert_eq!(port.associate(31), Err(AssociateError::AlreadyAssociated));
    assert_eq!(port.associate(32), Ok(1));
    assert_eq!(port.associate(31), Err(AssociateError::AlreadyAssociated));
}

#[test]
fn wait_one_empty_times_out() {
    let mut port = CompletionPort::new(7);
    assert_eq!(port.wait_one(100), WaitOutcome::TimedOut);
    assert_eq!(port.wait_one(100), WaitOutcome::TimedOut);
}

#[test]
fn wait_one_returns_oldest_first() {
    let mut port = CompletionPort::new(7);
    port.post_completion(record(0, 1, 10));
    port.post_completion(record(0, 2, 11));
    assert_eq!(port.wait_one(100), WaitOutcome::Completed(record(0, 1, 10).to_event()));
    assert_eq!(port.wait_one(100), WaitOutcome::Completed(record(0, 2, 11).to_event()));
    assert_eq!(port.wait_one(100), WaitOutcome::TimedOut);
}

#[test]
fn wait_batch_returns_all_when_under_capacity() {
    let mut port = CompletionPort::new(7);
    for i in 0..3u64 {
        port.post_completion(record(0, i as u32, i));
    }
    let events = port.wait_batch(8, 100);
    assert_eq!(events.len(), 3);
    for (i, e) in events.iter().enumerate() {
        assert_eq!(e.byte_count, i as u32);
        assert_eq!(e.context_token, i as u64);
    }
    assert!(port.wait_batch(8, 100).is_empty());
}

#[test]
fn wait_batch_over_capacity_aggregates_exactly_once() {
    let mut port = CompletionPort::new(7);
    for i in 0..5u64 {
        port.post_completion(record(0, 0, i));
    }
    let mut seen: Vec<u64> = Vec::new();
    loop {
        let events = port.wait_batch(2, 100);
        if events.is_empty() {
            break;
        }
        assert!(events.len() <= 2);
        seen.extend(events.iter().map(|e| e.context_token));
    }
    assert_eq!(seen, vec![0, 1, 2, 3, 4]);
}

#[test]
fn drain_all_collects_every_event_once() {
    let mut port = CompletionPort::new(7);
    for i in 0..5u64 {
        port.post_completion(record(0, 10 + i as u32, i));
    }
    let events = port.drain_all(2, 100);
    let tokens: Vec<u64> = events.iter().map(|e| e.context_token).collect();
    assert_eq!(tokens, vec![0, 1, 2, 3, 4]);
    assert_eq!(port.wait_one(100), WaitOutcome::TimedOut);
}

#[test]
fn classify_wait_applies_the_failure_policy() {
    assert_eq!(classify_wait(true, 0), DispatchDecision::Deliver);
    assert_eq!(classify_wait(false, WAIT_TIMEOUT_CODE), DispatchDecision::Idle);
    assert_eq!(classify_wait(false, 5), DispatchDecision::Fatal(5));
}

#[test]
fn wait_batch_exactly_at_capacity() {
    let mut port = CompletionPort::new(7);
    for i in 0..4u64 {
        port.post_completion(record(0, 0, i));
    }
    let events = port.wait_batch(4, 100);
    assert_eq!(events.len(), 4);
    assert!(port.wait_batch(4, 100).is_empty());
}

#[test]
fn drain_all_on_empty_port_returns_nothing() {
    let mut port = CompletionPort::new(7);
    assert!(port.drain_all(8, 100).is_empty());
}
