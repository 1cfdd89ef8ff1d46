use iocp_reactor::events::CompletionRecord;
use iocp_reactor::port::WaitOutcome;
use iocp_reactor::reactor::{Poll, Rt, RtInner};

#[test]
fn end_to_end_read_completion() {
    // Create the global reactor and one consumer lease.
    let mut inner = RtInner::empty();
    let rt = Rt::global(&mut inner, 0x1234, 0).ok().unwrap();
    let lease = Poll::global(&mut inner, 0x1234, 0).ok().unwrap();
    assert!(inner.dispatcher_running());

    // Register socket S1; it receives a distinct key.
    let s1: u64 = 51;
    let key = rt.associate_socket(&mut inner, s1).unwrap();

    // An asynchronous read on S1 completes with 42 bytes.
    inner.post_completion(CompletionRecord { status: 0, bytes: 42, token: key });

    // Within the poll timeout the completion event is observed, with the
    // byte count and the submitted operation's token.
    match lease.poll(&mut inner) {
        WaitOutcome::Completed(event) => {
            assert_eq!(event.byte_count, 42);
            assert_eq!(event.context_token, key);
            assert_eq!(event.status_code, 0);
        }
        WaitOutcome::TimedOut => panic!("completion was pending"),
    }

    // Nothing further is pending; a second poll times out rather than erring.
    assert_eq!(lease.poll(&mut inner), WaitOutcome::TimedOut);

    lease.release(&mut inner);
    assert_eq!(inner.active_consumers(), 0);
}

#[test]
fn dispatch_batch_drains_posted_completions() {
    let mut inner = RtInner::empty();
    let rt = Rt::global(&mut inner, 0x77, 0).ok().unwrap();
    let key_a = rt.associate_socket(&mut inner, 1).unwrap();
    let key_b = rt.associate_socket(&mut inner, 2).unwrap();
    assert_ne!(key_a, key_b);

    inner.post_completion(CompletionRecord { status: 0, bytes: 7, token: key_a });
    inner.post_completion(CompletionRecord { status: 0, bytes: 8, token: key_b });

    let events = inner.dispatch_batch();
    assert_eq!(events.len(), 2);
    assert_eq!(events[0].context_token, key_a);
    assert_eq!(events[0].byte_count, 7);
    assert_eq!(events[1].context_token, key_b);
    assert_eq!(events[1].byte_count, 8);

    assert!(inner.dispatch_batch().is_empty());
}

#[test]
fn dispatch_batch_caps_at_design_capacity() {
    let mut inner = RtInner::empty();
    let rt = Rt::global(&mut inner, 0x77, 0).ok().unwrap();
    let key = rt.associate_socket(&mut inner, 1).unwrap();
    for i in 0..130u32 {
        inner.post_completion(CompletionRecord { status: 0, bytes: i, token: key });
    }
    let first = inner.dispatch_batch();
    assert_eq!(first.len(), 128);
    let second = inner.dispatch_batch();
    assert_eq!(second.len(), 2);
    assert_eq!(second[0].byte_count, 128);
    assert_eq!(second[1].byte_count, 129);
    assert!(inner.dispatch_batch().is_empty());
}
