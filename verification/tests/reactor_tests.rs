use iocp_reactor::reactor::{Poll, Rt, RtInner};

#[test]
fn first_global_creates_then_caches() {
    let mut inner = RtInner::empty();
    assert_eq!(inner.creation_calls(), 0);
    assert!(Rt::global(&mut inner, 0x1000, 0).is_ok());
    assert_eq!(inner.creation_calls(), 1);
    assert!(inner.is_ready());
    // Later calls hand in a different would-be outcome; none of it is
    // consumed and the primitive is not invoked again.
    assert!(Rt::global(&mut inner, 0x2000, 0).is_ok());
    assert!(Rt::global(&mut inner, 0, 17).is_ok());
    assert_eq!(inner.creation_calls(), 1);
    assert!(inner.is_ready());
}

#[test]
fn failed_creation_is_cached_and_never_retried() {
    let mut inner = RtInner::empty();
    assert_eq!(Rt::global(&mut inner, 0, 111).err(), Some(111));
    assert_eq!(inner.creation_calls(), 1);
    assert_eq!(inner.cached_error(), Some(111));
    // A retry would have succeeded; the cached failure answers instead.
    assert_eq!(Rt::global(&mut inner, 0x500, 0).err(), Some(111));
    assert_eq!(Poll::global(&mut inner, 0x500, 0).err(), Some(111));
    assert_eq!(inner.creation_calls(), 1);
    assert_eq!(inner.cached_error(), Some(111));
    assert!(!inner.is_ready());
}

#[test]
fn lease_refcount_balances_and_gates_dispatcher() {
    let mut inner = RtInner::empty();
    assert!(!inner.dispatcher_running());

    let first = Poll::global(&mut inner, 0x10, 0).ok().unwrap();
    assert_eq!(inner.active_consumers(), 1);
    assert!(inner.dispatcher_running());

    let second = Poll::global(&mut inner, 0x10, 0).ok().unwrap();
    assert_eq!(inner.active_consumers(), 2);
    assert!(inner.dispatcher_running());

    first.release(&mut inner);
    assert_eq!(inner.active_consumers(), 1);
    assert!(inner.dispatcher_running());

    second.release(&mut inner);
    assert_eq!(inner.active_consumers(), 0);
    assert!(!inner.dispatcher_running());
}

#[test]
fn many_leases_balance_to_zero() {
    let mut inner = RtInner::empty();
    let mut leases = Vec::new();
    for _ in 0..8 {
        leases.push(Poll::global(&mut inner, 0x10, 0).ok().unwrap());
    }
    assert_eq!(inner.active_consumers(), 8);
    for lease in leases {
        assert!(inner.dispatcher_running());
        lease.release(&mut inner);
    }
    assert_eq!(inner.active_consumers(), 0);
    assert!(!inner.dispatcher_running());
}
