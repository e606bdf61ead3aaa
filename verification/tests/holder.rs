use rust_commands::priority::Priority;
use rust_commands::referred::{request_return, Claim, MaybeReferred};
use tokio::sync::oneshot;
use tokio::sync::oneshot::error::TryRecvError;

#[test]
fn new_subsystem_is_at_rest() {
    let mut slot = MaybeReferred::new(7u32);
    assert!(matches!(slot, MaybeReferred::Owned(7)));
    assert_eq!(slot.holder_priority(), None);
    assert!(slot.can_take(Priority(0)));
}

#[test]
fn idle_subsystem_is_taken_at_once() {
    let mut slot = MaybeReferred::Owned(7u32);
    let (recall, _listen) = oneshot::channel();
    match slot.try_take(Priority(0), recall) {
        Some(Claim::Ready(v)) => assert_eq!(v, 7),
        _ => panic!("the subsystem was at rest"),
    }
    assert!(matches!(slot, MaybeReferred::Referred(Priority(0), _)));
    assert_eq!(slot.holder_priority(), Some(Priority(0)));
}

#[test]
fn can_take_leaves_the_state_alone() {
    let mut slot = MaybeReferred::Owned(1u8);
    assert!(slot.can_take(Priority(3)));
    assert!(matches!(slot, MaybeReferred::Owned(1)));
    let (recall, mut listen) = oneshot::channel();
    assert!(slot.try_take(Priority(3), recall).is_some());
    assert!(!slot.can_take(Priority(3)));
    assert!(!slot.can_take(Priority(2)));
    assert!(slot.can_take(Priority(4)));
    assert_eq!(slot.holder_priority(), Some(Priority(3)));
    assert!(matches!(listen.try_recv(), Err(TryRecvError::Empty)));
}

#[test]
fn equal_or_lower_claim_is_refused_and_changes_nothing() {
    let mut slot = MaybeReferred::Owned(1u8);
    let (recall, mut listen) = oneshot::channel();
    assert!(slot.try_take(Priority(5), recall).is_some());

    let (same, _same_listen) = oneshot::channel();
    assert!(slot.try_take(Priority(5), same).is_none());
    let (lower, _lower_listen) = oneshot::channel();
    assert!(slot.try_take(Priority(4), lower).is_none());

    assert_eq!(slot.holder_priority(), Some(Priority(5)));
    // the command that has the subsystem was not asked to give it up
    assert!(matches!(listen.try_recv(), Err(TryRecvError::Empty)));
}

#[test]
fn displace_yields_what_was_there() {
    let mut slot = MaybeReferred::Owned(11u8);
    let (first, _first_listen) = oneshot::channel();
    assert!(matches!(
        slot.displace(Priority(1), first),
        Some(MaybeReferred::Owned(11))
    ));
    let (second, _second_listen) = oneshot::channel();
    assert!(matches!(
        slot.displace(Priority(2), second),
        Some(MaybeReferred::Referred(Priority(1), _))
    ));
    let (third, _third_listen) = oneshot::channel();
    assert!(slot.displace(Priority(2), third).is_none());
    assert_eq!(slot.holder_priority(), Some(Priority(2)));
}

#[test]
fn higher_claim_asks_the_holder_and_waits() {
    let mut slot = MaybeReferred::Owned(String::from("arm"));
    let (recall, mut listen) = oneshot::channel();
    let held = match slot.try_take(Priority(1), recall) {
        Some(Claim::Ready(v)) => v,
        _ => panic!("the subsystem was at rest"),
    };

    let (urgent, _urgent_listen) = oneshot::channel();
    let mut arrive = match slot.try_take(Priority(2), urgent) {
        Some(Claim::Pending(arrive)) => arrive,
        _ => panic!("the subsystem was out"),
    };
    assert_eq!(slot.holder_priority(), Some(Priority(2)));
    // nothing has arrived yet
    assert!(matches!(arrive.try_recv(), Err(TryRecvError::Empty)));

    // the holder finds the request on its own listener, and what it sends
    // arrives with the claimant
    let claimant = listen.try_recv().expect("the holder was asked");
    assert!(claimant.send(held).is_ok());
    assert_eq!(arrive.try_recv(), Ok(String::from("arm")));
}

#[test]
fn claim_on_a_holder_that_stopped_listening_never_arrives() {
    let mut slot = MaybeReferred::Owned(3u8);
    let (recall, listen) = oneshot::channel();
    assert!(slot.try_take(Priority(1), recall).is_some());
    drop(listen);
    let (urgent, _urgent_listen) = oneshot::channel();
    let mut arrive = match slot.try_take(Priority(2), urgent) {
        Some(Claim::Pending(arrive)) => arrive,
        _ => panic!("the subsystem was out"),
    };
    assert!(matches!(arrive.try_recv(), Err(TryRecvError::Closed)));
}

#[test]
fn registered_priority_only_rises_along_a_chain() {
    let mut slot = MaybeReferred::Owned(0u8);
    let mut seen = Vec::new();
    let mut listeners = Vec::new();
    for p in [3usize, 1, 3, 7, 5, 7, 8] {
        let (recall, listen) = oneshot::channel();
        listeners.push(listen);
        let let_through = slot.try_take(Priority(p), recall).is_some();
        seen.push((let_through, slot.holder_priority()));
    }
    assert_eq!(
        seen,
        vec![
            (true, Some(Priority(3))),
            (false, Some(Priority(3))),
            (false, Some(Priority(3))),
            (true, Some(Priority(7))),
            (false, Some(Priority(7))),
            (false, Some(Priority(7))),
            (true, Some(Priority(8))),
        ]
    );
}

#[test]
fn restore_puts_the_subsystem_at_rest() {
    let mut slot = MaybeReferred::Owned(1u32);
    let (recall, mut listen) = oneshot::channel();
    assert!(slot.try_take(Priority(9), recall).is_some());
    slot.restore(2);
    assert!(matches!(slot, MaybeReferred::Owned(2)));
    assert_eq!(slot.holder_priority(), None);
    assert!(slot.can_take(Priority(0)));
    // the registration is gone, and with it the way to ask the old holder
    assert!(matches!(listen.try_recv(), Err(TryRecvError::Closed)));
}

#[test]
fn no_second_command_gets_the_subsystem_while_it_is_out() {
    let mut slot = MaybeReferred::Owned(1u32);
    let (first, _first_listen) = oneshot::channel();
    assert!(matches!(
        slot.try_take(Priority(1), first),
        Some(Claim::Ready(1))
    ));
    for p in 0..6usize {
        let (recall, _listen) = oneshot::channel();
        let claim = slot.try_take(Priority(p), recall);
        assert!(!matches!(claim, Some(Claim::Ready(_))));
    }
}

#[test]
fn request_return_keeps_the_receiving_end_and_sends_the_other() {
    let (taker, mut listen) = oneshot::channel();
    let ends = oneshot::channel::<u32>();
    let mut arrive = request_return(taker, ends);
    assert!(matches!(arrive.try_recv(), Err(TryRecvError::Empty)));
    let give = listen.try_recv().expect("the giving end was sent");
    assert!(give.send(12).is_ok());
    assert_eq!(arrive.try_recv(), Ok(12));
}

#[test]
fn request_return_to_nobody_leaves_a_closed_channel() {
    let (taker, listen) = oneshot::channel();
    drop(listen);
    let mut arrive = request_return(taker, oneshot::channel::<u32>());
    assert!(matches!(arrive.try_recv(), Err(TryRecvError::Closed)));
}
