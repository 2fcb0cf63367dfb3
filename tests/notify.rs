use game_server::notify::{Notifier, NotifierError, WaitEvent};

#[test]
fn clock_starts_at_one_and_send_raises_it() {
    let mut n = Notifier::new();
    assert_eq!(n.current(), 1);
    assert_eq!(n.send(), 2);
    assert_eq!(n.send(), 3);
    assert_eq!(n.current(), 3);
}

#[test]
fn send_broadcasts_the_new_value() {
    let mut n = Notifier::new();
    let mut sub = n.subscribe();
    assert_eq!(sub.clock_value(), 1);
    n.send();
    n.send();
    assert_eq!(sub.receiver().try_recv().unwrap(), 2);
    assert_eq!(sub.receiver().try_recv().unwrap(), 3);
}

#[test]
fn a_stale_or_missing_since_answers_at_once() {
    let mut n = Notifier::new();
    n.send();
    let sub = n.subscribe();
    assert_eq!(sub.answer_now(None), Some(2));
    assert_eq!(sub.answer_now(Some(1)), Some(2));
    assert_eq!(sub.answer_now(Some(2)), None);
    assert_eq!(sub.answer_now(Some(5)), None);
}

#[test]
fn no_lost_wakeup_after_subscribing() {
    let mut n = Notifier::new();
    let mut sub = n.subscribe();
    let since = sub.clock_value();
    assert_eq!(sub.answer_now(Some(since)), None);
    n.send();
    let v = sub.receiver().try_recv().unwrap();
    assert_eq!(sub.on_event(since, WaitEvent::Received(v)), Some(Ok(2)));
    assert!(v > since);
}

#[test]
fn waiting_events() {
    let n = Notifier::new();
    let mut sub = n.subscribe();
    // a value not above since is remembered and the wait goes on
    assert_eq!(sub.on_event(4, WaitEvent::Received(3)), None);
    assert_eq!(sub.clock_value(), 3);
    assert_eq!(sub.on_event(4, WaitEvent::Lagged), None);
    assert_eq!(sub.on_event(4, WaitEvent::TimedOut), Some(Ok(3)));
    assert_eq!(sub.on_event(4, WaitEvent::Closed), Some(Err(NotifierError)));
    assert_eq!(sub.on_event(4, WaitEvent::Received(5)), Some(Ok(5)));
    assert_eq!(sub.clock_value(), 5);
}
