use kube_tunnel::shutdown::{first_notice, notice, Notice, ShutdownSignal};

#[test]
fn signal_starts_running() {
    let signal = ShutdownSignal::new();
    assert!(!signal.is_stopping());
    let reader = signal.observe();
    assert!(!*reader.borrow());
    assert_eq!(reader.has_changed().ok(), Some(false));
}

#[test]
fn signal_stop_sets_the_flag_and_wakes_readers() {
    let mut signal = ShutdownSignal::new();
    let reader = signal.observe();
    assert!(signal.signal_stop());
    assert!(signal.is_stopping());
    assert_eq!(reader.has_changed().ok(), Some(true));
    assert!(*reader.borrow());
}

#[test]
fn signal_stop_twice_notifies_once() {
    let mut signal = ShutdownSignal::new();
    assert!(signal.signal_stop());
    assert!(!signal.signal_stop());
    assert!(!signal.signal_stop());
    assert!(signal.is_stopping());
}

#[test]
fn second_stop_does_not_wake_a_reader_again() {
    let mut signal = ShutdownSignal::new();
    let mut reader = signal.observe();
    signal.signal_stop();
    assert_eq!(reader.has_changed().ok(), Some(true));
    assert!(*reader.borrow_and_update());
    assert_eq!(reader.has_changed().ok(), Some(false));
    signal.signal_stop();
    assert_eq!(reader.has_changed().ok(), Some(false));
    assert!(*reader.borrow());
}

#[test]
fn every_reader_sees_the_stop() {
    let mut signal = ShutdownSignal::new();
    let first = signal.observe();
    let second = signal.observe();
    let third = second.clone();
    signal.signal_stop();
    for reader in [first, second, third] {
        assert_eq!(reader.has_changed().ok(), Some(true));
        assert!(*reader.borrow());
    }
}

#[test]
fn reader_made_after_the_stop_has_seen_it() {
    let mut signal = ShutdownSignal::new();
    let early = signal.observe();
    signal.signal_stop();
    let late = signal.observe();
    assert!(*late.borrow());
    assert_eq!(late.has_changed().ok(), Some(false));
    assert_eq!(early.has_changed().ok(), Some(true));
}

#[test]
fn stop_is_kept_when_nobody_reads_yet() {
    let mut signal = ShutdownSignal::new();
    assert!(signal.signal_stop());
    let reader = signal.observe();
    assert!(*reader.borrow());
}

#[test]
fn reader_learns_that_the_signal_is_gone() {
    let signal = ShutdownSignal::new();
    let reader = signal.observe();
    drop(signal);
    assert!(reader.has_changed().is_err());
}

#[test]
fn notice_after_a_change_holds_the_flag() {
    let mut signal = ShutdownSignal::new();
    let reader = signal.observe();
    assert_eq!(notice(true, &reader), Notice::Value(false));
    signal.signal_stop();
    assert_eq!(notice(true, &reader), Notice::Value(true));
}

#[test]
fn notice_without_a_change_is_closed() {
    let mut signal = ShutdownSignal::new();
    let reader = signal.observe();
    assert_eq!(notice(false, &reader), Notice::Closed);
    signal.signal_stop();
    assert_eq!(notice(false, &reader), Notice::Closed);
}

#[test]
fn notice_of_every_case() {
    assert_eq!(Notice::of(true, true), Notice::Value(true));
    assert_eq!(Notice::of(true, false), Notice::Value(false));
    assert_eq!(Notice::of(false, true), Notice::Closed);
    assert_eq!(Notice::of(false, false), Notice::Closed);
}

#[test]
fn notices_that_stop() {
    assert!(Notice::Value(true).is_stop());
    assert!(Notice::Closed.is_stop());
    assert!(!Notice::Value(false).is_stop());
}

#[test]
fn first_notice_is_the_flag_as_it_stands() {
    let mut signal = ShutdownSignal::new();
    let early = signal.observe();
    assert_eq!(first_notice(&early), Notice::Value(false));
    signal.signal_stop();
    assert_eq!(first_notice(&early), Notice::Value(true));
    let late = signal.observe();
    assert_eq!(late.has_changed().ok(), Some(false));
    assert_eq!(first_notice(&late), Notice::Value(true));
}

#[test]
fn first_notice_does_not_mark_the_flag_as_seen() {
    let mut signal = ShutdownSignal::new();
    let reader = signal.observe();
    signal.signal_stop();
    assert_eq!(first_notice(&reader), Notice::Value(true));
    assert_eq!(reader.has_changed().ok(), Some(true));
}

#[test]
fn readers_of_two_signals_are_apart() {
    let mut first = ShutdownSignal::new();
    let second = ShutdownSignal::new();
    let of_first = first.observe();
    let of_second = second.observe();
    first.signal_stop();
    assert!(*of_first.borrow());
    assert!(!*of_second.borrow());
    assert_eq!(of_second.has_changed().ok(), Some(false));
    assert!(of_first.same_channel(&first.observe()));
    assert!(!of_first.same_channel(&of_second));
}
