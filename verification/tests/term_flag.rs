use std::sync::atomic::Ordering;

use nix::sys::signal::{raise, Signal};
use vorarbeiter::{fold_registration, setup_term_flag, RegistrationError, TermSignal};

#[test]
fn flag_starts_false() {
    let flag = setup_term_flag().expect("registration must succeed");
    assert!(!flag.load(Ordering::Relaxed));
}

#[test]
fn sigterm_sets_flag() {
    let flag = setup_term_flag().expect("registration must succeed");
    raise(Signal::SIGTERM).expect("raise must succeed");
    assert!(flag.load(Ordering::Relaxed));
}

#[test]
fn sigint_sets_flag() {
    let flag = setup_term_flag().expect("registration must succeed");
    raise(Signal::SIGINT).expect("raise must succeed");
    assert!(flag.load(Ordering::Relaxed));
}

#[test]
fn sigquit_sets_flag() {
    let flag = setup_term_flag().expect("registration must succeed");
    raise(Signal::SIGQUIT).expect("raise must succeed");
    assert!(flag.load(Ordering::Relaxed));
}

#[test]
fn registering_twice_keeps_both_flags_working() {
    // Registering the same signals twice must not break the first
    // registration: both flags observe the signal.
    let first = setup_term_flag().expect("first registration must succeed");
    let second = setup_term_flag().expect("second registration must succeed");
    raise(Signal::SIGTERM).expect("raise must succeed");
    assert!(first.load(Ordering::Relaxed));
    assert!(second.load(Ordering::Relaxed));
}

#[test]
fn fold_registration_keeps_success() {
    assert_eq!(fold_registration(TermSignal::Interrupt, Ok(())), Ok(()));
}

#[test]
fn fold_registration_names_the_signal() {
    let folded = fold_registration(TermSignal::Quit, Err(Some(22)));
    assert_eq!(
        folded,
        Err(RegistrationError { signal: TermSignal::Quit, errno: Some(22) })
    );
    let unknown = fold_registration(TermSignal::Terminate, Err(None));
    assert_eq!(
        unknown,
        Err(RegistrationError { signal: TermSignal::Terminate, errno: None })
    );
}
