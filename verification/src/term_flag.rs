//! Termination-flag setup: a shared boolean that OS termination signals
//! flip to true.
//!
//! A host program that owns a supervisor must not be torn down by the
//! default handling of an interrupt, terminate or quit signal, because
//! that would skip the supervisor's teardown. [`setup_term_flag`]
//! installs handlers that merely set a shared flag; the host's main loop
//! polls the flag and exits orderly, dropping the supervisor on the way.
//!
//! The handler installation itself is the work of the `signal-hook`
//! crate, reached through one trusted wrapper; everything around it —
//! which signals are registered, in what order, and how a failure is
//! surfaced — is verified code.

use std::sync::atomic::AtomicBool;
use std::sync::Arc;
use vstd::prelude::*;

verus! {

/// The three termination requests recognized by the flag setup.
#[derive(Clone, Copy, Debug, PartialEq, Eq, Structural)]
pub enum TermSignal {
    /// An interrupt request (SIGINT, as from Ctrl-C).
    Interrupt,
    /// A termination request (SIGTERM).
    Terminate,
    /// A quit request (SIGQUIT).
    Quit,
}

/// Failure to install the handler for one signal. Surfaced immediately:
/// a host program must know when it is not actually protected.
#[derive(Clone, Copy, Debug, PartialEq, Eq)]
pub struct RegistrationError {
    /// The signal whose registration failed.
    pub signal: TermSignal,
    /// The OS error code, when the OS reported one.
    pub errno: Option<i32>,
}

/// Relies on signal_hook::flag::register: installs a handler that stores
/// `true` into `flag` whenever the given signal is delivered to the
/// process, leaving earlier registrations for the same signal in effect,
/// and reports the OS error if the handler cannot be installed. The
/// three signals offered here are not among the signals that crate
/// forbids, so the call cannot panic.
#[verifier::external_body]
fn register_flag_for(signal: TermSignal, flag: &Arc<AtomicBool>) -> Result<(), Option<i32>> {
    let number = match signal {
        TermSignal::Interrupt => signal_hook::consts::signal::SIGINT,
        TermSignal::Terminate => signal_hook::consts::signal::SIGTERM,
        TermSignal::Quit => signal_hook::consts::signal::SIGQUIT,
    };
    match signal_hook::flag::register(number, Arc::clone(flag)) {
        Ok(_) => Ok(()),
        Err(error) => Err(error.raw_os_error()),
    }
}

/// Attribute a registration outcome to the signal it was for: success
/// stays success, and a failure becomes a [`RegistrationError`] naming
/// the signal and carrying the OS error code.
pub fn fold_registration(signal: TermSignal, outcome: Result<(), Option<i32>>) -> (folded: Result<
    (),
    RegistrationError,
>)
    ensures
        folded == (match outcome {
            Ok(()) => Ok::<(), RegistrationError>(()),
            Err(errno) => Err::<(), RegistrationError>(RegistrationError { signal, errno }),
        }),
{
    match outcome {
        Ok(()) => Ok(()),
        Err(errno) => Err(RegistrationError { signal, errno }),
    }
}

/// Set up a termination flag.
///
/// Allocates a shared boolean, initially false, and installs handlers
/// that set it to true when the process receives an interrupt, terminate
/// or quit signal. Registration is attempted for interrupt, then
/// terminate, then quit; the first failure is surfaced at once, naming
/// the signal it concerns, rather than proceeding with partial
/// registration. Whether each registration succeeds is decided by the
/// OS, so no more is promised of the result than its shape.
pub fn setup_term_flag() -> (flag: Result<Arc<AtomicBool>, RegistrationError>) {
    let term = Arc::new(AtomicBool::new(false));
    match fold_registration(
        TermSignal::Interrupt,
        register_flag_for(TermSignal::Interrupt, &term),
    ) {
        Err(error) => return Err(error),
        Ok(()) => {},
    }
    match fold_registration(
        TermSignal::Terminate,
        register_flag_for(TermSignal::Terminate, &term),
    ) {
        Err(error) => return Err(error),
        Ok(()) => {},
    }
    match fold_registration(TermSignal::Quit, register_flag_for(TermSignal::Quit, &term)) {
        Err(error) => return Err(error),
        Ok(()) => {},
    }
    Ok(term)
}

} // verus!
