//! A supervisor for child processes that allows clean shutdowns.
//!
//! The heart of the crate is the shutdown protocol: ask a process to quit
//! with a graceful termination signal, poll for its exit for a bounded
//! grace period, and escalate to a forced kill if it does not comply.
//! [`protocol::ShutdownProtocol`] captures that escalation as a state
//! machine whose transitions are fully specified; a thin driver performs
//! the actual signalling, polling and sleeping and feeds the observations
//! back in as events.

pub mod protocol;
pub mod supervisor;
pub mod term_flag;

pub use protocol::{Action, Event, ExitStatus, Phase, ShutdownError, ShutdownProtocol};
pub use supervisor::{Supervisor, Teardown};
pub use term_flag::{fold_registration, setup_term_flag, RegistrationError, TermSignal};
