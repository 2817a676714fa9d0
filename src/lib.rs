//! Keeps an idle daemon from firing for the length of a session: the daemon's
//! control protocol, the quit actions, the decisions of the trigger sources and
//! the session state machine, each proved against its contract.

pub mod quit;
pub mod session;
pub mod watch;
pub mod wire;
