//! An interactive audio recorder's verified core: sequential take-file
//! naming, the sample sink's locking and conversion policy, and the
//! session state machine that maps keystrokes to actions on takes.

pub mod filename;
pub mod session;
pub mod sink;
