//! Private contact discovery: private set intersection over salted
//! SHA-256 contact hashes, together with the session state machine
//! of the on-chain program that records the results.

mod bytes;
pub mod digest;
pub mod psi;
pub mod merkle;
pub mod mxe;
pub mod program;
