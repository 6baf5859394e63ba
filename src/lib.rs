//! Authentication and session-consistency core: signed session tokens, the
//! per-account session store, the reconcile state machine deciding login,
//! check and logout calls, and credential checking.

pub mod error;
pub mod text;
pub mod time;
pub mod unicode;
pub mod claims;
pub mod token;
pub mod session;
pub mod engine;
pub mod crypto;
pub mod credentials;
pub mod generic;
pub mod validation;
pub mod model;
