//! Journal and witness logic for private task completion proofs, the
//! proving front end's request checks, and the service policies around it.
pub mod bytes;
pub mod external;
pub mod journal;
pub mod prover;
pub mod seal;
pub mod service;
pub mod strings;
pub mod text;
