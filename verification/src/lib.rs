//! A small stateful ledger: identities submit net-worth amounts, the library
//! tracks the maximum submission seen so far and who made it first, and all
//! reads are gated behind either a viewing key (a stored shared secret) or a
//! permit (a signed, permission-scoped credential checked by the host).

pub mod contract;
pub mod error;
pub mod msg;
pub mod state;
