//! Password authentication by a Chaum-Pedersen proof of equality of two
//! discrete logarithms, with the verifier's session bookkeeping.

pub mod bignum;
pub mod protocol;
pub mod server;
pub mod zkp;
