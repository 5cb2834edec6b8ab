//! Merkle-proof gated token distribution.
//!
//! A distributor binds an authority, a 32-byte Merkle commitment over
//! (claimer, amount) leaves, and a custodial vault balance. Recipients
//! withdraw their allotment by presenting a Merkle membership proof;
//! each (distributor, claimer) pair may claim at most once. The authority
//! alone may fund the vault, rotate the commitment, or recover funds.

pub mod bytes32;
pub mod hashing;
pub mod merkle;
pub mod distributor;
pub mod laws;




