//! Canonical-ABI bindings of the Ingen SDK, the emulated guest process
//! environment, and the laws that tie the guest and host sides together.
pub mod abi;
pub mod icmp;
pub mod socket;
pub mod egp_env;
