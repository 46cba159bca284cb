//! Verified model of the TeachFi test launchpad: a capital-raising contract in
//! which whitelisted users sell their project tokens for a payment token.
pub mod common;
pub mod contract;
pub mod laws;
