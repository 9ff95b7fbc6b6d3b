//! Pod lifecycle controller: decides when a pod whose critical containers
//! have finished should be torn down, and plans that teardown through the
//! pod's controlling owners.

pub mod annotations;
pub mod chain;
pub mod cleanup;
pub mod clock;
pub mod config;
pub mod deletion;
pub mod owners;
pub mod pod;
pub mod termination;
pub mod tracker;
pub mod watch;
pub mod watched;
