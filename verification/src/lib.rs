//! A verified model of an interactive vending-machine controller.
//!
//! The crate pairs a transactional inventory store, which enforces resource
//! caps and all-or-nothing purchase semantics, with a finite-state session
//! controller that interprets one line of user input per call. Line-oriented
//! I/O and console formatting live outside the library.

pub mod catalog;
pub mod coffee;
pub mod input;
pub mod machine;
pub mod store;
