//! A small Screenplay-pattern test framework: actors with abilities perform
//! interactions and check the answers to questions against expectations.
pub mod ability;
pub mod actor;
pub mod contains;
pub mod does_not_contain;
pub mod ensure;
pub mod expectation;
pub mod fails;
pub mod interaction;
pub mod outcome;
pub mod question;
pub mod show;
