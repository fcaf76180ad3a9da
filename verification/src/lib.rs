//! `g`: an opinionated, trunk-based facade over git, with its decisions verified.
pub mod text;
pub mod aliases;
pub mod numbers;
pub mod error;
pub mod commit;
pub mod revert;
pub mod handler;
pub mod config;
pub mod update;
pub mod time_travel;
pub mod daemon;
pub mod repo;
pub mod alarm;
pub mod cli;
pub mod flow;
pub mod pull;
pub mod screenplay;
