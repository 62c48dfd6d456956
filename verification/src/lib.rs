//! A forced-command gatekeeper for git over SSH: it validates the identifiers that
//! arrive from outside, loads the permission table of one user, classifies the
//! forced command and decides whether the git transport may be launched.

pub mod cli;
pub mod command;
pub mod errors;
pub mod text;
pub mod types;
pub mod userdb;
