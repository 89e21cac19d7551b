//! Core of a personal ticket tracker: input validation, duration parsing,
//! the time-tracking state machine and command resolution.

pub mod text;
pub mod validation;
pub mod duration;
pub mod tracker;
pub mod suggestions;
pub mod command;
pub mod summary;
pub mod display;
pub mod workflow;
