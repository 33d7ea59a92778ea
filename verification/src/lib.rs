//! Verified core of the preview sandbox: the rules that decide which renderer
//! runs, with which arguments, inside which limits, and which of its outputs
//! are accepted.

pub mod cancel;
pub mod command;
pub mod devices;
pub mod monitor;
pub mod operation;
pub mod order;
pub mod outcome;
pub mod output;
pub mod private_output;
pub mod text;
