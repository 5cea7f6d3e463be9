//! A small library for laying out a terminal multiplexer's window.
//!
//! A layout description — workspace metadata plus an ordered list of pane
//! specifications — is translated into an ordered plan of multiplexer
//! control operations (split, arrange, resize, send keystrokes, select).
//! The planning logic is verified: every public function carries a contract
//! relating its result to a mathematical model of the plan.

pub mod commands;
pub mod config;
pub mod engine;
pub mod laws;
pub mod text;
