//! State-machine engine for driving network switches through a console session.
//!
//! Fragments of a state graph are loaded into a `builder::StateMachineBuilder`,
//! activated together with what they depend on, and merged into one
//! `state::StateMachine`. An `active_job::ActiveJob` runs on that graph: it is
//! told what the console showed, and answers with the effects that the caller
//! is to carry out.

pub mod action;
pub mod active_job;
pub mod builder;
pub mod config;
pub mod data_structure;
pub mod devinfo;
pub mod effect;
pub mod error;
pub mod invariants;
pub mod job;
pub mod json;
pub mod laws;
pub mod observer;
pub mod ordering;
pub mod pattern;
pub mod pfunc;
pub mod process;
pub mod stages;
pub mod state;
pub mod status;
pub mod trigger;
