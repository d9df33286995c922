//! Planning and bookkeeping for a direct-summation gravitational N-body run.
//!
//! The crate decides everything about a run that can be decided in whole
//! numbers: which parameters an argument list asks for ([`config`]), in what
//! order the initial state is drawn and the forces and updates of each step
//! are carried out ([`trace`], [`schedule`]), from which interval each
//! quantity is drawn ([`quantity`]), and what the lines of the report say
//! ([`report`], [`decimal`]). The particles themselves and the arithmetic on
//! them belong to the caller, who performs the actions that a
//! [`schedule::Schedule`] hands out.

pub mod config;
pub mod decimal;
pub mod quantity;
pub mod report;
pub mod schedule;
pub mod trace;
