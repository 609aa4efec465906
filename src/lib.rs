//! Execution control for a 16-bit LC-3 machine: a liberal command-line grammar
//! for an interactive debugger, the state machine that decides, at every
//! instruction boundary, whether control goes back to the operator, and the
//! machine that it controls.

pub mod error;
pub mod integer;
pub mod label;
pub mod naive;
pub mod command;
pub mod parse;
pub mod resolve;
pub mod runtime;
pub mod traps;
pub mod symbol;
pub mod debugger;
pub mod parser;
