//! Evaluation core of a ternary (base-3) arithmetic calculator.
//!
//! The library consumes discrete input symbols (digits 0-2, operators,
//! parentheses, equals, clear, undo/redo) and produces a sequence of
//! immutable calculator states.  `state` holds the arithmetic state and the
//! transition engine, `calc` the fixed-capacity undo/redo history, and
//! `format` the base-3 numeral formatter.

pub mod calc;
pub mod format;
pub mod laws;
pub mod state;

pub use calc::Terncalc;
pub use state::{CalcError, Input, Operator, Parenthesis, State, StateID};
