//! A three-state cellular automaton on a finite grid.
//!
//! [`cell`] defines the states a cell can take and the colour each one is
//! drawn in. [`field`] holds the grid itself, the rule that gives a cell's
//! next state from its eight neighbours, and the step that moves the whole
//! grid forward by one generation.

pub mod cell;
pub mod field;
