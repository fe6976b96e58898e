//! Drafts of small, self-contained pieces of logic, each with its contract.
//!
//! The largest is a continuous-probability algebra (`event`, `measure`,
//! `laws`, `random_variable`): events as unions of intervals, their set
//! algebra and length, and random variables that give each event an exact
//! probability. Outcomes are whole numbers of whatever unit the caller
//! fixes (tenths, thousandths, ticks); a probability is a ratio of lengths,
//! so it does not depend on the unit.
//!
//! The others are chains of processors (`recursive_template`), forecast
//! requests (`weather`), a list of medical records (`records`) and the
//! state that follows a MIDI device (`midi`).

pub mod event;
pub mod laws;
pub mod measure;
pub mod midi;
pub mod random_variable;
pub mod records;
pub mod recursive_template;
pub mod weather;
