//! Timing of recurring lines in a stream of text.
//!
//! Lines come in with the time at which each was read. Every line that holds
//! a fixed pattern is reported together with the time that has passed since
//! the line reported before it. The pieces, from the leaves up:
//!
//! - [`decimal`] and [`text`]: numbers and text as sequences of characters;
//! - [`fold`]: lowercase, by the standard library;
//! - [`unit`]: the units of time and their names;
//! - [`duration`]: an elapsed time as text, with the choice of a unit;
//! - [`matcher`]: the test that a line holds the pattern;
//! - [`paint`]: colour on a terminal, by the `colored` crate;
//! - [`report`]: the line that is printed for a match;
//! - [`worker`]: the state that is carried from one match to the next.

pub mod decimal;
pub mod duration;
pub mod fold;
pub mod matcher;
pub mod paint;
pub mod report;
pub mod text;
pub mod unit;
pub mod worker;

pub use duration::{format_duration, Styled, Tint};
pub use matcher::Matcher;
pub use report::Report;
pub use unit::TimeUnit;
pub use worker::{TimedLine, Worker};
