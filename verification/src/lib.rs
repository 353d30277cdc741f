//! Buy and sell prices of a card, from its base value and two markups,
//! laid out as a text table.
//!
//! A price is `value + value * markup`, rounded to the nearest whole
//! number with halves away from zero. Markups are decimal fractions and are
//! held exactly, so a price is the same on every machine.
//!
//! - [`price`] computes prices and the rows of a range of cards;
//! - [`table`] lays rows out as text;
//! - [`markup`] and [`number`] read and write markups and whole numbers;
//! - [`command`] finds what the arguments of a command line ask for;
//! - [`session`] finds what a line of an interactive session asks for, and
//!   answers it;
//! - [`help`] writes the help text;
//! - [`pattern`] searches a line for a regular expression;
//! - [`text`] holds what the others share on characters and lines.

pub mod command;
pub mod help;
pub mod markup;
pub mod number;
pub mod pattern;
pub mod price;
pub mod session;
pub mod table;
pub mod text;
