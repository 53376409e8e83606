//! Parsing, classification and storage rules for space-weather alert bulletins.
//!
//! A bulletin arrives as three strings: an envelope timestamp, a free-text
//! message and a short product code. [`records::Record::from_json`] turns such
//! an entry into a typed record, [`records::filter_records`] selects the
//! records of a trailing window, and [`db::EventTable`] models the event table
//! with its conditional insert and its link resolution.
//!
//! Regular expressions are matched by the `regex` crate and dates are read by
//! the `chrono` crate. What the two return is not specified here: the
//! contracts name it ([`pattern::pattern_captures`],
//! [`instant::parsed_datetime`]) and say exactly what the library makes of it.

pub mod number;
pub mod instant;
pub mod pattern;
pub mod error;
pub mod product;
pub mod bulletin;
pub mod records;
pub mod db;
