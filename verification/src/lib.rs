//! Converts reStructuredText markup into an HTML fragment.
//!
//! Every function of this crate works on sequences of Unicode scalar values
//! and states, in its contract, the exact text or value that it computes.

pub mod analysis;
pub mod blocks;
pub mod chars;
pub mod clock;
pub mod converter;
pub mod directives;
pub mod glossary;
pub mod html_utils;
pub mod inline;
pub mod items;
pub mod laws;
pub mod lines;
pub mod lists;
pub mod number;
pub mod options;
pub mod parser;
pub mod roles;
pub mod search;
pub mod state;
pub mod tables;
pub mod text;

pub use crate::clock::Moment;
pub use crate::converter::{convert, convert_at, convert_with_options};
pub use crate::state::{ConvertOptions, ConverterState};
