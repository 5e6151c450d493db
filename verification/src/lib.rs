//! Boolean filters over faceted document indices.
//!
//! A filter is written as text (`channel = gotaga OR (timestamp 22 TO 44 AND
//! channel != ponce)`), read into a syntax tree, resolved against the fields
//! that may be filtered on into a [`FilterCondition`], and evaluated against a
//! [`FacetIndex`] into the bitmap of the documents that match.
//!
//! Numbers are held as integer keys that order as the numbers do
//! ([`number::Number`]); to read a text as a number and to measure a distance
//! is left to the caller, who hands the results in as [`fields::NumberReadings`]
//! and [`index::GeoSearch`].

pub mod array;
pub mod bitmap;
pub mod condition;
pub mod descent;
pub mod error;
pub mod evaluate;
pub mod fields;
pub mod filter_condition;
pub mod index;
pub mod laws;
pub mod lexer;
pub mod number;
pub mod operator;
pub mod parser;
pub mod pyramid_laws;
pub mod resolve;
pub mod text;
pub mod token;
pub mod tree;

pub use condition::{parse_condition, parse_to, Condition};
pub use error::FilterError;
pub use filter_condition::FilterCondition;
pub use index::FacetIndex;
pub use operator::Operator;
