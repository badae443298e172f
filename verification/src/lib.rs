//! Verified cores of four line-oriented text utilities.
//!
//! - [`commr`] compares two sorted inputs line by line; [`theory`] holds what
//!   is proved of that comparison, and [`order`] the order it goes by.
//! - [`headr`] shows the first lines or bytes of an input.
//! - [`uniqr`] reports each run of repeated lines once.
//! - [`wcr`] counts lines, words, bytes and characters.
//!
//! Reading and writing are left to the caller: every function here takes
//! the text it works on and gives back the text to write.

pub mod commr;
pub mod headr;
pub mod number;
pub mod order;
pub mod text;
pub mod theory;
pub mod uniqr;
pub mod wcr;
