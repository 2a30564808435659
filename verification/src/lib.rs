//! Russian numeral-to-words pronunciation engine.
//!
//! A non-negative magnitude is split into groups of three decimal digits
//! (`Triplet`s), each group is rendered as Russian words with correct
//! gender agreement, and an accompanying noun (a currency unit or a count
//! unit) is declined according to the trailing digits of the numeral.

pub mod digits;
pub mod money;
pub mod pronounce;
pub mod unit;
