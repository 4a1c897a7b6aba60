//! Verified library for a small collection of programming exercises:
//! an ordered "largest element" reducer, descriptive statistics (mean,
//! median, mode) over integer samples, text segmentation helpers, and a
//! number of small worked examples around them.

pub mod adder;
pub mod errors;
pub mod lessons;
pub mod ownership;
pub mod reducer;
pub mod stats;
pub mod text;
pub mod webdev;
