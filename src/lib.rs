/// Frequency tables of guess counts.
pub mod histogram;
/// Text rendering of a frequency table.
pub mod render;
/// Binary search for a secret, one trial at a time.
pub mod search;
/// Many trials tabulated into one table.
pub mod simulation;
