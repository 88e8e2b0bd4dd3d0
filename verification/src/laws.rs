//! What holds of the notation: reading what was written gives back what was
//! written, field by field and for whole records.

pub mod board;
pub mod hands;
pub mod moves;
pub mod record;
pub mod words;
