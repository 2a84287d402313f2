//! Selects file names by a type tag and by the millisecond timestamp that
//! they carry between their first and second period.

pub mod text;
pub mod matcher;
pub mod timestamp;
pub mod selection;
