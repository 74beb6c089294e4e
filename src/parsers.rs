//! Locating, parsing and annotating citations.
pub mod locate;
pub mod scripture;
pub mod souround;
pub mod surround;
