//! The schema types and their compilers.
pub mod bitfield;
pub mod bitlayout;
pub mod structlayout;
pub mod structure;
