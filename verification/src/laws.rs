//! The laws of the schemas and of the codecs, with their proofs.
pub mod bitfield;
pub mod bitlayout;
pub mod structlayout;
pub mod structure;
