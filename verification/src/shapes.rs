//! The types that come with a place on the wire.

pub mod compound;
pub mod numbers;
pub mod sequence;
pub mod text;
