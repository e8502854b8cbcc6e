//! Turns an arbitrary byte string into a structurally valid 32-bit bitmap that
//! carries those bytes losslessly, and turns such a bitmap back into the
//! original bytes.
pub mod digest;
pub mod error;
pub mod geometry;
pub mod header;
pub mod layout;
pub mod transform;
