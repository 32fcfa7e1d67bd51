//! What a derived encoder or decoder does, worked out from the shape of a type
//! and its attributes.

pub mod agreement;
pub mod attr_laws;
pub mod attrs;
pub mod decode;
pub mod encode;
pub mod fields;
pub mod input;
pub mod laws;
pub mod rename;
