//! The version-1 persistence format: validated scalar values, the document's
//! objects, their conversion to and from domain values, and the envelope checks.

pub mod codec;
pub mod conversions;
pub mod dto;
pub mod values;
