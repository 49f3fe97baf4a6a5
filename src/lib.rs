//! Zero-copy decoder for RADIUS packets: a 20-byte header followed by a
//! sequence of type-length-value attribute records.
//!
//! Every decoding function is verified against the spec functions of
//! [`model`]: it never reads past its input, never panics, and returns
//! exactly the packet (or the error) that the model describes.

pub mod code;
pub mod decode;
pub mod laws;
pub mod model;
pub mod packet;

pub use code::RadiusCode;
pub use decode::{parse_radius_attribute, parse_radius_attributes, parse_radius_data};
pub use packet::{RadiusAttribute, RadiusData, RadiusError};
