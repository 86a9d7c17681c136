//! Marshalling layer around the polyline codec: precision checks, framing checks on
//! incoming polyline text, and the decisions behind the decode and encode entry points.
//!
//! Coordinates cross this layer in `(x, y)` order, that is `(longitude, latitude)`, the
//! opposite of the order the polyline format itself documents.

pub mod codec;
pub mod convert;
pub mod framing;
pub mod precision;

pub use codec::Line;
pub use convert::{
    arr_from_string, contains_nul, decode_polyline_bytes, encode_coordinates_text, export_text,
    string_from_arr,
};
pub use framing::is_well_framed;
pub use precision::get_precision;
