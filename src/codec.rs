//! The outside items the library relies on: the polyline codec, the coordinate container
//! it works on, and std's UTF-8 check.
use crate::framing::{values_framed, well_framed, ENCODED_VALUE_CHARS};
use crate::precision::valid_precision;
use geo_types::LineString;
use vstd::prelude::*;
use vstd::string::StringSliceAdditionalSpecFns;
use vstd::utf8::{encode_utf8, valid_utf8};

verus! {

/// A line of `(x, y)` coordinates, held in the container of `geo_types` and carried
/// through the library unopened. The container is generic over a numeric trait that
/// Verus cannot take as a bound, so the line is wrapped rather than declared.
#[verifier::external_body]
pub struct Line(pub LineString);

/// The line that `polyline::decode_polyline` produces from the given text and precision.
pub uninterp spec fn decoded_line(text: Seq<char>, precision: u32) -> Line;

/// The text that `polyline::encode_coordinates` produces from the given line and
/// precision: the polyline, or its message for a rejected coordinate.
pub uninterp spec fn encoded_text(coords: Line, precision: u32) -> Seq<char>;

/// The message the codec gives for a coordinate outside the valid range.
pub open spec fn is_coordinate_error(msg: Seq<char>) -> bool {
    "Latitude error"@.is_prefix_of(msg) || "Longitude error"@.is_prefix_of(msg)
}

/// Relies on `polyline::decode_polyline`: it fails only on a character below `?` or on a
/// value of more than twelve characters, and it indexes past the end of the text only when
/// the text stops inside a value. A value of `L` characters holds under 2^(5L) before its
/// sign is taken out, so it changes a running sum by at most 2^(5L - 1), its weight; when
/// the weights of all values sum to at most `i64::MAX`, neither running sum leaves `i64`.
/// `10^precision` fits its `i32` at precision 5 or 6. Well-framed text is therefore
/// decoded without error or panic, and the line depends on the text and precision alone.
#[verifier::external_body]
pub(crate) fn decode_text(text: &str, precision: u32) -> (r: Result<Line, String>)
    requires
        valid_precision(precision),
        well_framed(text.spec_bytes()),
    ensures
        r is Ok,
        r matches Ok(line) ==> line == decoded_line(text@, precision),
{
    match polyline::decode_polyline(text, precision) {
        Ok(points) => Ok(Line(points)),
        Err(e) => Err(e),
    }
}

/// Relies on `polyline::encode_coordinates`. It rejects a latitude outside -90..=90 or a
/// longitude outside -180..=180 with a message that begins "Latitude error" or "Longitude
/// error". Otherwise each value it writes is the doubled (and, when negative, inverted)
/// difference of two scaled coordinates, sent as five-bit chunks plus 63: the chunks
/// before the last carry 0x20 and land in 95..=126, the last lands in 63..=94. At
/// precision 6 or below such a value stays under 2^30, so it takes at most six chunks.
/// The precision must keep `10^precision` inside `i32`. The text depends on the line and
/// precision alone.
#[verifier::external_body]
pub(crate) fn encode_line(coords: Line, precision: u32) -> (r: Result<String, String>)
    requires
        valid_precision(precision),
    ensures
        (match r {
            Ok(s) => s@,
            Err(e) => e@,
        }) == encoded_text(coords, precision),
        r matches Ok(s) ==> values_framed(encode_utf8(s@), ENCODED_VALUE_CHARS as int),
        r matches Err(e) ==> is_coordinate_error(e@),
{
    polyline::encode_coordinates(coords.0, precision)
}

/// Relies on `std::str::from_utf8`: it accepts exactly the byte strings that are valid
/// UTF-8, and the text it returns is made of those same bytes.
#[verifier::external_body]
pub(crate) fn utf8_text(bytes: &[u8]) -> (r: Option<&str>)
    ensures
        r is Some <==> valid_utf8(bytes@),
        r matches Some(t) ==> t.spec_bytes() == bytes@,
{
    std::str::from_utf8(bytes).ok()
}

} // verus!
