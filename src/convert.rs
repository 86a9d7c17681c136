//! The decisions behind the two boundary entry points: which texts are decoded, which
//! message an encoding yields, and which text may be handed out as a C string.
use crate::codec::{
    decode_text, decoded_line, encode_line, encoded_text, is_coordinate_error, utf8_text, Line,
};
use crate::framing::{
    in_alphabet, is_well_framed, lemma_short_values_decode, values_framed, well_framed,
    ENCODED_VALUE_CHARS,
};
use crate::precision::{get_precision, valid_precision};
use vstd::prelude::*;
use vstd::string::StringSliceAdditionalSpecFns;
use vstd::utf8::{decode_utf8, encode_utf8, encode_utf8_decode_utf8, is_ascii_chars, is_ascii_chars_encode_utf8, valid_utf8};

verus! {

/// Text returned by an encoding asked for at an unsupported precision.
pub open spec fn bad_precision_message() -> Seq<char> {
    "Bad precision parameter supplied"@
}

/// Text returned in place of a message that cannot be handed out as a C string.
pub open spec fn fallback_message() -> Seq<char> {
    "Couldn't decode Polyline"@
}

/// The bytes hold a zero byte, which would cut a C string short.
pub open spec fn has_nul(bytes: Seq<u8>) -> bool {
    exists|i: int| 0 <= i < bytes.len() && bytes[i] == 0
}

/// The text is decoded at this precision; any other input yields the failure sentinel.
pub open spec fn decodable(text: Seq<u8>, precision: u32) -> bool {
    valid_precision(precision) && well_framed(text)
}

/// Decodes polyline text at the given precision. `None` stands for failure, which the
/// boundary reports as a single `(NaN, NaN)` pair.
pub fn arr_from_string(incoming: &str, precision: u32) -> (r: Option<Line>)
    ensures
        r == (if decodable(incoming.spec_bytes(), precision) {
            Some(decoded_line(incoming@, precision))
        } else {
            None::<Line>
        }),
{
    if get_precision(precision).is_none() {
        return None;
    }
    if !is_well_framed(incoming.as_bytes()) {
        return None;
    }
    match decode_text(incoming, precision) {
        Ok(line) => Some(line),
        Err(_) => None,
    }
}

/// Decodes the bytes of a C string: they are read as UTF-8 first, and text that is not
/// UTF-8 fails like any other undecodable input.
pub fn decode_polyline_bytes(bytes: &[u8], precision: u32) -> (r: Option<Line>)
    ensures
        r == (if valid_utf8(bytes@) && decodable(bytes@, precision) {
            Some(decoded_line(decode_utf8(bytes@), precision))
        } else {
            None::<Line>
        }),
{
    match utf8_text(bytes) {
        Some(text) => {
            proof {
                encode_utf8_decode_utf8(text@);
            }
            arr_from_string(text, precision)
        },
        None => None,
    }
}

/// Encodes a line at the given precision. The result is the polyline, the codec's own
/// message for an out-of-range coordinate, or a fixed message for a bad precision.
///
/// A polyline returned here decodes again at the same precision (when it is no longer
/// than 2^33 bytes); how close the decoded coordinates come to the encoded ones is the
/// codec's matter and is not stated.
pub fn string_from_arr(incoming: Line, precision: u32) -> (r: String)
    ensures
        !valid_precision(precision) ==> r@ == bad_precision_message(),
        valid_precision(precision) ==> r@ == encoded_text(incoming, precision),
        valid_precision(precision) ==> is_coordinate_error(r@) || values_framed(
            encode_utf8(r@),
            ENCODED_VALUE_CHARS as int,
        ),
        valid_precision(precision) && !is_coordinate_error(r@) && encode_utf8(r@).len()
            <= 0x2_0000_0000 ==> decodable(encode_utf8(r@), precision),
{
    if get_precision(precision).is_some() {
        let text = match encode_line(incoming, precision) {
            Ok(res) => res,
            Err(res) => res,
        };
        proof {
            if !is_coordinate_error(text@) && encode_utf8(text@).len() <= 0x2_0000_0000 {
                lemma_short_values_decode(encode_utf8(text@));
            }
        }
        text
    } else {
        "Bad precision parameter supplied".to_owned()
    }
}

/// Finds a zero byte.
pub fn contains_nul(bytes: &[u8]) -> (r: bool)
    ensures
        r == has_nul(bytes@),
{
    let mut i: usize = 0;
    while i < bytes.len()
        invariant
            i <= bytes@.len(),
            forall|j: int| 0 <= j < i ==> bytes@[j] != 0,
        decreases bytes@.len() - i,
    {
        if bytes[i] == 0 {
            return true;
        }
        i = i + 1;
    }
    false
}

/// Readies text to be handed out as a C string: text with a zero byte is replaced by a
/// fixed message, so that what goes out is always a whole, valid C string.
pub fn export_text(text: String) -> (r: String)
    ensures
        r@ == (if has_nul(encode_utf8(text@)) { fallback_message() } else { text@ }),
        !has_nul(encode_utf8(r@)),
{
    if contains_nul(text.as_str().as_bytes()) {
        let fallback = "Couldn't decode Polyline".to_owned();
        proof {
            reveal_strlit("Couldn't decode Polyline");
            assert(is_ascii_chars(fallback@));
            is_ascii_chars_encode_utf8(fallback@);
        }
        fallback
    } else {
        text
    }
}

/// Encodes a line and readies the result to be handed out as a C string: the codec's
/// text unless it holds a zero byte.
pub fn encode_coordinates_text(coords: Line, precision: u32) -> (r: String)
    ensures
        !has_nul(encode_utf8(r@)),
        !valid_precision(precision) ==> r@ == bad_precision_message(),
        valid_precision(precision) ==> r@ == (if has_nul(encode_utf8(encoded_text(coords, precision))) {
            fallback_message()
        } else {
            encoded_text(coords, precision)
        }),
{
    let text = string_from_arr(coords, precision);
    proof {
        if !valid_precision(precision) {
            // the fixed message is plain ASCII, so it holds no zero byte
            reveal_strlit("Bad precision parameter supplied");
            assert(is_ascii_chars(text@));
            is_ascii_chars_encode_utf8(text@);
        }
    }
    export_text(text)
}

/// Decoding at any precision other than 5 or 6 fails, whatever the text.
pub proof fn lemma_unsupported_precision_fails(text: Seq<u8>, precision: u32)
    requires
        !valid_precision(precision),
    ensures
        !decodable(text, precision),
{
}

/// Decoding text that holds a character outside the polyline alphabet fails, whatever
/// the precision.
pub proof fn lemma_foreign_character_fails(text: Seq<u8>, precision: u32, i: int)
    requires
        0 <= i < text.len(),
        !in_alphabet(text[i]),
    ensures
        !decodable(text, precision),
{
}

} // verus!
