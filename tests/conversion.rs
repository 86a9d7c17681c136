use geo_types::LineString;
use polyline_ffi::{
    arr_from_string, contains_nul, decode_polyline_bytes, encode_coordinates_text, export_text,
    get_precision, is_well_framed, string_from_arr, Line,
};

fn line(points: Vec<[f64; 2]>) -> Line {
    Line(points.into())
}

fn decoded_points(result: Option<Line>) -> Vec<[f64; 2]> {
    let line = result.expect("the text should decode");
    line.0.0.iter().map(|c| [c.x, c.y]).collect()
}

#[test]
fn test_coordinate_conversion() {
    let input = vec![[2.0, 1.0], [4.0, 3.0]];
    let output = "_ibE_seK_seK_seK";
    let transformed: String = string_from_arr(line(input), 5);
    assert_eq!(transformed, output);
}

#[test]
fn test_string_conversion() {
    let input = "_ibE_seK_seK_seK";
    let output = vec![[2.0, 1.0], [4.0, 3.0]];
    let transformed = arr_from_string(input, 5).expect("the text should decode");
    let expected: LineString<f64> = output.into();
    assert_eq!(transformed.0, expected);
}

#[test]
fn test_long_vec() {
    let input = vec![[-120.2, 38.5], [-120.95, 40.7], [-126.453, 43.252]];
    let output = "_p~iF~ps|U_ulLnnqC_mqNvxq`@";
    for _ in 0..9999 {
        let transformed: String = string_from_arr(line(input.clone()), 5);
        assert_eq!(transformed, output);
    }
}

#[test]
fn precision_five_and_six_are_kept() {
    assert_eq!(get_precision(5), Some(5));
    assert_eq!(get_precision(6), Some(6));
}

#[test]
fn other_precisions_are_refused() {
    for p in [0u32, 1, 4, 7, 10, u32::MAX] {
        assert_eq!(get_precision(p), None);
    }
}

#[test]
fn encode_at_precision_six() {
    let transformed = string_from_arr(line(vec![[2.0, 1.0], [4.0, 3.0]]), 6);
    assert_eq!(transformed, "_c`|@_gayB_gayB_gayB");
}

#[test]
fn decode_at_precision_six() {
    let points = decoded_points(arr_from_string("_c`|@_gayB_gayB_gayB", 6));
    assert_eq!(points, vec![[2.0, 1.0], [4.0, 3.0]]);
}

#[test]
fn round_trip_keeps_coordinates_at_both_precisions() {
    let input = vec![[-120.2, 38.5], [-120.95, 40.7], [-126.453, 43.252]];
    for p in [5u32, 6] {
        let text = string_from_arr(line(input.clone()), p);
        let points = decoded_points(arr_from_string(&text, p));
        assert_eq!(points.len(), input.len());
        let tolerance = 0.5 / 10f64.powi(p as i32) + 1e-12;
        for (a, b) in points.iter().zip(input.iter()) {
            assert!((a[0] - b[0]).abs() <= tolerance);
            assert!((a[1] - b[1]).abs() <= tolerance);
        }
    }
}

#[test]
fn round_trip_of_empty_line() {
    let text = string_from_arr(line(vec![]), 5);
    assert_eq!(text, "");
    assert!(decoded_points(arr_from_string(&text, 5)).is_empty());
}

#[test]
fn encode_with_bad_precision_gives_fixed_message() {
    for p in [0u32, 4, 7, 99] {
        let text = string_from_arr(line(vec![[2.0, 1.0], [4.0, 3.0]]), p);
        assert_eq!(text, "Bad precision parameter supplied");
    }
}

#[test]
fn decode_with_bad_precision_fails() {
    assert!(arr_from_string("_ibE_seK_seK_seK", 7).is_none());
    assert!(decode_polyline_bytes(b"_ibE_seK_seK_seK", 7).is_none());
    assert!(arr_from_string("_ibE_seK_seK_seK", 4).is_none());
}

#[test]
fn decode_of_foreign_characters_fails() {
    for text in ["_ibE_seK_seK_se K", "_ibE!_seK_seK_seK", "abc\u{7f}?", "_p~iF~ps|U_u\u{1f5d1}lLnnqC_mqNvxq`@"] {
        assert!(arr_from_string(text, 5).is_none());
        assert!(arr_from_string(text, 6).is_none());
    }
}

#[test]
fn decode_of_invalid_utf8_fails() {
    let bytes: Vec<u8> = vec![b'_', b'i', 0xf0, 0x9f, b'b', b'E'];
    assert!(decode_polyline_bytes(&bytes, 5).is_none());
}

#[test]
fn decode_of_valid_bytes() {
    let points = decoded_points(decode_polyline_bytes(b"_ibE_seK_seK_seK", 5));
    assert_eq!(points, vec![[2.0, 1.0], [4.0, 3.0]]);
}

#[test]
fn decode_of_unfinished_value_fails() {
    assert!(arr_from_string("_ibE_seK_seK_se", 5).is_none());
    assert!(arr_from_string("_", 5).is_none());
}

#[test]
fn decode_of_empty_text_gives_empty_line() {
    assert!(decoded_points(arr_from_string("", 5)).is_empty());
}

#[test]
fn framing_limits_value_length() {
    assert!(is_well_framed(b"_____?"));
    assert!(is_well_framed(b"______?"));
    assert!(is_well_framed(b"___________?"));
    assert!(!is_well_framed(b"____________?"));
    assert!(is_well_framed(b""));
    assert!(!is_well_framed(b"?_"));
    assert!(!is_well_framed(b"?>"));
}

#[test]
fn framing_limits_summed_weight() {
    let longest = "___________?";
    assert!(is_well_framed(longest.repeat(15).as_bytes()));
    assert!(!is_well_framed(longest.repeat(16).as_bytes()));
}

#[test]
fn decode_of_long_values() {
    assert_eq!(decoded_points(arr_from_string("______??", 5)), vec![[0.0, 0.0]]);
    let longest = "___________?";
    let points = decoded_points(arr_from_string(&longest.repeat(14), 6));
    assert_eq!(points, vec![[0.0, 0.0]; 7]);
}

#[test]
fn encode_with_latitude_out_of_range() {
    let text = string_from_arr(line(vec![[2.0, 91.0]]), 5);
    assert!(text.starts_with("Latitude error"), "{}", text);
}

#[test]
fn encode_with_longitude_out_of_range() {
    let text = string_from_arr(line(vec![[181.0, 1.0]]), 6);
    assert!(text.starts_with("Longitude error"), "{}", text);
}

#[test]
fn export_replaces_text_with_zero_byte() {
    assert_eq!(export_text("ab\0cd".to_string()), "Couldn't decode Polyline");
    assert_eq!(export_text("_ibE_seK".to_string()), "_ibE_seK");
    assert!(contains_nul(b"a\0"));
    assert!(!contains_nul(b"abc"));
}

#[test]
fn encode_to_text_end_to_end() {
    let coords = line(vec![[2.0, 1.0], [4.0, 3.0]]);
    assert_eq!(encode_coordinates_text(coords, 5), "_ibE_seK_seK_seK");
    let coords = line(vec![[2.0, 1.0]]);
    assert_eq!(encode_coordinates_text(coords, 7), "Bad precision parameter supplied");
}

#[test]
fn encoded_text_is_well_framed() {
    let input = vec![[-180.0, -90.0], [180.0, 90.0], [-180.0, -90.0]];
    for p in [5u32, 6] {
        let text = string_from_arr(line(input.clone()), p);
        assert!(is_well_framed(text.as_bytes()), "{}", text);
        assert_eq!(decoded_points(arr_from_string(&text, p)), input);
    }
}
