use router::polyline::{decode_fixed, decode_points, encode_fixed, encode_points};

const POLYLINE: &str = "_p~iF~ps|U_ulLnnqC_mqNvxq`@";
const COORDS: &[[f32; 2]] = &[[38.5, -120.2], [40.7, -120.95], [43.252, -126.453]];

fn scale(precision: u32) -> f32 {
    10i32.pow(precision) as f32
}

#[test]
fn test_encode() {
    let factor = scale(5);
    let encoded = encode_fixed(COORDS, |c: [f32; 2]| {
        [(c[0] * factor).round() as i32, (c[1] * factor).round() as i32]
    });
    assert_eq!(POLYLINE, encoded);
}

#[test]
fn test_decode() {
    let factor = scale(5);
    let decoded = decode_fixed(POLYLINE, |f: [i32; 2]| [f[0] as f32 / factor, f[1] as f32 / factor]).unwrap();
    assert_eq!(COORDS, decoded.as_slice());
}

#[test]
fn encode_empty_is_empty() {
    let empty: Vec<[i32; 2]> = Vec::new();
    assert_eq!(encode_points(&empty), "");
}

#[test]
fn decode_roundtrips_fixed_points() {
    let points: Vec<[i32; 3]> = vec![[0, 0, 0], [1, -1, 31], [-5000000, 17999999, -32], [16, 16, 16]];
    let encoded = encode_points(&points);
    assert_eq!(decode_points::<3>(&encoded).unwrap(), points);
}

#[test]
fn decode_reports_offset_of_bad_byte() {
    // a space is below the first valid character
    let err = decode_points::<2>("_p~iF ").unwrap_err();
    assert_eq!(err.offset(), 5);
}

#[test]
fn decode_drops_trailing_incomplete_point() {
    // one whole value, then a continuation byte: no point is complete
    assert_eq!(decode_points::<2>("_p~iF~").unwrap(), Vec::<[i32; 2]>::new());
    // a whole point followed by half of the next
    assert_eq!(decode_points::<2>("_p~iF~ps|U_ulL").unwrap(), vec![[3850000, -12020000]]);
}

#[test]
fn decode_hands_each_point_to_the_conversion() {
    let sums = decode_fixed("_p~iF~ps|U_ulLnnqC", |f: [i32; 2]| f[0] as i64 + f[1] as i64).unwrap();
    assert_eq!(sums, vec![3850000i64 - 12020000, 4070000i64 - 12095000]);
    let err = decode_fixed("_p~iF ", |f: [i32; 2]| f[0]).unwrap_err();
    assert_eq!(err.offset(), 5);
}

#[test]
fn encode_converts_before_encoding() {
    let pairs: [(i32, i32); 2] = [(3850000, -12020000), (4070000, -12095000)];
    let encoded = encode_fixed(&pairs, |p: (i32, i32)| [p.0, p.1]);
    assert_eq!(encoded, "_p~iF~ps|U_ulLnnqC");
}

#[test]
fn encoded_points_decode_back() {
    let coords: Vec<[i32; 2]> = vec![[0, 0], [268435455, -268435455], [-268435455, 268435455], [17, -4]];
    let encoded = encode_fixed(&coords, |a: [i32; 2]| a);
    assert_eq!(decode_fixed(&encoded, |a: [i32; 2]| a), Ok(coords));
}
