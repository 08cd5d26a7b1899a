use base64::engine::general_purpose::STANDARD;
use base64::Engine;
use c1_bridge::metering_utils::{decode_metering2_binary, decode_metering2_samples, decode_non_padded_base64};

fn b64_no_pad(bytes: &[u8]) -> String {
    STANDARD.encode(bytes).trim_end_matches('=').to_string()
}

#[test]
fn decode_non_padded_base64_decodes_a_non_padded_string() {
    let buf = vec![0x00u8, 0x64];
    let b64 = b64_no_pad(&buf);
    assert_eq!(decode_non_padded_base64(&b64), buf);
}

#[test]
fn decode_non_padded_base64_gives_nothing_for_invalid_text() {
    assert_eq!(decode_non_padded_base64("!!!!"), Vec::<u8>::new());
}

#[test]
fn single_param_single_value_1_02db_encoded_as_102() {
    let b64 = b64_no_pad(&102i16.to_be_bytes());
    let result = decode_metering2_binary(&b64, 1).unwrap();
    assert_eq!(result.values_per_param, 1);
    assert_eq!(result.max_centi_db_by_param[0], 102);
    assert_eq!(result.max_centi_db_by_param[0] as f64 / 100.0, 1.02);
}

#[test]
fn multiple_params_take_max_value_per_param() {
    let mut buf = Vec::new();
    buf.extend_from_slice(&(-2000i16).to_be_bytes());
    buf.extend_from_slice(&(-1000i16).to_be_bytes());
    buf.extend_from_slice(&(500i16).to_be_bytes());
    buf.extend_from_slice(&(200i16).to_be_bytes());
    let b64 = b64_no_pad(&buf);
    let result = decode_metering2_binary(&b64, 2).unwrap();
    assert_eq!(result.values_per_param, 2);
    assert_eq!(result.max_centi_db_by_param, vec![-1000, 500]);
}

#[test]
fn invalid_param_count_returns_none() {
    assert_eq!(decode_metering2_binary("AAA", 0), None);
    assert_eq!(decode_metering2_binary("AAA", -1), None);
}

#[test]
fn buffer_too_short_returns_none() {
    assert_eq!(decode_metering2_binary("", 1), None);
}

#[test]
fn value_count_not_divisible_by_param_count_returns_none() {
    let b64 = b64_no_pad(&[0u8; 6]);
    assert_eq!(decode_metering2_binary(&b64, 2), None);
}

#[test]
fn samples_decode_reads_big_endian_twos_complement() {
    let result = decode_metering2_samples(&[0x80, 0x00, 0x7f, 0xff, 0xff, 0xff], 1).unwrap();
    assert_eq!(result.values_per_param, 3);
    assert_eq!(result.max_centi_db_by_param, vec![i16::MAX]);
    let result = decode_metering2_samples(&[0x80, 0x00, 0xff, 0xff], 2).unwrap();
    assert_eq!(result.max_centi_db_by_param, vec![i16::MIN, -1]);
    assert_eq!(decode_metering2_samples(&[0x00], 1), None);
}
