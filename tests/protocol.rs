use scripty_stt::protocol::{
    check_reply, decode_handshake, decode_utilization, is_above_threshold, read_be_u64,
    Handshake, ProtocolError,
};

#[test]
fn reply_accepted() {
    assert_eq!(check_reply(0x06), Ok(()));
}

#[test]
fn reply_rejected() {
    assert_eq!(check_reply(0x05), Err(ProtocolError::UnexpectedReply(0x05)));
    assert_eq!(check_reply(0x00), Err(ProtocolError::UnexpectedReply(0x00)));
}

#[test]
fn big_endian_read() {
    let b = [0xAAu8, 0x01, 0x02, 0x03, 0x04, 0x05, 0x06, 0x07, 0x08];
    assert_eq!(read_be_u64(&b, 1), 0x0102_0304_0506_0708);
}

#[test]
fn handshake_decoded() {
    let mut b = 0.75f64.to_be_bytes().to_vec();
    b.push(0x01);
    assert_eq!(
        decode_handshake(&b),
        Ok(Handshake { max_utilization: 0.75f64.to_bits(), can_overload: true })
    );
}

#[test]
fn handshake_capability_other_byte_is_false() {
    let mut b = 0.5f64.to_be_bytes().to_vec();
    b.push(0x02);
    assert_eq!(
        decode_handshake(&b),
        Ok(Handshake { max_utilization: 0.5f64.to_bits(), can_overload: false })
    );
}

#[test]
fn handshake_wrong_length() {
    assert_eq!(decode_handshake(&[0u8; 8]), Err(ProtocolError::BadLength(8)));
    assert_eq!(decode_handshake(&[]), Err(ProtocolError::BadLength(0)));
}

#[test]
fn utilization_decoded() {
    let b = 0.42f64.to_be_bytes();
    assert_eq!(decode_utilization(&b), Ok(0.42f64.to_bits()));
    assert_eq!(decode_utilization(&b[..7]), Err(ProtocolError::BadLength(7)));
}

#[test]
fn threshold_strictly_above() {
    let max = 0.8f64.to_bits();
    assert!(is_above_threshold(0.9f64.to_bits(), max));
    assert!(!is_above_threshold(0.8f64.to_bits(), max));
    assert!(!is_above_threshold(0.5f64.to_bits(), max));
    assert!(is_above_threshold(f64::INFINITY.to_bits(), max));
}

#[test]
fn threshold_signs_and_zeros() {
    assert!(!is_above_threshold((-0.0f64).to_bits(), 0.0f64.to_bits()));
    assert!(!is_above_threshold(0.0f64.to_bits(), (-0.0f64).to_bits()));
    assert!(is_above_threshold(0.1f64.to_bits(), (-0.1f64).to_bits()));
    assert!(!is_above_threshold((-0.1f64).to_bits(), 0.1f64.to_bits()));
    assert!(is_above_threshold((-0.1f64).to_bits(), (-0.2f64).to_bits()));
    assert!(!is_above_threshold((-0.3f64).to_bits(), (-0.2f64).to_bits()));
}

#[test]
fn threshold_nan_never_above() {
    assert!(!is_above_threshold(f64::NAN.to_bits(), 0.5f64.to_bits()));
    assert!(!is_above_threshold(0.5f64.to_bits(), f64::NAN.to_bits()));
}

#[test]
fn threshold_matches_float_comparison() {
    let values = [-2.5f64, -1.0, -0.0, 0.0, 1e-300, 0.25, 0.5, 0.999, 1.0, 3.0, f64::INFINITY, f64::NEG_INFINITY];
    for a in values {
        for b in values {
            assert_eq!(is_above_threshold(a.to_bits(), b.to_bits()), a > b, "{} > {}", a, b);
        }
    }
}
