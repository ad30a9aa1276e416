use vermon::certificate::{check_certificate_expiry, expiry};
use vermon::time::Timestamp;

/// A certificate that is valid until the start of 2030.
const CERTIFICATE: [u8; 314] = [
    0x30, 0x82, 0x01, 0x36, 0x30, 0x81, 0xe9, 0xa0, 0x03, 0x02, 0x01, 0x02, 0x02, 0x14, 0x63, 0xeb,
    0x56, 0xf9, 0x4a, 0x65, 0xf1, 0xee, 0xc2, 0xfd, 0x95, 0x04, 0x58, 0x5b, 0xee, 0x88, 0xb1, 0xcc,
    0x8b, 0x43, 0x30, 0x05, 0x06, 0x03, 0x2b, 0x65, 0x70, 0x30, 0x11, 0x31, 0x0f, 0x30, 0x0d, 0x06,
    0x03, 0x55, 0x04, 0x03, 0x0c, 0x06, 0x76, 0x65, 0x72, 0x6d, 0x6f, 0x6e, 0x30, 0x1e, 0x17, 0x0d,
    0x32, 0x35, 0x30, 0x31, 0x30, 0x31, 0x30, 0x30, 0x30, 0x30, 0x30, 0x30, 0x5a, 0x17, 0x0d, 0x33,
    0x30, 0x30, 0x31, 0x30, 0x31, 0x30, 0x30, 0x30, 0x30, 0x30, 0x30, 0x5a, 0x30, 0x11, 0x31, 0x0f,
    0x30, 0x0d, 0x06, 0x03, 0x55, 0x04, 0x03, 0x0c, 0x06, 0x76, 0x65, 0x72, 0x6d, 0x6f, 0x6e, 0x30,
    0x2a, 0x30, 0x05, 0x06, 0x03, 0x2b, 0x65, 0x70, 0x03, 0x21, 0x00, 0xda, 0xaf, 0x2d, 0x5b, 0x6a,
    0x8d, 0xf0, 0xff, 0x46, 0xfa, 0x71, 0x0c, 0xed, 0x90, 0x9c, 0x2f, 0x44, 0xe2, 0x63, 0x9d, 0x95,
    0x5b, 0xf1, 0x55, 0x66, 0x66, 0x22, 0x3a, 0x1e, 0x2d, 0x63, 0x65, 0xa3, 0x53, 0x30, 0x51, 0x30,
    0x1d, 0x06, 0x03, 0x55, 0x1d, 0x0e, 0x04, 0x16, 0x04, 0x14, 0x65, 0x8c, 0x33, 0x02, 0x2d, 0x84,
    0x0a, 0x26, 0xcd, 0x6b, 0xb1, 0x47, 0x62, 0x5b, 0xe4, 0x95, 0xc7, 0x12, 0x33, 0x83, 0x30, 0x1f,
    0x06, 0x03, 0x55, 0x1d, 0x23, 0x04, 0x18, 0x30, 0x16, 0x80, 0x14, 0x65, 0x8c, 0x33, 0x02, 0x2d,
    0x84, 0x0a, 0x26, 0xcd, 0x6b, 0xb1, 0x47, 0x62, 0x5b, 0xe4, 0x95, 0xc7, 0x12, 0x33, 0x83, 0x30,
    0x0f, 0x06, 0x03, 0x55, 0x1d, 0x13, 0x01, 0x01, 0xff, 0x04, 0x05, 0x30, 0x03, 0x01, 0x01, 0xff,
    0x30, 0x05, 0x06, 0x03, 0x2b, 0x65, 0x70, 0x03, 0x41, 0x00, 0x8e, 0xd4, 0x45, 0x09, 0xc5, 0x53,
    0x58, 0xd5, 0x35, 0x20, 0x83, 0xbf, 0x08, 0xcf, 0x99, 0x6f, 0x03, 0xef, 0x91, 0x4d, 0xe0, 0x5a,
    0x0b, 0x52, 0xb2, 0x31, 0x4f, 0x79, 0xd7, 0xf8, 0x6f, 0x67, 0xa0, 0xb9, 0xfc, 0x6f, 0xee, 0x59,
    0xde, 0x07, 0x40, 0x1e, 0x7c, 0x95, 0xa3, 0x93, 0xed, 0xc4, 0x12, 0x98, 0x84, 0xe5, 0xbc, 0xc8,
    0xa6, 0x8c, 0x10, 0xab, 0x8e, 0x01, 0x2e, 0xd4, 0x49, 0x0d,
];

fn at(seconds: i64) -> Timestamp {
    Timestamp::new(seconds, 0).unwrap()
}

#[test]
fn first_certificate_decides() {
    let now = at(1_893_456_000 - 10 * 86_400 - 1);
    let chain = vec![CERTIFICATE.to_vec(), vec![1, 2, 3]];
    assert_eq!(check_certificate_expiry(&chain, now), (Some(at(1_893_456_000)), Some(10)));
    let reversed = vec![vec![1, 2, 3], CERTIFICATE.to_vec()];
    assert_eq!(check_certificate_expiry(&reversed, now), (None, None));
    assert_eq!(check_certificate_expiry(&vec![], now), (None, None));
}

#[test]
fn days_left_are_whole_days() {
    assert_eq!(expiry(Some(86_399), at(0)), (Some(at(86_399)), Some(0)));
    assert_eq!(expiry(Some(86_400), at(0)), (Some(at(86_400)), Some(1)));
    assert_eq!(expiry(Some(0), at(86_399)), (Some(at(0)), Some(0)));
    assert_eq!(expiry(Some(0), at(86_400)), (Some(at(0)), Some(-1)));
}

#[test]
fn expiry_out_of_range_is_unknown() {
    assert_eq!(expiry(Some(i64::MAX), at(0)), (None, None));
    assert_eq!(expiry(None, at(0)), (None, None));
}
