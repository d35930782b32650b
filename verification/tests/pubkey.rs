use ecrecover::pubkey::encode_uncompressed;
use ecrecover::{decompress_pubkey, RecoverError};

const GENERATOR_X: [u8; 32] = [
    0x79, 0xbe, 0x66, 0x7e, 0xf9, 0xdc, 0xbb, 0xac, 0x55, 0xa0, 0x62, 0x95, 0xce, 0x87, 0x0b, 0x07,
    0x02, 0x9b, 0xfc, 0xdb, 0x2d, 0xce, 0x28, 0xd9, 0x59, 0xf2, 0x81, 0x5b, 0x16, 0xf8, 0x17, 0x98,
];

const GENERATOR_Y: [u8; 32] = [
    0x48, 0x3a, 0xda, 0x77, 0x26, 0xa3, 0xc4, 0x65, 0x5d, 0xa4, 0xfb, 0xfc, 0x0e, 0x11, 0x08, 0xa8,
    0xfd, 0x17, 0xb4, 0x48, 0xa6, 0x85, 0x54, 0x19, 0x9c, 0x47, 0xd0, 0x8f, 0xfb, 0x10, 0xd4, 0xb8,
];

const NEGATED_GENERATOR_Y: [u8; 32] = [
    0xb7, 0xc5, 0x25, 0x88, 0xd9, 0x5c, 0x3b, 0x9a, 0xa2, 0x5b, 0x04, 0x03, 0xf1, 0xee, 0xf7, 0x57,
    0x02, 0xe8, 0x4b, 0xb7, 0x59, 0x7a, 0xab, 0xe6, 0x63, 0xb8, 0x2f, 0x6f, 0x04, 0xef, 0x27, 0x77,
];

const FIELD_PRIME: [u8; 32] = [
    0xff, 0xff, 0xff, 0xff, 0xff, 0xff, 0xff, 0xff, 0xff, 0xff, 0xff, 0xff, 0xff, 0xff, 0xff, 0xff,
    0xff, 0xff, 0xff, 0xff, 0xff, 0xff, 0xff, 0xff, 0xff, 0xff, 0xff, 0xfe, 0xff, 0xff, 0xfc, 0x2f,
];

fn compressed(parity: u8, x: &[u8; 32]) -> [u8; 33] {
    let mut key = [0u8; 33];
    key[0] = parity;
    key[1..].copy_from_slice(x);
    key
}

fn uncompressed(x: &[u8; 32], y: &[u8; 32]) -> [u8; 65] {
    let mut key = [0u8; 65];
    key[0] = 4;
    key[1..33].copy_from_slice(x);
    key[33..].copy_from_slice(y);
    key
}

#[test]
fn even_parity_gives_the_even_root() {
    assert_eq!(
        decompress_pubkey(&compressed(2, &GENERATOR_X)),
        Ok(uncompressed(&GENERATOR_X, &GENERATOR_Y))
    );
}

#[test]
fn odd_parity_gives_the_odd_root() {
    assert_eq!(
        decompress_pubkey(&compressed(3, &GENERATOR_X)),
        Ok(uncompressed(&GENERATOR_X, &NEGATED_GENERATOR_Y))
    );
}

#[test]
fn decompressed_key_starts_with_four_and_keeps_x() {
    let mut x = [0u8; 32];
    x[31] = 1;
    let key = decompress_pubkey(&compressed(3, &x)).unwrap();
    assert_eq!(key[0], 4);
    assert_eq!(key[1..33], x);
    assert_eq!(key[64] & 1, 1);
    let even = decompress_pubkey(&compressed(2, &x)).unwrap();
    assert_eq!(even[64] & 1, 0);
    assert_eq!(even[1..33], x);
}

#[test]
fn other_parity_bytes_are_invalid_encodings() {
    for parity in 0..=255u8 {
        let outcome = decompress_pubkey(&compressed(parity, &GENERATOR_X));
        assert_eq!(outcome == Err(RecoverError::InvalidEncoding), parity != 2 && parity != 3);
    }
}

#[test]
fn invalid_encoding_comes_before_a_failed_decompression() {
    assert_eq!(decompress_pubkey(&compressed(4, &[0u8; 32])), Err(RecoverError::InvalidEncoding));
    assert_eq!(decompress_pubkey(&[0u8; 33]), Err(RecoverError::InvalidEncoding));
}

#[test]
fn x_without_a_point_fails_to_decompress() {
    assert_eq!(decompress_pubkey(&compressed(2, &[0u8; 32])), Err(RecoverError::DecompressionFailed));
    assert_eq!(decompress_pubkey(&compressed(3, &[0u8; 32])), Err(RecoverError::DecompressionFailed));
    let mut five = [0u8; 32];
    five[31] = 5;
    assert_eq!(decompress_pubkey(&compressed(2, &five)), Err(RecoverError::DecompressionFailed));
}

#[test]
fn x_at_or_above_the_field_prime_fails_to_decompress() {
    assert_eq!(decompress_pubkey(&compressed(2, &FIELD_PRIME)), Err(RecoverError::DecompressionFailed));
    assert_eq!(decompress_pubkey(&compressed(3, &[0xff; 32])), Err(RecoverError::DecompressionFailed));
}

#[test]
fn encode_uncompressed_lays_out_tag_x_and_y() {
    let key = encode_uncompressed(&GENERATOR_X, &GENERATOR_Y);
    assert_eq!(key, uncompressed(&GENERATOR_X, &GENERATOR_Y));
    let key = encode_uncompressed(&[0x11; 32], &[0x22; 32]);
    assert_eq!(key[0], 4);
    assert_eq!(key[1..33], [0x11; 32]);
    assert_eq!(key[33..], [0x22; 32]);
}
