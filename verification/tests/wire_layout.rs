use parabody::wire::{decode_bodies, encode_bodies, BODY_SIZE, CONFIG_SIZE};
use parabody::{Body, DynamicConfig, DEFAULT_DT};

fn body(seed: u32) -> Body {
    Body {
        position: [seed, seed.wrapping_mul(3), seed.wrapping_mul(5)],
        mass: seed.wrapping_mul(7),
        velocity: [seed.wrapping_mul(11), seed.wrapping_mul(13), seed.wrapping_mul(17)],
        mu: seed.wrapping_mul(19),
    }
}

#[test]
fn record_sizes() {
    assert_eq!(BODY_SIZE, 32);
    assert_eq!(CONFIG_SIZE, 16);
}

#[test]
fn the_default_step_size_is_3600() {
    assert_eq!(DEFAULT_DT, 3600.0f32.to_bits());
    assert_eq!(DynamicConfig::default(), DynamicConfig { num_bodies: 0, dt: 3600.0f32.to_bits() });
}

#[test]
fn the_default_body_is_all_zero() {
    let b = Body::default();
    assert_eq!(b, Body { position: [0; 3], mass: 0, velocity: [0; 3], mu: 0 });
    assert_eq!(encode_bodies(&[b]), vec![0u8; 32]);
}

#[test]
fn a_body_is_eight_little_endian_words_in_field_order() {
    let b = Body {
        position: [0x0403_0201, 0x0807_0605, 0x0c0b_0a09],
        mass: 0x100f_0e0d,
        velocity: [0x1413_1211, 0x1817_1615, 0x1c1b_1a19],
        mu: 0x201f_1e1d,
    };
    let expected: Vec<u8> = (1u8..=32).collect();
    assert_eq!(encode_bodies(&[b]), expected);
    assert_eq!(decode_bodies(&expected), vec![b]);
}

#[test]
fn float_fields_keep_their_bits() {
    let b = Body {
        position: [10.0f32.to_bits(), 10.0f32.to_bits(), 10.0f32.to_bits()],
        mass: 0,
        velocity: [0; 3],
        mu: 1.0f32.to_bits(),
    };
    let bytes = encode_bodies(&[b]);
    assert_eq!(&bytes[0..4], &10.0f32.to_le_bytes());
    assert_eq!(&bytes[28..32], &[0x00, 0x00, 0x80, 0x3f]);
    let back = decode_bodies(&bytes);
    assert_eq!(f32::from_bits(back[0].mu), 1.0);
    assert_eq!(f32::from_bits(back[0].position[2]), 10.0);
}

#[test]
fn bodies_are_laid_out_back_to_back() {
    let bodies: Vec<Body> = (1..=5).map(body).collect();
    let bytes = encode_bodies(&bodies);
    assert_eq!(bytes.len(), 160);
    for (k, b) in bodies.iter().enumerate() {
        assert_eq!(&bytes[32 * k..32 * k + 32], &encode_bodies(&[*b])[..]);
    }
}

#[test]
fn bodies_come_back_from_their_bytes() {
    let bodies: Vec<Body> = [0u32, 1, 0xffff_ffff, 0x8000_0000, 0x1234_5678, 255, 256, 65_536]
        .iter()
        .map(|s| body(*s))
        .collect();
    assert_eq!(decode_bodies(&encode_bodies(&bodies)), bodies);
}

#[test]
fn bytes_come_back_from_their_bodies() {
    let bytes: Vec<u8> = (0..96u32).map(|i| (i * 37 % 251) as u8).collect();
    assert_eq!(encode_bodies(&decode_bodies(&bytes)), bytes);
}

#[test]
fn no_bodies_no_bytes() {
    assert_eq!(encode_bodies(&[]), Vec::<u8>::new());
    assert_eq!(decode_bodies(&[]), Vec::<Body>::new());
}

#[test]
fn decoding_ignores_an_incomplete_record() {
    let mut bytes = encode_bodies(&[body(9), body(10)]);
    bytes.extend_from_slice(&[1, 2, 3]);
    assert_eq!(decode_bodies(&bytes), vec![body(9), body(10)]);
    assert_eq!(decode_bodies(&bytes[..31]), Vec::<Body>::new());
}

#[test]
fn the_configuration_is_two_words_and_padding() {
    let c = DynamicConfig { num_bodies: 2, dt: 0.001f32.to_bits() };
    let mut expected = vec![2u8, 0, 0, 0];
    expected.extend_from_slice(&0.001f32.to_le_bytes());
    expected.extend_from_slice(&[0u8; 8]);
    assert_eq!(c.to_wire(), expected);
    assert_eq!(
        DynamicConfig { num_bodies: 0x0a0b_0c0d, dt: 0x0102_0304 }.to_wire(),
        vec![0x0d, 0x0c, 0x0b, 0x0a, 0x04, 0x03, 0x02, 0x01, 0, 0, 0, 0, 0, 0, 0, 0]
    );
}
