use chimes::artnet::{convert_u16_to_two_u8s_be, ArtNetInterface};
use chimes::ease::EaseStyle;
use chimes::particles::build_layout;
use chimes::settings::default_order;
use chimes::SCALE;

#[test]
fn linear_lookup_table_is_the_identity() {
    let mut iface = ArtNetInterface::new();
    iface.create_brightness_mapping(&EaseStyle::Linear);
    let table = iface.brightness_mapping.as_ref().unwrap();
    assert_eq!(table.len(), 256);
    for i in 0..256usize {
        assert_eq!(table[i] as usize, i);
    }
}

#[test]
fn gamma_lookup_table_keeps_the_endpoints() {
    let mut iface = ArtNetInterface::new();
    iface.create_brightness_mapping(&EaseStyle::QuadIn);
    let table = iface.brightness_mapping.as_ref().unwrap();
    assert_eq!(table[0], 0);
    assert_eq!(table[255], 255);
    // a gamma curve darkens the midtones
    assert!(table[128] < 128);
}

#[test]
fn eight_bit_linear_encoding_scenario() {
    // 2 fixtures, one channel per fixture, brightness [1.0, 0.0], linear
    // table: payload bytes [255, 0]
    let mut iface = ArtNetInterface::new();
    iface.create_brightness_mapping(&EaseStyle::Linear);
    let mut v = build_layout(2, 10, &vec![0, 1]);
    v[0].set_brightness(SCALE);
    v[1].set_brightness(0);
    let payload = iface.encode_channels(&v, 1, false);
    assert_eq!(payload, vec![255u8, 0u8]);
}

#[test]
fn eight_bit_without_table_uses_raw_intensity() {
    let iface = ArtNetInterface::new();
    let mut v = build_layout(1, 10, &vec![0]);
    v[0].set_brightness(32768); // 0.50001 of full: rounds to 128
    let payload = iface.encode_channels(&v, 1, false);
    assert_eq!(payload, vec![128u8]);
}

#[test]
fn sixteen_bit_encoding_is_big_endian_per_channel() {
    let iface = ArtNetInterface::new();
    let mut v = build_layout(2, 10, &vec![0, 1]);
    v[0].set_brightness(SCALE);
    v[1].set_brightness(0x1234);
    let payload = iface.encode_channels(&v, 2, true);
    assert_eq!(
        payload,
        vec![0xFFu8, 0xFF, 0xFF, 0xFF, 0x12, 0x34, 0x12, 0x34]
    );
}

#[test]
fn frame_wraps_payload_in_artdmx_header() {
    let mut iface = ArtNetInterface::new();
    iface.create_brightness_mapping(&EaseStyle::Linear);
    let mut v = build_layout(2, 10, &vec![0, 1]);
    v[0].set_brightness(SCALE);
    v[1].set_brightness(0);
    let frame = iface.update(&v, 1, false).unwrap();
    let expected: Vec<u8> = vec![
        b'A', b'r', b't', b'-', b'N', b'e', b't', 0, // header
        0x00, 0x50, // opcode, little-endian
        0, 14, // protocol version
        0, // sequence
        0, // physical
        0, 0, // port address, little-endian
        0, 2, // payload length, big-endian
        255, 0, // the channel bytes
    ];
    assert_eq!(frame, expected);
}

#[test]
fn odd_payload_is_padded_to_even_length() {
    let iface = ArtNetInterface::new();
    let v = build_layout(3, 10, &vec![0, 1, 2]);
    let frame = iface.update(&v, 1, false).unwrap();
    // 3 channel bytes pad to 4; header is 18 bytes
    assert_eq!(frame.len(), 18 + 4);
    assert_eq!(frame[16], 0);
    assert_eq!(frame[17], 4);
    assert_eq!(frame[21], 0); // the pad byte
}

#[test]
fn empty_and_oversized_payloads_give_no_frame() {
    let iface = ArtNetInterface::new();
    let none: Vec<chimes::particles::Particle> = Vec::new();
    assert!(iface.update(&none, 1, false).is_none());
    let many = build_layout(600, 1, &default_order(600));
    assert!(iface.update(&many, 1, false).is_none());
}

#[test]
fn sixteen_bit_split_is_exact() {
    assert_eq!(convert_u16_to_two_u8s_be(0xABCD), [0xAB, 0xCD]);
    assert_eq!(convert_u16_to_two_u8s_be(0), [0, 0]);
    assert_eq!(convert_u16_to_two_u8s_be(65535), [255, 255]);
    assert_eq!(convert_u16_to_two_u8s_be(256), [1, 0]);
}
