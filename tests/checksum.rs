use rvkernel::net::checksum::{InternetChecksum, InternetChecksumGenerator};

#[test]
fn checksum_of_known_words() {
    let c = InternetChecksum::calc(&[0x00, 0x01, 0xf2, 0x03, 0xf4, 0xf5, 0xf6, 0xf7]);
    assert_eq!((c.hi, c.lo), (0x22, 0x0d));
}

#[test]
fn checksum_of_empty_buffer_is_all_ones() {
    let c = InternetChecksum::calc(&[]);
    assert_eq!(c.value_u16(), 0xFFFF);
}

#[test]
fn checksum_pads_odd_trailing_byte() {
    let c = InternetChecksum::calc(&[0x01]);
    assert_eq!(c.value_u16(), 0xFEFF);
    let d = InternetChecksum::calc(&[0x12, 0x34, 0x56]);
    assert_eq!(d.value_u16(), !(0x1234u16 + 0x5600));
}

#[test]
fn checksum_folds_carries() {
    let c = InternetChecksum::calc(&[0xFF, 0xFF, 0x00, 0x02]);
    // 0xFFFF + 0x0002 = 0x10001, folded to 0x0002
    assert_eq!(c.value_u16(), 0xFFFD);
}

#[test]
fn generator_accepts_several_spans() {
    let mut g = InternetChecksumGenerator::new();
    g.feed(&[0x00, 0x01]);
    g.feed(&[0xf2, 0x03]);
    g.feed(&[0xf4, 0xf5, 0xf6, 0xf7]);
    let c = g.checksum();
    assert_eq!(c, InternetChecksum::calc(&[0x00, 0x01, 0xf2, 0x03, 0xf4, 0xf5, 0xf6, 0xf7]));
    assert_eq!(g.checksum(), c);
}

#[test]
fn embedded_checksum_verifies() {
    let mut buf: Vec<u8> = vec![
        0x45, 0x00, 0x00, 0x3c, 0x1c, 0x46, 0x40, 0x00, 0x40, 0x06, 0x00, 0x00, 0xac, 0x10, 0x0a,
        0x63, 0xac, 0x10, 0x0a, 0x0c,
    ];
    let c = InternetChecksum::calc(&buf);
    assert_eq!((c.hi, c.lo), (0xb1, 0xe6));
    buf[10] = c.hi;
    buf[11] = c.lo;
    assert_eq!(InternetChecksum::calc(&buf).value_u16(), 0);
}

#[test]
fn zero_checksum_has_zero_bytes() {
    let z = InternetChecksum::zero();
    assert_eq!((z.hi, z.lo), (0, 0));
}
