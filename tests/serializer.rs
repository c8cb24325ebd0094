use rs_sdf::clamp::{i32_to_u8_clamped, u16_to_u8_clamped, u32_to_u16_clamped, u32_to_u8_clamped};
use rs_sdf::serialize::{deserialize_from_bytes, ByteSerializer};

#[test]
fn serializes_little_endian_without_padding() {
    assert_eq!(vec![0x1234u16, 0xabcd].serialize_to_bytes(), vec![0x34, 0x12, 0xcd, 0xab]);
    assert_eq!(vec![-2i16].serialize_to_bytes(), vec![0xfe, 0xff]);
    assert_eq!(vec![(1u32, 2u32)].serialize_to_bytes(), vec![1, 0, 0, 0, 2, 0, 0, 0]);
    assert_eq!(vec![(1u8, 2u8, 3u8)].serialize_to_bytes(), vec![1, 2, 3]);
    assert_eq!(vec![0x0102030405060708u64].serialize_to_bytes(), vec![8, 7, 6, 5, 4, 3, 2, 1]);
    assert_eq!(vec![i64::MIN].serialize_to_bytes(), vec![0, 0, 0, 0, 0, 0, 0, 0x80]);
}

#[test]
fn round_trip_every_width() {
    let a = vec![0u8, 1, 255];
    assert_eq!(deserialize_from_bytes::<u8>(&a.serialize_to_bytes()), Some(a));
    let b = vec![0u16, 300, u16::MAX];
    assert_eq!(deserialize_from_bytes::<u16>(&b.serialize_to_bytes()), Some(b));
    let c = vec![i32::MIN, -1, 0, 7, i32::MAX];
    assert_eq!(deserialize_from_bytes::<i32>(&c.serialize_to_bytes()), Some(c));
    let d = vec![u64::MAX, 0, 1 << 40];
    assert_eq!(deserialize_from_bytes::<u64>(&d.serialize_to_bytes()), Some(d));
    let e = vec![i64::MIN, -5, i64::MAX];
    assert_eq!(deserialize_from_bytes::<i64>(&e.serialize_to_bytes()), Some(e));
    let f = vec![i16::MIN, -300, i16::MAX];
    assert_eq!(deserialize_from_bytes::<i16>(&f.serialize_to_bytes()), Some(f));
    let g = vec![u32::MAX, 65536];
    assert_eq!(deserialize_from_bytes::<u32>(&g.serialize_to_bytes()), Some(g));
}

#[test]
fn round_trip_pairs_flattened() {
    let p = vec![(1i32, -2i32), (-3, 4)];
    assert_eq!(deserialize_from_bytes::<i32>(&p.serialize_to_bytes()), Some(vec![1, -2, -3, 4]));
}

#[test]
fn decoding_rejects_partial_values() {
    assert_eq!(deserialize_from_bytes::<u32>(&vec![1, 2, 3]), None);
    assert_eq!(deserialize_from_bytes::<u16>(&vec![]), Some(vec![]));
}

#[test]
fn narrowing_three_hundred_saturates() {
    assert_eq!(u16_to_u8_clamped(300), 255);
    assert_eq!(u32_to_u8_clamped(300), 255);
    assert_eq!(u32_to_u8_clamped(44), 44);
    assert_eq!(u32_to_u16_clamped(70000), 65535);
    assert_eq!(i32_to_u8_clamped(-3), 130);
    assert_eq!(i32_to_u8_clamped(i32::MIN), 255);
}
