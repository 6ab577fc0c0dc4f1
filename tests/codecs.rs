use std::io::Write;

use fits_tiles::bintable::{AddressType, FloatType, IntegerType, OffsetColumn, ReadColumn};
use fits_tiles::compression::{Compression, GZip1, GZip2, NoCompress};
use fits_tiles::pixel_transform::{
    I8Transform, NoDitherQuantization, PixelTransform, QuantizedSample, RawFloat, U16Transform,
    U32Transform, U64Transform,
};
use fits_tiles::read_big_endian::{read_scalars, ReadBigEndian};
use fits_tiles::unshuffle::unshuffle;
use fits_tiles::TileError;

fn gzip(bytes: &[u8]) -> Vec<u8> {
    let mut e = flate2::write::GzEncoder::new(Vec::new(), flate2::Compression::default());
    e.write_all(bytes).unwrap();
    e.finish().unwrap()
}

fn planes(bytes: &[u8], w: usize) -> Vec<u8> {
    let n = bytes.len() / w;
    let mut out = vec![0u8; bytes.len()];
    for i in 0..n {
        for k in 0..w {
            out[k * n + i] = bytes[i * w + k];
        }
    }
    out
}

#[test]
fn nocompress_round_trips_every_width() {
    let bytes: Vec<u8> = vec![0, 1, 255, 128];
    assert_eq!(NoCompress::<u8>::new().decompress(&bytes, 4).unwrap(), bytes);

    let v16 = vec![i16::MIN, -1, 0, i16::MAX];
    let b16: Vec<u8> = v16.iter().flat_map(|v| v.to_be_bytes()).collect();
    assert_eq!(NoCompress::<i16>::new().decompress(&b16, 4).unwrap(), v16);

    let v32 = vec![i32::MIN, -1, 0, i32::MAX];
    let b32: Vec<u8> = v32.iter().flat_map(|v| v.to_be_bytes()).collect();
    assert_eq!(NoCompress::<i32>::new().decompress(&b32, 4).unwrap(), v32);

    let v64 = vec![i64::MIN, -1, 0, i64::MAX];
    let b64: Vec<u8> = v64.iter().flat_map(|v| v.to_be_bytes()).collect();
    assert_eq!(NoCompress::<i64>::new().decompress(&b64, 4).unwrap(), v64);
}

#[test]
fn float_bits_read_big_endian() {
    let b = (-1.5f32).to_bits().to_be_bytes();
    assert_eq!(f32::from_bits(u32::read_big_endian(&b, 0)), -1.5f32);
    let b = 6.25f64.to_bits().to_be_bytes();
    assert_eq!(f64::from_bits(u64::read_big_endian(&b, 0)), 6.25f64);
    assert_eq!(i16::read_big_endian(&[0xff, 0xfe, 0x12], 1), -494);
}

#[test]
fn nocompress_short_payload_is_truncated() {
    assert_eq!(NoCompress::<i32>::new().decompress(&[0, 0, 0, 1, 0, 0], 2), Err(TileError::Truncated));
    assert_eq!(read_scalars::<i16>(&[0, 1, 0, 2, 9], 2), Ok(vec![1i16, 2]));
}

#[test]
fn gzip1_inflates_then_reads() {
    let v: Vec<i32> = vec![1, -2, 70000, i32::MIN];
    let raw: Vec<u8> = v.iter().flat_map(|x| x.to_be_bytes()).collect();
    let packed = gzip(&raw);
    assert_ne!(packed, raw);
    assert_eq!(GZip1::<i32>::new().decompress(&packed, 4).unwrap(), v);
    assert_eq!(GZip1::<i32>::new().decompress(&packed, 5), Err(TileError::Truncated));
}

#[test]
fn gzip_rejects_invalid_stream() {
    assert_eq!(GZip1::<u8>::new().decompress(&[1, 2, 3, 4], 2), Err(TileError::Inflate));
    assert_eq!(GZip2::<i16>::new().decompress(&[0x1f, 0x8b, 0], 1), Err(TileError::Inflate));
}

#[test]
fn gzip2_unshuffles_byte_planes() {
    let v: Vec<i16> = vec![0x0102, -2, i16::MAX, 0];
    let raw: Vec<u8> = v.iter().flat_map(|x| x.to_be_bytes()).collect();
    assert_eq!(GZip2::<i16>::new().decompress(&gzip(&planes(&raw, 2)), 4).unwrap(), v);

    let v: Vec<i64> = vec![i64::MIN, 0x0102030405060708, -1];
    let raw: Vec<u8> = v.iter().flat_map(|x| x.to_be_bytes()).collect();
    assert_eq!(GZip2::<i64>::new().decompress(&gzip(&planes(&raw, 8)), 3).unwrap(), v);

    let bytes = vec![5u8, 6, 7];
    assert_eq!(GZip2::<u8>::new().decompress(&gzip(&bytes), 3).unwrap(), bytes);
}

#[test]
fn gzip2_plane_length_must_match() {
    let planes4 = gzip(&[0, 0, 0, 1, 0, 0, 0, 2]);
    assert_eq!(GZip2::<i32>::new().decompress(&planes4, 3), Err(TileError::PlaneLength));
    assert_eq!(GZip2::<i32>::new().decompress(&planes4, 1), Err(TileError::PlaneLength));
}

#[test]
fn unshuffle_four_byte_planes() {
    let v: Vec<i32> = vec![0x01020304, -1, 17];
    let raw: Vec<u8> = v.iter().flat_map(|x| x.to_be_bytes()).collect();
    let shuffled = planes(&raw, 4);
    assert_eq!(shuffled[0..3], [0x01, 0xff, 0]);
    assert_eq!(unshuffle::<i32>(&shuffled, 3).unwrap(), v);
    assert_eq!(unshuffle::<i32>(&shuffled[0..11], 3), Err(TileError::PlaneLength));
}

#[test]
fn sign_bias_transforms() {
    assert_eq!(I8Transform().reverse(0), -128);
    assert_eq!(I8Transform().reverse(255), 127);
    assert_eq!(U16Transform().reverse(0), 32768);
    assert_eq!(U16Transform().reverse(i16::MIN), 0);
    assert_eq!(U16Transform().reverse(i16::MAX), u16::MAX);
    assert_eq!(U32Transform().reverse(0), 2147483648);
    assert_eq!(U32Transform().reverse(i32::MIN), 0);
    assert_eq!(U64Transform().reverse(i64::MIN), 0);
    assert_eq!(U64Transform().reverse(-1), 9223372036854775807);
    assert_eq!(U64Transform().reverse(i64::MAX), u64::MAX);
}

#[test]
fn sign_bias_is_a_bijection_on_u16() {
    let mut seen = vec![false; 65536];
    for s in i16::MIN..=i16::MAX {
        let o = U16Transform().reverse(s);
        assert!(!seen[o as usize]);
        seen[o as usize] = true;
    }
    assert!(seen.iter().all(|b| *b));
}

#[test]
fn quantization_blank_sentinel() {
    let q = NoDitherQuantization::<i16>::new(RawFloat::F64(0), RawFloat::F64(0), Some(-9999));
    assert_eq!(q.reverse(-9999), QuantizedSample::Blank);
    assert_eq!(q.reverse(0), QuantizedSample::Stored(0));
    assert_eq!(q.reverse(1), QuantizedSample::Stored(1));
    let none = NoDitherQuantization::<i16>::new(RawFloat::F64(0), RawFloat::F64(0), None);
    assert_eq!(none.reverse(-9999), QuantizedSample::Stored(-9999));
}

#[test]
fn columns_read_big_endian_values() {
    let mut offset = 2usize;
    let c = OffsetColumn::new(IntegerType::I16, &mut offset);
    assert_eq!(offset, 4);
    assert_eq!(c.bytes(), 2);
    assert_eq!(c.read(&[9, 9, 0xff, 0x9c]), -100);
    assert_eq!(IntegerType::U8.read(&[200], 0), 200);
    assert_eq!(FloatType::F32.read(&[0x3f, 0x80, 0, 0], 0), RawFloat::F32(1.0f32.to_bits()));
    assert_eq!(AddressType::I32.type_code(), 'P');
    assert_eq!(AddressType::I64.type_code(), 'Q');
    assert_eq!(FloatType::F32.type_code(), 'E');
    assert_eq!(FloatType::F64.type_code(), 'F');
    let mut row = 5i64.to_be_bytes().to_vec();
    row.extend_from_slice(&6i64.to_be_bytes());
    let a = AddressType::I64.read(&row, 0).unwrap().unwrap();
    assert_eq!((a.size, a.offset), (5, 6));
    assert_eq!(AddressType::I64.read(&[0u8; 16], 0), Ok(None));
}

#[test]
fn sign_bias_is_a_bijection_on_i8() {
    let mut seen = vec![false; 256];
    for s in 0u8..=255 {
        let o = I8Transform().reverse(s);
        assert!(!seen[(o as i16 + 128) as usize]);
        seen[(o as i16 + 128) as usize] = true;
    }
    assert!(seen.iter().all(|b| *b));
}
