use std::io::Write;

use fits_tiles::bintable::{AddressType, FloatType, IntegerType};
use fits_tiles::compressed_image_extension::make_tile_reader;
use fits_tiles::pixel_transform::{QuantizedSample, RawFloat};
use fits_tiles::schema::{Column, Schema};
use fits_tiles::{
    CompressedImageExtension, CompressionAlgorithm, PixelType, Quantization,
    QuantizationAlgorithm, TileError, TileReader, TypedTileReader,
};

fn descriptor32(size: i32, offset: i32) -> Vec<u8> {
    let mut v = size.to_be_bytes().to_vec();
    v.extend_from_slice(&offset.to_be_bytes());
    v
}

fn data_schema() -> Schema {
    let mut s = Schema::new();
    s.push(Column::CompressedData { pointer: AddressType::I32, stored: IntegerType::I16 });
    s
}

#[test]
fn i8_pixels_remove_sign_bias() {
    let ext = CompressedImageExtension::new(
        PixelType::I8,
        vec![1],
        vec![1],
        CompressionAlgorithm::NOCOMPRESS,
        data_schema(),
    );
    let index = ext.index_from_flat(0);
    let reader = ext.tile_reader(&index, &descriptor32(1, 0)).unwrap();
    match reader {
        TypedTileReader::I8(r) => {
            assert_eq!(r.address().size, 1);
            assert_eq!(r.address().offset, 0);
            assert_eq!(r.base.read(&[0x00]).unwrap(), vec![0u8]);
            assert_eq!(r.read(&[0x00]).unwrap(), vec![-128i8]);
        }
        _ => panic!("expected an I8 reader"),
    }
}

#[test]
fn quantized_f32_samples_and_blank() {
    let q = Quantization {
        algorithm: QuantizationAlgorithm::NO_DITHER,
        stored: IntegerType::I16,
        zero: RawFloat::F64(1.0f64.to_bits()),
        scale: RawFloat::F64(2.0f64.to_bits()),
        blank: Some(-9999),
    };
    let ext = CompressedImageExtension::new(
        PixelType::F32(Some(q)),
        vec![2],
        vec![2],
        CompressionAlgorithm::NOCOMPRESS,
        data_schema(),
    );
    let index = ext.index_from_flat(0);
    let reader = ext.tile_reader(&index, &descriptor32(4, 0)).unwrap();
    let mut payload = 5i16.to_be_bytes().to_vec();
    payload.extend_from_slice(&(-9999i16).to_be_bytes());
    match reader {
        TypedTileReader::QuantizedF32(r) => {
            let (zero, scale) = r.parameters();
            assert_eq!(zero, RawFloat::F64(1.0f64.to_bits()));
            assert_eq!(scale, RawFloat::F64(2.0f64.to_bits()));
            assert_eq!(
                r.read(&payload).unwrap(),
                vec![QuantizedSample::Stored(5), QuantizedSample::Blank]
            );
        }
        _ => panic!("expected a quantized F32 reader"),
    }
}

#[test]
fn grid_of_four_tiles() {
    let ext = CompressedImageExtension::new(
        PixelType::U8,
        vec![8, 8],
        vec![4, 4],
        CompressionAlgorithm::NOCOMPRESS,
        data_schema(),
    );
    assert_eq!(ext.grid_shape(), &[2, 2]);
    let first = ext.index_from_flat(0);
    assert_eq!(first.flat(), 0);
    assert_eq!(first.nd(), &[0, 0]);
    assert_eq!(ext.tile_shape(&first), vec![4, 4]);
    let last = ext.index_from_flat(3);
    assert_eq!(last.nd(), &[1, 1]);
    assert_eq!(ext.tile_shape(&last), vec![4, 4]);
}

#[test]
fn two_populated_data_columns_are_rejected() {
    let mut schema = data_schema();
    schema.push(Column::UncompressedData(AddressType::I32));
    let ext = CompressedImageExtension::new(
        PixelType::I16,
        vec![4],
        vec![4],
        CompressionAlgorithm::GZIP_1,
        schema,
    );
    let mut row = descriptor32(8, 0);
    row.extend_from_slice(&descriptor32(8, 8));
    assert_eq!(ext.read_row(&row), Err(TileError::MultipleDataColumns));
    let index = ext.index_from_flat(0);
    assert!(matches!(ext.tile_reader(&index, &row), Err(TileError::MultipleDataColumns)));
}

#[test]
fn uncompressed_column_forces_nocompress() {
    let mut schema = data_schema();
    schema.push(Column::UncompressedData(AddressType::I32));
    let ext = CompressedImageExtension::new(
        PixelType::I16,
        vec![4],
        vec![4],
        CompressionAlgorithm::GZIP_2,
        schema,
    );
    let mut row = descriptor32(0, 0);
    row.extend_from_slice(&descriptor32(8, 16));
    let (address, algorithm, quantization) = ext.read_row(&row).unwrap();
    assert_eq!((address.size, address.offset), (8, 16));
    assert_eq!(algorithm, CompressionAlgorithm::NOCOMPRESS);
    assert_eq!(quantization, None);
}

#[test]
fn gzip_column_forces_gzip1() {
    let mut schema = Schema::new();
    schema.push(Column::Other(3));
    schema.push(Column::GzipCompressedData(AddressType::I64));
    assert_eq!(schema.bytes_per_row(), 19);
    assert_eq!(schema.columns[1].offset, 3);
    let ext = CompressedImageExtension::new(
        PixelType::U8,
        vec![4],
        vec![4],
        CompressionAlgorithm::NOCOMPRESS,
        schema,
    );
    let mut row = vec![9u8, 9, 9];
    row.extend_from_slice(&7i64.to_be_bytes());
    row.extend_from_slice(&100i64.to_be_bytes());
    let (address, algorithm, _) = ext.read_row(&row).unwrap();
    assert_eq!((address.size, address.offset), (7, 100));
    assert_eq!(algorithm, CompressionAlgorithm::GZIP_1);
}

#[test]
fn compressed_column_keeps_default_algorithm() {
    let ext = CompressedImageExtension::new(
        PixelType::I32,
        vec![4],
        vec![4],
        CompressionAlgorithm::GZIP_2,
        data_schema(),
    );
    let (_, algorithm, _) = ext.read_row(&descriptor32(3, 0)).unwrap();
    assert_eq!(algorithm, CompressionAlgorithm::GZIP_2);
}

#[test]
fn empty_row_has_no_data_column() {
    let ext = CompressedImageExtension::new(
        PixelType::U8,
        vec![4],
        vec![4],
        CompressionAlgorithm::NOCOMPRESS,
        data_schema(),
    );
    assert_eq!(ext.read_row(&descriptor32(0, 12)), Err(TileError::NoDataColumn));
}

#[test]
fn negative_descriptor_fields_are_rejected() {
    let ext = CompressedImageExtension::new(
        PixelType::U8,
        vec![4],
        vec![4],
        CompressionAlgorithm::NOCOMPRESS,
        data_schema(),
    );
    assert_eq!(ext.read_row(&descriptor32(-1, 0)), Err(TileError::NegativeSize));
    assert_eq!(ext.read_row(&descriptor32(4, -5)), Err(TileError::NegativeOffset));
}

#[test]
fn scale_column_without_quantization_is_rejected() {
    let mut schema = data_schema();
    schema.push(Column::ZScale(FloatType::F64));
    let ext = CompressedImageExtension::new(
        PixelType::F32(None),
        vec![4],
        vec![4],
        CompressionAlgorithm::NOCOMPRESS,
        schema,
    );
    let mut row = descriptor32(16, 0);
    row.extend_from_slice(&3.0f64.to_bits().to_be_bytes());
    assert_eq!(ext.read_row(&row), Err(TileError::NoQuantization));
}

#[test]
fn quantization_columns_override_defaults() {
    let q = Quantization {
        algorithm: QuantizationAlgorithm::NO_DITHER,
        stored: IntegerType::I32,
        zero: RawFloat::F64(0),
        scale: RawFloat::F64(1.0f64.to_bits()),
        blank: None,
    };
    let mut schema = data_schema();
    schema.push(Column::ZScale(FloatType::F32));
    schema.push(Column::ZZero(FloatType::F64));
    schema.push(Column::ZBlank(IntegerType::I32));
    assert_eq!(schema.bytes_per_row(), 8 + 4 + 8 + 4);
    let ext = CompressedImageExtension::new(
        PixelType::F64(Some(q)),
        vec![4],
        vec![4],
        CompressionAlgorithm::GZIP_2,
        schema,
    );
    let mut row = descriptor32(10, 20);
    row.extend_from_slice(&0.5f32.to_bits().to_be_bytes());
    row.extend_from_slice(&(-7.25f64).to_bits().to_be_bytes());
    row.extend_from_slice(&(-32768i32).to_be_bytes());
    let (_, _, quantization) = ext.read_row(&row).unwrap();
    let got = quantization.unwrap();
    assert_eq!(got.scale, RawFloat::F32(0.5f32.to_bits()));
    assert_eq!(got.zero, RawFloat::F64((-7.25f64).to_bits()));
    assert_eq!(got.blank, Some(-32768));
    assert_eq!(got.stored, IntegerType::I32);
}

#[test]
fn unimplemented_algorithms_are_rejected() {
    let ext = CompressedImageExtension::new(
        PixelType::I16,
        vec![4],
        vec![4],
        CompressionAlgorithm::RICE_1,
        data_schema(),
    );
    let index = ext.index_from_flat(0);
    assert!(matches!(
        ext.tile_reader(&index, &descriptor32(8, 0)),
        Err(TileError::Unimplemented)
    ));
    let q = Quantization {
        algorithm: QuantizationAlgorithm::SUBTRACTIVE_DITHER_1,
        stored: IntegerType::I16,
        zero: RawFloat::F64(0),
        scale: RawFloat::F64(0),
        blank: None,
    };
    let address = fits_tiles::bintable::Address { size: 8, offset: 0 };
    assert!(matches!(
        make_tile_reader(address, vec![4], &PixelType::F32(Some(q)), CompressionAlgorithm::GZIP_1, Some(q)),
        Err(TileError::Unimplemented)
    ));
}

#[test]
fn boundary_tiles_take_the_remainder() {
    let ext = CompressedImageExtension::new(
        PixelType::U8,
        vec![10, 6],
        vec![4, 3],
        CompressionAlgorithm::NOCOMPRESS,
        data_schema(),
    );
    assert_eq!(ext.grid_shape(), &[3, 2]);
    assert_eq!(ext.tile_shape(&ext.index_from_nd(vec![0, 0])), vec![4, 3]);
    assert_eq!(ext.tile_shape(&ext.index_from_nd(vec![1, 1])), vec![4, 3]);
    assert_eq!(ext.tile_shape(&ext.index_from_nd(vec![2, 0])), vec![1, 3]);
}

#[test]
fn flat_and_nd_indices_round_trip() {
    let ext = CompressedImageExtension::new(
        PixelType::U8,
        vec![9, 8, 10],
        vec![3, 2, 2],
        CompressionAlgorithm::NOCOMPRESS,
        data_schema(),
    );
    assert_eq!(ext.grid_shape(), &[3, 4, 5]);
    assert_eq!(ext.index_from_flat(23).nd(), &[1, 0, 3]);
    assert_eq!(ext.index_from_nd(vec![2, 3, 4]).flat(), 59);
    for f in 0..60 {
        let index = ext.index_from_flat(f);
        assert_eq!(ext.index_from_nd(index.nd().to_vec()).flat(), f);
    }
}

#[test]
fn quantized_u8_blank_is_truncated_to_stored_width() {
    let q = Quantization {
        algorithm: QuantizationAlgorithm::NO_DITHER,
        stored: IntegerType::U8,
        zero: RawFloat::F32(0),
        scale: RawFloat::F32(0),
        blank: Some(255),
    };
    let address = fits_tiles::bintable::Address { size: 3, offset: 0 };
    let reader = make_tile_reader(address, vec![3], &PixelType::F64(Some(q)), CompressionAlgorithm::NOCOMPRESS, Some(q)).unwrap();
    match reader {
        TypedTileReader::QuantizedF64(r) => {
            assert_eq!(r.shape(), &[3]);
            assert_eq!(
                r.read(&[0, 255, 7]).unwrap(),
                vec![QuantizedSample::Stored(0), QuantizedSample::Blank, QuantizedSample::Stored(7)]
            );
        }
        _ => panic!("expected a quantized F64 reader"),
    }
}

#[test]
fn u16_tile_through_gzip2_planes() {
    let ext = CompressedImageExtension::new(
        PixelType::U16,
        vec![3, 3],
        vec![2, 2],
        CompressionAlgorithm::GZIP_2,
        data_schema(),
    );
    let index = ext.index_from_nd(vec![1, 0]);
    assert_eq!(index.flat(), 2);
    assert_eq!(ext.tile_shape(&index), vec![1, 2]);
    let pixels: Vec<u16> = vec![0, 65535];
    let stored: Vec<i16> = pixels.iter().map(|p| (*p as i32 - 32768) as i16).collect();
    let raw: Vec<u8> = stored.iter().flat_map(|s| s.to_be_bytes()).collect();
    let planes = vec![raw[0], raw[2], raw[1], raw[3]];
    let mut e = flate2::write::GzEncoder::new(Vec::new(), flate2::Compression::default());
    e.write_all(&planes).unwrap();
    let payload = e.finish().unwrap();
    let reader = ext.tile_reader(&index, &descriptor32(payload.len() as i32, 64)).unwrap();
    match reader {
        TypedTileReader::U16(r) => {
            assert_eq!(r.shape(), &[1, 2]);
            assert_eq!(r.address().offset, 64);
            assert_eq!(r.read(&payload).unwrap(), pixels);
        }
        _ => panic!("expected a U16 reader"),
    }
}
