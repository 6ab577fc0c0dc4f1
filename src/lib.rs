//! Decoding of tile-compressed images stored in binary-table rows.
//!
//! A [`CompressedImageExtension`] describes one image: its shape, the grid of
//! tiles it is cut into, its pixel type, its default compression algorithm and
//! the schema of its table rows. For each tile it resolves the row, then builds
//! a [`TypedTileReader`] that decodes the tile's heap payload.
pub mod bintable;
pub mod compressed_image_extension;
pub mod compression;
pub mod error;
pub mod pixel_transform;
pub mod read_big_endian;
pub mod schema;
pub mod tile_reader;
pub mod unshuffle;

pub use compressed_image_extension::{
    CompressedImageExtension, CompressionAlgorithm, PixelType, Quantization, QuantizationAlgorithm,
    TileIndex,
};
pub use error::TileError;
pub use tile_reader::{TileReader, TypedTileReader};
