//! A tile-compressed image: its shapes, pixel type, default algorithm and row
//! schema, and the per-tile entry points built on them.
use vstd::prelude::*;
use crate::bintable::{Address, IntegerType, OffsetColumn, ReadColumn};
use crate::error::TileError;
use crate::schema::{Column, ColumnValue};
use crate::pixel_transform::RawFloat;
use crate::schema::Schema;
use crate::compression::{GZip1, GZip2, NoCompress};
use crate::pixel_transform::{
    I8Transform, NoDitherQuantization, U16Transform, U32Transform, U64Transform,
};
use crate::read_big_endian::ReadBigEndian;
use crate::tile_reader::{
    BasicTileReader, Decompressor, QuantizedTileReader, TileReader, TypedTileReader,
    lemma_shape_len_prefix, lemma_shape_len_zero, shape_len,
};

verus! {

/// The algorithm a tile's payload is compressed with.
#[allow(non_camel_case_types)]
#[derive(Clone, Copy, Debug, PartialEq, Eq)]
pub enum CompressionAlgorithm {
    /// Rice coding; not decoded by this library.
    RICE_1,
    GZIP_1,
    GZIP_2,
    /// IRAF pixel-list coding; not decoded by this library.
    PLIO_1,
    /// H-transform coding; not decoded by this library.
    HCOMPRESS_1,
    NOCOMPRESS,
}

/// How floats were quantized to integers.
#[allow(non_camel_case_types)]
#[derive(Clone, Copy, Debug, PartialEq, Eq)]
pub enum QuantizationAlgorithm {
    NO_DITHER,
    /// Subtractive dithering; not decoded by this library.
    SUBTRACTIVE_DITHER_1,
    /// Subtractive dithering that keeps zeros exact; not decoded by this library.
    SUBTRACTIVE_DITHER_2,
}

/// The parameters of a quantized float image: each stored integer `s` of
/// width `stored` stands for `s * scale - zero`, and `blank` for NaN.
#[derive(Clone, Copy, Debug, PartialEq, Eq)]
pub struct Quantization {
    pub algorithm: QuantizationAlgorithm,
    pub stored: IntegerType,
    pub zero: RawFloat,
    pub scale: RawFloat,
    pub blank: Option<i64>,
}

/// The type of the image's pixels.
#[derive(Clone, Copy, Debug, PartialEq, Eq)]
pub enum PixelType {
    U8,
    I8,
    I16,
    U16,
    I32,
    U32,
    I64,
    U64,
    F32(Option<Quantization>),
    F64(Option<Quantization>),
}

/// `a / b` rounded up.
pub open spec fn ceil_div(a: nat, b: nat) -> nat {
    a / b + if a % b == 0 {
        0nat
    } else {
        1nat
    }
}

/// The number of tiles along each axis: the image's extent over the tile's,
/// rounded up.
pub open spec fn grid_of(full: Seq<usize>, tile: Seq<usize>) -> Seq<usize> {
    Seq::new(full.len(), |d: int| ceil_div(full[d] as nat, tile[d] as nat) as usize)
}

/// `nd` indexes a tile of a grid of shape `grid`.
pub open spec fn nd_valid(nd: Seq<usize>, grid: Seq<usize>) -> bool {
    &&& nd.len() == grid.len()
    &&& forall|d: int| 0 <= d < grid.len() ==> nd[d] < grid[d]
}

/// The per-axis index of flat index `f`: its digits in the mixed radix
/// `grid`, the last axis varying fastest.
pub open spec fn nd_of(f: nat, grid: Seq<usize>) -> Seq<usize>
    decreases grid.len(),
{
    if grid.len() == 0 {
        seq![]
    } else {
        nd_of(f / grid.last() as nat, grid.drop_last()).push((f % grid.last() as nat) as usize)
    }
}

/// The flat index of per-axis index `nd` (Horner's rule over `grid`).
pub open spec fn flat_of(nd: Seq<usize>, grid: Seq<usize>) -> nat
    decreases nd.len(),
{
    if nd.len() == 0 || grid.len() == 0 {
        0
    } else {
        flat_of(nd.drop_last(), grid.drop_last()) * grid.last() as nat + nd.last() as nat
    }
}

/// The extent along one axis of the tile at index `i`, on an axis of `full`
/// pixels split into `grid` tiles: the last tile keeps the remainder.
pub open spec fn tile_extent(full: nat, grid: nat, i: nat) -> nat {
    if full % grid == 0 || i < grid - 1 {
        ceil_div(full, grid)
    } else {
        full % grid
    }
}

/// The shape of the tile at `nd`.
pub open spec fn tile_shape_of(full: Seq<usize>, grid: Seq<usize>, nd: Seq<usize>) -> Seq<usize> {
    Seq::new(full.len(), |d: int| tile_extent(full[d] as nat, grid[d] as nat, nd[d] as nat) as usize)
}

/// Every flat index below the number of tiles has a valid per-axis index,
/// and turning that back into a flat index gives the flat index.
pub proof fn lemma_flat_round_trip(f: nat, grid: Seq<usize>)
    requires
        f < shape_len(grid),
    ensures
        nd_valid(nd_of(f, grid), grid),
        flat_of(nd_of(f, grid), grid) == f,
    decreases grid.len(),
{
    if grid.len() > 0 {
        let front = grid.drop_last();
        let b = grid.last() as nat;
        let q = f / b;
        let r = f % b;
        assert(b > 0 && q < shape_len(front)) by {
            if b == 0 {
                assert(shape_len(front) * 0 == 0) by (nonlinear_arith);
            }
            assert(q < shape_len(front)) by (nonlinear_arith)
                requires
                    f < shape_len(front) * b,
                    b > 0,
                    q == f / b,
            ;
        }
        lemma_flat_round_trip(q, front);
        assert(f == q * b + r) by (nonlinear_arith)
            requires
                b > 0,
                q == f / b,
                r == f % b,
        ;
        let nd = nd_of(f, grid);
        assert(nd.drop_last() =~= nd_of(q, front));
    }
}

/// Every valid per-axis index has a flat index below the number of tiles,
/// and turning that back into a per-axis index gives the per-axis index.
pub proof fn lemma_nd_round_trip(nd: Seq<usize>, grid: Seq<usize>)
    requires
        nd_valid(nd, grid),
    ensures
        flat_of(nd, grid) < shape_len(grid),
        nd_of(flat_of(nd, grid), grid) == nd,
    decreases grid.len(),
{
    if grid.len() > 0 {
        let front = grid.drop_last();
        let b = grid.last() as nat;
        let x = flat_of(nd.drop_last(), front);
        let r = nd.last() as nat;
        lemma_nd_round_trip(nd.drop_last(), front);
        let f = flat_of(nd, grid);
        assert(f == x * b + r);
        assert(f / b == x && f % b == r) by (nonlinear_arith)
            requires
                f == x * b + r,
                r < b,
        ;
        assert(f < shape_len(front) * b) by (nonlinear_arith)
            requires
                f == x * b + r,
                r < b,
                x < shape_len(front),
        ;
        assert(nd_of(f, grid) =~= nd);
    }
}

/// Along each axis, every tile but the last has `full / grid` pixels rounded
/// up; the last has the remainder `full % grid` where that is not zero.
pub proof fn lemma_boundary_tile_shape(full: Seq<usize>, grid: Seq<usize>, nd: Seq<usize>)
    requires
        full.len() == grid.len(),
        nd_valid(nd, grid),
    ensures
        forall|d: int|
            0 <= d < grid.len() && nd[d] < grid[d] - 1 ==> #[trigger] tile_shape_of(full, grid, nd)[d]
                == ceil_div(full[d] as nat, grid[d] as nat),
        forall|d: int|
            0 <= d < grid.len() && nd[d] == grid[d] - 1 && full[d] % grid[d] != 0
                ==> #[trigger] tile_shape_of(full, grid, nd)[d] == full[d] % grid[d],
{
    assert forall|d: int| 0 <= d < grid.len() implies ceil_div(full[d] as nat, grid[d] as nat)
        <= full[d] by {
        let (n, g) = (full[d] as nat, grid[d] as nat);
        assert(n / g <= n) by (nonlinear_arith)
            requires
                g > 0,
        ;
        if n % g != 0 {
            assert(n / g < n) by (nonlinear_arith)
                requires
                    g > 1 || n % g == 0,
                    n % g != 0,
            ;
        }
    }
}

/// A tile's index, both flat and per axis; the two always denote the same tile.
#[derive(Clone, Debug)]
pub struct TileIndex {
    flat: usize,
    nd: Vec<usize>,
}

impl TileIndex {
    pub closed spec fn spec_flat(&self) -> nat {
        self.flat as nat
    }

    pub closed spec fn spec_nd(&self) -> Seq<usize> {
        self.nd@
    }

    pub fn flat(&self) -> (r: usize)
        ensures
            r == self.spec_flat(),
    {
        self.flat
    }

    pub fn nd(&self) -> (r: &[usize])
        ensures
            r@ == self.spec_nd(),
    {
        self.nd.as_slice()
    }
}


/// A shape that is nowhere larger than another has no more elements.
pub proof fn lemma_shape_len_monotone(a: Seq<usize>, b: Seq<usize>)
    requires
        a.len() == b.len(),
        forall|d: int| 0 <= d < a.len() ==> a[d] <= b[d],
    ensures
        shape_len(a) <= shape_len(b),
    decreases a.len(),
{
    if a.len() > 0 {
        lemma_shape_len_monotone(a.drop_last(), b.drop_last());
        let (x, y) = (shape_len(a.drop_last()), shape_len(b.drop_last()));
        let (p, q) = (a.last() as nat, b.last() as nat);
        assert(x * p <= y * q) by (nonlinear_arith)
            requires
                x <= y,
                p <= q,
        ;
    }
}

/// A tile-compressed image extension.
#[derive(Debug)]
pub struct CompressedImageExtension {
    pixel_type: PixelType,
    full_shape: Vec<usize>,
    grid_shape: Vec<usize>,
    algorithm: CompressionAlgorithm,
    schema: Schema,
}

impl CompressedImageExtension {
    #[verifier::type_invariant]
    spec fn inv(&self) -> bool {
        &&& self.full_shape@.len() == self.grid_shape@.len()
        &&& forall|d: int|
            0 <= d < self.grid_shape@.len() ==> #[trigger] self.grid_shape@[d] <= self.full_shape@[d]
        &&& shape_len(self.full_shape@) <= usize::MAX
        &&& self.schema.wf()
    }

    pub closed spec fn spec_pixel_type(&self) -> PixelType {
        self.pixel_type
    }

    pub closed spec fn spec_full_shape(&self) -> Seq<usize> {
        self.full_shape@
    }

    pub closed spec fn spec_grid_shape(&self) -> Seq<usize> {
        self.grid_shape@
    }

    pub closed spec fn spec_algorithm(&self) -> CompressionAlgorithm {
        self.algorithm
    }

    pub closed spec fn spec_schema(&self) -> Schema {
        self.schema
    }

    /// Describes an image of `full_shape` pixels cut into tiles of
    /// `tile_shape` pixels; the grid of tiles is computed here, once.
    pub fn new(
        pixel_type: PixelType,
        full_shape: Vec<usize>,
        tile_shape: Vec<usize>,
        algorithm: CompressionAlgorithm,
        schema: Schema,
    ) -> (r: Self)
        requires
            full_shape@.len() == tile_shape@.len(),
            forall|d: int| 0 <= d < tile_shape@.len() ==> tile_shape@[d] > 0,
            shape_len(full_shape@) <= usize::MAX,
            schema.wf(),
        ensures
            r.spec_pixel_type() == pixel_type,
            r.spec_full_shape() == full_shape@,
            r.spec_grid_shape() == grid_of(full_shape@, tile_shape@),
            r.spec_algorithm() == algorithm,
            r.spec_schema() == schema,
    {
        let mut grid_shape: Vec<usize> = Vec::new();
        let mut d: usize = 0;
        while d < full_shape.len()
            invariant
                d <= full_shape@.len(),
                full_shape@.len() == tile_shape@.len(),
                forall|j: int| 0 <= j < tile_shape@.len() ==> tile_shape@[j] > 0,
                grid_shape@ =~= grid_of(full_shape@, tile_shape@).take(d as int),
                forall|j: int| 0 <= j < d ==> #[trigger] grid_shape@[j] <= full_shape@[j],
            decreases full_shape@.len() - d,
        {
            let n = full_shape[d];
            let t = tile_shape[d];
            let g = if n % t == 0 {
                n / t
            } else {
                proof {
                    assert(n / t < n) by (nonlinear_arith)
                        requires
                            t > 1 || n % t == 0,
                            n % t != 0,
                    ;
                }
                n / t + 1
            };
            proof {
                assert(n / t <= n) by (nonlinear_arith)
                    requires
                        t > 0,
                ;
            }
            grid_shape.push(g);
            d = d + 1;
        }
        proof {
            assert(grid_of(full_shape@, tile_shape@).take(d as int) =~= grid_of(full_shape@, tile_shape@));
        }
        CompressedImageExtension { pixel_type, full_shape, grid_shape, algorithm, schema }
    }

    /// The per-axis index of the tile with flat index `index_flat`.
    pub fn index_from_flat(&self, index_flat: usize) -> (r: TileIndex)
        requires
            index_flat < shape_len(self.spec_grid_shape()),
        ensures
            r.spec_flat() == index_flat,
            r.spec_nd() == nd_of(index_flat as nat, self.spec_grid_shape()),
    {
        let ghost grid = self.grid_shape@;
        let len = self.grid_shape.len();
        let mut index_nd: Vec<usize> = Vec::new();
        let mut z: usize = 0;
        while z < len
            invariant
                z <= len,
                len == grid.len(),
                index_nd@.len() == z,
            decreases len - z,
        {
            index_nd.push(0);
            z = z + 1;
        }
        proof {
            assert(grid.take(len as int) =~= grid);
            assert forall|j: int| 0 <= j < len implies grid[j] > 0 by {
                if grid[j] == 0 {
                    lemma_shape_len_zero(grid, j);
                }
            }
        }
        let mut rest: usize = index_flat;
        let mut k: usize = len;
        while k > 0
            invariant
                k <= len,
                len == grid.len(),
                grid == self.grid_shape@,
                index_nd@.len() == len,
                rest <= index_flat,
                nd_of(index_flat as nat, grid) =~= nd_of(rest as nat, grid.take(k as int))
                    + index_nd@.subrange(k as int, len as int),
                forall|j: int| 0 <= j < len ==> grid[j] > 0,
            decreases k,
        {
            let g = self.grid_shape[k - 1];
            proof {
                let t = grid.take(k as int);
                assert(t.drop_last() =~= grid.take(k - 1));
                assert(t.last() == g);
            }
            index_nd.set(k - 1, rest % g);
            rest = rest / g;
            k = k - 1;
        }
        TileIndex { flat: index_flat, nd: index_nd }
    }

    /// The flat index of the tile at per-axis index `index_nd`.
    pub fn index_from_nd(&self, index_nd: Vec<usize>) -> (r: TileIndex)
        requires
            nd_valid(index_nd@, self.spec_grid_shape()),
        ensures
            r.spec_flat() == flat_of(index_nd@, self.spec_grid_shape()),
            r.spec_nd() == index_nd@,
    {
        proof {
            use_type_invariant(self);
            lemma_shape_len_monotone(self.grid_shape@, self.full_shape@);
        }
        let ghost grid = self.grid_shape@;
        let ghost nd = index_nd@;
        let mut index_flat: usize = 0;
        let mut d: usize = 0;
        while d < index_nd.len()
            invariant
                d <= nd.len(),
                nd == index_nd@,
                grid == self.grid_shape@,
                nd_valid(nd, grid),
                shape_len(grid) <= usize::MAX,
                index_flat == flat_of(nd.take(d as int), grid.take(d as int)),
            decreases nd.len() - d,
        {
            let g = self.grid_shape[d];
            proof {
                let (nt, gt) = (nd.take(d + 1), grid.take(d + 1));
                assert(nt.drop_last() =~= nd.take(d as int));
                assert(gt.drop_last() =~= grid.take(d as int));
                lemma_nd_round_trip(nt, gt);
                lemma_shape_len_prefix(grid, d + 1);
                assert(flat_of(nt, gt) == index_flat * g + nd[d as int]);
            }
            index_flat = index_flat * g + index_nd[d];
            d = d + 1;
        }
        proof {
            assert(nd.take(d as int) =~= nd);
            assert(grid.take(d as int) =~= grid);
        }
        TileIndex { flat: index_flat, nd: index_nd }
    }

    /// The shape of the tile at `index`: `full / grid` rounded up along each
    /// axis, but the remainder `full % grid` for the last tile of an axis
    /// that the grid does not divide.
    pub fn tile_shape(&self, index: &TileIndex) -> (r: Vec<usize>)
        requires
            nd_valid(index.spec_nd(), self.spec_grid_shape()),
        ensures
            r@ == tile_shape_of(self.spec_full_shape(), self.spec_grid_shape(), index.spec_nd()),
            forall|d: int|
                0 <= d < r@.len() ==> #[trigger] r@[d] <= self.spec_full_shape()[d],
    {
        proof {
            use_type_invariant(self);
        }
        let nd = index.nd();
        let mut shape: Vec<usize> = Vec::new();
        let mut d: usize = 0;
        while d < self.full_shape.len()
            invariant
                d <= self.full_shape@.len(),
                self.full_shape@.len() == self.grid_shape@.len(),
                nd@ == index.spec_nd(),
                nd_valid(nd@, self.grid_shape@),
                shape@ =~= tile_shape_of(self.full_shape@, self.grid_shape@, nd@).take(d as int),
                forall|j: int| 0 <= j < d ==> #[trigger] shape@[j] <= self.full_shape@[j],
            decreases self.full_shape@.len() - d,
        {
            let n = self.full_shape[d];
            let g = self.grid_shape[d];
            let i = nd[d];
            let extent = if n % g == 0 || i < g - 1 {
                if n % g == 0 {
                    proof {
                        assert(n / g <= n) by (nonlinear_arith)
                            requires
                                g > 0,
                        ;
                    }
                    n / g
                } else {
                    proof {
                        assert(n / g < n) by (nonlinear_arith)
                            requires
                                g > 1 || n % g == 0,
                                n % g != 0,
                        ;
                    }
                    n / g + 1
                }
            } else {
                proof {
                    assert(n % g <= n) by (nonlinear_arith)
                        requires
                            g > 0,
                    ;
                }
                n % g
            };
            shape.push(extent);
            d = d + 1;
        }
        proof {
            assert(tile_shape_of(self.full_shape@, self.grid_shape@, nd@).take(d as int)
                =~= tile_shape_of(self.full_shape@, self.grid_shape@, nd@));
        }
        shape
    }

    pub fn pixel_type(&self) -> (r: PixelType)
        ensures
            r == self.spec_pixel_type(),
    {
        self.pixel_type
    }

    pub fn full_shape(&self) -> (r: &[usize])
        ensures
            r@ == self.spec_full_shape(),
    {
        self.full_shape.as_slice()
    }

    pub fn grid_shape(&self) -> (r: &[usize])
        ensures
            r@ == self.spec_grid_shape(),
    {
        self.grid_shape.as_slice()
    }

    pub fn schema(&self) -> (r: &Schema)
        ensures
            *r == self.spec_schema(),
    {
        &self.schema
    }
}


/// What the columns scanned so far have set for a row.
#[derive(Clone, Copy, Debug, PartialEq, Eq)]
pub struct RowState {
    pub address: Option<Address>,
    pub algorithm: CompressionAlgorithm,
    pub quantization: Option<Quantization>,
}

/// The algorithm in effect once data column `c` has supplied the address:
/// GZIP_COMPRESSED_DATA forces GZIP_1, UNCOMPRESSED_DATA forces NOCOMPRESS,
/// and COMPRESSED_DATA keeps the image's own.
pub open spec fn data_algorithm(c: Column, current: CompressionAlgorithm) -> CompressionAlgorithm {
    match c {
        Column::GzipCompressedData(_) => CompressionAlgorithm::GZIP_1,
        Column::UncompressedData(_) => CompressionAlgorithm::NOCOMPRESS,
        _ => current,
    }
}

/// The state after column `c`, holding `v` in this row, is scanned.
pub open spec fn row_step(c: Column, v: ColumnValue, st: RowState) -> Result<RowState, TileError> {
    match v {
        ColumnValue::Data(Err(e)) => Err(e),
        ColumnValue::Data(Ok(None)) => Ok(st),
        ColumnValue::Data(Ok(Some(a))) => if st.address is Some {
            Err(TileError::MultipleDataColumns)
        } else {
            Ok(RowState { address: Some(a), algorithm: data_algorithm(c, st.algorithm), quantization: st.quantization })
        },
        ColumnValue::Float(f) => match st.quantization {
            None => Err(TileError::NoQuantization),
            Some(q) => Ok(RowState {
                quantization: Some(
                    if c is ZScale {
                        Quantization { scale: f, ..q }
                    } else {
                        Quantization { zero: f, ..q }
                    },
                ),
                ..st
            }),
        },
        ColumnValue::Integer(b) => match st.quantization {
            None => Err(TileError::NoQuantization),
            Some(q) => Ok(RowState { quantization: Some(Quantization { blank: Some(b), ..q }), ..st }),
        },
        ColumnValue::Ignored => Ok(st),
    }
}

/// The state after scanning `cols` in order, starting from `init`; the
/// first error stops the scan.
pub open spec fn scan_row(cols: Seq<OffsetColumn<Column>>, row: Seq<u8>, init: RowState) -> Result<RowState, TileError>
    decreases cols.len(),
{
    if cols.len() == 0 {
        Ok(init)
    } else {
        match scan_row(cols.drop_last(), row, init) {
            Ok(st) => row_step(cols.last().type_, cols.last().type_.spec_read(row, cols.last().offset as int), st),
            Err(e) => Err(e),
        }
    }
}

/// The quantization a pixel type is configured with.
pub open spec fn configured_quantization(p: PixelType) -> Option<Quantization> {
    match p {
        PixelType::F32(q) => q,
        PixelType::F64(q) => q,
        _ => None,
    }
}

/// What a row resolves to: its payload's address, the algorithm it is
/// compressed with, and its quantization.
pub open spec fn row_resolution(
    cols: Seq<OffsetColumn<Column>>,
    row: Seq<u8>,
    pixel_type: PixelType,
    algorithm: CompressionAlgorithm,
) -> Result<(Address, CompressionAlgorithm, Option<Quantization>), TileError> {
    let init = RowState { address: None, algorithm, quantization: configured_quantization(pixel_type) };
    match scan_row(cols, row, init) {
        Err(e) => Err(e),
        Ok(st) => match st.address {
            None => Err(TileError::NoDataColumn),
            Some(a) => Ok((a, st.algorithm, st.quantization)),
        },
    }
}

fn apply_column(c: Column, v: ColumnValue, st: RowState) -> (r: Result<RowState, TileError>)
    ensures
        r == row_step(c, v, st),
{
    match v {
        ColumnValue::Data(Err(e)) => Err(e),
        ColumnValue::Data(Ok(None)) => Ok(st),
        ColumnValue::Data(Ok(Some(a))) => {
            if st.address.is_some() {
                Err(TileError::MultipleDataColumns)
            } else {
                let algorithm = match c {
                    Column::GzipCompressedData(_) => CompressionAlgorithm::GZIP_1,
                    Column::UncompressedData(_) => CompressionAlgorithm::NOCOMPRESS,
                    _ => st.algorithm,
                };
                Ok(RowState { address: Some(a), algorithm, quantization: st.quantization })
            }
        },
        ColumnValue::Float(f) => match st.quantization {
            None => Err(TileError::NoQuantization),
            Some(q) => {
                let updated = match c {
                    Column::ZScale(_) => Quantization { scale: f, ..q },
                    _ => Quantization { zero: f, ..q },
                };
                Ok(RowState { quantization: Some(updated), ..st })
            },
        },
        ColumnValue::Integer(b) => match st.quantization {
            None => Err(TileError::NoQuantization),
            Some(q) => Ok(RowState { quantization: Some(Quantization { blank: Some(b), ..q }), ..st }),
        },
        ColumnValue::Ignored => Ok(st),
    }
}

impl CompressedImageExtension {
    /// Resolves a row: scans the schema's columns in order for the payload's
    /// address, the algorithm and the quantization parameters.
    pub fn read_row(&self, row_bytes: &[u8]) -> (r: Result<(Address, CompressionAlgorithm, Option<Quantization>), TileError>)
        requires
            row_bytes@.len() >= self.spec_schema().bytes_per_row,
        ensures
            r == row_resolution(
                self.spec_schema().columns@,
                row_bytes@,
                self.spec_pixel_type(),
                self.spec_algorithm(),
            ),
    {
        proof {
            use_type_invariant(self);
            self.schema.lemma_columns_within_row();
        }
        let ghost cols = self.schema.columns@;
        let quantization = match self.pixel_type {
            PixelType::F32(q) => q,
            PixelType::F64(q) => q,
            _ => None,
        };
        let mut st = RowState { address: None, algorithm: self.algorithm, quantization };
        let ghost init = st;
        assert(init == RowState {
            address: None,
            algorithm: self.algorithm,
            quantization: configured_quantization(self.pixel_type),
        });
        let mut k: usize = 0;
        while k < self.schema.columns.len()
            invariant
                k <= cols.len(),
                cols == self.schema.columns@,
                row_bytes@.len() >= self.schema.bytes_per_row,
                forall|i: int|
                    0 <= i < cols.len() ==> #[trigger] cols[i].offset + cols[i].type_.width()
                        <= self.schema.bytes_per_row,
                scan_row(cols.take(k as int), row_bytes@, init) == Ok::<RowState, TileError>(st),
                init == (RowState {
                    address: None,
                    algorithm: self.algorithm,
                    quantization: configured_quantization(self.pixel_type),
                }),
            decreases cols.len() - k,
        {
            let col = &self.schema.columns[k];
            let v = col.read(row_bytes);
            proof {
                assert(cols.take(k + 1).drop_last() =~= cols.take(k as int));
                assert(cols.take(k + 1).last() == cols[k as int]);
            }
            match apply_column(col.type_, v, st) {
                Ok(next) => {
                    st = next;
                },
                Err(e) => {
                    proof {
                        assert(cols.take(k + 1).last() == cols[k as int]);
                        assert(scan_row(cols.take(k + 1), row_bytes@, init) == Err::<RowState, TileError>(e));
                        lemma_scan_error_persists(cols, row_bytes@, init, k + 1);
                    }
                    return Err(e);
                },
            }
            k = k + 1;
        }
        proof {
            assert(cols.take(k as int) =~= cols);
        }
        match st.address {
            None => Err(TileError::NoDataColumn),
            Some(a) => Ok((a, st.algorithm, st.quantization)),
        }
    }
}

/// Once a prefix of the columns fails, the whole scan fails the same way.
proof fn lemma_scan_error_persists(cols: Seq<OffsetColumn<Column>>, row: Seq<u8>, init: RowState, k: int)
    requires
        0 <= k <= cols.len(),
        scan_row(cols.take(k), row, init) is Err,
    ensures
        scan_row(cols, row, init) == scan_row(cols.take(k), row, init),
    decreases cols.len() - k,
{
    if k < cols.len() {
        assert(cols.take(k + 1).drop_last() =~= cols.take(k));
        lemma_scan_error_persists(cols, row, init, k + 1);
    } else {
        assert(cols.take(k) =~= cols);
    }
}


/// The algorithms this library decodes.
pub open spec fn implemented(a: CompressionAlgorithm) -> bool {
    a is GZIP_1 || a is GZIP_2 || a is NOCOMPRESS
}

/// A reader cannot be built: the algorithm is not decoded here, or a float
/// image is quantized with dithering.
pub open spec fn unsupported(pixel_type: PixelType, algorithm: CompressionAlgorithm, q: Option<Quantization>) -> bool {
    ||| !implemented(algorithm)
    ||| ((pixel_type is F32 || pixel_type is F64) && q is Some && !(q->0.algorithm is NO_DITHER))
}

/// The algorithm of a decompression stage.
pub open spec fn algorithm_of<T>(d: Decompressor<T>) -> CompressionAlgorithm {
    match d {
        Decompressor::GZip1(_) => CompressionAlgorithm::GZIP_1,
        Decompressor::GZip2(_) => CompressionAlgorithm::GZIP_2,
        Decompressor::NoCompress(_) => CompressionAlgorithm::NOCOMPRESS,
    }
}

/// `b` reads the tile at `address` of `shape` with `algorithm`.
pub open spec fn basic_built<T: ReadBigEndian>(
    b: BasicTileReader<Decompressor<T>>,
    address: Address,
    shape: Seq<usize>,
    algorithm: CompressionAlgorithm,
) -> bool {
    &&& b.spec_address() == address
    &&& b.spec_shape() == shape
    &&& algorithm_of(b.spec_compression()) == algorithm
}

/// The blank sentinel as an integer of the stored width (two's-complement
/// truncation, as a cast does).
pub open spec fn blank_as<I>(blank: Option<i64>, cast: spec_fn(i64) -> I) -> Option<I> {
    match blank {
        Some(b) => Some(cast(b)),
        None => None,
    }
}

/// `r` reads a quantized tile stored as integers of width `q.stored`.
pub open spec fn quantized_built(
    r: QuantizedTileReader,
    address: Address,
    shape: Seq<usize>,
    algorithm: CompressionAlgorithm,
    q: Quantization,
) -> bool {
    match q.stored {
        IntegerType::U8 => r matches QuantizedTileReader::U8(t) && basic_built(t.base, address, shape, algorithm)
            && t.transform == (NoDitherQuantization::<u8> {
            zero: q.zero,
            scale: q.scale,
            blank: blank_as(q.blank, |b: i64| b as u8),
        }),
        IntegerType::I16 => r matches QuantizedTileReader::I16(t) && basic_built(t.base, address, shape, algorithm)
            && t.transform == (NoDitherQuantization::<i16> {
            zero: q.zero,
            scale: q.scale,
            blank: blank_as(q.blank, |b: i64| b as i16),
        }),
        IntegerType::I32 => r matches QuantizedTileReader::I32(t) && basic_built(t.base, address, shape, algorithm)
            && t.transform == (NoDitherQuantization::<i32> {
            zero: q.zero,
            scale: q.scale,
            blank: blank_as(q.blank, |b: i64| b as i32),
        }),
        IntegerType::I64 => r matches QuantizedTileReader::I64(t) && basic_built(t.base, address, shape, algorithm)
            && t.transform == (NoDitherQuantization::<i64> { zero: q.zero, scale: q.scale, blank: q.blank }),
    }
}

/// `t` reads the tile at `address` of `shape`, compressed with `algorithm`,
/// as pixels of `pixel_type`: through the sign-bias transform for I8, U16,
/// U32 and U64, through quantization for a quantized float, and as stored
/// otherwise.
pub open spec fn reader_built(
    t: TypedTileReader,
    address: Address,
    shape: Seq<usize>,
    pixel_type: PixelType,
    algorithm: CompressionAlgorithm,
    q: Option<Quantization>,
) -> bool {
    match pixel_type {
        PixelType::U8 => t matches TypedTileReader::U8(b) && basic_built(b, address, shape, algorithm),
        PixelType::I8 => t matches TypedTileReader::I8(r) && basic_built(r.base, address, shape, algorithm),
        PixelType::U16 => t matches TypedTileReader::U16(r) && basic_built(r.base, address, shape, algorithm),
        PixelType::I16 => t matches TypedTileReader::I16(b) && basic_built(b, address, shape, algorithm),
        PixelType::U32 => t matches TypedTileReader::U32(r) && basic_built(r.base, address, shape, algorithm),
        PixelType::I32 => t matches TypedTileReader::I32(b) && basic_built(b, address, shape, algorithm),
        PixelType::U64 => t matches TypedTileReader::U64(r) && basic_built(r.base, address, shape, algorithm),
        PixelType::I64 => t matches TypedTileReader::I64(b) && basic_built(b, address, shape, algorithm),
        PixelType::F32(_) => match q {
            None => t matches TypedTileReader::F32(b) && basic_built(b, address, shape, algorithm),
            Some(qq) => t matches TypedTileReader::QuantizedF32(r) && quantized_built(r, address, shape, algorithm, qq),
        },
        PixelType::F64(_) => match q {
            None => t matches TypedTileReader::F64(b) && basic_built(b, address, shape, algorithm),
            Some(qq) => t matches TypedTileReader::QuantizedF64(r) && quantized_built(r, address, shape, algorithm, qq),
        },
    }
}

/// What building a reader gives: `Unimplemented` for what is not decoded
/// here, and otherwise the reader `reader_built` describes.
pub open spec fn reader_result(
    r: Result<TypedTileReader, TileError>,
    address: Address,
    shape: Seq<usize>,
    pixel_type: PixelType,
    algorithm: CompressionAlgorithm,
    q: Option<Quantization>,
) -> bool {
    if unsupported(pixel_type, algorithm, q) {
        r == Err::<TypedTileReader, TileError>(TileError::Unimplemented)
    } else {
        r matches Ok(t) && reader_built(t, address, shape, pixel_type, algorithm, q)
    }
}

fn decompressor<T: ReadBigEndian>(algorithm: CompressionAlgorithm) -> (r: Decompressor<T>)
    requires
        implemented(algorithm),
    ensures
        algorithm_of(r) == algorithm,
{
    match algorithm {
        CompressionAlgorithm::GZIP_1 => Decompressor::GZip1(GZip1::new()),
        CompressionAlgorithm::GZIP_2 => Decompressor::GZip2(GZip2::new()),
        _ => Decompressor::NoCompress(NoCompress::new()),
    }
}

fn basic<T: ReadBigEndian>(address: Address, shape: Vec<usize>, algorithm: CompressionAlgorithm) -> (r: BasicTileReader<Decompressor<T>>)
    requires
        implemented(algorithm),
        shape_len(shape@) <= usize::MAX,
    ensures
        basic_built(r, address, shape@, algorithm),
{
    BasicTileReader::new(address, shape, decompressor::<T>(algorithm))
}

fn quantized_reader(address: Address, shape: Vec<usize>, algorithm: CompressionAlgorithm, q: Quantization) -> (r: QuantizedTileReader)
    requires
        implemented(algorithm),
        shape_len(shape@) <= usize::MAX,
    ensures
        quantized_built(r, address, shape@, algorithm, q),
{
    match q.stored {
        IntegerType::U8 => {
            let blank = match q.blank {
                Some(b) => Some(#[verifier::truncate] (b as u8)),
                None => None,
            };
            let t = NoDitherQuantization::<u8>::new(q.zero, q.scale, blank);
            QuantizedTileReader::U8(basic::<u8>(address, shape, algorithm).transformed(t))
        },
        IntegerType::I16 => {
            let blank = match q.blank {
                Some(b) => Some(#[verifier::truncate] (b as i16)),
                None => None,
            };
            let t = NoDitherQuantization::<i16>::new(q.zero, q.scale, blank);
            QuantizedTileReader::I16(basic::<i16>(address, shape, algorithm).transformed(t))
        },
        IntegerType::I32 => {
            let blank = match q.blank {
                Some(b) => Some(#[verifier::truncate] (b as i32)),
                None => None,
            };
            let t = NoDitherQuantization::<i32>::new(q.zero, q.scale, blank);
            QuantizedTileReader::I32(basic::<i32>(address, shape, algorithm).transformed(t))
        },
        IntegerType::I64 => {
            let t = NoDitherQuantization::<i64>::new(q.zero, q.scale, q.blank);
            QuantizedTileReader::I64(basic::<i64>(address, shape, algorithm).transformed(t))
        },
    }
}

/// Builds the reader of one tile: the decompression stage of `algorithm`,
/// followed by the transform that `pixel_type` and `quantization` call for.
pub fn make_tile_reader(
    address: Address,
    shape: Vec<usize>,
    pixel_type: &PixelType,
    algorithm: CompressionAlgorithm,
    quantization: Option<Quantization>,
) -> (r: Result<TypedTileReader, TileError>)
    requires
        shape_len(shape@) <= usize::MAX,
    ensures
        reader_result(r, address, shape@, *pixel_type, algorithm, quantization),
{
    match algorithm {
        CompressionAlgorithm::GZIP_1 | CompressionAlgorithm::GZIP_2 | CompressionAlgorithm::NOCOMPRESS => {},
        _ => {
            return Err(TileError::Unimplemented);
        },
    }
    let reader = match pixel_type {
        PixelType::U8 => TypedTileReader::U8(basic::<u8>(address, shape, algorithm)),
        PixelType::I8 => TypedTileReader::I8(basic::<u8>(address, shape, algorithm).transformed(I8Transform())),
        PixelType::U16 => TypedTileReader::U16(basic::<i16>(address, shape, algorithm).transformed(U16Transform())),
        PixelType::I16 => TypedTileReader::I16(basic::<i16>(address, shape, algorithm)),
        PixelType::U32 => TypedTileReader::U32(basic::<i32>(address, shape, algorithm).transformed(U32Transform())),
        PixelType::I32 => TypedTileReader::I32(basic::<i32>(address, shape, algorithm)),
        PixelType::U64 => TypedTileReader::U64(basic::<i64>(address, shape, algorithm).transformed(U64Transform())),
        PixelType::I64 => TypedTileReader::I64(basic::<i64>(address, shape, algorithm)),
        PixelType::F32(_) => match quantization {
            None => TypedTileReader::F32(basic::<u32>(address, shape, algorithm)),
            Some(q) => {
                if !matches!(q.algorithm, QuantizationAlgorithm::NO_DITHER) {
                    return Err(TileError::Unimplemented);
                }
                TypedTileReader::QuantizedF32(quantized_reader(address, shape, algorithm, q))
            },
        },
        PixelType::F64(_) => match quantization {
            None => TypedTileReader::F64(basic::<u64>(address, shape, algorithm)),
            Some(q) => {
                if !matches!(q.algorithm, QuantizationAlgorithm::NO_DITHER) {
                    return Err(TileError::Unimplemented);
                }
                TypedTileReader::QuantizedF64(quantized_reader(address, shape, algorithm, q))
            },
        },
    };
    Ok(reader)
}

impl CompressedImageExtension {
    /// The reader of the tile at `index`, whose table row is `row_bytes`.
    pub fn tile_reader(&self, index: &TileIndex, row_bytes: &[u8]) -> (r: Result<TypedTileReader, TileError>)
        requires
            nd_valid(index.spec_nd(), self.spec_grid_shape()),
            row_bytes@.len() >= self.spec_schema().bytes_per_row,
        ensures
            match row_resolution(
                self.spec_schema().columns@,
                row_bytes@,
                self.spec_pixel_type(),
                self.spec_algorithm(),
            ) {
                Err(e) => r == Err::<TypedTileReader, TileError>(e),
                Ok((address, algorithm, q)) => reader_result(
                    r,
                    address,
                    tile_shape_of(self.spec_full_shape(), self.spec_grid_shape(), index.spec_nd()),
                    self.spec_pixel_type(),
                    algorithm,
                    q,
                ),
            },
    {
        proof {
            use_type_invariant(self);
        }
        let shape = self.tile_shape(index);
        proof {
            lemma_shape_len_monotone(shape@, self.full_shape@);
        }
        match self.read_row(row_bytes) {
            Err(e) => Err(e),
            Ok((address, algorithm, quantization)) => make_tile_reader(
                address,
                shape,
                &self.pixel_type,
                algorithm,
                quantization,
            ),
        }
    }
}


/// Column `c` of `cols` holds an address in this row.
pub open spec fn holds_address(cols: Seq<OffsetColumn<Column>>, row: Seq<u8>, c: int) -> bool {
    cols[c].type_.spec_read(row, cols[c].offset as int) matches ColumnValue::Data(Ok(Some(_)))
}

/// Once an address is set, every later column that succeeds keeps it set.
proof fn lemma_address_stays_set(cols: Seq<OffsetColumn<Column>>, row: Seq<u8>, init: RowState, i: int, k: int)
    requires
        0 <= i < k <= cols.len(),
        holds_address(cols, row, i),
        scan_row(cols.take(k), row, init) is Ok,
    ensures
        scan_row(cols.take(k), row, init)->Ok_0.address is Some,
    decreases k,
{
    let prefix = cols.take(k);
    assert(prefix.drop_last() =~= cols.take(k - 1));
    assert(prefix.last() == cols[k - 1]);
    if k - 1 > i {
        lemma_address_stays_set(cols, row, init, i, k - 1);
    }
}

/// A row in which two data columns both hold an address does not resolve:
/// the scan stops with an error rather than picking one of them.
pub proof fn lemma_two_data_columns_fail(
    cols: Seq<OffsetColumn<Column>>,
    row: Seq<u8>,
    pixel_type: PixelType,
    algorithm: CompressionAlgorithm,
    i: int,
    j: int,
)
    requires
        0 <= i < j < cols.len(),
        holds_address(cols, row, i),
        holds_address(cols, row, j),
    ensures
        row_resolution(cols, row, pixel_type, algorithm) is Err,
{
    let init = RowState { address: None, algorithm, quantization: configured_quantization(pixel_type) };
    let upto = cols.take(j + 1);
    assert(upto.drop_last() =~= cols.take(j));
    assert(upto.last() == cols[j]);
    if scan_row(cols.take(j), row, init) is Ok {
        lemma_address_stays_set(cols, row, init, i, j);
    } else {
        lemma_scan_error_persists(upto, row, init, j);
        assert(upto.take(j) =~= cols.take(j));
    }
    lemma_scan_error_persists(cols, row, init, j + 1);
}

} // verus!
