//! Tile readers: a decompression stage, optionally followed by a pixel
//! transform, bound to one tile's heap address and shape.
use vstd::prelude::*;
use crate::bintable::Address;
use crate::compression::{Compression, GZip1, GZip2, NoCompress};
use crate::error::{TileError, vec_result};
use crate::pixel_transform::{
    I8Transform, NoDitherQuantization, PixelTransform, QuantizedSample, RawFloat, U16Transform,
    U32Transform, U64Transform,
};
use crate::read_big_endian::ReadBigEndian;

verus! {

/// The number of elements of an array of the given shape.
pub open spec fn shape_len(shape: Seq<usize>) -> nat
    decreases shape.len(),
{
    if shape.len() == 0 {
        1
    } else {
        shape_len(shape.drop_last()) * shape.last() as nat
    }
}

/// A shape with a zero extent has no elements.
pub proof fn lemma_shape_len_zero(shape: Seq<usize>, d: int)
    requires
        0 <= d < shape.len(),
        shape[d] == 0,
    ensures
        shape_len(shape) == 0,
    decreases shape.len(),
{
    if d < shape.len() - 1 {
        lemma_shape_len_zero(shape.drop_last(), d);
        assert(shape_len(shape) == shape_len(shape.drop_last()) * shape.last() as nat);
        assert(0 * (shape.last() as nat) == 0) by (nonlinear_arith);
    } else {
        assert(shape_len(shape.drop_last()) * 0 == 0) by (nonlinear_arith);
    }
}

/// Computes the number of elements of `shape`.
pub fn element_count(shape: &[usize]) -> (r: usize)
    requires
        shape_len(shape@) <= usize::MAX,
    ensures
        r == shape_len(shape@),
{
    let mut z: usize = 0;
    while z < shape.len()
        invariant
            z <= shape@.len(),
            forall|j: int| 0 <= j < z ==> shape@[j] > 0,
        decreases shape@.len() - z,
    {
        if shape[z] == 0 {
            proof {
                lemma_shape_len_zero(shape@, z as int);
            }
            return 0;
        }
        z = z + 1;
    }
    let mut n: usize = 1;
    let mut d: usize = 0;
    while d < shape.len()
        invariant
            d <= shape@.len(),
            n == shape_len(shape@.take(d as int)),
            shape_len(shape@) <= usize::MAX,
            forall|j: int| 0 <= j < shape@.len() ==> shape@[j] > 0,
        decreases shape@.len() - d,
    {
        proof {
            assert(shape@.take(d + 1).drop_last() =~= shape@.take(d as int));
            lemma_shape_len_prefix(shape@, d + 1);
        }
        n = n * shape[d];
        d = d + 1;
    }
    assert(shape@.take(d as int) =~= shape@);
    n
}

/// A prefix of a shape with no zero extent has no more elements than the shape.
pub proof fn lemma_shape_len_prefix(shape: Seq<usize>, k: int)
    requires
        0 <= k <= shape.len(),
        forall|j: int| 0 <= j < shape.len() ==> shape[j] > 0,
    ensures
        shape_len(shape.take(k)) <= shape_len(shape),
    decreases shape.len(),
{
    if k < shape.len() {
        let front = shape.drop_last();
        assert(shape.take(k) =~= front.take(k));
        lemma_shape_len_prefix(front, k);
        let a = shape_len(front.take(k));
        let b = shape_len(front);
        let c = shape.last() as nat;
        assert(a <= b * c) by (nonlinear_arith)
            requires
                a <= b,
                c >= 1,
        ;
    } else {
        assert(shape.take(k) =~= shape);
    }
}

/// Reads the pixels of one tile.
pub trait TileReader<P> {
    /// Where the tile's payload lies in the heap.
    spec fn spec_address(&self) -> Address;

    /// The tile's shape.
    spec fn spec_shape(&self) -> Seq<usize>;

    /// The pixels, in row-major order, decoded from the payload `data`.
    spec fn spec_read(&self, data: Seq<u8>) -> Result<Seq<P>, TileError>;

    fn address(&self) -> (r: &Address)
        ensures
            *r == self.spec_address(),
    ;

    fn shape(&self) -> (r: &[usize])
        ensures
            r@ == self.spec_shape(),
    ;

    /// Decodes the tile from its heap payload.
    fn read(&self, data: &[u8]) -> (r: Result<Vec<P>, TileError>)
        ensures
            vec_result(r) == self.spec_read(data@),
    ;
}

/// One of the three decompression stages, chosen at run time.
pub enum Decompressor<T> {
    GZip1(GZip1<T>),
    GZip2(GZip2<T>),
    NoCompress(NoCompress<T>),
}

impl<T: ReadBigEndian> Compression for Decompressor<T> {
    type Original = T;

    open spec fn spec_decompress(&self, bytes: Seq<u8>, n: nat) -> Result<Seq<T>, TileError> {
        match self {
            Decompressor::GZip1(c) => c.spec_decompress(bytes, n),
            Decompressor::GZip2(c) => c.spec_decompress(bytes, n),
            Decompressor::NoCompress(c) => c.spec_decompress(bytes, n),
        }
    }

    fn decompress(&self, bytes: &[u8], n: usize) -> (r: Result<Vec<T>, TileError>) {
        match self {
            Decompressor::GZip1(c) => c.decompress(bytes, n),
            Decompressor::GZip2(c) => c.decompress(bytes, n),
            Decompressor::NoCompress(c) => c.decompress(bytes, n),
        }
    }
}

/// A tile read with a decompression stage alone.
pub struct BasicTileReader<C> {
    address: Address,
    shape: Vec<usize>,
    n_elements: usize,
    compression: C,
}

impl<C> BasicTileReader<C> {
    #[verifier::type_invariant]
    spec fn inv(&self) -> bool {
        self.n_elements == shape_len(self.shape@)
    }
}

impl<C: Compression> BasicTileReader<C> {
    pub closed spec fn spec_compression(&self) -> C {
        self.compression
    }

    pub fn new(address: Address, shape: Vec<usize>, compression: C) -> (r: Self)
        requires
            shape_len(shape@) <= usize::MAX,
        ensures
            r.spec_address() == address,
            r.spec_shape() == shape@,
            r.spec_compression() == compression,
    {
        let n_elements = element_count(shape.as_slice());
        BasicTileReader { address, shape, n_elements, compression }
    }

    /// This reader followed by `transform`.
    pub fn transformed<T: PixelTransform<Stored = C::Original>>(self, transform: T) -> (r: TransformedTileReader<Self, T>)
        ensures
            r.base == self,
            r.transform == transform,
    {
        TransformedTileReader { base: self, transform }
    }
}

impl<C: Compression> TileReader<C::Original> for BasicTileReader<C> {
    closed spec fn spec_address(&self) -> Address {
        self.address
    }

    closed spec fn spec_shape(&self) -> Seq<usize> {
        self.shape@
    }

    open spec fn spec_read(&self, data: Seq<u8>) -> Result<Seq<C::Original>, TileError> {
        self.spec_compression().spec_decompress(data, shape_len(self.spec_shape()))
    }

    fn address(&self) -> (r: &Address) {
        &self.address
    }

    fn shape(&self) -> (r: &[usize]) {
        self.shape.as_slice()
    }

    fn read(&self, data: &[u8]) -> (r: Result<Vec<C::Original>, TileError>) {
        proof {
            use_type_invariant(self);
        }
        self.compression.decompress(data, self.n_elements)
    }
}

/// Applies `f` to every element of a decoding result.
pub open spec fn map_result<A, B>(r: Result<Seq<A>, TileError>, f: spec_fn(A) -> B) -> Result<Seq<B>, TileError> {
    match r {
        Ok(s) => Ok(s.map_values(f)),
        Err(e) => Err(e),
    }
}

/// A tile read with a decompression stage and then a pixel transform.
pub struct TransformedTileReader<B, T> {
    pub base: B,
    pub transform: T,
}

impl<B: TileReader<T::Stored>, T: PixelTransform> TileReader<T::Original> for TransformedTileReader<B, T> {
    open spec fn spec_address(&self) -> Address {
        self.base.spec_address()
    }

    open spec fn spec_shape(&self) -> Seq<usize> {
        self.base.spec_shape()
    }

    open spec fn spec_read(&self, data: Seq<u8>) -> Result<Seq<T::Original>, TileError> {
        map_result(self.base.spec_read(data), |s: T::Stored| self.transform.spec_reverse(s))
    }

    fn address(&self) -> (r: &Address) {
        self.base.address()
    }

    fn shape(&self) -> (r: &[usize]) {
        self.base.shape()
    }

    fn read(&self, data: &[u8]) -> (r: Result<Vec<T::Original>, TileError>) {
        let stored = match self.base.read(data) {
            Ok(v) => v,
            Err(e) => {
                return Err(e);
            },
        };
        let mut out: Vec<T::Original> = Vec::new();
        let mut i: usize = 0;
        while i < stored.len()
            invariant
                i <= stored@.len(),
                out@ =~= stored@.take(i as int).map_values(|s: T::Stored| self.transform.spec_reverse(s)),
            decreases stored@.len() - i,
        {
            let p = self.transform.reverse(stored[i]);
            out.push(p);
            i = i + 1;
        }
        assert(stored@.take(i as int) =~= stored@);
        Ok(out)
    }
}


/// A reader of a quantized float tile, by the width of its stored integers.
pub enum QuantizedTileReader {
    U8(TransformedTileReader<BasicTileReader<Decompressor<u8>>, NoDitherQuantization<u8>>),
    I16(TransformedTileReader<BasicTileReader<Decompressor<i16>>, NoDitherQuantization<i16>>),
    I32(TransformedTileReader<BasicTileReader<Decompressor<i32>>, NoDitherQuantization<i32>>),
    I64(TransformedTileReader<BasicTileReader<Decompressor<i64>>, NoDitherQuantization<i64>>),
}

impl QuantizedTileReader {
    /// The zero point and the scale that stored integers are mapped with.
    pub fn parameters(&self) -> (r: (RawFloat, RawFloat))
        ensures
            r == (match self {
                QuantizedTileReader::U8(t) => (t.transform.zero, t.transform.scale),
                QuantizedTileReader::I16(t) => (t.transform.zero, t.transform.scale),
                QuantizedTileReader::I32(t) => (t.transform.zero, t.transform.scale),
                QuantizedTileReader::I64(t) => (t.transform.zero, t.transform.scale),
            }),
    {
        match self {
            QuantizedTileReader::U8(t) => (t.transform.zero, t.transform.scale),
            QuantizedTileReader::I16(t) => (t.transform.zero, t.transform.scale),
            QuantizedTileReader::I32(t) => (t.transform.zero, t.transform.scale),
            QuantizedTileReader::I64(t) => (t.transform.zero, t.transform.scale),
        }
    }
}

impl TileReader<QuantizedSample> for QuantizedTileReader {
    open spec fn spec_address(&self) -> Address {
        match self {
            QuantizedTileReader::U8(t) => t.spec_address(),
            QuantizedTileReader::I16(t) => t.spec_address(),
            QuantizedTileReader::I32(t) => t.spec_address(),
            QuantizedTileReader::I64(t) => t.spec_address(),
        }
    }

    open spec fn spec_shape(&self) -> Seq<usize> {
        match self {
            QuantizedTileReader::U8(t) => t.spec_shape(),
            QuantizedTileReader::I16(t) => t.spec_shape(),
            QuantizedTileReader::I32(t) => t.spec_shape(),
            QuantizedTileReader::I64(t) => t.spec_shape(),
        }
    }

    open spec fn spec_read(&self, data: Seq<u8>) -> Result<Seq<QuantizedSample>, TileError> {
        match self {
            QuantizedTileReader::U8(t) => t.spec_read(data),
            QuantizedTileReader::I16(t) => t.spec_read(data),
            QuantizedTileReader::I32(t) => t.spec_read(data),
            QuantizedTileReader::I64(t) => t.spec_read(data),
        }
    }

    fn address(&self) -> (r: &Address) {
        match self {
            QuantizedTileReader::U8(t) => t.address(),
            QuantizedTileReader::I16(t) => t.address(),
            QuantizedTileReader::I32(t) => t.address(),
            QuantizedTileReader::I64(t) => t.address(),
        }
    }

    fn shape(&self) -> (r: &[usize]) {
        match self {
            QuantizedTileReader::U8(t) => t.shape(),
            QuantizedTileReader::I16(t) => t.shape(),
            QuantizedTileReader::I32(t) => t.shape(),
            QuantizedTileReader::I64(t) => t.shape(),
        }
    }

    fn read(&self, data: &[u8]) -> (r: Result<Vec<QuantizedSample>, TileError>) {
        match self {
            QuantizedTileReader::U8(t) => t.read(data),
            QuantizedTileReader::I16(t) => t.read(data),
            QuantizedTileReader::I32(t) => t.read(data),
            QuantizedTileReader::I64(t) => t.read(data),
        }
    }
}

/// A tile reader for each kind of pixel. Floats come as their IEEE 754 bit
/// patterns; quantized floats as stored integers with their parameters.
pub enum TypedTileReader {
    U8(BasicTileReader<Decompressor<u8>>),
    I8(TransformedTileReader<BasicTileReader<Decompressor<u8>>, I8Transform>),
    U16(TransformedTileReader<BasicTileReader<Decompressor<i16>>, U16Transform>),
    I16(BasicTileReader<Decompressor<i16>>),
    U32(TransformedTileReader<BasicTileReader<Decompressor<i32>>, U32Transform>),
    I32(BasicTileReader<Decompressor<i32>>),
    U64(TransformedTileReader<BasicTileReader<Decompressor<i64>>, U64Transform>),
    I64(BasicTileReader<Decompressor<i64>>),
    F32(BasicTileReader<Decompressor<u32>>),
    F64(BasicTileReader<Decompressor<u64>>),
    QuantizedF32(QuantizedTileReader),
    QuantizedF64(QuantizedTileReader),
}

} // verus!
