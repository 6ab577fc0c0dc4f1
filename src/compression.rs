//! The three decompression stages: raw big-endian scalars, a gzip stream of
//! them, and a gzip stream of byte planes.
use vstd::prelude::*;
use std::marker::PhantomData;
use crate::error::{TileError, vec_result};
use crate::read_big_endian::{
    ReadBigEndian, decode_seq, encode_seq, lemma_decode_encode, read_scalars, scalars_read,
};
use crate::unshuffle::{lemma_shuffle_bijection, shuffled, unshuffle, unshuffled};

verus! {

/// The bytes that a gzip stream inflates to; `None` where the stream is invalid.
pub uninterp spec fn gunzip(data: Seq<u8>) -> Option<Seq<u8>>;

/// Relies on flate2::bufread::GzDecoder, read to its end: it yields the bytes
/// inflated from the gzip stream in `data`, or an error where the stream is
/// invalid or cut short.
#[verifier::external_body]
fn inflate(data: &[u8]) -> (r: Option<Vec<u8>>)
    ensures
        match r {
            Some(v) => gunzip(data@) == Some(v@),
            None => gunzip(data@) is None,
        },
{
    let mut out: Vec<u8> = Vec::new();
    match std::io::Read::read_to_end(&mut flate2::bufread::GzDecoder::new(data), &mut out) {
        Ok(_) => Some(out),
        Err(_) => None,
    }
}

/// A decompression stage producing elements of type `Original`.
pub trait Compression {
    type Original;

    /// The elements that `n` of them decode to from the payload `bytes`.
    spec fn spec_decompress(&self, bytes: Seq<u8>, n: nat) -> Result<Seq<Self::Original>, TileError>;

    /// Decodes the first `n` elements, in row-major order, from a heap payload.
    fn decompress(&self, bytes: &[u8], n: usize) -> (r: Result<Vec<Self::Original>, TileError>)
        ensures
            vec_result(r) == self.spec_decompress(bytes@, n as nat),
    ;
}

/// GZIP_1: a gzip stream of big-endian scalars.
pub struct GZip1<T> {
    m: PhantomData<T>,
}

impl<T> GZip1<T> {
    pub fn new() -> Self {
        GZip1 { m: PhantomData }
    }
}

/// What GZIP_1 decodes from a payload.
pub open spec fn gzip1_decoded<T: ReadBigEndian>(bytes: Seq<u8>, n: nat) -> Result<Seq<T>, TileError> {
    match gunzip(bytes) {
        Some(d) => scalars_read::<T>(d, n),
        None => Err(TileError::Inflate),
    }
}

impl<T: ReadBigEndian> Compression for GZip1<T> {
    type Original = T;

    open spec fn spec_decompress(&self, bytes: Seq<u8>, n: nat) -> Result<Seq<T>, TileError> {
        gzip1_decoded::<T>(bytes, n)
    }

    fn decompress(&self, bytes: &[u8], n: usize) -> (r: Result<Vec<T>, TileError>) {
        match inflate(bytes) {
            Some(d) => read_scalars::<T>(d.as_slice(), n),
            None => Err(TileError::Inflate),
        }
    }
}

/// GZIP_2: a gzip stream of byte planes.
pub struct GZip2<T> {
    m: PhantomData<T>,
}

impl<T> GZip2<T> {
    pub fn new() -> Self {
        GZip2 { m: PhantomData }
    }
}

/// What reassembling `n` elements from inflated byte planes gives.
pub open spec fn planes_decoded<T: ReadBigEndian>(planes: Seq<u8>, n: nat) -> Result<Seq<T>, TileError> {
    if planes.len() == n * T::width() {
        Ok(decode_seq::<T>(unshuffled(planes, T::width()), n))
    } else {
        Err(TileError::PlaneLength)
    }
}

/// What GZIP_2 decodes from a payload.
pub open spec fn gzip2_decoded<T: ReadBigEndian>(bytes: Seq<u8>, n: nat) -> Result<Seq<T>, TileError> {
    match gunzip(bytes) {
        Some(d) => planes_decoded::<T>(d, n),
        None => Err(TileError::Inflate),
    }
}

impl<T: ReadBigEndian> Compression for GZip2<T> {
    type Original = T;

    open spec fn spec_decompress(&self, bytes: Seq<u8>, n: nat) -> Result<Seq<T>, TileError> {
        gzip2_decoded::<T>(bytes, n)
    }

    fn decompress(&self, bytes: &[u8], n: usize) -> (r: Result<Vec<T>, TileError>) {
        match inflate(bytes) {
            Some(d) => unshuffle::<T>(d.as_slice(), n),
            None => Err(TileError::Inflate),
        }
    }
}

/// NOCOMPRESS: big-endian scalars stored as they are.
pub struct NoCompress<T> {
    m: PhantomData<T>,
}

impl<T> NoCompress<T> {
    pub fn new() -> Self {
        NoCompress { m: PhantomData }
    }
}

impl<T: ReadBigEndian> Compression for NoCompress<T> {
    type Original = T;

    open spec fn spec_decompress(&self, bytes: Seq<u8>, n: nat) -> Result<Seq<T>, TileError> {
        scalars_read::<T>(bytes, n)
    }

    fn decompress(&self, bytes: &[u8], n: usize) -> (r: Result<Vec<T>, TileError>) {
        read_scalars::<T>(bytes, n)
    }
}


/// NOCOMPRESS decodes the big-endian encoding of any sequence of scalars
/// back to that sequence.
pub proof fn lemma_nocompress_round_trip<T: ReadBigEndian>(c: NoCompress<T>, vals: Seq<T>)
    ensures
        c.spec_decompress(encode_seq(vals), vals.len()) == Ok::<Seq<T>, TileError>(vals),
{
    lemma_decode_encode(vals);
    assert(vals.len() * T::width() <= encode_seq(vals).len());
}

/// Splitting the encoding of any sequence of scalars into byte planes and
/// reassembling elements from those planes gives back the sequence.
pub proof fn lemma_planes_round_trip<T: ReadBigEndian>(vals: Seq<T>)
    requires
        T::width() == 1 || T::width() == 2 || T::width() == 4 || T::width() == 8,
    ensures
        planes_decoded::<T>(shuffled(encode_seq(vals), T::width()), vals.len()) == Ok::<Seq<T>, TileError>(vals),
{
    let e = encode_seq(vals);
    lemma_decode_encode(vals);
    vstd::arithmetic::div_mod::lemma_mod_multiples_basic(vals.len() as int, T::width() as int);
    lemma_shuffle_bijection(e, T::width());
}

} // verus!
