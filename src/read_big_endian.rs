//! Big-endian scalars: their byte encoding as a mathematical model, and
//! readers that decode them from a byte buffer.
use vstd::prelude::*;
use crate::error::{TileError, vec_result};

verus! {

/// 256 raised to the power `w`: the number of distinct values of `w` bytes.
pub open spec fn pow256(w: nat) -> nat
    decreases w,
{
    if w == 0 {
        1
    } else {
        256 * pow256((w - 1) as nat)
    }
}

/// The unsigned value of a big-endian byte string.
pub open spec fn be_nat(b: Seq<u8>) -> nat
    decreases b.len(),
{
    if b.len() == 0 {
        0
    } else {
        be_nat(b.drop_last()) * 256 + b.last() as nat
    }
}

/// The `w` low-order bytes of `x`, most significant first.
pub open spec fn be_bytes(x: nat, w: nat) -> Seq<u8>
    decreases w,
{
    if w == 0 {
        seq![]
    } else {
        be_bytes(x / 256, (w - 1) as nat).push((x % 256) as u8)
    }
}

/// The two's-complement reading of an unsigned value `u` of `w` bytes.
pub open spec fn signed_of(u: nat, w: nat) -> int {
    if u >= pow256(w) / 2 {
        u - pow256(w)
    } else {
        u as int
    }
}

/// The unsigned `w`-byte pattern of a signed value `v`.
pub open spec fn unsigned_of(v: int, w: nat) -> nat {
    if v < 0 {
        (v + pow256(w)) as nat
    } else {
        v as nat
    }
}

pub proof fn lemma_pow256_values()
    ensures
        pow256(1) == 0x100,
        pow256(2) == 0x1_0000,
        pow256(4) == 0x1_0000_0000,
        pow256(8) == 0x1_0000_0000_0000_0000,
{
    reveal_with_fuel(pow256, 9);
}

pub proof fn lemma_pow256_monotone(a: nat, b: nat)
    requires
        a <= b,
    ensures
        pow256(a) <= pow256(b),
        pow256(a) >= 1,
    decreases b,
{
    if b > a {
        lemma_pow256_monotone(a, (b - 1) as nat);
    } else if a > 0 {
        lemma_pow256_monotone((a - 1) as nat, (a - 1) as nat);
    }
}

pub proof fn lemma_be_nat_bound(b: Seq<u8>)
    ensures
        be_nat(b) < pow256(b.len()),
    decreases b.len(),
{
    if b.len() > 0 {
        lemma_be_nat_bound(b.drop_last());
        let p = pow256((b.len() - 1) as nat);
        assert(be_nat(b.drop_last()) * 256 + 256 <= p * 256) by (nonlinear_arith)
            requires
                be_nat(b.drop_last()) < p,
        ;
    }
}

/// Encoding a value in `w` bytes and reading those bytes back gives the value.
pub proof fn lemma_be_round_trip(x: nat, w: nat)
    requires
        x < pow256(w),
    ensures
        be_bytes(x, w).len() == w,
        be_nat(be_bytes(x, w)) == x,
    decreases w,
{
    if w > 0 {
        let p = pow256((w - 1) as nat);
        assert(x / 256 < p) by (nonlinear_arith)
            requires
                x < 256 * p,
        ;
        lemma_be_round_trip(x / 256, (w - 1) as nat);
        let b = be_bytes(x, w);
        assert(b.drop_last() =~= be_bytes(x / 256, (w - 1) as nat));
        assert(x == (x / 256) * 256 + x % 256) by (nonlinear_arith);
    }
}

/// A scalar of fixed width stored big-endian.
pub trait ReadBigEndian: Sized {
    /// The number of bytes of one value.
    spec fn width() -> nat;

    /// The value that `width()` bytes encode.
    spec fn from_be(b: Seq<u8>) -> Self;

    /// The `width()` bytes that encode a value.
    spec fn to_be(v: Self) -> Seq<u8>;

    /// The width as a machine integer.
    fn byte_width() -> (r: usize)
        ensures
            r == Self::width(),
            1 <= r <= 8,
    ;

    /// Reads the value whose encoding starts at `pos`.
    fn read_big_endian(bytes: &[u8], pos: usize) -> (r: Self)
        requires
            pos + Self::width() <= bytes@.len(),
        ensures
            r == Self::from_be(bytes@.subrange(pos as int, pos + Self::width())),
    ;

    /// Every value has an encoding of `width()` bytes that reads back as it.
    proof fn lemma_round_trip(v: Self)
        ensures
            Self::to_be(v).len() == Self::width(),
            Self::from_be(Self::to_be(v)) == v,
    ;
}

/// Reads the unsigned value of `w` bytes starting at `pos`.
pub fn read_be_word(bytes: &[u8], pos: usize, w: usize) -> (r: u64)
    requires
        w <= 8,
        pos + w <= bytes@.len(),
    ensures
        r as nat == be_nat(bytes@.subrange(pos as int, pos + w)),
{
    let len = bytes.len();
    let mut acc: u64 = 0;
    let mut k: usize = 0;
    proof {
        lemma_pow256_values();
    }
    while k < w
        invariant
            k <= w <= 8,
            pos + w <= bytes@.len(),
            len == bytes@.len(),
            acc as nat == be_nat(bytes@.subrange(pos as int, pos + k)),
            pow256(8) == 0x1_0000_0000_0000_0000,
        decreases w - k,
    {
        let ghost prefix = bytes@.subrange(pos as int, pos + k);
        let ghost next = bytes@.subrange(pos as int, pos + k + 1);
        proof {
            assert(next.drop_last() =~= prefix);
            lemma_be_nat_bound(prefix);
            lemma_pow256_monotone(k as nat, 7);
            assert(acc * 256 + 255 < 0x1_0000_0000_0000_0000) by (nonlinear_arith)
                requires
                    acc < pow256(k as nat),
                    pow256(k as nat) <= pow256(7),
                    pow256(8) == 256 * pow256(7),
                    pow256(8) == 0x1_0000_0000_0000_0000,
            ;
        }
        acc = acc * 256 + bytes[pos + k] as u64;
        k = k + 1;
    }
    acc
}


/// One byte.
impl ReadBigEndian for u8 {
    open spec fn width() -> nat {
        1
    }

    open spec fn from_be(b: Seq<u8>) -> u8 {
        be_nat(b) as u8
    }

    open spec fn to_be(v: u8) -> Seq<u8> {
        be_bytes(v as nat, 1)
    }

    fn byte_width() -> (r: usize) {
        1
    }

    fn read_big_endian(bytes: &[u8], pos: usize) -> (r: u8) {
        proof {
            lemma_be_nat_bound(bytes@.subrange(pos as int, pos + 1));
            lemma_pow256_values();
        }
        read_be_word(bytes, pos, 1) as u8
    }

    proof fn lemma_round_trip(v: u8) {
        lemma_pow256_values();
        lemma_be_round_trip(v as nat, 1);
    }
}

/// Two bytes, two's complement.
impl ReadBigEndian for i16 {
    open spec fn width() -> nat {
        2
    }

    open spec fn from_be(b: Seq<u8>) -> i16 {
        signed_of(be_nat(b), 2) as i16
    }

    open spec fn to_be(v: i16) -> Seq<u8> {
        be_bytes(unsigned_of(v as int, 2), 2)
    }

    fn byte_width() -> (r: usize) {
        2
    }

    fn read_big_endian(bytes: &[u8], pos: usize) -> (r: i16) {
        proof {
            lemma_be_nat_bound(bytes@.subrange(pos as int, pos + 2));
            lemma_pow256_values();
        }
        let u = read_be_word(bytes, pos, 2);
        if u >= 0x8000 {
            (u as i64 - 0x1_0000) as i16
        } else {
            u as i16
        }
    }

    proof fn lemma_round_trip(v: i16) {
        lemma_pow256_values();
        lemma_be_round_trip(unsigned_of(v as int, 2), 2);
    }
}

/// Four bytes, two's complement.
impl ReadBigEndian for i32 {
    open spec fn width() -> nat {
        4
    }

    open spec fn from_be(b: Seq<u8>) -> i32 {
        signed_of(be_nat(b), 4) as i32
    }

    open spec fn to_be(v: i32) -> Seq<u8> {
        be_bytes(unsigned_of(v as int, 4), 4)
    }

    fn byte_width() -> (r: usize) {
        4
    }

    fn read_big_endian(bytes: &[u8], pos: usize) -> (r: i32) {
        proof {
            lemma_be_nat_bound(bytes@.subrange(pos as int, pos + 4));
            lemma_pow256_values();
        }
        let u = read_be_word(bytes, pos, 4);
        if u >= 0x8000_0000 {
            (u as i64 - 0x1_0000_0000) as i32
        } else {
            u as i32
        }
    }

    proof fn lemma_round_trip(v: i32) {
        lemma_pow256_values();
        lemma_be_round_trip(unsigned_of(v as int, 4), 4);
    }
}

/// Eight bytes, two's complement.
impl ReadBigEndian for i64 {
    open spec fn width() -> nat {
        8
    }

    open spec fn from_be(b: Seq<u8>) -> i64 {
        signed_of(be_nat(b), 8) as i64
    }

    open spec fn to_be(v: i64) -> Seq<u8> {
        be_bytes(unsigned_of(v as int, 8), 8)
    }

    fn byte_width() -> (r: usize) {
        8
    }

    fn read_big_endian(bytes: &[u8], pos: usize) -> (r: i64) {
        proof {
            lemma_be_nat_bound(bytes@.subrange(pos as int, pos + 8));
            lemma_pow256_values();
        }
        let u = read_be_word(bytes, pos, 8);
        if u >= 0x8000_0000_0000_0000 {
            ((u - 0x8000_0000_0000_0000) as i64) + i64::MIN
        } else {
            u as i64
        }
    }

    proof fn lemma_round_trip(v: i64) {
        lemma_pow256_values();
        lemma_be_round_trip(unsigned_of(v as int, 8), 8);
    }
}

/// Four bytes, unsigned; also the bit pattern of a single-precision float.
impl ReadBigEndian for u32 {
    open spec fn width() -> nat {
        4
    }

    open spec fn from_be(b: Seq<u8>) -> u32 {
        be_nat(b) as u32
    }

    open spec fn to_be(v: u32) -> Seq<u8> {
        be_bytes(v as nat, 4)
    }

    fn byte_width() -> (r: usize) {
        4
    }

    fn read_big_endian(bytes: &[u8], pos: usize) -> (r: u32) {
        proof {
            lemma_be_nat_bound(bytes@.subrange(pos as int, pos + 4));
            lemma_pow256_values();
        }
        read_be_word(bytes, pos, 4) as u32
    }

    proof fn lemma_round_trip(v: u32) {
        lemma_pow256_values();
        lemma_be_round_trip(v as nat, 4);
    }
}

/// Eight bytes, unsigned; also the bit pattern of a double-precision float.
impl ReadBigEndian for u64 {
    open spec fn width() -> nat {
        8
    }

    open spec fn from_be(b: Seq<u8>) -> u64 {
        be_nat(b) as u64
    }

    open spec fn to_be(v: u64) -> Seq<u8> {
        be_bytes(v as nat, 8)
    }

    fn byte_width() -> (r: usize) {
        8
    }

    fn read_big_endian(bytes: &[u8], pos: usize) -> (r: u64) {
        proof {
            lemma_be_nat_bound(bytes@.subrange(pos as int, pos + 8));
            lemma_pow256_values();
        }
        read_be_word(bytes, pos, 8) as u64
    }

    proof fn lemma_round_trip(v: u64) {
        lemma_pow256_values();
        lemma_be_round_trip(v as nat, 8);
    }
}


/// The `n` values read one after another from the start of `bytes`.
pub open spec fn decode_seq<T: ReadBigEndian>(bytes: Seq<u8>, n: nat) -> Seq<T> {
    Seq::new(n, |i: int| T::from_be(bytes.subrange(i * T::width(), i * T::width() + T::width())))
}

/// The encodings of `vals`, one after another.
pub open spec fn encode_seq<T: ReadBigEndian>(vals: Seq<T>) -> Seq<u8>
    decreases vals.len(),
{
    if vals.len() == 0 {
        seq![]
    } else {
        encode_seq(vals.drop_last()) + T::to_be(vals.last())
    }
}

/// Element `i` of `vals` is encoded at bytes `i * width` up to `(i + 1) * width`.
pub proof fn lemma_encode_seq_layout<T: ReadBigEndian>(vals: Seq<T>)
    ensures
        encode_seq(vals).len() == vals.len() * T::width(),
        forall|i: int|
            0 <= i < vals.len() ==> #[trigger] encode_seq(vals).subrange(
                i * T::width(),
                i * T::width() + T::width(),
            ) == T::to_be(vals[i]),
    decreases vals.len(),
{
    if vals.len() > 0 {
        let w = T::width();
        let m = (vals.len() - 1) as int;
        let front = vals.drop_last();
        lemma_encode_seq_layout(front);
        T::lemma_round_trip(vals.last());
        let e = encode_seq(vals);
        assert(e.len() == vals.len() * w) by (nonlinear_arith)
            requires
                e.len() == m * w + w,
                vals.len() == m + 1,
        ;
        assert forall|i: int| 0 <= i < vals.len() implies #[trigger] e.subrange(
            i * w,
            i * w + w,
        ) == T::to_be(vals[i]) by {
            if i < m {
                assert(i * w + w <= m * w) by (nonlinear_arith)
                    requires
                        i < m,
                ;
                assert(0 <= i * w) by (nonlinear_arith)
                    requires
                        0 <= i,
                ;
                assert(e.subrange(i * w, i * w + w) =~= encode_seq(front).subrange(i * w, i * w + w));
                assert(front[i] == vals[i]);
            } else {
                assert(e.subrange(i * w, i * w + w) =~= T::to_be(vals.last()));
            }
        }
    }
}

/// Encoding values and decoding as many gives the values back.
pub proof fn lemma_decode_encode<T: ReadBigEndian>(vals: Seq<T>)
    ensures
        encode_seq(vals).len() == vals.len() * T::width(),
        decode_seq::<T>(encode_seq(vals), vals.len()) == vals,
{
    lemma_encode_seq_layout(vals);
    assert forall|i: int| 0 <= i < vals.len() implies #[trigger] decode_seq::<T>(
        encode_seq(vals),
        vals.len(),
    )[i] == vals[i] by {
        T::lemma_round_trip(vals[i]);
    }
    assert(decode_seq::<T>(encode_seq(vals), vals.len()) =~= vals);
}

/// What reading `n` values from `bytes` gives: the values, or `Truncated`
/// where `bytes` is too short for them.
pub open spec fn scalars_read<T: ReadBigEndian>(bytes: Seq<u8>, n: nat) -> Result<Seq<T>, TileError> {
    if n * T::width() <= bytes.len() {
        Ok(decode_seq::<T>(bytes, n))
    } else {
        Err(TileError::Truncated)
    }
}

/// Reads `n` values one after another from the start of `bytes`; bytes after
/// them are not read.
pub fn read_scalars<T: ReadBigEndian>(bytes: &[u8], n: usize) -> (r: Result<Vec<T>, TileError>)
    ensures
        vec_result(r) == scalars_read::<T>(bytes@, n as nat),
{
    let w = T::byte_width();
    let len = bytes.len();
    if n > len / w {
        proof {
            vstd::arithmetic::div_mod::lemma_fundamental_div_mod(len as int, w as int);
            assert(n * w > len) by (nonlinear_arith)
                requires
                    n >= len / w + 1,
                    len == w * (len / w) + len % w,
                    len % w < w,
            ;
        }
        return Err(TileError::Truncated);
    }
    proof {
        vstd::arithmetic::div_mod::lemma_fundamental_div_mod(len as int, w as int);
        assert(n * w <= len) by (nonlinear_arith)
            requires
                n <= len / w,
                len == w * (len / w) + len % w,
                len % w >= 0,
                w >= 1,
        ;
    }
    let mut out: Vec<T> = Vec::new();
    let mut i: usize = 0;
    while i < n
        invariant
            i <= n,
            n * w <= len,
            len == bytes@.len(),
            w == T::width(),
            1 <= w <= 8,
            out@ =~= decode_seq::<T>(bytes@, n as nat).take(i as int),
        decreases n - i,
    {
        proof {
            assert(i * w + w <= n * w) by (nonlinear_arith)
                requires
                    i < n,
            ;
        }
        let v = T::read_big_endian(bytes, i * w);
        out.push(v);
        i = i + 1;
    }
    assert(out@ =~= decode_seq::<T>(bytes@, n as nat));
    Ok(out)
}

} // verus!
