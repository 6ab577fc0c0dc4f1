//! The byte-plane transpose that GZIP_2 applies before compression.
//!
//! A buffer of `n` elements of `w` bytes is stored as `w` planes of `n` bytes:
//! plane `k` holds byte `k` of every element, in element order.
use vstd::prelude::*;
use crate::error::{TileError, vec_result};
use crate::read_big_endian::ReadBigEndian;
use crate::read_big_endian::decode_seq;

verus! {

/// The planes of `data` (elements of `w` bytes, one after another).
pub open spec fn shuffled(data: Seq<u8>, w: nat) -> Seq<u8> {
    let n = (data.len() / w) as int;
    Seq::new(data.len(), |j: int| data[(j % n) * (w as int) + j / n])
}

/// The elements of `planes` (`w` planes of equal length), one after another.
pub open spec fn unshuffled(planes: Seq<u8>, w: nat) -> Seq<u8> {
    let n = (planes.len() / w) as int;
    Seq::new(planes.len(), |j: int| planes[(j % (w as int)) * n + j / (w as int)])
}

/// Index arithmetic of a grid of `rows` rows of `cols` entries.
proof fn lemma_grid_index(r: int, c: int, rows: int, cols: int)
    requires
        0 <= r < rows,
        0 <= c < cols,
    ensures
        (r * cols + c) % cols == c,
        (r * cols + c) / cols == r,
        0 <= r * cols + c < rows * cols,
{
    vstd::arithmetic::div_mod::lemma_fundamental_div_mod_converse(r * cols + c, cols, r, c);
    assert(r * cols + cols <= rows * cols) by (nonlinear_arith)
        requires
            r + 1 <= rows,
            cols >= 0,
    ;
    assert(0 <= r * cols) by (nonlinear_arith)
        requires
            0 <= r,
            0 <= cols,
    ;
}

/// An index below `rows * cols` splits into a row and a column.
proof fn lemma_grid_split(j: int, rows: int, cols: int)
    requires
        0 <= j < rows * cols,
        cols > 0,
    ensures
        0 <= j / cols < rows,
        0 <= j % cols < cols,
        j == (j / cols) * cols + j % cols,
{
    vstd::arithmetic::div_mod::lemma_fundamental_div_mod(j, cols);
    vstd::arithmetic::div_mod::lemma_div_pos_is_pos(j, cols);
    vstd::arithmetic::div_mod::lemma_mod_pos_bound(j, cols);
    let (q, m) = (j / cols, j % cols);
    assert(j == q * cols + m) by (nonlinear_arith)
        requires
            j == cols * q + m,
    ;
    assert(q < rows) by (nonlinear_arith)
        requires
            j == q * cols + m,
            m >= 0,
            j < rows * cols,
            cols > 0,
    ;
}

/// Splitting into planes and joining the planes again gives back the buffer,
/// and so does joining first and splitting after: the transpose is a bijection
/// on buffers whose length is a multiple of the width.
pub proof fn lemma_shuffle_bijection(data: Seq<u8>, w: nat)
    requires
        w == 1 || w == 2 || w == 4 || w == 8,
        data.len() % w == 0,
    ensures
        unshuffled(shuffled(data, w), w) == data,
        shuffled(unshuffled(data, w), w) == data,
{
    let n = data.len() / w;
    vstd::arithmetic::div_mod::lemma_fundamental_div_mod(data.len() as int, w as int);
    assert(data.len() == n * w);
    let s = shuffled(data, w);
    let u = unshuffled(data, w);
    if n > 0 {
        assert(s.len() / w == n) by {
            vstd::arithmetic::div_mod::lemma_div_by_multiple(n as int, w as int);
        }
        assert(u.len() / w == n);
        assert forall|j: int| 0 <= j < data.len() implies #[trigger] unshuffled(s, w)[j] == data[j] by {
            lemma_grid_split(j, n as int, w as int);
            let (a, k) = (j / (w as int), j % (w as int));
            lemma_grid_index(k, a, w as int, n as int);
            assert(k * n + a < n * w) by (nonlinear_arith)
                requires
                    k * n + a < w * n,
            ;
        }
        assert forall|j: int| 0 <= j < data.len() implies #[trigger] shuffled(u, w)[j] == data[j] by {
            assert(j < n * w);
            assert(j < w * n) by (nonlinear_arith)
                requires
                    j < n * w,
            ;
            lemma_grid_split(j, w as int, n as int);
            let (k, a) = (j / (n as int), j % (n as int));
            lemma_grid_index(a, k, n as int, w as int);
        }
    }
    assert(unshuffled(s, w) =~= data);
    assert(shuffled(u, w) =~= data);
}

/// Reassembles `n` elements from the byte planes of an inflated GZIP_2 payload.
pub fn unshuffle<T: ReadBigEndian>(data: &[u8], n: usize) -> (r: Result<Vec<T>, TileError>)
    ensures
        vec_result(r) == (if data@.len() == n * T::width() {
            Ok(decode_seq::<T>(unshuffled(data@, T::width()), n as nat))
        } else {
            Err(TileError::PlaneLength)
        }),
{
    let w = T::byte_width();
    let len = data.len();
    if len / w != n || len % w != 0 {
        proof {
            vstd::arithmetic::div_mod::lemma_fundamental_div_mod(len as int, w as int);
            if data@.len() == n * T::width() {
                vstd::arithmetic::div_mod::lemma_div_by_multiple(n as int, w as int);
                vstd::arithmetic::div_mod::lemma_mod_multiples_basic(n as int, w as int);
            }
        }
        return Err(TileError::PlaneLength);
    }
    proof {
        vstd::arithmetic::div_mod::lemma_fundamental_div_mod(len as int, w as int);
        assert(len == n * w) by (nonlinear_arith)
            requires
                len == w * (len / w) + len % w,
                len / w == n,
                len % w == 0,
        ;
    }
    let ghost planes = unshuffled(data@, w as nat);
    let mut out: Vec<T> = Vec::new();
    let mut i: usize = 0;
    while i < n
        invariant
            i <= n,
            len == data@.len(),
            len == n * w,
            w == T::width(),
            1 <= w <= 8,
            planes == unshuffled(data@, w as nat),
            out@ =~= decode_seq::<T>(planes, n as nat).take(i as int),
        decreases n - i,
    {
        proof {
            assert(i * w + w <= n * w) by (nonlinear_arith)
                requires
                    i < n,
            ;
        }
        let mut element: Vec<u8> = Vec::new();
        let mut k: usize = 0;
        while k < w
            invariant
                k <= w,
                i < n,
                len == data@.len(),
                len == n * w,
                w == T::width(),
                1 <= w <= 8,
                planes == unshuffled(data@, w as nat),
                element@ =~= planes.subrange(i * w, i * w + k),
            decreases w - k,
        {
            proof {
                lemma_grid_index(k as int, i as int, w as int, n as int);
                lemma_grid_index(i as int, k as int, n as int, w as int);
                assert(k * n + i < n * w) by (nonlinear_arith)
                    requires
                        k * n + i < w * n,
                ;
                assert(len / w == n) by {
                    vstd::arithmetic::div_mod::lemma_div_by_multiple(n as int, w as int);
                }
            }
            element.push(data[k * n + i]);
            k = k + 1;
        }
        let v = T::read_big_endian(element.as_slice(), 0);
        assert(element@.subrange(0, w as int) =~= element@);
        out.push(v);
        i = i + 1;
    }
    assert(out@ =~= decode_seq::<T>(planes, n as nat));
    Ok(out)
}

} // verus!
