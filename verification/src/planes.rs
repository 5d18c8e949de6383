//! Image planes stored row by row with a stride: gathering their rows into
//! a packed buffer.
use vstd::prelude::*;

verus! {

/// The first `rows` rows of `rb` bytes each, taken `stride` bytes apart from
/// the start of `src`, joined.
pub open spec fn packed_rows(src: Seq<u8>, stride: int, rb: int, rows: int) -> Seq<u8>
    decreases rows,
{
    if rows <= 0 {
        Seq::empty()
    } else {
        packed_rows(src, stride, rb, rows - 1) + src.subrange(
            (rows - 1) * stride,
            (rows - 1) * stride + rb,
        )
    }
}

/// Every row lies inside a plane of `len` bytes.
pub open spec fn rows_fit(len: int, stride: int, rb: int, rows: int) -> bool {
    rows <= 0 || (rows - 1) * stride + rb <= len
}

/// `part` written over `s` from `off` on.
pub open spec fn splice(s: Seq<u8>, off: int, part: Seq<u8>) -> Seq<u8> {
    s.take(off) + part + s.skip(off + part.len())
}

pub proof fn lemma_packed_rows_len(src: Seq<u8>, stride: int, rb: int, rows: int)
    requires
        0 <= rb,
        0 <= stride,
        rows_fit(src.len() as int, stride, rb, rows),
    ensures
        packed_rows(src, stride, rb, rows).len() == if rows <= 0 {
            0
        } else {
            rows * rb
        },
    decreases rows,
{
    if rows > 0 {
        assert((rows - 1) * stride >= 0) by (nonlinear_arith)
            requires
                rows >= 1,
                stride >= 0,
        ;
        if rows > 1 {
            assert((rows - 2) * stride + rb <= (rows - 1) * stride + rb) by (nonlinear_arith)
                requires
                    0 <= stride,
                    rows > 1,
            ;
        }
        lemma_packed_rows_len(src, stride, rb, rows - 1);
        assert((rows - 1) * rb + rb == rows * rb) by (nonlinear_arith);
    }
}

/// Byte `j` of row `r` of the packed rows is byte `j` of that row in the plane.
pub proof fn lemma_packed_rows_index(src: Seq<u8>, stride: int, rb: int, rows: int, r: int, j: int)
    requires
        0 <= rb,
        0 <= stride,
        rows_fit(src.len() as int, stride, rb, rows),
        0 <= r < rows,
        0 <= j < rb,
    ensures
        0 <= r * stride + j < src.len(),
        0 <= r * rb + j < packed_rows(src, stride, rb, rows).len(),
        packed_rows(src, stride, rb, rows)[r * rb + j] == src[r * stride + j],
    decreases rows,
{
    lemma_packed_rows_len(src, stride, rb, rows);
    assert(0 <= r * stride && r * stride <= (rows - 1) * stride) by (nonlinear_arith)
        requires
            0 <= r < rows,
            0 <= stride,
    ;
    assert(0 <= r * rb && r * rb + rb <= rows * rb) by (nonlinear_arith)
        requires
            0 <= r < rows,
            0 <= rb,
    ;
    assert((r + 1) * rb == r * rb + rb) by (nonlinear_arith);
    if r < rows - 1 {
        assert((rows - 2) * stride + rb <= (rows - 1) * stride + rb) by (nonlinear_arith)
            requires
                0 <= stride,
                rows > 1,
        ;
        lemma_packed_rows_index(src, stride, rb, rows - 1, r, j);
        lemma_packed_rows_len(src, stride, rb, rows - 1);
        assert(packed_rows(src, stride, rb, rows) == packed_rows(src, stride, rb, rows - 1)
            + src.subrange((rows - 1) * stride, (rows - 1) * stride + rb));
        assert((rows - 1) * rb == r * rb + rb + (rows - 1 - (r + 1)) * rb) by (nonlinear_arith);
        assert((rows - 1 - (r + 1)) * rb >= 0) by (nonlinear_arith)
            requires
                r < rows - 1,
                0 <= rb,
        ;
    } else {
        if rows > 1 {
            assert((rows - 2) * stride + rb <= (rows - 1) * stride + rb) by (nonlinear_arith)
                requires
                    0 <= stride,
                    rows > 1,
            ;
            lemma_packed_rows_len(src, stride, rb, rows - 1);
            assert((rows - 1) * rb == r * rb);
        } else {
            assert(r * rb == 0) by (nonlinear_arith)
                requires
                    r == 0,
            ;
            assert(r * stride == 0) by (nonlinear_arith)
                requires
                    r == 0,
            ;
        }
        assert(packed_rows(src, stride, rb, rows) == packed_rows(src, stride, rb, rows - 1)
            + src.subrange((rows - 1) * stride, (rows - 1) * stride + rb));
        assert(packed_rows(src, stride, rb, rows - 1).len() == r * rb);
    }
}

/// Rows that follow each other with no gap are a plain prefix of the plane.
pub proof fn lemma_packed_rows_contiguous(src: Seq<u8>, rb: int, rows: int)
    requires
        0 <= rb,
        0 <= rows,
        rows * rb <= src.len(),
    ensures
        packed_rows(src, rb, rb, rows) == src.subrange(0, rows * rb),
    decreases rows,
{
    if rows > 0 {
        assert((rows - 1) * rb + rb == rows * rb) by (nonlinear_arith);
        assert(0 <= (rows - 1) * rb <= rows * rb) by (nonlinear_arith)
            requires
                0 <= rb,
                rows >= 1,
        ;
        lemma_packed_rows_contiguous(src, rb, rows - 1);
        assert(packed_rows(src, rb, rb, rows) == packed_rows(src, rb, rb, rows - 1) + src.subrange(
            (rows - 1) * rb,
            (rows - 1) * rb + rb,
        ));
        assert(src.subrange(0, (rows - 1) * rb) + src.subrange((rows - 1) * rb, rows * rb)
            =~= src.subrange(0, rows * rb));
    } else {
        assert(rows * rb == 0) by (nonlinear_arith)
            requires
                rows == 0,
        ;
        assert(src.subrange(0, rows * rb) =~= Seq::<u8>::empty());
    }
}

/// Appends the rows of a strided plane to `out`.
pub fn append_rows(out: &mut Vec<u8>, src: &[u8], stride: usize, rb: usize, rows: usize)
    requires
        rows_fit(src@.len() as int, stride as int, rb as int, rows as int),
    ensures
        final(out)@ == old(out)@ + packed_rows(src@, stride as int, rb as int, rows as int),
{
    let n = src.len();
    let mut row: usize = 0;
    while row < rows
        invariant
            n == src@.len(),
            row <= rows,
            rows_fit(src@.len() as int, stride as int, rb as int, rows as int),
            out@ == old(out)@ + packed_rows(src@, stride as int, rb as int, row as int),
        decreases rows - row,
    {
        assert(row * stride + rb <= (rows - 1) * stride + rb) by (nonlinear_arith)
            requires
                row < rows,
        ;
        let off = row * stride;
        let ghost before = out@;
        out.extend_from_slice(&src[off..off + rb]);
        row = row + 1;
        assert(out@ =~= old(out)@ + packed_rows(src@, stride as int, rb as int, row as int));
    }
}

/// Copies `part` into `dst` from `off` on.
pub fn write_at(dst: &mut [u8], off: usize, part: &[u8])
    requires
        off + part@.len() <= old(dst)@.len(),
    ensures
        final(dst)@ == splice(old(dst)@, off as int, part@),
{
    let n = dst.len();
    let mut i: usize = 0;
    while i < part.len()
        invariant
            n == old(dst)@.len(),
            off + part@.len() <= old(dst)@.len(),
            dst@.len() == old(dst)@.len(),
            i <= part@.len(),
            dst@ == old(dst)@.take(off as int) + part@.take(i as int) + old(dst)@.skip(off + i),
        decreases part.len() - i,
    {
        let ghost before = dst@;
        dst[off + i] = part[i];
        i = i + 1;
        assert(dst@ =~= old(dst)@.take(off as int) + part@.take(i as int) + old(dst)@.skip(off + i));
    }
    assert(part@.take(i as int) =~= part@);
}

} // verus!
