use crate::error::PipelineError;
use vstd::prelude::*;

verus! {

/// The tightly packed rows of `src`: the first `unpadded` bytes of each of
/// the first `rows` rows laid `padded` bytes apart.
pub open spec fn unpacked(src: Seq<u8>, unpadded: nat, padded: nat, rows: nat) -> Seq<u8>
    decreases rows,
{
    if rows == 0 {
        seq![]
    } else {
        let start = (rows - 1) * padded;
        unpacked(src, unpadded, padded, (rows - 1) as nat) + src.subrange(start, start + unpadded)
    }
}

/// The first `rows` rows of the packed buffer `src`, each `unpadded` bytes
/// long, laid `padded` bytes apart with zero bytes between them.
pub open spec fn padded_rows(src: Seq<u8>, unpadded: nat, padded: nat, rows: nat) -> Seq<u8>
    decreases rows,
{
    if rows == 0 {
        seq![]
    } else {
        let start = (rows - 1) * unpadded;
        padded_rows(src, unpadded, padded, (rows - 1) as nat) + src.subrange(
            start,
            start + unpadded,
        ) + Seq::new((padded - unpadded) as nat, |i: int| 0u8)
    }
}

/// Copies the first `unpadded` bytes of each of `height` rows laid `padded`
/// bytes apart in `padded_data` into a new, tightly packed buffer. Fails with
/// `TruncatedReadback`, and returns nothing, when `padded_data` is shorter
/// than `padded * height` bytes.
pub fn unpack_rows(padded_data: &[u8], unpadded: usize, padded: usize, height: usize) -> (r: Result<
    Vec<u8>,
    PipelineError,
>)
    requires
        unpadded <= padded,
    ensures
        r is Ok <==> padded_data@.len() >= padded * height,
        r matches Ok(v) ==> v@ == unpacked(padded_data@, unpadded as nat, padded as nat, height as nat)
            && v@.len() == unpadded * height,
        r matches Err(e) ==> e == PipelineError::TruncatedReadback,
{
    let len = padded_data.len();
    let total = match padded.checked_mul(height) {
        Some(t) => t,
        None => {
            return Err(PipelineError::TruncatedReadback);
        },
    };
    if len < total {
        return Err(PipelineError::TruncatedReadback);
    }
    let mut out: Vec<u8> = Vec::new();
    let mut row: usize = 0;
    while row < height
        invariant
            row <= height,
            unpadded <= padded,
            total == padded * height,
            total <= padded_data@.len(),
            len == padded_data@.len(),
            out@ == unpacked(padded_data@, unpadded as nat, padded as nat, row as nat),
        decreases height - row,
    {
        assert((row + 1) * padded <= padded * height) by (nonlinear_arith)
            requires row < height;
        assert((row + 1) * padded == row * padded + padded) by (nonlinear_arith);
        let start = row * padded;
        let mut k: usize = 0;
        while k < unpadded
            invariant
                k <= unpadded,
                start + unpadded <= padded_data@.len(),
                len == padded_data@.len(),
                start == row * padded,
                out@ == unpacked(padded_data@, unpadded as nat, padded as nat, row as nat)
                    + padded_data@.subrange(start as int, start + k),
            decreases unpadded - k,
        {
            out.push(padded_data[start + k]);
            k += 1;
            assert(padded_data@.subrange(start as int, start + k) == padded_data@.subrange(
                start as int,
                start + k - 1,
            ).push(padded_data@[start + k - 1]));
        }
        row += 1;
    }
    proof {
        lemma_unpacked_len(padded_data@, unpadded as nat, padded as nat, height as nat);
    }
    Ok(out)
}

/// Lays the `height` rows of `unpadded` bytes each in `packed` out `padded`
/// bytes apart, filling the space after each row with zero bytes.
pub fn pad_rows(packed: &[u8], unpadded: usize, padded: usize, height: usize) -> (r: Vec<u8>)
    requires
        unpadded <= padded,
        packed@.len() == unpadded * height,
        padded * height <= usize::MAX,
    ensures
        r@ == padded_rows(packed@, unpadded as nat, padded as nat, height as nat),
        r@.len() == padded * height,
{
    let len = packed.len();
    let mut out: Vec<u8> = Vec::new();
    let mut row: usize = 0;
    while row < height
        invariant
            row <= height,
            unpadded <= padded,
            packed@.len() == unpadded * height,
            len == packed@.len(),
            padded * height <= usize::MAX,
            out@ == padded_rows(packed@, unpadded as nat, padded as nat, row as nat),
            out@.len() == padded * row,
        decreases height - row,
    {
        assert((row + 1) * unpadded <= unpadded * height) by (nonlinear_arith)
            requires row < height;
        assert((row + 1) * unpadded == row * unpadded + unpadded) by (nonlinear_arith);
        assert((row + 1) * padded == padded * row + padded) by (nonlinear_arith);
        assert(padded * (row + 1) == padded * row + padded) by (nonlinear_arith);
        assert((row + 1) * padded <= padded * height) by (nonlinear_arith)
            requires row < height;
        let start = row * unpadded;
        let ghost before = out@;
        let mut k: usize = 0;
        while k < unpadded
            invariant
                k <= unpadded,
                start + unpadded <= packed@.len(),
                len == packed@.len(),
                start == row * unpadded,
                out@ == before + packed@.subrange(start as int, start + k),
            decreases unpadded - k,
        {
            out.push(packed[start + k]);
            k += 1;
            assert(packed@.subrange(start as int, start + k) == packed@.subrange(
                start as int,
                start + k - 1,
            ).push(packed@[start + k - 1]));
        }
        let ghost with_row = out@;
        let mut z: usize = unpadded;
        while z < padded
            invariant
                unpadded <= z <= padded,
                out@ == with_row + Seq::new((z - unpadded) as nat, |i: int| 0u8),
            decreases padded - z,
        {
            out.push(0u8);
            z += 1;
            assert(Seq::new((z - unpadded) as nat, |i: int| 0u8) == Seq::new(
                (z - 1 - unpadded) as nat,
                |i: int| 0u8,
            ).push(0u8));
        }
        row += 1;
    }
    out
}

/// Unpacking keeps `unpadded` bytes per row.
pub proof fn lemma_unpacked_len(src: Seq<u8>, unpadded: nat, padded: nat, rows: nat)
    requires
        unpadded <= padded,
        src.len() >= padded * rows,
    ensures
        unpacked(src, unpadded, padded, rows).len() == unpadded * rows,
    decreases rows,
{
    if rows > 0 {
        let r1 = (rows - 1) as nat;
        assert(r1 * padded + padded == padded * rows) by (nonlinear_arith)
            requires r1 == rows - 1;
        assert(padded * r1 <= padded * rows) by (nonlinear_arith)
            requires r1 == rows - 1;
        lemma_unpacked_len(src, unpadded, padded, r1);
        assert(unpadded * r1 + unpadded == unpadded * rows) by (nonlinear_arith)
            requires r1 == rows - 1;
        let start = r1 * padded;
        assert(src.subrange(start as int, (start + unpadded) as int).len() == unpadded);
        assert(unpacked(src, unpadded, padded, rows) == unpacked(src, unpadded, padded, r1)
            + src.subrange(start as int, (start + unpadded) as int));
    } else {
        assert(unpadded * rows == 0) by (nonlinear_arith)
            requires rows == 0;
    }
}

/// Unpacking reads only the first `padded * rows` bytes of its source.
proof fn lemma_unpacked_prefix(
    src: Seq<u8>,
    extra: Seq<u8>,
    unpadded: nat,
    padded: nat,
    rows: nat,
)
    requires
        unpadded <= padded,
        src.len() >= padded * rows,
    ensures
        unpacked(src + extra, unpadded, padded, rows) == unpacked(src, unpadded, padded, rows),
    decreases rows,
{
    if rows > 0 {
        assert((rows - 1) * padded + padded == padded * rows) by (nonlinear_arith);
        assert(padded * (rows - 1) <= padded * rows) by (nonlinear_arith);
        lemma_unpacked_prefix(src, extra, unpadded, padded, (rows - 1) as nat);
        let start = (rows - 1) * padded;
        assert((src + extra).subrange(start, start + unpadded) == src.subrange(
            start,
            start + unpadded,
        ));
    }
}

/// Padding the rows of a buffer and unpacking them again gives back the
/// rows, for any padded stride at least the row length.
pub proof fn lemma_unpack_of_pad(src: Seq<u8>, unpadded: nat, padded: nat, rows: nat)
    requires
        unpadded <= padded,
        src.len() >= unpadded * rows,
    ensures
        padded_rows(src, unpadded, padded, rows).len() == padded * rows,
        unpacked(padded_rows(src, unpadded, padded, rows), unpadded, padded, rows)
            == src.subrange(0, (unpadded * rows) as int),
    decreases rows,
{
    if rows > 0 {
        let r1 = (rows - 1) as nat;
        assert(unpadded * r1 + unpadded == unpadded * rows) by (nonlinear_arith)
            requires r1 == rows - 1;
        assert(padded * r1 + padded == padded * rows) by (nonlinear_arith)
            requires r1 == rows - 1;
        assert(unpadded * r1 <= unpadded * rows) by (nonlinear_arith)
            requires r1 == rows - 1;
        lemma_unpack_of_pad(src, unpadded, padded, r1);
        let prev = padded_rows(src, unpadded, padded, r1);
        let row = src.subrange((r1 * unpadded) as int, (r1 * unpadded + unpadded) as int);
        let zeros = Seq::new((padded - unpadded) as nat, |i: int| 0u8);
        assert(padded_rows(src, unpadded, padded, rows) == prev + (row + zeros));
        lemma_unpacked_prefix(prev, row + zeros, unpadded, padded, r1);
        let whole = padded_rows(src, unpadded, padded, rows);
        assert(r1 * padded == padded * r1) by (nonlinear_arith);
        assert(whole.subrange((r1 * padded) as int, (r1 * padded + unpadded) as int) == row);
        assert(r1 * unpadded == unpadded * r1) by (nonlinear_arith);
        assert(src.subrange(0, (unpadded * r1) as int) + row == src.subrange(0, (unpadded * rows) as int));
    } else {
        assert(unpadded * rows == 0) by (nonlinear_arith)
            requires rows == 0;
        assert(padded * rows == 0) by (nonlinear_arith)
            requires rows == 0;
        assert(src.subrange(0, 0) =~= seq![]);
    }
}

/// With no padding between rows, unpacking copies the buffer unchanged.
pub proof fn lemma_unpack_unpadded(src: Seq<u8>, stride: nat, rows: nat)
    requires
        src.len() == stride * rows,
    ensures
        unpacked(src, stride, stride, rows) == src,
{
    lemma_unpack_unpadded_prefix(src, stride, rows);
    assert(src.subrange(0, (stride * rows) as int) == src);
}

proof fn lemma_unpack_unpadded_prefix(src: Seq<u8>, stride: nat, rows: nat)
    requires
        src.len() >= stride * rows,
    ensures
        unpacked(src, stride, stride, rows) == src.subrange(0, (stride * rows) as int),
    decreases rows,
{
    if rows > 0 {
        let r1 = (rows - 1) as nat;
        assert(stride * r1 + stride == stride * rows) by (nonlinear_arith)
            requires r1 == rows - 1;
        assert(stride * r1 <= stride * rows) by (nonlinear_arith)
            requires r1 == rows - 1;
        assert(r1 * stride == stride * r1) by (nonlinear_arith);
        lemma_unpack_unpadded_prefix(src, stride, r1);
        assert(src.subrange(0, (stride * r1) as int) + src.subrange(
            (r1 * stride) as int,
            (r1 * stride + stride) as int,
        ) == src.subrange(0, (stride * rows) as int));
    } else {
        assert(stride * rows == 0) by (nonlinear_arith)
            requires rows == 0;
        assert(src.subrange(0, 0) =~= seq![]);
    }
}

} // verus!
