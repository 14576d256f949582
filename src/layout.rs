use vstd::arithmetic::div_mod::lemma_fundamental_div_mod_converse;
use vstd::prelude::*;

verus! {

/// Bytes per pixel of the interleaved RGBA format used by every transform.
pub const BYTES_PER_PIXEL: u32 = 4;

/// `a` is a power of two (1, 2, 4, ...).
pub open spec fn is_pow2(a: nat) -> bool
    decreases a,
{
    if a == 1 {
        true
    } else if a == 0 || a % 2 == 1 {
        false
    } else {
        is_pow2(a / 2)
    }
}

/// Smallest `q` with `q * a >= n`.
pub open spec fn ceil_div(n: int, a: int) -> int {
    (n + a - 1) / a
}

/// Smallest multiple of `a` that is at least `n`.
pub open spec fn round_up(n: int, a: int) -> int {
    ceil_div(n, a) * a
}

/// What `round_up` is, stated through the remainder, and its defining
/// properties: a multiple of `a`, not below `n`, and less than `a` above it.
pub proof fn lemma_round_up(n: int, a: int)
    requires
        n >= 0,
        a > 0,
    ensures
        round_up(n, a) == if n % a == 0 { n } else { n - n % a + a },
        round_up(n, a) % a == 0,
        round_up(n, a) >= n,
        round_up(n, a) - a < n,
        ceil_div(n, a) >= 0,
{
    let q = n / a;
    let r = n % a;
    assert(n == q * a + r) by {
        vstd::arithmetic::div_mod::lemma_fundamental_div_mod(n, a);
        vstd::arithmetic::mul::lemma_mul_is_commutative(a, q);
    }
    assert(q >= 0) by (nonlinear_arith)
        requires n >= 0, a > 0, q == n / a;
    if r == 0 {
        lemma_fundamental_div_mod_converse(n + a - 1, a, q, a - 1);
    } else {
        assert((q + 1) * a == q * a + a) by (nonlinear_arith);
        lemma_fundamental_div_mod_converse(n + a - 1, a, q + 1, r - 1);
    }
    let c = ceil_div(n, a);
    lemma_fundamental_div_mod_converse(c * a, a, c, 0);
}

/// Tells whether `a` can serve as a copy alignment: a power of two.
pub fn is_valid_alignment(a: u32) -> (r: bool)
    ensures
        r == is_pow2(a as nat),
{
    if a == 0 {
        return false;
    }
    let mut x: u32 = a;
    while x > 1 && x % 2 == 0
        invariant
            x >= 1,
            is_pow2(x as nat) == is_pow2(a as nat),
        decreases x,
    {
        x = x / 2;
    }
    x == 1
}

/// Row stride after padding `unpadded` bytes up to the next multiple of
/// `alignment`; a stride that is already a multiple is returned unchanged.
pub fn padded_stride(unpadded: u32, alignment: u32) -> (r: u32)
    requires
        alignment > 0,
        is_pow2(alignment as nat),
        round_up(unpadded as int, alignment as int) <= u32::MAX,
    ensures
        r == round_up(unpadded as int, alignment as int),
        r % alignment == 0,
        r >= unpadded,
        r - alignment < unpadded,
{
    proof {
        lemma_round_up(unpadded as int, alignment as int);
    }
    let rem = unpadded % alignment;
    if rem == 0 {
        unpadded
    } else {
        unpadded + (alignment - rem)
    }
}

/// Unpadded and padded byte strides of one image row.
#[derive(Clone, Copy, Debug, PartialEq, Eq, Structural)]
pub struct RowLayout {
    pub unpadded: u32,
    pub padded: u32,
}

impl RowLayout {
    /// The layout holds `width` RGBA pixels per row, padded to `alignment`.
    pub open spec fn describes(self, width: nat, alignment: nat) -> bool {
        &&& self.unpadded == width * BYTES_PER_PIXEL
        &&& self.padded == round_up(self.unpadded as int, alignment as int)
    }

    /// Layout of a row of `width` RGBA pixels; `None` when a stride does not
    /// fit in 32 bits.
    pub fn for_width(width: u32, alignment: u32) -> (r: Option<RowLayout>)
        requires
            alignment > 0,
            is_pow2(alignment as nat),
        ensures
            r is Some <==> round_up(width * BYTES_PER_PIXEL, alignment as int) <= u32::MAX,
            r matches Some(l) ==> l.describes(width as nat, alignment as nat),
    {
        proof {
            lemma_round_up(width * BYTES_PER_PIXEL, alignment as int);
        }
        if width > u32::MAX / BYTES_PER_PIXEL {
            return None;
        }
        let unpadded = width * BYTES_PER_PIXEL;
        let rem = unpadded % alignment;
        if rem != 0 && unpadded > u32::MAX - (alignment - rem) {
            return None;
        }
        Some(RowLayout { unpadded, padded: padded_stride(unpadded, alignment) })
    }
}

} // verus!
