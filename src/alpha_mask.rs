//! Bit-packed opacity masks built from RGBA8 pixel buffers.
//!
//! Pixel `p` (row-major) owns bit `7 - p % 8` of byte `p / 8`: bits are
//! packed most significant first. A bit is set when the pixel's alpha
//! byte is non-zero.
use vstd::prelude::*;

verus! {

/// Number of bytes a mask over `n` pixels occupies.
pub open spec fn mask_len(n: int) -> int {
    (n + 7) / 8
}

/// Whether bit `k` (counted from the most significant end) of `byte` is set.
pub open spec fn bit_at(byte: u8, k: u8) -> bool {
    byte & (0x80u8 >> k) != 0
}

/// The mask bit of pixel `p`.
pub open spec fn mask_bit(mask: Seq<u8>, p: int) -> bool {
    bit_at(mask[p / 8], (p % 8) as u8)
}

/// Whether pixel `p` of an RGBA8 buffer has a non-zero alpha channel.
pub open spec fn pixel_opaque(rgba: Seq<u8>, p: int) -> bool {
    rgba[4 * p + 3] > 0
}

/// Byte `b` of the mask over the first `n` pixels of `rgba`, with only its
/// first `k` bits filled in; pixels at or past `n` leave their bit clear.
pub open spec fn partial_byte(rgba: Seq<u8>, n: int, b: int, k: nat) -> u8
    decreases k,
{
    if k == 0 {
        0u8
    } else {
        let prev = partial_byte(rgba, n, b, (k - 1) as nat);
        let p = 8 * b + (k - 1);
        if p < n && pixel_opaque(rgba, p) {
            prev | (0x80u8 >> ((k - 1) as u8))
        } else {
            prev
        }
    }
}

/// The mask of the first `n` pixels of `rgba`.
pub open spec fn mask_of(rgba: Seq<u8>, n: int) -> Seq<u8> {
    Seq::new(mask_len(n) as nat, |b: int| partial_byte(rgba, n, b, 8))
}

proof fn lemma_set_bit(acc: u8, k: u8, j: u8)
    requires
        k < 8,
        j < 8,
    ensures
        bit_at(acc | (0x80u8 >> k), j) == (j == k || bit_at(acc, j)),
{
    assert(((acc | (0x80u8 >> k)) & (0x80u8 >> j) != 0) == (j == k || acc & (0x80u8 >> j) != 0))
        by (bit_vector)
        requires
            k < 8,
            j < 8,
    ;
}

proof fn lemma_zero_bits(j: u8)
    requires
        j < 8,
    ensures
        !bit_at(0u8, j),
{
    assert(0u8 & (0x80u8 >> j) == 0) by (bit_vector);
}

/// The bits of a partially built byte are exactly the opaque in-range pixels
/// among its first `k` slots.
proof fn lemma_partial_byte_bits(rgba: Seq<u8>, n: int, b: int, k: nat, j: u8)
    requires
        k <= 8,
        j < 8,
    ensures
        bit_at(partial_byte(rgba, n, b, k), j) == ((j as int) < k && 8 * b + j < n
            && pixel_opaque(rgba, 8 * b + j)),
    decreases k,
{
    if k == 0 {
        lemma_zero_bits(j);
    } else {
        let prev = partial_byte(rgba, n, b, (k - 1) as nat);
        lemma_partial_byte_bits(rgba, n, b, (k - 1) as nat, j);
        let p = 8 * b + (k - 1);
        if p < n && pixel_opaque(rgba, p) {
            lemma_set_bit(prev, (k - 1) as u8, j);
        }
    }
}

/// Every pixel's mask bit is set exactly when its alpha is non-zero.
pub proof fn lemma_mask_bit_matches_alpha(rgba: Seq<u8>, n: int, p: int)
    requires
        0 <= p < n,
    ensures
        mask_bit(mask_of(rgba, n), p) == pixel_opaque(rgba, p),
{
    let b = p / 8;
    let j = (p % 8) as u8;
    assert(0 <= b < mask_len(n));
    lemma_partial_byte_bits(rgba, n, b, 8, j);
    assert(8 * b + j == p);
}

/// Builds the alpha mask of a `width` x `height` RGBA8 image.
pub fn generate_mask(width: u16, height: u16, pixels: &Vec<u8>) -> (mask: Vec<u8>)
    requires
        pixels@.len() == 4 * (width as int * height as int),
    ensures
        mask@ == mask_of(pixels@, width as int * height as int),
{
    let ghost rgba = pixels@;
    assert(4 * (width as int) * (height as int) == 4 * ((width as int) * (height as int)))
        by (nonlinear_arith);
    let len: usize = pixels.len();
    assert(0 <= (width as int) * (height as int)) by (nonlinear_arith);
    let n: usize = width as usize * height as usize;
    let nbytes: usize = n / 8 + if n % 8 == 0 { 0 } else { 1 };
    assert(nbytes == mask_len(n as int));
    let mut mask: Vec<u8> = Vec::new();
    let mut b: usize = 0;
    while b < nbytes
        invariant
            rgba == pixels@,
            rgba.len() == 4 * n,
            4 * n <= usize::MAX,
            n == width as int * height as int,
            nbytes == mask_len(n as int),
            b <= nbytes,
            mask@.len() == b,
            forall|i: int| 0 <= i < b ==> mask@[i] == #[trigger] partial_byte(rgba, n as int, i, 8),
        decreases nbytes - b,
    {
        let mut acc: u8 = 0;
        let mut k: usize = 0;
        while k < 8
            invariant
                rgba == pixels@,
                rgba.len() == 4 * n,
                4 * n <= usize::MAX,
                b < nbytes,
                nbytes == mask_len(n as int),
                k <= 8,
                acc == partial_byte(rgba, n as int, b as int, k as nat),
            decreases 8 - k,
        {
            let p: usize = 8 * b + k;
            if p < n && pixels[4 * p + 3] > 0 {
                acc = acc | (0x80u8 >> (k as u8));
            }
            k = k + 1;
        }
        mask.push(acc);
        b = b + 1;
    }
    assert(mask@ =~= mask_of(rgba, n as int));
    mask
}

/// Reads the mask bit of pixel `p`.
pub fn mask_bit_at(mask: &Vec<u8>, p: u64) -> (r: bool)
    requires
        p / 8 < mask@.len(),
    ensures
        r == mask_bit(mask@, p as int),
{
    let len: usize = mask.len();
    let byte = mask[(p / 8) as usize];
    let k: u8 = (p % 8) as u8;
    byte & (0x80u8 >> k) != 0
}

} // verus!
