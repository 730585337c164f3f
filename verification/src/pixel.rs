//! Pixel formats and the little-endian byte encoding of pixel values.

use vstd::prelude::*;
use vstd::arithmetic::div_mod::{lemma_breakdown, lemma_div_denominator};

verus! {

/// Pixel storage formats supported by the buffer core.
#[derive(Clone, Copy, PartialEq, Eq, Structural, Debug)]
pub enum PixelType {
    /// 8-bit grayscale: one byte per pixel.
    G8,
    /// 24-bit RGB: three bytes per pixel, blue in the lowest byte.
    Rgb888,
    /// 32-bit RGBA: four bytes per pixel, alpha in the highest byte.
    Rgba8888,
}

impl PixelType {
    /// Bytes of storage one pixel of this format occupies.
    pub open spec fn spec_bpp(self) -> nat {
        match self {
            PixelType::G8 => 1,
            PixelType::Rgb888 => 3,
            PixelType::Rgba8888 => 4,
        }
    }

    /// Bytes per pixel.
    pub fn bpp(&self) -> (r: u32)
        ensures
            r == self.spec_bpp(),
            1 <= r <= 4,
    {
        match self {
            PixelType::G8 => 1,
            PixelType::Rgb888 => 3,
            PixelType::Rgba8888 => 4,
        }
    }
}

/// 256 raised to `n`: the number of distinct values `n` bytes can hold.
pub open spec fn pow256(n: nat) -> int
    decreases n,
{
    if n == 0 {
        1
    } else {
        256 * pow256((n - 1) as nat)
    }
}

/// The value held by the `n` bytes of `bytes` starting at `off`, little-endian.
pub open spec fn le_decode(bytes: Seq<u8>, off: int, n: nat) -> int
    decreases n,
{
    if n == 0 {
        0
    } else {
        bytes[off] + 256 * le_decode(bytes, off + 1, (n - 1) as nat)
    }
}

/// Byte `i` of the little-endian encoding of `v`.
pub open spec fn le_byte(v: int, i: nat) -> u8 {
    (((v / pow256(i)) % 256) as u8)
}

/// `v` reduced to its lowest `n` bytes: the value actually stored for a
/// format that keeps `n` bytes per pixel.
pub open spec fn spec_masked(v: u32, n: nat) -> u32 {
    ((v as int) % pow256(n)) as u32
}

/// The pixel value encoding an RGB triplet in the given format: a pure
/// function of the format and the triplet.
pub open spec fn spec_rgb_to_pixel(pt: PixelType, r: u8, g: u8, b: u8) -> u32 {
    match pt {
        PixelType::G8 => (((r + g + b) / 3) as u32),
        PixelType::Rgb888 => ((r * 0x1_0000 + g * 0x100 + b) as u32),
        PixelType::Rgba8888 => ((0xff00_0000 + r * 0x1_0000 + g * 0x100 + b) as u32),
    }
}

pub proof fn lemma_pow256_pos(n: nat)
    ensures
        pow256(n) >= 1,
    decreases n,
{
    if n > 0 {
        lemma_pow256_pos((n - 1) as nat);
    }
}

pub proof fn lemma_pow256_vals()
    ensures
        pow256(0) == 1,
        pow256(1) == 0x100,
        pow256(2) == 0x1_0000,
        pow256(3) == 0x100_0000,
        pow256(4) == 0x1_0000_0000,
{
    assert(pow256(0) == 1);
    assert(pow256(1) == 0x100);
    assert(pow256(2) == 0x1_0000);
    assert(pow256(3) == 0x100_0000);
    assert(pow256(4) == 0x1_0000_0000);
}

pub proof fn lemma_pow256_mono(m: nat, n: nat)
    requires
        m <= n,
    ensures
        pow256(m) <= pow256(n),
    decreases n,
{
    if m < n {
        lemma_pow256_mono(m, (n - 1) as nat);
        lemma_pow256_pos((n - 1) as nat);
    }
}

/// A decoded value always fits in the bytes it was read from.
pub proof fn lemma_le_decode_bound(bytes: Seq<u8>, off: int, n: nat)
    requires
        0 <= off,
        off + n <= bytes.len(),
    ensures
        0 <= le_decode(bytes, off, n) < pow256(n),
    decreases n,
{
    if n > 0 {
        lemma_le_decode_bound(bytes, off + 1, (n - 1) as nat);
    }
}

/// Decoding depends only on the bytes of the decoded range.
pub proof fn lemma_le_decode_agree(b1: Seq<u8>, b2: Seq<u8>, off: int, n: nat)
    requires
        0 <= off,
        off + n <= b1.len(),
        b1.len() == b2.len(),
        forall|k: int| off <= k < off + n ==> b2[k] == b1[k],
    ensures
        le_decode(b2, off, n) == le_decode(b1, off, n),
    decreases n,
{
    if n > 0 {
        lemma_le_decode_agree(b1, b2, off + 1, (n - 1) as nat);
    }
}

/// Decoding the encoding of `v` gives back `v` reduced to `n` bytes.
pub proof fn lemma_le_decode_encoded(b: Seq<u8>, off: int, n: nat, v: int)
    requires
        0 <= v,
        0 <= off,
        off + n <= b.len(),
        forall|k: int| off <= k < off + n ==> b[k] == le_byte(v, (k - off) as nat),
    ensures
        le_decode(b, off, n) == v % pow256(n),
    decreases n,
{
    lemma_pow256_pos(n);
    if n == 0 {
        assert(v % 1 == 0);
    } else {
        assert(b[off] == le_byte(v, (off - off) as nat));
        assert(le_byte(v, 0) == (v % 256) as u8);
        assert forall|k: int| off + 1 <= k < off + 1 + (n - 1) implies b[k] == le_byte(
            v / 256,
            (k - (off + 1)) as nat,
        ) by {
            assert(b[k] == le_byte(v, (k - off) as nat));
            let j = (k - off - 1) as nat;
            lemma_pow256_pos(j);
            lemma_div_denominator(v, 256, pow256(j));
            assert(pow256((j + 1) as nat) == 256 * pow256(j));
            assert((k - off) as nat == j + 1);
        }
        lemma_le_decode_encoded(b, off + 1, (n - 1) as nat, v / 256);
        lemma_pow256_pos((n - 1) as nat);
        lemma_breakdown(v, 256, pow256((n - 1) as nat));
        assert(pow256(n) == 256 * pow256((n - 1) as nat));
    }
}

/// A range of zero bytes decodes to the zero pixel value.
pub proof fn lemma_le_decode_zero(b: Seq<u8>, off: int, n: nat)
    requires
        0 <= off,
        off + n <= b.len(),
        forall|k: int| off <= k < off + n ==> b[k] == 0,
    ensures
        le_decode(b, off, n) == 0,
    decreases n,
{
    if n > 0 {
        lemma_le_decode_zero(b, off + 1, (n - 1) as nat);
    }
}

/// A value its format can hold is unchanged by the masking a store performs.
pub proof fn lemma_masked_identity(v: u32, n: nat)
    requires
        v < pow256(n),
    ensures
        spec_masked(v, n) == v,
{
    lemma_pow256_pos(n);
    vstd::arithmetic::div_mod::lemma_small_mod(v as nat, pow256(n) as nat);
}

/// Every value `rgb_to_pixel` yields fits its own format: a fill with it
/// stores it without loss.
pub proof fn lemma_rgb_pixel_fits(pt: PixelType, r: u8, g: u8, b: u8)
    ensures
        spec_rgb_to_pixel(pt, r, g, b) < pow256(pt.spec_bpp()),
{
    lemma_pow256_vals();
}

/// Reads the `bpp` bytes at `off` as one little-endian pixel value.
pub(crate) fn read_cell(bytes: &Vec<u8>, off: usize, bpp: u32) -> (r: u32)
    requires
        1 <= bpp <= 4,
        off + bpp <= bytes@.len(),
    ensures
        r == le_decode(bytes@, off as int, bpp as nat),
{
    proof {
        lemma_pow256_vals();
    }
    let n = bytes.len();
    let mut acc: u32 = 0;
    let mut k: u32 = bpp;
    while k > 0
        invariant
            k <= bpp,
            1 <= bpp <= 4,
            n == bytes@.len(),
            off + bpp <= bytes@.len(),
            acc == le_decode(bytes@, off as int + k as int, (bpp - k) as nat),
            acc < pow256((bpp - k) as nat),
        decreases k,
    {
        k = k - 1;
        proof {
            lemma_pow256_mono((bpp - k - 1) as nat, 3);
            lemma_pow256_vals();
            lemma_le_decode_bound(bytes@, off as int + k as int, (bpp - k) as nat);
        }
        let b: u8 = bytes[off + k as usize];
        acc = acc * 256 + b as u32;
    }
    acc
}

/// Writes `v` little-endian into the `bpp` bytes at `off`; bytes outside
/// that range are untouched.
pub(crate) fn write_cell(bytes: &mut Vec<u8>, off: usize, bpp: u32, v: u32)
    requires
        1 <= bpp <= 4,
        off + bpp <= old(bytes)@.len(),
    ensures
        final(bytes)@.len() == old(bytes)@.len(),
        forall|i: int|
            0 <= i < old(bytes)@.len() && !(off <= i < off + bpp) ==> final(bytes)@[i] == old(bytes)@[i],
        forall|i: int|
            off <= i < off + bpp ==> final(bytes)@[i] == le_byte(v as int, (i - off) as nat),
{
    let n = bytes.len();
    let mut cur: u32 = v;
    let mut k: u32 = 0;
    while k < bpp
        invariant
            k <= bpp,
            1 <= bpp <= 4,
            n == bytes@.len(),
            off + bpp <= bytes@.len(),
            bytes@.len() == old(bytes)@.len(),
            cur == (v as int) / pow256(k as nat),
            forall|i: int|
                0 <= i < old(bytes)@.len() && !(off <= i < off + k) ==> bytes@[i] == old(bytes)@[i],
            forall|i: int| off <= i < off + k ==> bytes@[i] == le_byte(v as int, (i - off) as nat),
        decreases bpp - k,
    {
        let b: u8 = (cur % 256) as u8;
        proof {
            lemma_pow256_pos(k as nat);
            lemma_div_denominator(v as int, pow256(k as nat), 256);
            assert(pow256((k + 1) as nat) == 256 * pow256(k as nat));
        }
        vstd::std_specs::core::index_set(bytes, off + k as usize, b);
        cur = cur / 256;
        k = k + 1;
    }
}

} // verus!
