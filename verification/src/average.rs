//! The average-threshold reduction: every pixel of the resampled luminance
//! grid is compared against the mean luminance of the whole grid, with a
//! strict greater-than, so a pixel exactly at the mean yields a zero bit.

use vstd::prelude::*;
use crate::fingerprint::{ImageHash, MAX_HASH_SIZE};
use crate::imageops::resize_luma;
use crate::HashError;

verus! {

/// The sum of a sequence of luminance samples.
pub open spec fn luma_sum(s: Seq<u8>) -> int
    decreases s.len(),
{
    if s.len() == 0 {
        0
    } else {
        luma_sum(s.drop_last()) + s.last()
    }
}

/// The mean luminance, by integer (floor) division. Because the samples are
/// integers and the threshold below is a strict `>`, comparing against the
/// floor of the mean decides every pixel exactly as comparing against the
/// exact rational mean would.
pub open spec fn luma_mean(s: Seq<u8>) -> int {
    luma_sum(s) / (s.len() as int)
}

/// The bit vector of an average hash: bit `c` is set iff pixel `c` is
/// strictly brighter than the mean of the grid.
pub open spec fn average_bits(pixels: Seq<u8>) -> Seq<bool> {
    Seq::new(pixels.len(), |c: int| pixels[c] > luma_mean(pixels))
}

/// The fingerprint `h` is the average hash, at size `n`, of the `n * n`
/// luminance grid `luma`.
pub open spec fn is_average_hash(h: ImageHash, luma: Seq<u8>, n: int) -> bool {
    &&& h.wf()
    &&& h.size() == n
    &&& luma.len() == n * n
    &&& h.bits() == average_bits(luma)
}

/// Some luminance grid witnesses `h` as an average hash at size `n`: all
/// that can be promised of a fingerprint whose pixel values came from the
/// external resampler.
pub open spec fn is_some_average_hash(h: ImageHash, n: int) -> bool {
    exists|luma: Seq<u8>| is_average_hash(h, luma, n)
}

/// The sum over a prefix grows by the sample that the prefix gains.
proof fn lemma_luma_sum_take_succ(s: Seq<u8>, i: int)
    requires
        0 <= i < s.len(),
    ensures
        luma_sum(s.take(i + 1)) == luma_sum(s.take(i)) + s[i],
{
    assert(s.take(i + 1).drop_last() =~= s.take(i));
    assert(s.take(i + 1).last() == s[i]);
}

/// The sum of a constant grid is its sample value times its size.
proof fn lemma_constant_sum(s: Seq<u8>, v: u8)
    requires
        forall|i: int| 0 <= i < s.len() ==> s[i] == v,
    ensures
        luma_sum(s) == v * s.len(),
    decreases s.len(),
{
    if s.len() > 0 {
        lemma_constant_sum(s.drop_last(), v);
        assert(s.last() == v);
        assert(v * (s.len() - 1) + v == v * s.len()) by (nonlinear_arith);
    }
}

/// A constant grid thresholds to all-zero bits: every pixel equals the mean,
/// and the comparison is a strict greater-than, so a solid black grid and a
/// solid white grid alike produce an average hash with no bit set.
pub proof fn lemma_constant_grid_all_zero(pixels: Seq<u8>, v: u8)
    requires
        pixels.len() > 0,
        forall|i: int| 0 <= i < pixels.len() ==> pixels[i] == v,
    ensures
        forall|c: int| 0 <= c < pixels.len() ==> !average_bits(pixels)[c],
{
    lemma_constant_sum(pixels, v);
    vstd::arithmetic::div_mod::lemma_div_by_multiple(v as int, pixels.len() as int);
    assert(luma_mean(pixels) == v);
    assert forall|c: int| 0 <= c < pixels.len() implies !average_bits(pixels)[c] by {
        assert(pixels[c] == v);
    }
}

/// The average hash of an `hash_size`-by-`hash_size` luminance grid given in
/// row-major order: bit `c` records whether pixel `c` is strictly brighter
/// than the mean luminance, and the bits are packed under the shared
/// convention.
pub fn ahash_from_luma(pixels: &Vec<u8>, hash_size: u32) -> (r: ImageHash)
    requires
        1 <= hash_size <= MAX_HASH_SIZE,
        pixels@.len() == hash_size * hash_size,
    ensures
        is_average_hash(r, pixels@, hash_size as int),
{
    proof {
        assert(1 * 1 <= hash_size * hash_size <= 65535 * 65535) by (nonlinear_arith)
            requires
                1 <= hash_size <= 65535,
        ;
    }
    let n2: usize = pixels.len();
    let mut sum: u64 = 0;
    let mut i: usize = 0;
    while i < n2
        invariant
            n2 == pixels@.len(),
            n2 <= 0xffff_ffff,
            i <= n2,
            sum <= 255 * i,
            sum == luma_sum(pixels@.take(i as int)),
        decreases n2 - i,
    {
        proof {
            lemma_luma_sum_take_succ(pixels@, i as int);
        }
        sum = sum + pixels[i] as u64;
        i += 1;
    }
    proof {
        assert(pixels@.take(n2 as int) =~= pixels@);
    }
    let mean: u64 = sum / (n2 as u64);
    let mut bits: Vec<bool> = Vec::new();
    let mut c: usize = 0;
    while c < n2
        invariant
            n2 == pixels@.len(),
            c <= n2,
            mean == luma_mean(pixels@),
            bits@.len() == c,
            forall|j: int| 0 <= j < c ==> bits@[j] == (pixels@[j] > luma_mean(pixels@)),
        decreases n2 - c,
    {
        bits.push((pixels[c] as u64) > mean);
        c += 1;
    }
    proof {
        assert(bits@ =~= average_bits(pixels@));
    }
    ImageHash::from_bits(bits, hash_size)
}

/// The average hash of an already-decoded image: the image is resampled to
/// `hash_size`-by-`hash_size` grayscale pixels with the Lanczos3 filter, and
/// each pixel is thresholded against the mean luminance of the resampled
/// grid. Fails with `InvalidArgument`, and only then, when `hash_size` is
/// zero. The resampled luminance values themselves are the image library's;
/// the thresholding and packing applied to them are pinned down exactly by
/// [`ahash_from_luma`].
pub fn ahash(img: &image::DynamicImage, hash_size: u32) -> (r: Result<ImageHash, HashError>)
    requires
        hash_size <= MAX_HASH_SIZE,
    ensures
        r is Err <==> hash_size == 0,
        r is Err ==> r->Err_0 == HashError::InvalidArgument,
        r is Ok ==> is_some_average_hash(r->Ok_0, hash_size as int),
{
    if hash_size == 0 {
        return Err(HashError::InvalidArgument);
    }
    let px = resize_luma(img, hash_size, hash_size);
    let h = ahash_from_luma(&px, hash_size);
    proof {
        assert(is_average_hash(h, px@, hash_size as int));
        assert(is_some_average_hash(h, hash_size as int));
    }
    Ok(h)
}

} // verus!
