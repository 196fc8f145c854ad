//! The neighbor-difference reduction: over an `(N+1)`-by-`(N+1)` resampled
//! luminance grid, each of the `N * N` output cells records whether its pixel
//! is strictly brighter than the pixel to its right. The packing index is
//! `c = y * N + x`, row-major over the output grid.

use vstd::prelude::*;
use crate::fingerprint::{ImageHash, MAX_HASH_SIZE};
use crate::imageops::resize_luma;
use crate::HashError;

verus! {

/// The sample of pixel `(x, y)` in an `(n+1)`-by-`(n+1)` row-major
/// luminance grid.
pub open spec fn grid_sample(pixels: Seq<u8>, n: int, y: int, x: int) -> u8 {
    pixels[y * (n + 1) + x]
}

/// The bit vector of a difference hash over an `(n+1)`-by-`(n+1)` row-major
/// luminance grid: for cell `c` with row `c / n` and column `c % n`, the bit
/// is set iff the pixel at that cell is strictly brighter than its right
/// neighbor.
pub open spec fn difference_bits(pixels: Seq<u8>, n: int) -> Seq<bool> {
    Seq::new(
        (n * n) as nat,
        |c: int|
            grid_sample(pixels, n, c / n, c % n) > grid_sample(pixels, n, c / n, c % n + 1),
    )
}

/// The fingerprint `h` is the difference hash, at size `n`, of the
/// `(n+1) * (n+1)` luminance grid `luma`.
pub open spec fn is_difference_hash(h: ImageHash, luma: Seq<u8>, n: int) -> bool {
    &&& h.wf()
    &&& h.size() == n
    &&& luma.len() == (n + 1) * (n + 1)
    &&& h.bits() == difference_bits(luma, n)
}

/// Some luminance grid witnesses `h` as a difference hash at size `n`: all
/// that can be promised of a fingerprint whose pixel values came from the
/// external resampler.
pub open spec fn is_some_difference_hash(h: ImageHash, n: int) -> bool {
    exists|luma: Seq<u8>| is_difference_hash(h, luma, n)
}

/// Row and column of cell `c` in an `n`-by-`n` grid, and the bounds that
/// place the cell and its right neighbor inside the `(n+1)`-by-`(n+1)`
/// pixel grid.
proof fn lemma_cell_index(c: int, n: int)
    requires
        0 <= c,
        1 <= n,
        c < n * n,
    ensures
        0 <= c / n < n,
        0 <= c % n < n,
        c == n * (c / n) + c % n,
        (c / n) * (n + 1) + c % n + 1 < (n + 1) * (n + 1),
{
    vstd::arithmetic::div_mod::lemma_fundamental_div_mod(c, n);
    vstd::arithmetic::div_mod::lemma_multiply_divide_lt(c, n, n);
    vstd::arithmetic::div_mod::lemma_div_pos_is_pos(c, n);
    assert((c / n) * (n + 1) + c % n + 1 < (n + 1) * (n + 1)) by (nonlinear_arith)
        requires
            0 <= c / n < n,
            0 <= c % n < n,
    ;
}

/// A grid whose rows never get darker to the right yields an all-zero
/// difference hash: no pixel is strictly brighter than its right neighbor.
pub proof fn lemma_ascending_rows_all_zero(pixels: Seq<u8>, n: int)
    requires
        1 <= n,
        pixels.len() == (n + 1) * (n + 1),
        forall|y: int, x: int|
            0 <= y < n && 0 <= x < n ==> #[trigger] grid_sample(pixels, n, y, x) <= grid_sample(
                pixels,
                n,
                y,
                x + 1,
            ),
    ensures
        forall|c: int| 0 <= c < n * n ==> !difference_bits(pixels, n)[c],
{
    assert forall|c: int| 0 <= c < n * n implies !difference_bits(pixels, n)[c] by {
        lemma_cell_index(c, n);
        assert(grid_sample(pixels, n, c / n, c % n) <= grid_sample(pixels, n, c / n, c % n + 1));
    }
}

/// A grid whose rows get strictly darker to the right yields an all-one
/// difference hash: every pixel is strictly brighter than its right neighbor.
pub proof fn lemma_descending_rows_all_one(pixels: Seq<u8>, n: int)
    requires
        1 <= n,
        pixels.len() == (n + 1) * (n + 1),
        forall|y: int, x: int|
            0 <= y < n && 0 <= x < n ==> #[trigger] grid_sample(pixels, n, y, x) > grid_sample(
                pixels,
                n,
                y,
                x + 1,
            ),
    ensures
        forall|c: int| 0 <= c < n * n ==> difference_bits(pixels, n)[c],
{
    assert forall|c: int| 0 <= c < n * n implies difference_bits(pixels, n)[c] by {
        lemma_cell_index(c, n);
        assert(grid_sample(pixels, n, c / n, c % n) > grid_sample(pixels, n, c / n, c % n + 1));
    }
}

/// The difference hash of an `(hash_size+1)`-by-`(hash_size+1)` luminance
/// grid given in row-major order: for each output row `y` and column `x` in
/// `[0, hash_size)`, bit `y * hash_size + x` records whether the pixel at
/// `(x, y)` is strictly brighter than the pixel at `(x + 1, y)`.
pub fn dhash_from_luma(pixels: &Vec<u8>, hash_size: u32) -> (r: ImageHash)
    requires
        1 <= hash_size,
        hash_size < MAX_HASH_SIZE,
        pixels@.len() == (hash_size + 1) * (hash_size + 1),
    ensures
        is_difference_hash(r, pixels@, hash_size as int),
{
    proof {
        assert(1 * 1 <= hash_size * hash_size <= 65534 * 65534) by (nonlinear_arith)
            requires
                1 <= hash_size <= 65534,
        ;
        assert((hash_size + 1) * (hash_size + 1) <= 65535 * 65535) by (nonlinear_arith)
            requires
                hash_size <= 65534,
        ;
    }
    let n: usize = hash_size as usize;
    let n2: usize = n * n;
    let mut bits: Vec<bool> = Vec::new();
    let mut c: usize = 0;
    while c < n2
        invariant
            n == hash_size,
            n2 == n * n,
            1 <= n <= 65534,
            (n + 1) * (n + 1) <= 0xffff_ffff,
            pixels@.len() == (n + 1) * (n + 1),
            c <= n2,
            bits@.len() == c,
            forall|j: int| 0 <= j < c ==> bits@[j] == difference_bits(pixels@, n as int)[j],
        decreases n2 - c,
    {
        proof {
            lemma_cell_index(c as int, n as int);
        }
        let row: usize = c / n;
        let col: usize = c % n;
        let idx: usize = row * (n + 1) + col;
        bits.push(pixels[idx] > pixels[idx + 1]);
        c += 1;
    }
    proof {
        assert(bits@ =~= difference_bits(pixels@, hash_size as int));
    }
    ImageHash::from_bits(bits, hash_size)
}

/// The difference hash of an already-decoded image: the image is resampled
/// to `(hash_size+1)`-by-`(hash_size+1)` grayscale pixels with the Lanczos3
/// filter, and each output cell compares its pixel against the pixel to its
/// right. Fails with `InvalidArgument`, and only then, when `hash_size` is
/// zero. The resampled luminance values themselves are the image library's;
/// the comparisons and packing applied to them are pinned down exactly by
/// [`dhash_from_luma`].
pub fn dhash(img: &image::DynamicImage, hash_size: u32) -> (r: Result<ImageHash, HashError>)
    requires
        hash_size < MAX_HASH_SIZE,
    ensures
        r is Err <==> hash_size == 0,
        r is Err ==> r->Err_0 == HashError::InvalidArgument,
        r is Ok ==> is_some_difference_hash(r->Ok_0, hash_size as int),
{
    if hash_size == 0 {
        return Err(HashError::InvalidArgument);
    }
    let px = resize_luma(img, hash_size + 1, hash_size + 1);
    let h = dhash_from_luma(&px, hash_size);
    proof {
        assert(is_difference_hash(h, px@, hash_size as int));
        assert(is_some_difference_hash(h, hash_size as int));
    }
    Ok(h)
}

} // verus!
