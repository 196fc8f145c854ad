//! Perceptual image fingerprints: compact bit vectors that summarize a raster
//! image so that visually similar images lie at small Hamming distance.
//!
//! The crate provides the shared [`ImageHash`] fingerprint type with its
//! bit-packing convention, the average-threshold and neighbor-difference
//! reduction algorithms over a resampled luminance grid, and the Hamming
//! distance between two fingerprints of equal size.

use vstd::prelude::*;

pub mod average;
pub mod difference;
pub mod fingerprint;
pub mod imageops;
pub mod metric;

pub use average::{
    ahash, ahash_from_luma, average_bits, is_average_hash, is_some_average_hash,
    lemma_constant_grid_all_zero, luma_mean, luma_sum,
};
pub use difference::{
    dhash, dhash_from_luma, difference_bits, grid_sample, is_difference_hash,
    is_some_difference_hash, lemma_ascending_rows_all_zero, lemma_descending_rows_all_one,
};
pub use fingerprint::{lemma_packed_round_trip, packed_bit, ImageHash, MAX_HASH_SIZE};
pub use metric::{
    hamming, lemma_hamming_bounds, lemma_hamming_self, lemma_hamming_symmetric,
    lemma_hamming_triangle,
};

verus! {

/// Errors reported by the fingerprinting operations.
#[derive(Clone, Copy, Debug, PartialEq, Eq, Structural)]
pub enum HashError {
    /// An image path could not be read or decoded.
    DecodeError,
    /// A degenerate argument (a zero hash size or frequency factor).
    InvalidArgument,
    /// `distance` was called on fingerprints of differing hash size.
    SizeMismatch,
}

} // verus!
