use image::{DynamicImage, GrayImage};
use imghash::{ahash, ahash_from_luma, dhash, dhash_from_luma, HashError, ImageHash};

fn gray(w: u32, h: u32, data: Vec<u8>) -> DynamicImage {
    DynamicImage::ImageLuma8(GrayImage::from_raw(w, h, data).unwrap())
}

#[test]
fn average_hash_lengths() {
    for n in [1u32, 2, 3, 4, 8, 9] {
        let n2 = (n * n) as usize;
        let pixels: Vec<u8> = (0..n2).map(|i| (i % 251) as u8).collect();
        let h = ahash_from_luma(&pixels, n);
        assert_eq!(h.get_hash_size(), n as usize);
        assert_eq!(h.get_bool_values().len(), n2);
        assert_eq!(h.get_values().len(), n2.div_ceil(8));
    }
}

#[test]
fn difference_hash_lengths() {
    for n in [1u32, 2, 3, 4, 8, 9] {
        let side = (n + 1) as usize;
        let pixels: Vec<u8> = (0..side * side).map(|i| (i % 17) as u8).collect();
        let h = dhash_from_luma(&pixels, n);
        assert_eq!(h.get_hash_size(), n as usize);
        assert_eq!(h.get_bool_values().len(), (n * n) as usize);
        assert_eq!(h.get_values().len(), ((n * n) as usize).div_ceil(8));
    }
}

#[test]
fn average_hash_exact_bits_and_packing() {
    // 3x3 grid 0..=8: sum 36, mean 4; bits are "pixel > 4".
    let pixels: Vec<u8> = (0..9).collect();
    let h = ahash_from_luma(&pixels, 3);
    let expected = [false, false, false, false, false, true, true, true, true];
    assert_eq!(h.get_bool_values(), expected.to_vec());
    // Bits 5, 6, 7 set in byte 0; bit 8 is bit 0 of byte 1.
    assert_eq!(h.get_values(), vec![0b1110_0000u8, 0b0000_0001u8]);
}

#[test]
fn packing_round_trip() {
    let pixels: Vec<u8> = (0..25).map(|i| (i * 7 % 256) as u8).collect();
    let h = ahash_from_luma(&pixels, 5);
    let bits = h.get_bool_values();
    let packed = h.get_values();
    for c in 0..bits.len() {
        assert_eq!(bits[c], (packed[c / 8] >> (c % 8)) & 1 == 1);
    }
    // Spare positions of the final byte stay zero.
    for c in bits.len()..packed.len() * 8 {
        assert_eq!((packed[c / 8] >> (c % 8)) & 1, 0);
    }
}

#[test]
fn packing_trailing_bits_zero() {
    let h = ImageHash::from_bits(vec![true; 9], 3);
    assert_eq!(h.get_values(), vec![0b1111_1111u8, 0b0000_0001u8]);
}

#[test]
fn distance_identity() {
    let pixels: Vec<u8> = (0..16).map(|i| (i * 13 % 256) as u8).collect();
    let a = ahash_from_luma(&pixels, 4);
    let b = ahash_from_luma(&pixels, 4);
    assert_eq!(a.distance(&b), Ok(0));
    assert_eq!(a.distance(&a), Ok(0));
}

#[test]
fn distance_identity_from_image() {
    let img = gray(8, 8, vec![0u8; 64]);
    let a = ahash(&img, 8).unwrap();
    let b = ahash(&img, 8).unwrap();
    assert_eq!(a.distance(&b), Ok(0));
}

#[test]
fn distance_symmetry() {
    let a = ahash_from_luma(&vec![0u8, 0, 0, 0], 2);
    let b = ahash_from_luma(&vec![0u8, 0, 0, 255], 2);
    assert_eq!(a.distance(&b), Ok(1));
    assert_eq!(b.distance(&a), Ok(1));
}

#[test]
fn distance_exact_count() {
    let a = ImageHash::from_bits(vec![true, true, false, false], 2);
    let b = ImageHash::from_bits(vec![true, false, true, false], 2);
    assert_eq!(a.distance(&b), Ok(2));
}

#[test]
fn distance_triangle() {
    let a = ImageHash::from_bits(vec![false, false, false, false], 2);
    let b = ImageHash::from_bits(vec![true, true, false, false], 2);
    let c = ImageHash::from_bits(vec![true, false, true, false], 2);
    let dab = a.distance(&b).unwrap();
    let dac = a.distance(&c).unwrap();
    let dcb = c.distance(&b).unwrap();
    assert!(dab <= dac + dcb);
    let dba = b.distance(&a).unwrap();
    let dbc = b.distance(&c).unwrap();
    let dca = c.distance(&a).unwrap();
    assert!(dba <= dbc + dca);
    assert!(dac <= dab + dbc);
}

#[test]
fn distance_size_mismatch() {
    let a = ImageHash::from_bits(vec![false; 4], 2);
    let b = ImageHash::from_bits(vec![false; 9], 3);
    assert_eq!(a.distance(&b), Err(HashError::SizeMismatch));
    assert_eq!(b.distance(&a), Err(HashError::SizeMismatch));
}

#[test]
fn zero_hash_size_rejected() {
    let img = gray(4, 4, vec![128u8; 16]);
    assert_eq!(ahash(&img, 0).err(), Some(HashError::InvalidArgument));
    assert_eq!(dhash(&img, 0).err(), Some(HashError::InvalidArgument));
}

#[test]
fn solid_black_average_hash_all_zero() {
    // Mean is 0 and the comparison is strict, so no bit is set.
    let img = gray(8, 8, vec![0u8; 64]);
    let h = ahash(&img, 8).unwrap();
    assert!(h.get_bool_values().iter().all(|b| !b));
    assert!(h.get_values().iter().all(|v| *v == 0));
}

#[test]
fn solid_white_average_hash_all_zero() {
    // Every pixel equals the mean; equal is not strictly greater.
    let pixels = vec![255u8; 64];
    let h = ahash_from_luma(&pixels, 8);
    assert!(h.get_bool_values().iter().all(|b| !b));
}

#[test]
fn ascending_gradient_difference_hash_all_zero() {
    // Left pixel always darker than its right neighbor.
    let mut pixels: Vec<u8> = Vec::new();
    for _y in 0..5 {
        for x in 0..5u32 {
            pixels.push((x * 10) as u8);
        }
    }
    let h = dhash_from_luma(&pixels, 4);
    assert!(h.get_bool_values().iter().all(|b| !b));
}

#[test]
fn descending_gradient_difference_hash_all_one() {
    // Left pixel always strictly brighter than its right neighbor.
    let mut pixels: Vec<u8> = Vec::new();
    for _y in 0..5 {
        for x in 0..5u32 {
            pixels.push((40 - x * 10) as u8);
        }
    }
    let h = dhash_from_luma(&pixels, 4);
    assert!(h.get_bool_values().iter().all(|b| *b));
}

#[test]
fn hashes_resample_to_requested_size() {
    // A 10x10 source is reduced to the requested grid, whatever its size.
    let data: Vec<u8> = (0..100).map(|i| (i * 2) as u8).collect();
    let img = gray(10, 10, data);
    let a = ahash(&img, 4).unwrap();
    assert_eq!(a.get_hash_size(), 4);
    assert_eq!(a.get_bool_values().len(), 16);
    assert_eq!(a.get_values().len(), 2);
    let d = dhash(&img, 4).unwrap();
    assert_eq!(d.get_hash_size(), 4);
    assert_eq!(d.get_bool_values().len(), 16);
}
