//! The fingerprint type shared by all hashing algorithms: an ordered bit
//! vector, its packed byte form, and the declared hash size, kept in
//! agreement by construction.

use vstd::pervasive::VecAdditionalExecFns;
use vstd::prelude::*;
use crate::HashError;
use crate::metric::{hamming, lemma_hamming_take_succ};

verus! {

/// The largest accepted hash size: keeps the bit count `N * N`, and with it
/// every packing index and every distance, within `u32`.
pub const MAX_HASH_SIZE: u32 = 65535;

/// Reads bit `k` of a byte, least-significant bit first.
pub open spec fn byte_bit(byte: u8, k: u8) -> bool {
    (byte >> k) & 1u8 == 1u8
}

/// Reads bit `c` of a packed byte sequence: byte `c / 8` holds it at bit
/// position `c % 8`, least-significant bit first.
pub open spec fn packed_bit(packed: Seq<u8>, c: int) -> bool {
    byte_bit(packed[c / 8], (c % 8) as u8)
}

/// A perceptual-hash fingerprint: `hash_size * hash_size` bits in row-major
/// cell order, retained both as individual booleans and packed into bytes.
/// Immutable after construction; built only through [`ImageHash::from_bits`].
pub struct ImageHash {
    bool_values: Vec<bool>,
    values: Vec<u8>,
    hash_size: usize,
}

impl ImageHash {
    /// The ordered bits of the fingerprint; bit `c` belongs to logical cell
    /// (`c / hash_size`, `c % hash_size`).
    pub closed spec fn bits(&self) -> Seq<bool> {
        self.bool_values@
    }

    /// The packed byte form of the same bits.
    pub closed spec fn packed(&self) -> Seq<u8> {
        self.values@
    }

    /// The declared side length of the logical hash grid.
    pub closed spec fn size(&self) -> int {
        self.hash_size as int
    }

    /// Well-formedness: a positive, bounded hash size; `size * size` bits;
    /// `ceil(size * size / 8)` packed bytes that agree with the bits at every
    /// position, the spare positions of the final byte held at zero.
    pub open spec fn wf(&self) -> bool {
        &&& 1 <= self.size() <= MAX_HASH_SIZE
        &&& self.bits().len() == self.size() * self.size()
        &&& self.packed().len() == (self.bits().len() + 7) / 8
        &&& forall|c: int|
            0 <= c < self.bits().len() ==> self.bits()[c] == packed_bit(self.packed(), c)
        &&& forall|c: int|
            self.bits().len() <= c < 8 * self.packed().len() ==> !packed_bit(self.packed(), c)
    }

    /// Builds a fingerprint from its bits, packing them under the shared
    /// convention: bit `c` goes into byte `c / 8` at position `c % 8`, and
    /// the unused high positions of the final byte stay zero.
    pub fn from_bits(bool_values: Vec<bool>, hash_size: u32) -> (r: ImageHash)
        requires
            1 <= hash_size <= MAX_HASH_SIZE,
            bool_values@.len() == hash_size * hash_size,
        ensures
            r.wf(),
            r.size() == hash_size,
            r.bits() == bool_values@,
    {
        proof {
            assert(hash_size * hash_size <= 65535 * 65535) by (nonlinear_arith)
                requires
                    hash_size <= 65535,
            ;
        }
        let n2: usize = bool_values.len();
        let packed_len: usize = (n2 + 7) / 8;
        let mut values: Vec<u8> = Vec::new();
        while values.len() < packed_len
            invariant
                values@.len() <= packed_len,
                forall|i: int| 0 <= i < values@.len() ==> values@[i] == 0u8,
            decreases packed_len - values@.len(),
        {
            values.push(0u8);
        }
        proof {
            vstd::arithmetic::div_mod::lemma_fundamental_div_mod(n2 as int + 7, 8);
            assert(n2 <= 8 * packed_len);
            assert forall|j: int| 0 <= j < 8 * packed_len implies !packed_bit(values@, j) by {
                lemma_bit_index(j, packed_len as int);
                lemma_zero_byte((j % 8) as u8);
            }
        }
        let mut c: usize = 0;
        while c < n2
            invariant
                n2 == bool_values@.len(),
                c <= n2,
                n2 <= 8 * packed_len,
                values@.len() == packed_len,
                forall|j: int| 0 <= j < c ==> bool_values@[j] == packed_bit(values@, j),
                forall|j: int| c <= j < 8 * packed_len ==> !packed_bit(values@, j),
            decreases n2 - c,
        {
            proof {
                lemma_bit_index(c as int, packed_len as int);
            }
            if bool_values[c] {
                let byte_i: usize = c / 8;
                let bit_i: u8 = (c % 8) as u8;
                let b: u8 = values[byte_i];
                let ghost vs0 = values@;
                values.set(byte_i, b | (1u8 << bit_i));
                proof {
                    assert(values@ == vs0.update(byte_i as int, b | (1u8 << bit_i)));
                    assert forall|j: int|
                        0 <= j < c + 1 implies bool_values@[j] == packed_bit(values@, j) by {
                        lemma_bit_index(j, packed_len as int);
                        lemma_set_bit(b, bit_i, (j % 8) as u8);
                        if j / 8 == c / 8 {
                            if j != c {
                                assert(j % 8 != c % 8);
                            }
                        } else {
                            assert(values@[j / 8] == vs0[j / 8]);
                        }
                    }
                    assert forall|j: int|
                        c + 1 <= j < 8 * packed_len implies !packed_bit(values@, j) by {
                        lemma_bit_index(j, packed_len as int);
                        lemma_set_bit(b, bit_i, (j % 8) as u8);
                        assert(!packed_bit(vs0, j));
                        if j / 8 == c / 8 {
                            assert(j % 8 != c % 8);
                            assert(vs0[j / 8] == b);
                            assert((j % 8) as u8 != bit_i);
                            assert(values@[j / 8] == b | (1u8 << bit_i));
                        } else {
                            assert(values@[j / 8] == vs0[j / 8]);
                        }
                    }
                }
            }
            c += 1;
        }
        let r = ImageHash { bool_values, values, hash_size: hash_size as usize };
        r
    }

    /// A copy of the fingerprint's bits.
    pub fn get_bool_values(&self) -> (r: Vec<bool>)
        ensures
            r@ == self.bits(),
    {
        let mut r: Vec<bool> = Vec::new();
        let mut i: usize = 0;
        while i < self.bool_values.len()
            invariant
                i <= self.bool_values@.len(),
                r@ == self.bool_values@.take(i as int),
            decreases self.bool_values@.len() - i,
        {
            r.push(self.bool_values[i]);
            proof {
                assert(self.bool_values@.take(i + 1) =~= self.bool_values@.take(i as int).push(
                    self.bool_values@[i as int],
                ));
            }
            i += 1;
        }
        proof {
            assert(self.bool_values@.take(self.bool_values@.len() as int) =~= self.bool_values@);
        }
        r
    }

    /// A copy of the fingerprint's packed bytes.
    pub fn get_values(&self) -> (r: Vec<u8>)
        ensures
            r@ == self.packed(),
    {
        let mut r: Vec<u8> = Vec::new();
        let mut i: usize = 0;
        while i < self.values.len()
            invariant
                i <= self.values@.len(),
                r@ == self.values@.take(i as int),
            decreases self.values@.len() - i,
        {
            r.push(self.values[i]);
            proof {
                assert(self.values@.take(i + 1) =~= self.values@.take(i as int).push(
                    self.values@[i as int],
                ));
            }
            i += 1;
        }
        proof {
            assert(self.values@.take(self.values@.len() as int) =~= self.values@);
        }
        r
    }

    /// The declared hash size.
    pub fn get_hash_size(&self) -> (r: usize)
        ensures
            r == self.size(),
    {
        self.hash_size
    }

    /// The Hamming distance to another fingerprint: the count of bit
    /// positions at which the two differ. Fails with `SizeMismatch`, and
    /// only then, when the hash sizes differ.
    pub fn distance(&self, other: &ImageHash) -> (r: Result<u32, HashError>)
        requires
            self.wf(),
            other.wf(),
        ensures
            match r {
                Ok(d) => self.size() == other.size() && d == hamming(self.bits(), other.bits())
                    && d <= self.size() * self.size(),
                Err(e) => self.size() != other.size() && e == HashError::SizeMismatch,
            },
    {
        if self.hash_size != other.hash_size {
            return Err(HashError::SizeMismatch);
        }
        proof {
            assert(self.size() * self.size() <= 65535 * 65535) by (nonlinear_arith)
                requires
                    1 <= self.size() <= 65535,
            ;
        }
        let n2: usize = self.bool_values.len();
        let mut count: u32 = 0;
        let mut i: usize = 0;
        while i < n2
            invariant
                n2 == self.bits().len(),
                n2 == other.bits().len(),
                n2 <= 0xffff_ffff,
                i <= n2,
                count <= i,
                count == hamming(self.bits().take(i as int), other.bits().take(i as int)),
            decreases n2 - i,
        {
            proof {
                lemma_hamming_take_succ(self.bits(), other.bits(), i as int);
            }
            if self.bool_values[i] != other.bool_values[i] {
                count = count + 1;
            }
            i += 1;
        }
        proof {
            assert(self.bits().take(n2 as int) =~= self.bits());
            assert(other.bits().take(n2 as int) =~= other.bits());
        }
        Ok(count)
    }
}

/// For a bit index `j` within a packed buffer of `len` bytes, its byte index
/// `j / 8` is in range and determines `j` together with `j % 8`.
proof fn lemma_bit_index(j: int, len: int)
    requires
        0 <= j < 8 * len,
    ensures
        0 <= j / 8 < len,
        0 <= j % 8 < 8,
        j == 8 * (j / 8) + j % 8,
{
    vstd::arithmetic::div_mod::lemma_fundamental_div_mod(j, 8);
    vstd::arithmetic::div_mod::lemma_multiply_divide_lt(j, 8, len);
    vstd::arithmetic::div_mod::lemma_div_pos_is_pos(j, 8);
}

/// Every bit of the zero byte is clear.
proof fn lemma_zero_byte(k: u8)
    ensures
        !byte_bit(0u8, k),
{
    assert((0u8 >> k) & 1u8 == 0u8) by (bit_vector);
}

/// Setting bit `k` by an `or` with `1 << k` sets exactly that bit and leaves
/// every other bit of the byte as it was.
proof fn lemma_set_bit(b: u8, k: u8, j: u8)
    requires
        k < 8,
        j < 8,
    ensures
        byte_bit(b | (1u8 << k), k),
        j != k ==> byte_bit(b | (1u8 << k), j) == byte_bit(b, j),
{
    assert(k < 8 ==> ((b | (1u8 << k)) >> k) & 1u8 == 1u8) by (bit_vector);
    assert(k < 8 && j < 8 && j != k ==> ((b | (1u8 << k)) >> j) & 1u8 == (b >> j) & 1u8)
        by (bit_vector);
}

/// Packing round-trip law: every bit of a well-formed fingerprint can be read
/// back from its packed bytes, bit `c` from byte `c / 8` at position `c % 8`.
pub proof fn lemma_packed_round_trip(h: &ImageHash)
    requires
        h.wf(),
    ensures
        forall|c: int|
            0 <= c < h.size() * h.size() ==> h.bits()[c] == packed_bit(h.packed(), c),
{
}

} // verus!
