//! A fixed-width vector of 32 independent 8-bit lanes, with bitwise and
//! wraparound arithmetic operations defined lane by lane.
//!
//! The type here is the portable backend: a plain 32-byte array, operated on
//! with explicit per-lane loops, serving as the obviously-correct reference
//! for any accelerated implementation of the same layout. Every operation
//! carries a contract pinning down each output lane, and the algebraic laws
//! of the operation set are proved alongside.

use vstd::prelude::*;

verus! {

/// Number of lanes in the vector.
pub const LANES: usize = 32;

/// Per-lane wraparound addition: `(a + b) mod 256`.
pub open spec fn lane_add(a: u8, b: u8) -> u8 {
    ((a + b) % 256) as u8
}

/// Per-lane wraparound subtraction: `(a - b) mod 256`, two's-complement wrap.
pub open spec fn lane_sub(a: u8, b: u8) -> u8 {
    ((a - b + 256) % 256) as u8
}

/// The all-zero lane sequence.
pub open spec fn zero_lanes() -> Seq<u8> {
    Seq::new(LANES as nat, |i: int| 0u8)
}

/// Lane-wise XOR of two 32-lane sequences.
pub open spec fn xor_lanes(a: Seq<u8>, b: Seq<u8>) -> Seq<u8> {
    Seq::new(LANES as nat, |i: int| a[i] ^ b[i])
}

/// Lane-wise AND of two 32-lane sequences.
pub open spec fn and_lanes(a: Seq<u8>, b: Seq<u8>) -> Seq<u8> {
    Seq::new(LANES as nat, |i: int| a[i] & b[i])
}

/// Lane-wise wraparound addition of two 32-lane sequences.
pub open spec fn add_lanes(a: Seq<u8>, b: Seq<u8>) -> Seq<u8> {
    Seq::new(LANES as nat, |i: int| lane_add(a[i], b[i]))
}

/// Lane-wise wraparound subtraction of two 32-lane sequences.
pub open spec fn sub_lanes(a: Seq<u8>, b: Seq<u8>) -> Seq<u8> {
    Seq::new(LANES as nat, |i: int| lane_sub(a[i], b[i]))
}

/// `u8::wrapping_add` computes exactly addition modulo 256.
proof fn lemma_wrapping_add_is_lane_add(a: u8, b: u8)
    ensures
        a.wrapping_add(b) == lane_add(a, b),
{
    let s: int = a + b;
    assert(s % 256 == if s < 256 { s } else { s - 256 }) by (nonlinear_arith)
        requires
            0 <= s < 512,
    ;
}

/// `u8::wrapping_sub` computes exactly subtraction modulo 256.
proof fn lemma_wrapping_sub_is_lane_sub(a: u8, b: u8)
    ensures
        a.wrapping_sub(b) == lane_sub(a, b),
{
    let d: int = a - b + 256;
    assert(d % 256 == if d < 256 { d } else { d - 256 }) by (nonlinear_arith)
        requires
            0 < d < 512,
    ;
}

/// A vector of 32 unsigned 8-bit lanes; lane `i` is byte `i`, in ascending
/// order, with no padding or reordering. Values are immutable once built:
/// every operation returns a new vector.
pub struct Vec32i8fallback {
    data: [u8; 32],
}

impl View for Vec32i8fallback {
    type V = Seq<u8>;

    closed spec fn view(&self) -> Seq<u8> {
        self.data@
    }
}

/// Every vector has exactly 32 lanes; it is never resized or partially built.
pub broadcast proof fn lemma_lane_count(v: Vec32i8fallback)
    ensures
        #![trigger v.view()]
        v@.len() == LANES,
{
}

impl Vec32i8fallback {
    /// The zero vector: every lane is 0.
    pub fn new() -> (r: Self)
        ensures
            r@ == zero_lanes(),
    {
        let data: [u8; 32] = [0; 32];
        proof {
            assert(data@ =~= zero_lanes());
        }
        Vec32i8fallback { data }
    }

    /// Builds a vector from exactly 32 bytes, copied verbatim: lane `i` is
    /// byte `i` of the slice. A slice of any other length breaks the
    /// precondition; the bytes are never truncated or zero-padded.
    pub fn from_slice(slice: &[u8]) -> (r: Self)
        requires
            slice@.len() == LANES,
        ensures
            r@ == slice@,
    {
        let mut data: [u8; 32] = [0; 32];
        let mut i: usize = 0;
        while i < 32
            invariant
                0 <= i <= 32,
                slice@.len() == 32,
                forall|j: int| 0 <= j < i ==> data@[j] == slice@[j],
            decreases 32 - i,
        {
            data[i] = slice[i];
            i = i + 1;
        }
        proof {
            assert(data@ =~= slice@);
        }
        Vec32i8fallback { data }
    }

    /// Lane-wise XOR: lane `i` of the result is `self[i] ^ other[i]`.
    /// Total; lanes never interact.
    pub fn xor(&self, other: &Self) -> (r: Self)
        ensures
            r@ == xor_lanes(self@, other@),
    {
        let mut data: [u8; 32] = [0; 32];
        let mut i: usize = 0;
        while i < 32
            invariant
                0 <= i <= 32,
                forall|j: int| 0 <= j < i ==> data@[j] == (self@[j] ^ other@[j]),
            decreases 32 - i,
        {
            data[i] = self.data[i] ^ other.data[i];
            i = i + 1;
        }
        proof {
            assert(data@ =~= xor_lanes(self@, other@));
        }
        Vec32i8fallback { data }
    }

    /// Lane-wise AND: lane `i` of the result is `self[i] & other[i]`.
    /// Total; lanes never interact.
    pub fn and(&self, other: &Self) -> (r: Self)
        ensures
            r@ == and_lanes(self@, other@),
    {
        let mut data: [u8; 32] = [0; 32];
        let mut i: usize = 0;
        while i < 32
            invariant
                0 <= i <= 32,
                forall|j: int| 0 <= j < i ==> data@[j] == (self@[j] & other@[j]),
            decreases 32 - i,
        {
            data[i] = self.data[i] & other.data[i];
            i = i + 1;
        }
        proof {
            assert(data@ =~= and_lanes(self@, other@));
        }
        Vec32i8fallback { data }
    }

    /// Lane-wise wraparound addition: lane `i` of the result is
    /// `(self[i] + other[i]) mod 256`. Total; wraps silently, with no carry
    /// into adjacent lanes.
    pub fn add(&self, other: &Self) -> (r: Self)
        ensures
            r@ == add_lanes(self@, other@),
    {
        let mut data: [u8; 32] = [0; 32];
        let mut i: usize = 0;
        while i < 32
            invariant
                0 <= i <= 32,
                forall|j: int| 0 <= j < i ==> data@[j] == lane_add(self@[j], other@[j]),
            decreases 32 - i,
        {
            proof {
                lemma_wrapping_add_is_lane_add(self@[i as int], other@[i as int]);
            }
            data[i] = self.data[i].wrapping_add(other.data[i]);
            i = i + 1;
        }
        proof {
            assert(data@ =~= add_lanes(self@, other@));
        }
        Vec32i8fallback { data }
    }

    /// Lane-wise wraparound subtraction: lane `i` of the result is
    /// `(self[i] - other[i]) mod 256`, wrapping two's-complement style
    /// (`0 - 1` gives `255`). Total; no borrow into adjacent lanes.
    pub fn sub(&self, other: &Self) -> (r: Self)
        ensures
            r@ == sub_lanes(self@, other@),
    {
        let mut data: [u8; 32] = [0; 32];
        let mut i: usize = 0;
        while i < 32
            invariant
                0 <= i <= 32,
                forall|j: int| 0 <= j < i ==> data@[j] == lane_sub(self@[j], other@[j]),
            decreases 32 - i,
        {
            proof {
                lemma_wrapping_sub_is_lane_sub(self@[i as int], other@[i as int]);
            }
            data[i] = self.data[i].wrapping_sub(other.data[i]);
            i = i + 1;
        }
        proof {
            assert(data@ =~= sub_lanes(self@, other@));
        }
        Vec32i8fallback { data }
    }

    /// Full-vector equality: true exactly when all 32 lane pairs are equal;
    /// one differing lane anywhere forces false.
    pub fn eq(&self, other: &Self) -> (r: bool)
        ensures
            r <==> (forall|i: int| 0 <= i < LANES ==> self@[i] == other@[i]),
            r <==> self@ == other@,
    {
        let mut i: usize = 0;
        while i < 32
            invariant
                0 <= i <= 32,
                forall|j: int| 0 <= j < i ==> self@[j] == other@[j],
            decreases 32 - i,
        {
            if self.data[i] != other.data[i] {
                proof {
                    assert(self@[i as int] != other@[i as int]);
                }
                return false;
            }
            i = i + 1;
        }
        proof {
            assert(self@ =~= other@);
        }
        true
    }

    /// Positional comparison against a raw 32-byte buffer, such as the lanes
    /// stored out of an accelerated register: true exactly when lane `i`
    /// equals byte `i` for every `i`. This is the byte-for-byte check an
    /// equivalence harness runs between this backend and an accelerated one.
    pub fn eq_bytes(&self, bytes: &[u8]) -> (r: bool)
        requires
            bytes@.len() == LANES,
        ensures
            r <==> (forall|i: int| 0 <= i < LANES ==> self@[i] == bytes@[i]),
            r <==> self@ == bytes@,
    {
        let mut i: usize = 0;
        while i < 32
            invariant
                0 <= i <= 32,
                bytes@.len() == 32,
                forall|j: int| 0 <= j < i ==> self@[j] == bytes@[j],
            decreases 32 - i,
        {
            if self.data[i] != bytes[i] {
                proof {
                    assert(self@[i as int] != bytes@[i as int]);
                }
                return false;
            }
            i = i + 1;
        }
        proof {
            assert(self@ =~= bytes@);
        }
        true
    }
}

/// Zero identity: a 32-lane sequence is the zero sequence exactly when every
/// one of its lanes is 0. So a vector built from a byte buffer is equal to
/// the zero vector only if every input byte was 0.
pub proof fn lemma_zero_identity(v: Seq<u8>)
    requires
        v.len() == LANES,
    ensures
        (v == zero_lanes()) <==> (forall|i: int| 0 <= i < LANES ==> v[i] == 0),
{
    if forall|i: int| 0 <= i < LANES ==> v[i] == 0 {
        assert(v =~= zero_lanes());
    }
}

/// XOR self-inverse: XORing any 32-lane sequence with itself gives the zero
/// sequence.
pub proof fn lemma_xor_self_inverse(v: Seq<u8>)
    requires
        v.len() == LANES,
    ensures
        xor_lanes(v, v) == zero_lanes(),
{
    assert forall|i: int| 0 <= i < LANES implies (v[i] ^ v[i]) == 0u8 by {
        let x = v[i];
        assert(x ^ x == 0) by (bit_vector);
    }
    assert(xor_lanes(v, v) =~= zero_lanes());
}

/// AND idempotence: ANDing any 32-lane sequence with itself leaves it
/// unchanged.
pub proof fn lemma_and_idempotent(v: Seq<u8>)
    requires
        v.len() == LANES,
    ensures
        and_lanes(v, v) == v,
{
    assert forall|i: int| 0 <= i < LANES implies (v[i] & v[i]) == v[i] by {
        let x = v[i];
        assert(x & x == x) by (bit_vector);
    }
    assert(and_lanes(v, v) =~= v);
}

} // verus!
