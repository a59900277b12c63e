//! Heuristic weight vectors for the evolutionary trainer.
//!
//! A genome is the flat weight storage of one heuristic network: the
//! output layer first, then each hidden layer in declaration order,
//! within a layer weights before biases.  Each weight is kept as the
//! raw 32-bit pattern of its little-endian lane, which makes the
//! checkpoint byte layout and the genetic crossover exact, bit for
//! bit; the numeric interpretation of a lane is the caller's.

use vstd::prelude::*;

verus! {

/// How many 32-bit lanes one heuristic holds: 32 for the output
/// layer, 544 for the first hidden layer (2 in, 4 out, 8-wide lanes,
/// plus biases), 1056 for the second (4 in, 4 out, plus biases).
pub const WEIGHT_COUNT: usize = 1632;

/// Relies on rand::random (rand 0.8): draws one value of the
/// standard distribution; nothing is promised of it.
pub assume_specification<T>[ rand::random::<T> ]() -> (r: T)
    where
        rand::distributions::Standard: rand::distributions::Distribution<T>,
;

/// One heuristic's weights as raw 32-bit lanes.
#[derive(Clone, Debug, PartialEq, Eq)]
pub struct Genome {
    pub w: Vec<u32>,
}

/// The byte at position `j` of the little-endian form of a lane.
pub open spec fn byte32_of(x: u32, j: int) -> u8 {
    ((x >> (8 * j)) & 0xff) as u8
}

/// A lane read back from 4 little-endian bytes at offset `off`.
pub open spec fn u32_from_bytes(s: Seq<u8>, off: int) -> u32 {
    (s[off] as u32) | ((s[off + 1] as u32) << 8) | ((s[off + 2] as u32) << 16) | ((s[off + 3]
        as u32) << 24)
}

/// The checkpoint bytes of one genome: every lane little-endian, in
/// order.
pub open spec fn genome_bytes(g: Genome) -> Seq<u8> {
    Seq::new((WEIGHT_COUNT * 4) as nat, |i: int| byte32_of(g.w@[i / 4], i % 4))
}

/// Reassembling the 4 little-endian bytes of a lane gives the lane
/// back.
proof fn lemma_u32_bytes_roundtrip(x: u32)
    by (bit_vector)
    ensures
        ((((x >> 0) & 0xff) as u8) as u32) | (((((x >> 8) & 0xff) as u8) as u32) << 8) | (((((x
            >> 16) & 0xff) as u8) as u32) << 16) | (((((x >> 24) & 0xff) as u8) as u32) << 24)
            == x,
{
}

/// A lane reads back from any 4 bytes that are its little-endian
/// form.
pub proof fn lemma_u32_readback(x: u32, s: Seq<u8>, off: int)
    requires
        0 <= off,
        off + 4 <= s.len(),
        s[off] == byte32_of(x, 0),
        s[off + 1] == byte32_of(x, 1),
        s[off + 2] == byte32_of(x, 2),
        s[off + 3] == byte32_of(x, 3),
    ensures
        u32_from_bytes(s, off) == x,
{
    lemma_u32_bytes_roundtrip(x);
}

/// A genome decodes from its own checkpoint bytes: the lane at
/// position `k` reads back from its 4 bytes.
pub proof fn lemma_genome_roundtrip(g: Genome, k: int)
    requires
        g.wf(),
        0 <= k < WEIGHT_COUNT,
    ensures
        u32_from_bytes(genome_bytes(g), 4 * k) == g.w@[k],
{
    assert((4 * k) / 4 == k && (4 * k) % 4 == 0);
    assert((4 * k + 1) / 4 == k && (4 * k + 1) % 4 == 1);
    assert((4 * k + 2) / 4 == k && (4 * k + 2) % 4 == 2);
    assert((4 * k + 3) / 4 == k && (4 * k + 3) % 4 == 3);
    lemma_u32_readback(g.w@[k], genome_bytes(g), 4 * k);
}

impl Genome {
    /// A genome holds exactly one network's lanes.
    pub open spec fn wf(self) -> bool {
        self.w@.len() == WEIGHT_COUNT
    }

    /// Wraps a full weight vector.
    pub fn new(w: Vec<u32>) -> (g: Genome)
        requires
            w@.len() == WEIGHT_COUNT,
        ensures
            g.w@ == w@,
            g.wf(),
    {
        Genome { w }
    }

    /// Crossover under a given mask: where the mask is set the two
    /// parents swap the lane, so the children take opposite sides
    /// everywhere.
    pub fn cross(&self, other: &Genome, mask: &Vec<bool>) -> (r: (Genome, Genome))
        requires
            self.wf(),
            other.wf(),
            mask@.len() == WEIGHT_COUNT,
        ensures
            r.0.wf(),
            r.1.wf(),
            forall|i: int|
                0 <= i < WEIGHT_COUNT && mask@[i] ==> #[trigger] r.0.w@[i] == other.w@[i],
            forall|i: int|
                0 <= i < WEIGHT_COUNT && mask@[i] ==> #[trigger] r.1.w@[i] == self.w@[i],
            forall|i: int|
                0 <= i < WEIGHT_COUNT && !mask@[i] ==> #[trigger] r.0.w@[i] == self.w@[i],
            forall|i: int|
                0 <= i < WEIGHT_COUNT && !mask@[i] ==> #[trigger] r.1.w@[i] == other.w@[i],
    {
        let mut a: Vec<u32> = Vec::new();
        let mut b: Vec<u32> = Vec::new();
        let mut i: usize = 0;
        while i < WEIGHT_COUNT
            invariant
                i <= WEIGHT_COUNT,
                self.wf(),
                other.wf(),
                mask@.len() == WEIGHT_COUNT,
                a@.len() == i,
                b@.len() == i,
                forall|k: int| 0 <= k < i && mask@[k] ==> #[trigger] a@[k] == other.w@[k],
                forall|k: int| 0 <= k < i && mask@[k] ==> #[trigger] b@[k] == self.w@[k],
                forall|k: int| 0 <= k < i && !mask@[k] ==> #[trigger] a@[k] == self.w@[k],
                forall|k: int| 0 <= k < i && !mask@[k] ==> #[trigger] b@[k] == other.w@[k],
            decreases WEIGHT_COUNT - i,
        {
            if mask[i] {
                a.push(other.w[i]);
                b.push(self.w[i]);
            } else {
                a.push(self.w[i]);
                b.push(other.w[i]);
            }
            i += 1;
        }
        (Genome { w: a }, Genome { w: b })
    }

    /// Crossover under a fresh random mask: each lane swaps with
    /// probability one half, and whatever the draws were, every lane
    /// of each child comes from one parent and the other child holds
    /// the opposite lane.
    pub fn cross_random(&self, other: &Genome) -> (r: (Genome, Genome))
        requires
            self.wf(),
            other.wf(),
        ensures
            r.0.wf(),
            r.1.wf(),
            forall|i: int|
                0 <= i < WEIGHT_COUNT ==> (#[trigger] r.0.w@[i] == self.w@[i] && r.1.w@[i]
                    == other.w@[i]) || (r.0.w@[i] == other.w@[i] && r.1.w@[i] == self.w@[i]),
    {
        let mut mask: Vec<bool> = Vec::new();
        let mut i: usize = 0;
        while i < WEIGHT_COUNT
            invariant
                i <= WEIGHT_COUNT,
                mask@.len() == i,
            decreases WEIGHT_COUNT - i,
        {
            mask.push(rand::random::<bool>());
            i += 1;
        }
        self.cross(other, &mask)
    }

    /// Encodes the genome as checkpoint bytes: every lane as 4
    /// little-endian bytes, in order.
    pub fn dump(&self) -> (v: Vec<u8>)
        requires
            self.wf(),
        ensures
            v@ == genome_bytes(*self),
            v@.len() == WEIGHT_COUNT * 4,
    {
        let mut v: Vec<u8> = Vec::new();
        let mut k: usize = 0;
        while k < WEIGHT_COUNT
            invariant
                k <= WEIGHT_COUNT,
                self.wf(),
                v@.len() == 4 * k,
                forall|i: int| 0 <= i < 4 * k ==> #[trigger] v@[i] == genome_bytes(*self)[i],
            decreases WEIGHT_COUNT - k,
        {
            let x = self.w[k];
            v.push(((x >> 0) & 0xff) as u8);
            v.push(((x >> 8) & 0xff) as u8);
            v.push(((x >> 16) & 0xff) as u8);
            v.push(((x >> 24) & 0xff) as u8);
            proof {
                assert((4 * k) / 4 == k && (4 * k) % 4 == 0);
                assert((4 * k + 1) / 4 == k && (4 * k + 1) % 4 == 1);
                assert((4 * k + 2) / 4 == k && (4 * k + 2) % 4 == 2);
                assert((4 * k + 3) / 4 == k && (4 * k + 3) % 4 == 3);
            }
            k += 1;
        }
        proof {
            assert(v@ =~= genome_bytes(*self));
        }
        v
    }

    /// Decodes a genome from checkpoint bytes at an offset.
    pub fn load(data: &Vec<u8>, off: usize) -> (g: Genome)
        requires
            off + WEIGHT_COUNT * 4 <= data@.len(),
        ensures
            g.wf(),
            forall|k: int|
                0 <= k < WEIGHT_COUNT ==> #[trigger] g.w@[k] == u32_from_bytes(
                    data@,
                    off + 4 * k,
                ),
    {
        let n = data.len();
        let mut w: Vec<u32> = Vec::new();
        let mut k: usize = 0;
        while k < WEIGHT_COUNT
            invariant
                k <= WEIGHT_COUNT,
                n == data@.len(),
                off + WEIGHT_COUNT * 4 <= n,
                w@.len() == k,
                forall|i: int|
                    0 <= i < k ==> #[trigger] w@[i] == u32_from_bytes(data@, off + 4 * i),
            decreases WEIGHT_COUNT - k,
        {
            let base = off + 4 * k;
            let x = (data[base] as u32) | ((data[base + 1] as u32) << 8) | ((data[base + 2]
                as u32) << 16) | ((data[base + 3] as u32) << 24);
            w.push(x);
            k += 1;
        }
        Genome { w }
    }
}

} // verus!
