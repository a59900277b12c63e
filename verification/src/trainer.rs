//! Self-play fitness and the evolutionary population.
//!
//! One individual pairs a heuristic genome with the fitness its last
//! self-play game earned: the number of moves the depth-bounded
//! search survived from the canonical start.  A population is an
//! ordered list of individuals with a generation counter; it is
//! serialized to a checkpoint (all genomes in order, then the
//! generation, all little-endian), evolved by fitness-proportionate
//! selection with a floor at nine tenths of the worst fitness, and
//! recombined by per-lane crossover.

use vstd::prelude::*;

use rand::distributions::Distribution;

use crate::engine::{spawn_word, Board, Setup};
use crate::genome::{
    byte32_of, genome_bytes, lemma_genome_roundtrip, lemma_u32_readback, u32_from_bytes, Genome,
    WEIGHT_COUNT,
};
use crate::search::ai_spec;
use crate::seeds::Seed;

verus! {

/// The checkpoint size of one genome.
pub const GENOME_BYTES: usize = WEIGHT_COUNT * 4;

/// Offsets into the checkpoint: genome `b` of `n` occupies the bytes
/// from `b * GENOME_BYTES` on, within the first `n * GENOME_BYTES`.
proof fn lemma_off_step(b: int, n: int)
    by (nonlinear_arith)
    requires
        0 <= b < n,
    ensures
        (b + 1) * (GENOME_BYTES as int) == b * (GENOME_BYTES as int) + GENOME_BYTES,
        (b + 1) * (GENOME_BYTES as int) <= n * (GENOME_BYTES as int),
        0 <= b * (GENOME_BYTES as int),
{
}

/// One individual: a heuristic genome and the fitness its last
/// self-play game earned.
#[derive(Clone, Debug)]
pub struct Game {
    pub network: Genome,
    pub score: usize,
}

/// The first word of a fresh game: two spawns on the empty board.
pub open spec fn start_word(e: Seq<Seed>) -> u64 {
    spawn_word(e, 1, spawn_word(e, 0, 0, 16), 15)
}

/// The final ply and word of driving the depth-bounded search from
/// ply `turn` and word `d`, one move and spawn per ply, until no
/// move is legal or the spawn sequence cannot cover one more search.
pub open spec fn play_from(e: Seq<Seed>, depth: int, turn: int, d: u64) -> (int, u64)
    decreases e.len() - turn,
{
    if turn < 0 || depth < 1 || turn + depth > e.len() {
        (turn, d)
    } else {
        let t = ai_spec(e, depth, turn, d);
        if t.1 {
            play_from(e, depth, turn + 1, t.2)
        } else {
            (turn, d)
        }
    }
}

/// One step of the game loop, as `play_from` sees it.
#[verifier::rlimit(100)]
proof fn lemma_play_unfold(e: Seq<Seed>, depth: int, turn: int, d: u64)
    requires
        0 <= turn,
        1 <= depth,
    ensures
        turn + depth > e.len() ==> play_from(e, depth, turn, d) == (turn, d),
        turn + depth <= e.len() ==> ({
            let t = ai_spec(e, depth, turn, d);
            &&& (t.1 ==> play_from(e, depth, turn, d) == play_from(e, depth, turn + 1, t.2))
            &&& (!t.1 ==> play_from(e, depth, turn, d) == (turn, d))
        }),
{
}

/// Identically seeded runs are identical: the game trace is a pure
/// function of the spawn sequence and the search depth, so two runs
/// over equal sequences end on the same ply with the same word.
pub proof fn lemma_reproducible(e1: Seq<Seed>, e2: Seq<Seed>, depth: int)
    requires
        e1 == e2,
    ensures
        play_from(e1, depth, 2, start_word(e1)) == play_from(e2, depth, 2, start_word(e2)),
{
}

impl Game {
    /// Pairs a genome with a zero fitness.
    pub fn new(network: Genome) -> (g: Game)
        ensures
            g.network == network,
            g.score == 0,
    {
        Game { network, score: 0 }
    }

    /// Plays one full game from the canonical start, choosing every
    /// move with the depth-bounded search, and records the number of
    /// moves survived as the fitness.
    pub fn run_with_ai(&mut self, setup: &Setup, depth: usize) -> (b: Board)
        requires
            setup.tables.wf(),
            setup.seeds.wf(),
            setup.seeds.entries@.len() >= 2,
            1 <= depth,
        ensures
            ({
                let r = play_from(
                    setup.seeds.entries@,
                    depth as int,
                    2,
                    start_word(setup.seeds.entries@),
                );
                &&& b.turn == r.0
                &&& b.data.0 == r.1
                &&& final(self).score + 2 == r.0
                &&& final(self).network == old(self).network
            }),
    {
        let n = setup.seeds.entries.len();
        let ghost e = setup.seeds.entries@;
        let mut board = Board::new(&setup.seeds);
        let mut result: usize = 0;
        loop
            invariant
                setup.tables.wf(),
                setup.seeds.wf(),
                n == e.len(),
                e == setup.seeds.entries@,
                1 <= depth,
                2 <= board.turn <= n,
                board.turn == result + 2,
                *self == *old(self),
                play_from(e, depth as int, board.turn as int, board.data.0) == play_from(
                    e,
                    depth as int,
                    2,
                    start_word(e),
                ),
            ensures
                2 <= board.turn,
                board.turn == result + 2,
                *self == *old(self),
                e == setup.seeds.entries@,
                play_from(e, depth as int, 2, start_word(e)).0 == board.turn,
                play_from(e, depth as int, 2, start_word(e)).1 == board.data.0,
            decreases n - board.turn,
        {
            proof {
                lemma_play_unfold(e, depth as int, board.turn as int, board.data.0);
            }
            if depth > n - board.turn {
                break ;
            }
            let r = board.ai(setup, depth);
            match r.1 {
                Some(b2) => {
                    board = b2;
                    result += 1;
                },
                None => {
                    break ;
                },
            }
        }
        self.score = result;
        board
    }
}

/// The population: the individuals in fitness order and the
/// generation counter.
#[derive(Clone, Debug)]
pub struct Population {
    pub bots: Vec<Game>,
    pub generation: u32,
}

/// The total of a weight list's first `i` entries.
pub open spec fn total_weight(s: Seq<usize>, i: int) -> int
    decreases i,
{
    if i <= 0 {
        0
    } else {
        total_weight(s, i - 1) + s[i - 1]
    }
}

/// Relies on rand's WeightedIndex (rand 0.8): on a non-empty list of
/// usize weights with a positive total that fits the weight type,
/// `new` succeeds, and `sample` with the thread generator returns an
/// index whose weight is positive (a zero-weight index has an empty
/// slice of the cumulative range and cannot be drawn).
#[verifier::external_body]
fn sample_weighted(weights: &Vec<usize>) -> (i: usize)
    requires
        weights@.len() > 0,
        0 < total_weight(weights@, weights@.len() as int),
        total_weight(weights@, weights@.len() as int) <= usize::MAX,
    ensures
        i < weights@.len(),
        weights@[i as int] > 0,
{
    let dist = rand::distributions::WeightedIndex::new(weights.iter()).unwrap();
    dist.sample(&mut rand::thread_rng())
}

/// Draws one index with probability proportional to its weight.
/// Whatever the draw, the index is in range and its weight positive.
pub fn select_index(weights: &Vec<usize>) -> (i: usize)
    requires
        weights@.len() > 0,
        0 < total_weight(weights@, weights@.len() as int),
        total_weight(weights@, weights@.len() as int) <= usize::MAX,
    ensures
        i < weights@.len(),
        weights@[i as int] > 0,
{
    sample_weighted(weights)
}

impl Population {
    /// Every individual holds a full genome.
    pub open spec fn wf(self) -> bool {
        forall|b: int| 0 <= b < self.bots@.len() ==> (#[trigger] self.bots@[b]).network.wf()
    }

    /// The sampling weights for selection: every fitness minus a
    /// floor of nine tenths of the worst (last) fitness, so that all
    /// weights stay non-negative while better individuals keep a
    /// strictly larger share.  Fitter individuals never get a
    /// smaller weight.
    pub fn selection_weights(&self) -> (w: Vec<usize>)
        requires
            self.bots@.len() > 0,
            forall|i: int|
                0 <= i < self.bots@.len() ==> self.bots@[self.bots@.len() - 1].score
                    <= (#[trigger] self.bots@[i]).score,
            self.bots@[self.bots@.len() - 1].score * 9 <= usize::MAX,
        ensures
            w@.len() == self.bots@.len(),
            forall|i: int|
                0 <= i < self.bots@.len() ==> #[trigger] w@[i] == self.bots@[i].score - (
                self.bots@[self.bots@.len() - 1].score * 9) / 10,
            forall|i: int, j: int|
                0 <= i < self.bots@.len() && 0 <= j < self.bots@.len() && self.bots@[i].score
                    >= self.bots@[j].score ==> #[trigger] w@[i] >= #[trigger] w@[j],
    {
        let nb = self.bots.len();
        let min = self.bots[nb - 1].score;
        let floor = min * 9 / 10;
        proof {
            assert(min * 9 / 10 <= min) by (nonlinear_arith);
        }
        let mut w: Vec<usize> = Vec::new();
        let mut i: usize = 0;
        while i < nb
            invariant
                i <= nb,
                nb == self.bots@.len(),
                nb > 0,
                min == self.bots@[nb - 1].score,
                floor == (min * 9) / 10,
                floor <= min,
                forall|k: int|
                    0 <= k < nb ==> min <= (#[trigger] self.bots@[k]).score,
                w@.len() == i,
                forall|k: int| 0 <= k < i ==> #[trigger] w@[k] == self.bots@[k].score - floor,
            decreases nb - i,
        {
            w.push(self.bots[i].score - floor);
            i += 1;
        }
        w
    }

    /// Encodes the population as one checkpoint: every genome's
    /// lanes in order, then the generation, all little-endian.
    pub fn dump(&self) -> (v: Vec<u8>)
        requires
            self.wf(),
            self.bots@.len() * GENOME_BYTES + 4 <= usize::MAX,
        ensures
            v@.len() == self.bots@.len() * GENOME_BYTES + 4,
            forall|b: int|
                0 <= b < self.bots@.len() ==> v@.subrange(
                    b * GENOME_BYTES,
                    (b + 1) * GENOME_BYTES,
                ) == genome_bytes((#[trigger] self.bots@[b]).network),
            forall|j: int|
                0 <= j < 4 ==> v@[self.bots@.len() * GENOME_BYTES + j] == byte32_of(
                    self.generation,
                    j,
                ),
    {
        let nb = self.bots.len();
        let mut v: Vec<u8> = Vec::new();
        let mut b: usize = 0;
        while b < nb
            invariant
                b <= nb,
                nb == self.bots@.len(),
                self.wf(),
                nb * GENOME_BYTES + 4 <= usize::MAX,
                v@.len() == b * GENOME_BYTES,
                forall|x: int|
                    0 <= x < b ==> v@.subrange(x * GENOME_BYTES, (x + 1) * GENOME_BYTES)
                        == genome_bytes((#[trigger] self.bots@[x]).network),
            decreases nb - b,
        {
            let ghost v0 = v@;
            let mut gb = self.bots[b].network.dump();
            v.append(&mut gb);
            proof {
                lemma_off_step(b as int, nb as int);
                assert forall|x: int|
                    0 <= x < b + 1 implies v@.subrange(x * GENOME_BYTES, (x + 1) * GENOME_BYTES)
                    == genome_bytes((#[trigger] self.bots@[x]).network) by {
                    lemma_off_step(x, b + 1);
                    if x < b {
                        lemma_off_step(x, b as int);
                        assert(v@.subrange(x * GENOME_BYTES, (x + 1) * GENOME_BYTES) =~= v0
                            .subrange(x * GENOME_BYTES, (x + 1) * GENOME_BYTES));
                    } else {
                        assert(v@.subrange(x * GENOME_BYTES, (x + 1) * GENOME_BYTES)
                            =~= genome_bytes(self.bots@[x].network));
                    }
                }
            }
            b += 1;
        }
        let g = self.generation;
        v.push(((g >> 0) & 0xff) as u8);
        v.push(((g >> 8) & 0xff) as u8);
        v.push(((g >> 16) & 0xff) as u8);
        v.push(((g >> 24) & 0xff) as u8);
        proof {
            assert forall|x: int|
                0 <= x < nb implies v@.subrange(x * GENOME_BYTES, (x + 1) * GENOME_BYTES)
                == genome_bytes((#[trigger] self.bots@[x]).network) by {
                lemma_off_step(x, nb as int);
                assert(v@.subrange(x * GENOME_BYTES, (x + 1) * GENOME_BYTES) =~= genome_bytes(
                    self.bots@[x].network,
                ));
            }
        }
        v
    }

    /// Decodes a population from a checkpoint holding `count`
    /// genomes.  A checkpoint of any other size is malformed and
    /// rejected by the precondition; every fitness starts at zero.
    pub fn load(data: &Vec<u8>, count: usize) -> (p: Population)
        requires
            count * GENOME_BYTES + 4 == data@.len(),
        ensures
            p.wf(),
            p.bots@.len() == count,
            forall|b: int| 0 <= b < count ==> (#[trigger] p.bots@[b]).score == 0,
            forall|b: int, k: int|
                0 <= b < count && 0 <= k < WEIGHT_COUNT ==> (#[trigger] p.bots@[b].network.w@[k])
                    == u32_from_bytes(data@, b * GENOME_BYTES + 4 * k),
            p.generation == u32_from_bytes(data@, count * GENOME_BYTES),
    {
        let n = data.len();
        let mut bots: Vec<Game> = Vec::new();
        let mut b: usize = 0;
        while b < count
            invariant
                b <= count,
                n == data@.len(),
                count * GENOME_BYTES + 4 == n,
                bots@.len() == b,
                forall|x: int| 0 <= x < b ==> (#[trigger] bots@[x]).score == 0,
                forall|x: int| 0 <= x < b ==> (#[trigger] bots@[x]).network.wf(),
                forall|x: int, k: int|
                    0 <= x < b && 0 <= k < WEIGHT_COUNT ==> (#[trigger] bots@[x].network.w@[k])
                        == u32_from_bytes(data@, x * GENOME_BYTES + 4 * k),
            decreases count - b,
        {
            proof {
                lemma_off_step(b as int, count as int);
            }
            let g = Genome::load(data, b * GENOME_BYTES);
            bots.push(Game::new(g));
            b += 1;
        }
        let base = count * GENOME_BYTES;
        let gen = (data[base] as u32) | ((data[base + 1] as u32) << 8) | ((data[base + 2]
            as u32) << 16) | ((data[base + 3] as u32) << 24);
        Population { bots, generation: gen }
    }
}

/// Checkpoint round trip: a population decoded from the checkpoint
/// of another restores every weight bit for bit and the generation
/// exactly.
pub proof fn lemma_checkpoint_roundtrip(p: Population, v: Seq<u8>, q: Population)
    requires
        p.wf(),
        v.len() == p.bots@.len() * GENOME_BYTES + 4,
        forall|b: int|
            0 <= b < p.bots@.len() ==> v.subrange(b * GENOME_BYTES, (b + 1) * GENOME_BYTES)
                == genome_bytes((#[trigger] p.bots@[b]).network),
        forall|j: int|
            0 <= j < 4 ==> v[p.bots@.len() * GENOME_BYTES + j] == byte32_of(p.generation, j),
        q.bots@.len() == p.bots@.len(),
        forall|b: int, k: int|
            0 <= b < q.bots@.len() && 0 <= k < WEIGHT_COUNT ==> #[trigger] q.bots@[b].network.w@[k]
                == u32_from_bytes(v, b * GENOME_BYTES + 4 * k),
        q.generation == u32_from_bytes(v, p.bots@.len() * GENOME_BYTES),
    ensures
        forall|b: int, k: int|
            0 <= b < p.bots@.len() && 0 <= k < WEIGHT_COUNT ==> #[trigger] q.bots@[b].network.w@[k]
                == p.bots@[b].network.w@[k],
        q.generation == p.generation,
{
    let nb = p.bots@.len() as int;
    assert forall|b: int, k: int|
        0 <= b < nb && 0 <= k < WEIGHT_COUNT implies (#[trigger] q.bots@[b].network.w@[k])
        == p.bots@[b].network.w@[k] by {
        lemma_off_step(b, nb);
        let seg = v.subrange(b * GENOME_BYTES, (b + 1) * GENOME_BYTES);
        assert(seg == genome_bytes(p.bots@[b].network));
        assert(4 * k + 3 < GENOME_BYTES);
        assert(seg[4 * k] == v[b * GENOME_BYTES + 4 * k]);
        assert(seg[4 * k + 1] == v[b * GENOME_BYTES + 4 * k + 1]);
        assert(seg[4 * k + 2] == v[b * GENOME_BYTES + 4 * k + 2]);
        assert(seg[4 * k + 3] == v[b * GENOME_BYTES + 4 * k + 3]);
        lemma_genome_roundtrip(p.bots@[b].network, k);
    }
    lemma_u32_readback(p.generation, v, nb * GENOME_BYTES);
}

} // verus!
