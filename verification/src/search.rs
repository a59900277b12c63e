//! Depth-bounded move search over the analytic positional score.
//!
//! The score walks the board in a snake path (rows alternate
//! direction) and adds the cube of every exponent that rises above
//! its predecessor, so monotone descending arrangements score low:
//! lower is better, and the search minimises.  The search explores
//! only the agent's own four moves; each legal candidate already
//! carries its spawn, so a branch samples the one opponent reply the
//! spawn sequence dictates instead of branching over all spawns.
//! Ties keep the earlier direction in the order down, right, up,
//! left.

use vstd::prelude::*;

use crate::codec::nib;
use crate::engine::{
    down_word, empties, empties_upto, free_rl_spec, free_ud_spec, left_word, lemma_free_words,
    lemma_move_legal, right_word, spawn_word, up_word, Board, Data, Setup,
};
use crate::seeds::Seed;

verus! {

/// The cell at snake position `j`: even rows are walked left to
/// right, odd rows right to left.
pub open spec fn snake_cell(j: int) -> int {
    if (j / 4) % 2 == 0 {
        j
    } else {
        4 * (j / 4) + 3 - (j % 4)
    }
}

/// The penalty accumulated from snake position `j` on, with `before`
/// the exponent seen at the previous position (1000 at the start, so
/// the first cell is never penalised).
pub open spec fn score_from(d: u64, j: int, before: u64) -> int
    decreases 16 - j,
{
    if j < 0 || j >= 16 {
        0
    } else {
        let num = nib(d, snake_cell(j));
        (if num > before {
            num * num * num
        } else {
            0int
        }) + score_from(d, j + 1, num)
    }
}

/// The analytic score of a board word: the sum of cubed exponents at
/// every rise along the snake path.  Lower is better.
pub open spec fn score_spec(d: u64) -> int {
    score_from(d, 0, 1000)
}

/// The score is non-negative and bounded by 16 rises of the largest
/// exponent.
pub proof fn lemma_score_bounds(d: u64, j: int, before: u64)
    requires
        0 <= j <= 16,
    ensures
        0 <= score_from(d, j, before) <= (16 - j) * 3375,
    decreases 16 - j,
{
    if j < 16 {
        let num = nib(d, snake_cell(j));
        crate::codec::lemma_nib_bound_all(d);
        assert(num * num * num <= 3375) by (nonlinear_arith)
            requires
                num < 16,
        ;
        lemma_score_bounds(d, j + 1, num);
    }
}

/// Masking a 4-bit field in place and shifting it down reads the
/// cell; the field is zero exactly when the cell is empty.
proof fn lemma_mask_shift(d: u64, p: u64)
    by (bit_vector)
    requires
        p < 16,
    ensures
        ((d & (0xfu64 << (4 * p))) >> (4 * p)) == nib(d, p as int),
        (d & (0xfu64 << (4 * p)) == 0) == (nib(d, p as int) == 0),
        nib(d, p as int) < 16,
{
}

/// The smaller of two search values.
pub open spec fn imin(a: int, b: int) -> int {
    if a <= b {
        a
    } else {
        b
    }
}

/// The value of the depth-bounded search below a board word: at
/// depth 0 the word's score, otherwise the minimum over the legal
/// moves (down, right, up, left) of the value of the spawned
/// candidate one level deeper, starting from a sentinel that any
/// real line beats.
#[verifier::opaque]
pub open spec fn node_spec(e: Seq<Seed>, depth: int, turn: int, d: u64) -> int
    decreases depth,
{
    if depth <= 0 {
        score_spec(d)
    } else {
        let s0 = 100_000_000int;
        let s1 = if d != down_word(d) {
            imin(
                s0,
                node_spec(e, depth - 1, turn + 1, spawn_word(e, turn, down_word(d), free_ud_spec(d))),
            )
        } else {
            s0
        };
        let s2 = if d != right_word(d) {
            imin(
                s1,
                node_spec(
                    e,
                    depth - 1,
                    turn + 1,
                    spawn_word(e, turn, right_word(d), free_rl_spec(d)),
                ),
            )
        } else {
            s1
        };
        let s3 = if d != up_word(d) {
            imin(
                s2,
                node_spec(e, depth - 1, turn + 1, spawn_word(e, turn, up_word(d), free_ud_spec(d))),
            )
        } else {
            s2
        };
        if d != left_word(d) {
            imin(
                s3,
                node_spec(e, depth - 1, turn + 1, spawn_word(e, turn, left_word(d), free_rl_spec(d))),
            )
        } else {
            s3
        }
    }
}

/// What the top-level search chooses, accumulated in the try order
/// down, right, up, left: the direction character, whether a legal
/// move was found, the spawned word of the best line, and its value.
/// A strictly better line replaces the current choice, so ties keep
/// the earlier direction.
#[verifier::opaque]
pub open spec fn ai_spec(e: Seq<Seed>, depth: int, turn: int, d: u64) -> (char, bool, u64, int) {
    let t0 = ('U', false, 0u64, 100_000_001int);
    let t1 = if d != down_word(d) {
        let w = spawn_word(e, turn, down_word(d), free_ud_spec(d));
        let sc = node_spec(e, depth - 1, turn + 1, w);
        if sc < t0.3 {
            ('D', true, w, sc)
        } else {
            t0
        }
    } else {
        t0
    };
    let t2 = if d != right_word(d) {
        let w = spawn_word(e, turn, right_word(d), free_rl_spec(d));
        let sc = node_spec(e, depth - 1, turn + 1, w);
        if sc < t1.3 {
            ('R', true, w, sc)
        } else {
            t1
        }
    } else {
        t1
    };
    let t3 = if d != up_word(d) {
        let w = spawn_word(e, turn, up_word(d), free_ud_spec(d));
        let sc = node_spec(e, depth - 1, turn + 1, w);
        if sc < t2.3 {
            ('U', true, w, sc)
        } else {
            t2
        }
    } else {
        t2
    };
    if d != left_word(d) {
        let w = spawn_word(e, turn, left_word(d), free_rl_spec(d));
        let sc = node_spec(e, depth - 1, turn + 1, w);
        if sc < t3.3 {
            ('L', true, w, sc)
        } else {
            t3
        }
    } else {
        t3
    }
}

/// The search depth for a board with `free` empty cells: deeper as
/// the board fills, clamped between 5 and 9.
pub open spec fn depth_for(free: int) -> int {
    if free >= 8 {
        5
    } else if free <= 4 {
        9
    } else {
        13 - free
    }
}

impl Board {
    /// The analytic positional score of the board (lower is better).
    pub fn score(&self) -> (s: usize)
        ensures
            s == score_spec(self.data.0),
            s <= 54000,
    {
        let d = self.data.0;
        let mut sc: usize = 0;
        let mut before: u64 = 1000;
        let mut j: usize = 0;
        while j < 16
            invariant
                j <= 16,
                sc + score_from(d, j as int, before) == score_spec(d),
                sc <= 3375 * j,
            decreases 16 - j,
        {
            let row = j / 4;
            let col = j % 4;
            let cell = if row % 2 == 0 {
                j
            } else {
                row * 4 + 3 - col
            };
            let shift = cell * 4;
            let num = (d & (0xfu64 << shift)) >> shift;
            proof {
                assert(cell == snake_cell(j as int));
                lemma_mask_shift(d, cell as u64);
                assert(num * num <= 225) by (nonlinear_arith)
                    requires
                        num < 16,
                ;
                assert(num * num * num <= 3375) by (nonlinear_arith)
                    requires
                        num < 16,
                ;
            }
            if num > before {
                sc += (num * num * num) as usize;
            }
            before = num;
            j += 1;
        }
        proof {
            lemma_score_bounds(d, 0, 1000);
        }
        sc
    }

    /// The search value below this board.  At depth 0 this is exactly
    /// the board's score, with no recursion.
    pub fn node(&self, setup: &Setup, depth: usize) -> (s: usize)
        requires
            setup.tables.wf(),
            setup.seeds.wf(),
            self.turn + depth <= setup.seeds.entries@.len(),
        ensures
            s == node_spec(setup.seeds.entries@, depth as int, self.turn as int, self.data.0),
            depth == 0 ==> s == score_spec(self.data.0),
            s <= 100_000_000,
        decreases depth,
    {
        proof {
            reveal(node_spec);
        }
        if depth == 0 {
            return self.score();
        }
        let d = self.data.0;
        let m = self.moves(&setup.tables);
        proof {
            lemma_free_words(d);
            lemma_move_legal(d);
        }
        let mut sc: usize = 100_000_000;
        if self.data != m.down {
            let b = self.spawn(&setup.seeds, m.down, m.free_ud);
            let s = b.node(setup, depth - 1);
            if s < sc {
                sc = s;
            }
        }
        if self.data != m.right {
            let b = self.spawn(&setup.seeds, m.right, m.free_rl);
            let s = b.node(setup, depth - 1);
            if s < sc {
                sc = s;
            }
        }
        if self.data != m.up {
            let b = self.spawn(&setup.seeds, m.up, m.free_ud);
            let s = b.node(setup, depth - 1);
            if s < sc {
                sc = s;
            }
        }
        if self.data != m.left {
            let b = self.spawn(&setup.seeds, m.left, m.free_rl);
            let s = b.node(setup, depth - 1);
            if s < sc {
                sc = s;
            }
        }
        sc
    }

    /// Picks the best move at the given depth: tries down, right, up,
    /// left in that order, keeps the strictly best line, and returns
    /// its direction character with the spawned board, or `None` when
    /// no move is legal and the game is over.
    pub fn ai(&self, setup: &Setup, depth: usize) -> (r: (char, Option<Board>))
        requires
            setup.tables.wf(),
            setup.seeds.wf(),
            1 <= depth,
            self.turn + depth <= setup.seeds.entries@.len(),
        ensures
            ({
                let t = ai_spec(setup.seeds.entries@, depth as int, self.turn as int, self.data.0);
                &&& r.0 == t.0
                &&& (r.1 is Some <==> t.1)
                &&& (t.1 ==> r.1 == Some(
                    Board { turn: (self.turn + 1) as usize, data: Data(t.2) },
                ))
            }),
    {
        let d = self.data.0;
        let m = self.moves(&setup.tables);
        proof {
            reveal(ai_spec);
            lemma_free_words(d);
            lemma_move_legal(d);
        }
        let mut sc: usize = 100_000_001;
        let mut res: Option<Board> = None;
        let mut c: char = 'U';
        if self.data != m.down {
            let b = self.spawn(&setup.seeds, m.down, m.free_ud);
            let s = b.node(setup, depth - 1);
            if s < sc {
                res = Some(b);
                sc = s;
                c = 'D';
            }
        }
        if self.data != m.right {
            let b = self.spawn(&setup.seeds, m.right, m.free_rl);
            let s = b.node(setup, depth - 1);
            if s < sc {
                res = Some(b);
                sc = s;
                c = 'R';
            }
        }
        if self.data != m.up {
            let b = self.spawn(&setup.seeds, m.up, m.free_ud);
            let s = b.node(setup, depth - 1);
            if s < sc {
                res = Some(b);
                sc = s;
                c = 'U';
            }
        }
        if self.data != m.left {
            let b = self.spawn(&setup.seeds, m.left, m.free_rl);
            let s = b.node(setup, depth - 1);
            if s < sc {
                res = Some(b);
                sc = s;
                c = 'L';
            }
        }
        (c, res)
    }

    /// Picks a move with the depth chosen from the number of empty
    /// cells: fewer empty cells buy a deeper search.
    pub fn auto_ai(&self, setup: &Setup) -> (r: (char, Option<Board>))
        requires
            setup.tables.wf(),
            setup.seeds.wf(),
            self.turn + 9 <= setup.seeds.entries@.len(),
        ensures
            ({
                let t = ai_spec(
                    setup.seeds.entries@,
                    depth_for(empties(self.data.0)),
                    self.turn as int,
                    self.data.0,
                );
                &&& r.0 == t.0
                &&& (r.1 is Some <==> t.1)
                &&& (t.1 ==> r.1 == Some(
                    Board { turn: (self.turn + 1) as usize, data: Data(t.2) },
                ))
            }),
    {
        let d = self.data.0;
        let mut free: usize = 0;
        let mut i: usize = 0;
        while i < 16
            invariant
                i <= 16,
                free <= i,
                free == empties_upto(d, i as int),
            decreases 16 - i,
        {
            let shift = i * 4;
            proof {
                lemma_mask_shift(d, i as u64);
            }
            if d & (0xfu64 << shift) == 0 {
                free += 1;
            }
            i += 1;
        }
        let depth = if free >= 8 {
            5
        } else if free <= 4 {
            9
        } else {
            13 - free
        };
        self.ai(setup, depth)
    }
}

} // verus!
