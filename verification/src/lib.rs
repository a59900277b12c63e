//! A verified engine for the sliding-tile game 2048.
//!
//! A board is a single 64-bit word: 16 nibbles, each the exponent of a
//! tile (0 means the cell is empty, `e` means the tile value `2^e`).
//! Moves are computed through precomputed lookup tables over all 65536
//! packed 4-cell lines, tile spawns follow a deterministic quadratic
//! residue sequence, and a depth-bounded search picks moves by an
//! analytic positional score.  A small genetic-algorithm layer (weight
//! vectors, fitness-proportionate selection, crossover, checkpoints)
//! supports training an external heuristic.

pub mod codec;
pub mod engine;
pub mod genome;
pub mod search;
pub mod snapshot;
pub mod seeds;
pub mod table;
pub mod timer;
pub mod trainer;
