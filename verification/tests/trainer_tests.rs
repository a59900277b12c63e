use engine2048::engine::set_up;
use engine2048::genome::{Genome, WEIGHT_COUNT};
use engine2048::trainer::{select_index, Game, Population};

fn flat(v: u32) -> Genome {
    Genome::new(vec![v; WEIGHT_COUNT])
}

fn patterned(base: u32) -> Genome {
    let w: Vec<u32> = (0..WEIGHT_COUNT as u32).map(|k| base.wrapping_mul(2654435761).wrapping_add(k)).collect();
    Genome::new(w)
}

#[test]
fn selection_weights_formula() {
    // fitness 30, 20, 10 in rank order: floor is 9, weights 21, 11, 1
    let mut bots = Vec::new();
    for score in [30usize, 20, 10] {
        let mut g = Game::new(flat(0));
        g.score = score;
        bots.push(g);
    }
    let p = Population { bots, generation: 0 };
    let w = p.selection_weights();
    assert_eq!(w, vec![21, 11, 1]);
}

#[test]
fn selection_favors_the_fit() {
    // over many draws, the heaviest index must come up strictly more
    // often than the lightest
    let weights = vec![1usize, 11, 21];
    let mut counts = [0usize; 3];
    for _ in 0..3000 {
        counts[select_index(&weights)] += 1;
    }
    assert!(counts[2] > counts[0], "counts {:?}", counts);
    assert!(counts[1] > counts[0], "counts {:?}", counts);
}

#[test]
fn checkpoint_roundtrip() {
    let bots = vec![Game::new(patterned(3)), Game::new(patterned(7))];
    let p = Population { bots, generation: 9 };
    let bytes = p.dump();
    assert_eq!(bytes.len(), 2 * WEIGHT_COUNT * 4 + 4);
    let q = Population::load(&bytes, 2);
    assert_eq!(q.generation, p.generation);
    for b in 0..2 {
        assert_eq!(q.bots[b].network, p.bots[b].network);
        assert_eq!(q.bots[b].score, 0);
    }
}

#[test]
fn crossover_swaps_masked_lanes() {
    let a = flat(1);
    let b = flat(2);
    let mask: Vec<bool> = (0..WEIGHT_COUNT).map(|k| k % 2 == 0).collect();
    let (c, d) = a.cross(&b, &mask);
    for k in 0..WEIGHT_COUNT {
        if mask[k] {
            assert_eq!(c.w[k], 2);
            assert_eq!(d.w[k], 1);
        } else {
            assert_eq!(c.w[k], 1);
            assert_eq!(d.w[k], 2);
        }
    }
}

#[test]
fn crossover_random_is_a_swap() {
    let a = patterned(1);
    let b = patterned(2);
    let (c, d) = a.cross_random(&b);
    for k in 0..WEIGHT_COUNT {
        let kept = c.w[k] == a.w[k] && d.w[k] == b.w[k];
        let swapped = c.w[k] == b.w[k] && d.w[k] == a.w[k];
        assert!(kept || swapped);
    }
}

#[test]
fn self_play_counts_its_moves() {
    let setup = set_up(123456);
    let mut game = Game::new(flat(0));
    let end = game.run_with_ai(&setup, 1);
    assert_eq!(end.turn, game.score + 2);
    let mut game2 = Game::new(flat(0));
    let end2 = game2.run_with_ai(&setup, 1);
    assert_eq!(end.data, end2.data);
    assert_eq!(game.score, game2.score);
}
