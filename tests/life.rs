use lifelike::display::{cell_color, frame_rgba, repr, text_rows};
use lifelike::engine::Life;
use lifelike::error::LifeError;
use lifelike::kernel::{count_neighbors, evaluate_cell, evaluate_range};
use lifelike::rules::{Params, RuleTable};

const SURVIVE: [u32; 9] = [0, 0, 1, 1, 0, 0, 0, 0, 0];
const BORN: [u32; 9] = [0, 0, 0, 1, 0, 0, 0, 0, 0];

fn classic(width: u32, height: u32, lifetime: u32) -> Params {
    Params::new(width, height, lifetime, SURVIVE, BORN)
}

fn grid(width: u32, height: u32, alive: &[(u32, u32)]) -> Vec<u32> {
    let mut cells = vec![0u32; (width * height) as usize];
    for &(x, y) in alive {
        cells[(y * width + x) as usize] = 1;
    }
    cells
}

fn engine(width: u32, height: u32, lifetime: u32, alive: &[(u32, u32)]) -> Life {
    Life::new(grid(width, height, alive), classic(width, height, lifetime)).unwrap()
}

fn scrambled(width: u32, height: u32) -> Vec<u32> {
    let mut state: u32 = 12345;
    (0..width * height)
        .map(|_| {
            state = state.wrapping_mul(1103515245).wrapping_add(12345);
            (state >> 16) & 1
        })
        .collect()
}

#[test]
fn rule_table_decodes_nonzero_as_set() {
    let t = RuleTable::new([0, 0, 1, 7, 0, 0, 0, 0, 0], BORN);
    for n in 0..9u32 {
        assert_eq!(t.survives(n), n == 2 || n == 3);
        assert_eq!(t.is_born(n), n == 3);
    }
}

#[test]
fn rule_table_rejects_wrong_lengths() {
    assert!(matches!(
        RuleTable::from_slices(&[0; 8], &BORN),
        Err(LifeError::InvalidRuleTableSize)
    ));
    assert!(matches!(
        RuleTable::from_slices(&SURVIVE, &[0; 10]),
        Err(LifeError::InvalidRuleTableSize)
    ));
    let t = RuleTable::from_slices(&SURVIVE, &BORN).unwrap();
    assert!(t.survives(2) && !t.is_born(2));
}

#[test]
fn params_keep_their_values() {
    let p = classic(8, 6, 4);
    assert_eq!((p.width, p.height, p.lifetime), (8, 6, 4));
    assert!(p.rules.is_born(3));
    assert!(matches!(
        Params::from_slices(8, 6, 4, &SURVIVE[..3], &BORN),
        Err(LifeError::InvalidRuleTableSize)
    ));
}

#[test]
fn construct_reports_each_error() {
    assert_eq!(
        Life::construct(0, 0, 0, &[0; 3], &BORN, vec![]).err(),
        Some(LifeError::InvalidRuleTableSize)
    );
    assert_eq!(
        Life::construct(0, 3, 0, &SURVIVE, &BORN, vec![]).err(),
        Some(LifeError::InvalidGridSize)
    );
    assert_eq!(
        Life::construct(3, 0, 0, &SURVIVE, &BORN, vec![]).err(),
        Some(LifeError::InvalidGridSize)
    );
    assert_eq!(
        Life::construct(3, 3, 0, &SURVIVE, &BORN, vec![0; 8]).err(),
        Some(LifeError::InvalidGridSize)
    );
    let life = Life::construct(3, 3, 2, &SURVIVE, &BORN, vec![1; 9]).unwrap();
    assert_eq!(life.generation(), 0);
    assert_eq!(life.cells(), &vec![1; 9]);
    assert_eq!(life.ages(), &vec![0; 9]);
    assert_eq!(life.params().lifetime, 2);
}

#[test]
fn new_rejects_mismatched_data() {
    assert_eq!(
        Life::new(vec![0; 5], classic(2, 2, 0)).err(),
        Some(LifeError::InvalidGridSize)
    );
}

#[test]
fn corner_counts_at_most_three() {
    let full = vec![1u32; 25];
    assert_eq!(count_neighbors(&full, 5, 5, 0, 0), 3);
    assert_eq!(count_neighbors(&full, 5, 5, 4, 4), 3);
    assert_eq!(count_neighbors(&full, 5, 5, 2, 0), 5);
    assert_eq!(count_neighbors(&full, 5, 5, 2, 2), 8);
    assert_eq!(count_neighbors(&full, 5, 5, 1, 3), 8);
}

#[test]
fn neighbor_count_ignores_the_cell_itself() {
    let one = grid(3, 3, &[(1, 1)]);
    assert_eq!(count_neighbors(&one, 3, 3, 1, 1), 0);
    assert_eq!(count_neighbors(&one, 3, 3, 0, 0), 1);
}

#[test]
fn block_is_a_still_life() {
    let block = grid(4, 4, &[(1, 1), (2, 1), (1, 2), (2, 2)]);
    let mut life = engine(4, 4, 0, &[(1, 1), (2, 1), (1, 2), (2, 2)]);
    for _ in 0..12 {
        life.step();
        assert_eq!(life.cells(), &block);
    }
    assert_eq!(life.generation(), 12);
}

#[test]
fn blinker_has_period_two() {
    let row = grid(5, 5, &[(1, 2), (2, 2), (3, 2)]);
    let column = grid(5, 5, &[(2, 1), (2, 2), (2, 3)]);
    let mut life = engine(5, 5, 0, &[(1, 2), (2, 2), (3, 2)]);
    life.step();
    assert_eq!(life.cells(), &column);
    life.step();
    assert_eq!(life.cells(), &row);
    life.step();
    assert_eq!(life.cells(), &column);
}

#[test]
fn empty_grid_stays_empty() {
    let mut life = engine(6, 4, 3, &[]);
    for _ in 0..7 {
        life.step();
        assert!(life.cells().iter().all(|&c| c == 0));
        assert!(life.ages().iter().all(|&a| a == 0));
    }
}

#[test]
fn lone_cell_dies() {
    let mut life = engine(3, 3, 5, &[(1, 1)]);
    life.step();
    assert_eq!(life.cells(), &vec![0; 9]);
}

#[test]
fn age_saturates_at_the_cap() {
    let mut life = engine(4, 4, 5, &[(1, 1), (2, 1), (1, 2), (2, 2)]);
    let expected = [1, 2, 3, 4, 5, 5, 5, 5, 5, 5];
    for want in expected {
        life.step();
        assert_eq!(life.ages()[5], want);
        assert_eq!(life.ages()[0], 0);
    }
    assert_eq!(life.ages()[5], 5);
}

#[test]
fn age_resets_after_death() {
    // The ends of a blinker live one generation in two; its centre lives throughout.
    let mut life = engine(5, 5, 5, &[(1, 2), (2, 2), (3, 2)]);
    life.step();
    assert_eq!(life.ages()[11], 0);
    assert_eq!(life.ages()[7], 1);
    assert_eq!(life.ages()[12], 1);
    life.step();
    assert_eq!(life.ages()[7], 0);
    assert_eq!(life.ages()[11], 1);
    assert_eq!(life.ages()[12], 2);
}

#[test]
fn ages_stay_zero_without_a_cap() {
    let mut life = engine(4, 4, 0, &[(1, 1), (2, 1), (1, 2), (2, 2)]);
    life.step();
    life.step();
    assert!(life.ages().iter().all(|&a| a == 0));
}

#[test]
fn reading_twice_gives_the_same_snapshot() {
    let mut life = Life::new(scrambled(9, 7), classic(9, 7, 3)).unwrap();
    life.step();
    let a = life.read_current();
    let b = life.read_current();
    assert_eq!(a.cells, b.cells);
    assert_eq!(a.ages, b.ages);
    assert_eq!((a.width, a.height), (9, 7));
    assert_eq!(&a.cells, life.cells());
}

#[test]
fn repeated_runs_agree() {
    let mut a = Life::new(scrambled(16, 12), classic(16, 12, 4)).unwrap();
    let mut b = Life::new(scrambled(16, 12), classic(16, 12, 4)).unwrap();
    for _ in 0..20 {
        a.step();
        b.step();
    }
    assert_eq!(a.cells(), b.cells());
    assert_eq!(a.ages(), b.ages());
}

#[test]
fn batches_in_any_order_match_a_step() {
    let p = classic(10, 8, 3);
    let cells = scrambled(10, 8);
    let ages = vec![1u32; 80];
    let mut whole = Life::new(cells.clone(), p).unwrap();
    whole.step();
    let mut next = vec![9u32; 80];
    let mut next_ages = vec![9u32; 80];
    for (lo, hi) in [(70, 80), (0, 13), (40, 70), (13, 40)] {
        evaluate_range(&p, &cells, &ages, &mut next, &mut next_ages, lo, hi);
    }
    assert_eq!(&next, whole.cells());
    for i in 0..80 {
        assert_eq!(evaluate_cell(&p, &cells, &ages, i).0, next[i]);
        assert_eq!(next_ages[i], if next[i] == 1 { 2 } else { 0 });
    }
}

#[test]
fn evaluate_range_leaves_other_cells() {
    let p = classic(3, 3, 0);
    let cells = grid(3, 3, &[(0, 1), (1, 1), (2, 1)]);
    let ages = vec![0u32; 9];
    let mut next = vec![7u32; 9];
    let mut next_ages = vec![7u32; 9];
    evaluate_range(&p, &cells, &ages, &mut next, &mut next_ages, 3, 6);
    assert_eq!(next, vec![7, 7, 7, 0, 1, 0, 7, 7, 7]);
}

#[test]
fn cell_colors() {
    assert_eq!(cell_color(false, 3, 5), [0, 0, 0, 255]);
    assert_eq!(cell_color(true, 0, 0), [255, 255, 255, 255]);
    assert_eq!(cell_color(true, 0, 5), [64, 64, 64, 255]);
    assert_eq!(cell_color(true, 2, 5), [140, 140, 140, 255]);
    assert_eq!(cell_color(true, 5, 5), [255, 255, 255, 255]);
}

#[test]
fn frame_has_four_bytes_per_cell() {
    let frame = frame_rgba(&vec![0, 1, 2], &vec![0, 1, 5], 5);
    assert_eq!(
        frame,
        vec![0, 0, 0, 255, 102, 102, 102, 255, 255, 255, 255, 255]
    );
}

#[test]
fn text_glyphs() {
    assert_eq!(repr(0), "__");
    assert_eq!(repr(1), "\u{2588}\u{2588}");
    assert_eq!(repr(42), "\u{2588}\u{2588}");
}

#[test]
fn text_rows_cut_by_width() {
    let rows = text_rows(&vec![0, 1, 1, 0, 0], 2);
    assert_eq!(rows, vec!["__\u{2588}\u{2588}", "\u{2588}\u{2588}__", "__"]);
    assert!(text_rows(&vec![], 3).is_empty());
}
