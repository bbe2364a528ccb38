use rust_gol::grid::Grid;
use rust_gol::step::advance;
use rust_gol::{Vec2Isize, GOL};

fn grid_of(cells: &[(isize, isize)]) -> Grid {
    let mut g = Grid::new();
    for &(x, y) in cells {
        g.set_cell(x, y, true);
    }
    g
}

fn sorted(cells: Vec<Vec2Isize>) -> Vec<(isize, isize)> {
    let mut v: Vec<(isize, isize)> = cells.into_iter().map(|c| (c.x, c.y)).collect();
    v.sort();
    v
}

fn contents(g: &Grid) -> Vec<(isize, isize)> {
    sorted(g.live_cells())
}

#[test]
fn new_grid_is_empty() {
    let g = Grid::new();
    assert!(g.is_empty());
    assert!(!g.get_cell(0, 0));
    assert!(g.live_cells().is_empty());
    let d: Grid = Default::default();
    assert!(d.is_empty());
}

#[test]
fn set_cell_makes_alive_and_dead() {
    let mut g = Grid::new();
    g.set_cell(3, -4, true);
    assert!(g.get_cell(3, -4));
    assert!(!g.get_cell(-4, 3));
    assert!(!g.is_empty());
    g.set_cell(3, -4, false);
    assert!(!g.get_cell(3, -4));
    assert!(g.is_empty());
}

#[test]
fn set_cell_leaves_other_cells_alone() {
    let mut g = grid_of(&[(0, 0), (0, 1), (5, 5)]);
    g.set_cell(0, 0, false);
    assert_eq!(contents(&g), vec![(0, 1), (5, 5)]);
}

#[test]
fn set_cell_at_lattice_extremes() {
    let mut g = Grid::new();
    g.set_cell(isize::MIN, isize::MAX, true);
    g.set_cell(isize::MAX, isize::MIN, true);
    assert!(g.get_cell(isize::MIN, isize::MAX));
    assert!(g.get_cell(isize::MAX, isize::MIN));
    assert_eq!(g.live_cells().len(), 2);
}

#[test]
fn clear_all_kills_everything() {
    let mut g = grid_of(&[(1, 2), (3, 4), (-7, 0)]);
    g.clear_all();
    assert!(g.is_empty());
    assert!(!g.get_cell(1, 2));
}

#[test]
fn get_grid_is_an_independent_copy() {
    let mut g = grid_of(&[(1, 1), (2, 2)]);
    let snap = g.get_grid();
    g.set_cell(1, 1, false);
    g.set_cell(9, 9, true);
    assert_eq!(contents(&snap), vec![(1, 1), (2, 2)]);
    assert_eq!(contents(&g), vec![(2, 2), (9, 9)]);
}

#[test]
fn live_cells_lists_each_cell_once() {
    let mut g = grid_of(&[(0, 0), (0, 1), (1, 0), (-3, 8)]);
    g.set_cell(0, 0, true);
    assert_eq!(contents(&g), vec![(-3, 8), (0, 0), (0, 1), (1, 0)]);
}

#[test]
fn from_cells_ignores_repeats() {
    let cells = vec![Vec2Isize::new(2, 3), Vec2Isize::new(2, 3), Vec2Isize::new(-1, 0)];
    let g = Grid::from_cells(&cells);
    assert_eq!(contents(&g), vec![(-1, 0), (2, 3)]);
}

#[test]
fn neighbour_counts() {
    let g = grid_of(&[(0, 0), (1, 0), (0, 1), (1, 1)]);
    assert_eq!(g.live_neighbor_count(0, 0), 3);
    assert_eq!(g.live_neighbor_count(-1, -1), 1);
    assert_eq!(g.live_neighbor_count(2, 0), 2);
    assert_eq!(g.live_neighbor_count(5, 5), 0);
    let full = grid_of(&[
        (-1, -1), (-1, 0), (-1, 1), (0, -1), (0, 1), (1, -1), (1, 0), (1, 1),
    ]);
    assert_eq!(full.live_neighbor_count(0, 0), 8);
}

#[test]
fn neighbour_count_at_the_edge() {
    let g = grid_of(&[(isize::MAX, 0), (isize::MAX, 1)]);
    assert_eq!(g.live_neighbor_count(isize::MAX, 2), 1);
    assert_eq!(g.live_neighbor_count(isize::MAX - 1, 1), 2);
}

#[test]
fn next_cell_state_follows_the_rule() {
    let g = grid_of(&[(0, 0), (1, 0), (2, 0)]);
    assert!(g.next_cell_state(1, 0));
    assert!(!g.next_cell_state(0, 0));
    assert!(g.next_cell_state(1, 1));
    assert!(g.next_cell_state(1, -1));
    assert!(!g.next_cell_state(0, 1));
}

#[test]
fn candidates_of_one_cell_are_its_neighbourhood() {
    let g = grid_of(&[(5, 5)]);
    let cands = sorted(g.candidate_cells());
    let mut expected = Vec::new();
    for x in 4..=6 {
        for y in 4..=6 {
            expected.push((x, y));
        }
    }
    assert_eq!(cands, expected);
}

#[test]
fn candidates_at_the_corner_stay_on_the_lattice() {
    let g = grid_of(&[(isize::MAX, isize::MAX)]);
    let cands = sorted(g.candidate_cells());
    assert_eq!(
        cands,
        vec![
            (isize::MAX - 1, isize::MAX - 1),
            (isize::MAX - 1, isize::MAX),
            (isize::MAX, isize::MAX - 1),
            (isize::MAX, isize::MAX),
        ]
    );
}

#[test]
fn advance_of_empty_is_empty() {
    let g = Grid::new();
    assert!(advance(&g).is_empty());
    assert!(GOL::update_from(&g).is_empty());
}

#[test]
fn block_is_a_still_life() {
    let block = [(0, 0), (1, 0), (0, 1), (1, 1)];
    let g = grid_of(&block);
    assert_eq!(contents(&advance(&g)), contents(&g));
    assert_eq!(contents(&GOL::update_from(&g)), contents(&g));
}

#[test]
fn blinker_oscillates() {
    let vertical = grid_of(&[(1, 0), (1, 1), (1, 2)]);
    let once = advance(&vertical);
    assert_eq!(contents(&once), vec![(0, 1), (1, 1), (2, 1)]);
    let twice = advance(&once);
    assert_eq!(contents(&twice), contents(&vertical));
    let par_once = GOL::update_from(&vertical);
    assert_eq!(contents(&par_once), vec![(0, 1), (1, 1), (2, 1)]);
    assert_eq!(contents(&GOL::update_from(&par_once)), contents(&vertical));
}

#[test]
fn isolated_cell_dies() {
    let g = grid_of(&[(5, 5)]);
    assert!(advance(&g).is_empty());
    assert!(GOL::update_from(&g).is_empty());
}

#[test]
fn birth_survival_and_overcrowding() {
    // An L of three cells: the corner's missing neighbour is born.
    let l = grid_of(&[(0, 0), (1, 0), (0, 1)]);
    assert_eq!(contents(&advance(&l)), vec![(0, 0), (0, 1), (1, 0), (1, 1)]);
    // A plus: the centre has four neighbours and dies.
    let plus = grid_of(&[(0, 0), (-1, 0), (1, 0), (0, -1), (0, 1)]);
    let next = advance(&plus);
    assert!(!next.get_cell(0, 0));
    assert!(next.get_cell(-1, 0));
    assert!(next.get_cell(1, 1));
}

#[test]
fn glider_moves_diagonally() {
    let glider = grid_of(&[(1, 0), (2, 1), (0, 2), (1, 2), (2, 2)]);
    let mut g = glider.get_grid();
    for _ in 0..4 {
        g = advance(&g);
    }
    assert_eq!(contents(&g), vec![(1, 3), (2, 1), (2, 3), (3, 2), (3, 3)]);
}

#[test]
fn sequential_and_parallel_agree() {
    let mut g = Grid::new();
    let mut seed: u64 = 12345;
    for _ in 0..400 {
        seed = seed.wrapping_mul(6364136223846793005).wrapping_add(1442695040888963407);
        let x = ((seed >> 33) % 40) as isize - 20;
        let y = ((seed >> 13) % 40) as isize - 20;
        g.set_cell(x, y, true);
    }
    let mut seq = g.get_grid();
    let mut par = g.get_grid();
    for _ in 0..10 {
        seq = advance(&seq);
        par = GOL::update_from(&par);
        assert_eq!(contents(&seq), contents(&par));
    }
}

#[test]
fn blinker_at_the_edge_loses_the_cell_beyond_it() {
    let g = grid_of(&[(isize::MAX, 0), (isize::MAX, 1), (isize::MAX, 2)]);
    assert_eq!(
        contents(&advance(&g)),
        vec![(isize::MAX - 1, 1), (isize::MAX, 1)]
    );
    assert_eq!(
        contents(&GOL::update_from(&g)),
        vec![(isize::MAX - 1, 1), (isize::MAX, 1)]
    );
}
