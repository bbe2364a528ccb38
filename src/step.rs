use rayon::iter::IntoParallelRefIterator;
use rayon::iter::ParallelIterator;
use vstd::prelude::*;

use crate::coord::Vec2Isize;
use crate::grid::{cells_of, on_lattice, positions, Grid};

verus! {

/// 1 where `c` is alive, 0 where it is dead.
pub open spec fn alive_count(live: Set<(int, int)>, c: (int, int)) -> int {
    if live.contains(c) {
        1
    } else {
        0
    }
}

/// How many of the eight cells around `c` are alive.
pub open spec fn live_neighbors(live: Set<(int, int)>, c: (int, int)) -> int {
    alive_count(live, (c.0 - 1, c.1 - 1)) + alive_count(live, (c.0 - 1, c.1))
        + alive_count(live, (c.0 - 1, c.1 + 1)) + alive_count(live, (c.0, c.1 - 1))
        + alive_count(live, (c.0, c.1 + 1)) + alive_count(live, (c.0 + 1, c.1 - 1))
        + alive_count(live, (c.0 + 1, c.1)) + alive_count(live, (c.0 + 1, c.1 + 1))
}

/// Conway's rule: a live cell survives with two or three live neighbours, a dead
/// cell is born with exactly three, every other cell is dead next.
pub open spec fn next_alive(live: Set<(int, int)>, c: (int, int)) -> bool {
    live_neighbors(live, c) == 3 || (live.contains(c) && live_neighbors(live, c) == 2)
}

/// The generation after `live`: every lattice position that the rule makes alive.
pub open spec fn next_generation(live: Set<(int, int)>) -> Set<(int, int)> {
    Set::new(|c: (int, int)| on_lattice(c) && next_alive(live, c))
}

/// Whether `q` is `p` itself or one of its eight neighbours.
pub open spec fn touches(p: (int, int), q: (int, int)) -> bool {
    -1 <= q.0 - p.0 <= 1 && -1 <= q.1 - p.1 <= 1
}

/// The lattice positions that are alive or next to a live cell: the only ones
/// that can be alive in the next generation.
pub open spec fn candidates(live: Set<(int, int)>) -> Set<(int, int)> {
    Set::new(
        |q: (int, int)| on_lattice(q) && exists|p: (int, int)| live.contains(p) && #[trigger] touches(p, q),
    )
}

/// The lattice positions around `p`, `p` included.
pub open spec fn neighborhood(p: (int, int)) -> Set<(int, int)> {
    Set::new(|q: (int, int)| on_lattice(q) && touches(p, q))
}

/// A cell that the rule makes alive has a live cell next to it or is one.
pub proof fn lemma_alive_next_is_candidate(live: Set<(int, int)>, c: (int, int))
    requires
        on_lattice(c),
        next_alive(live, c),
    ensures
        candidates(live).contains(c),
{
    let ps = seq![
        (c.0 - 1, c.1 - 1), (c.0 - 1, c.1), (c.0 - 1, c.1 + 1), (c.0, c.1 - 1),
        (c.0, c.1 + 1), (c.0 + 1, c.1 - 1), (c.0 + 1, c.1), (c.0 + 1, c.1 + 1),
    ];
    assert(exists|i: int| 0 <= i < 8 && live.contains(ps[i])) by {
        if forall|i: int| 0 <= i < 8 ==> !live.contains(ps[i]) {
            assert(!live.contains(ps[0]) && !live.contains(ps[1]) && !live.contains(ps[2]));
            assert(!live.contains(ps[3]) && !live.contains(ps[4]) && !live.contains(ps[5]));
            assert(!live.contains(ps[6]) && !live.contains(ps[7]));
            assert(live_neighbors(live, c) == 0);
        }
    }
    let i = choose|i: int| 0 <= i < 8 && live.contains(ps[i]);
    assert(touches(ps[i], c));
}

/// The next generation is the candidate set, thinned by the rule.
pub proof fn lemma_next_generation_from_candidates(live: Set<(int, int)>)
    ensures
        next_generation(live) == candidates(live).filter(|c: (int, int)| next_alive(live, c)),
{
    assert forall|c: (int, int)| #[trigger] next_generation(live).contains(c) implies candidates(
        live,
    ).contains(c) by {
        lemma_alive_next_is_candidate(live, c);
    }
    assert(next_generation(live) =~= candidates(live).filter(|c: (int, int)| next_alive(live, c)));
}

impl Grid {
    /// Whether the cell at `(x + dx, y + dy)` is alive; a position beyond `isize` is dead.
    fn alive_at(&self, x: isize, y: isize, dx: isize, dy: isize) -> (r: bool)
        requires
            -1 <= dx <= 1,
            -1 <= dy <= 1,
        ensures
            r == self@.contains((x + dx, y + dy)),
    {
        proof {
            self.lemma_on_lattice();
        }
        match (x.checked_add(dx), y.checked_add(dy)) {
            (Some(a), Some(b)) => self.get_cell(a, b),
            _ => false,
        }
    }

    /// How many of the eight cells around `(x, y)` are alive.
    pub fn live_neighbor_count(&self, x: isize, y: isize) -> (r: u8)
        ensures
            r as int == live_neighbors(self@, (x as int, y as int)),
    {
        let mut count: u8 = 0;
        if self.alive_at(x, y, -1, -1) {
            count += 1;
        }
        if self.alive_at(x, y, -1, 0) {
            count += 1;
        }
        if self.alive_at(x, y, -1, 1) {
            count += 1;
        }
        if self.alive_at(x, y, 0, -1) {
            count += 1;
        }
        if self.alive_at(x, y, 0, 1) {
            count += 1;
        }
        if self.alive_at(x, y, 1, -1) {
            count += 1;
        }
        if self.alive_at(x, y, 1, 0) {
            count += 1;
        }
        if self.alive_at(x, y, 1, 1) {
            count += 1;
        }
        count
    }

    /// Whether the cell at `(x, y)` is alive in the next generation.
    pub fn next_cell_state(&self, x: isize, y: isize) -> (r: bool)
        ensures
            r == next_alive(self@, (x as int, y as int)),
    {
        let count = self.live_neighbor_count(x, y);
        let is_alive = self.get_cell(x, y);
        count == 3 || (is_alive && count == 2)
    }
}

/// Makes `(x + dx, y + dy)` alive in `marks`, where that position fits in `isize`.
fn mark_offset(marks: &mut Grid, x: isize, y: isize, dx: isize, dy: isize)
    requires
        -1 <= dx <= 1,
        -1 <= dy <= 1,
    ensures
        final(marks)@ == if on_lattice((x + dx, y + dy)) {
            old(marks)@.insert((x + dx, y + dy))
        } else {
            old(marks)@
        },
{
    match (x.checked_add(dx), y.checked_add(dy)) {
        (Some(a), Some(b)) => marks.set_cell(a, b, true),
        _ => {},
    }
}

/// Makes `(x, y)` and its eight neighbours alive in `marks`.
fn mark_neighborhood(marks: &mut Grid, x: isize, y: isize)
    ensures
        final(marks)@ == old(marks)@.union(neighborhood((x as int, y as int))),
{
    let ghost start = marks@;
    mark_offset(marks, x, y, -1, -1);
    mark_offset(marks, x, y, -1, 0);
    mark_offset(marks, x, y, -1, 1);
    mark_offset(marks, x, y, 0, -1);
    mark_offset(marks, x, y, 0, 0);
    mark_offset(marks, x, y, 0, 1);
    mark_offset(marks, x, y, 1, -1);
    mark_offset(marks, x, y, 1, 0);
    mark_offset(marks, x, y, 1, 1);
    assert(marks@ =~= start.union(neighborhood((x as int, y as int))));
}

/// Keeps the cells of `cells` that `live` makes alive next, in their order.
fn select_next(live: &Grid, cells: &Vec<Vec2Isize>) -> (r: Vec<Vec2Isize>)
    ensures
        r@ == cells@.filter(|c: Vec2Isize| next_alive(live@, c@)),
{
    let ghost pred = |c: Vec2Isize| next_alive(live@, c@);
    let mut out: Vec<Vec2Isize> = Vec::new();
    for i in 0..cells.len()
        invariant
            pred == (|c: Vec2Isize| next_alive(live@, c@)),
            out@ == cells@.subrange(0, i as int).filter(pred),
    {
        let c = cells[i];
        proof {
            let front = cells@.subrange(0, i as int);
            assert(cells@.subrange(0, i + 1) == front + seq![c]);
            Seq::filter_distributes_over_add(front, seq![c], pred);
            reveal_with_fuel(Seq::filter, 2);
        }
        if live.next_cell_state(c.x, c.y) {
            out.push(c);
        }
    }
    assert(cells@.subrange(0, cells.len() as int) == cells@);
    out
}

/// Relies on rayon's `par_iter().filter(..).collect()` into a `Vec`: it keeps the
/// items for which the closure returns true, in the order of the input.
#[verifier::external_body]
pub(crate) fn par_select_next(live: &Grid, cells: &Vec<Vec2Isize>) -> (r: Vec<Vec2Isize>)
    ensures
        r@ == cells@.filter(|c: Vec2Isize| next_alive(live@, c@)),
{
    cells.par_iter().filter(|c| live.next_cell_state(c.x, c.y)).copied().collect()
}

/// What the cells of a list that `live` makes alive next name, as a set.
pub proof fn lemma_selected_cells(live: Set<(int, int)>, cells: Seq<Vec2Isize>)
    ensures
        cells_of(cells.filter(|c: Vec2Isize| next_alive(live, c@))) == cells_of(cells).filter(
            |q: (int, int)| next_alive(live, q),
        ),
{
    let pred = |c: Vec2Isize| next_alive(live, c@);
    let kept = cells.filter(pred);
    assert forall|q: (int, int)| #[trigger] cells_of(kept).contains(q) implies cells_of(cells).contains(q)
        && next_alive(live, q) by {
        let i = choose|i: int| 0 <= i < kept.len() && #[trigger] positions(kept)[i] == q;
        assert(pred(kept[i]));
        assert(kept.contains(kept[i]));
        cells.lemma_filter_contains_rev(pred, kept[i]);
        let j = choose|j: int| 0 <= j < cells.len() && cells[j] == kept[i];
        assert(positions(cells)[j] == q);
    }
    assert forall|q: (int, int)| cells_of(cells).contains(q) && next_alive(live, q) implies #[trigger] cells_of(
        kept,
    ).contains(q) by {
        let j = choose|j: int| 0 <= j < cells.len() && #[trigger] positions(cells)[j] == q;
        cells.lemma_filter_contains(pred, j);
        let i = choose|i: int| 0 <= i < kept.len() && kept[i] == cells[j];
        assert(positions(kept)[i] == q);
    }
    assert(cells_of(kept) =~= cells_of(cells).filter(|q: (int, int)| next_alive(live, q)));
}

impl Grid {
    /// The candidate set of this grid: every live cell and its eight neighbours,
    /// each once.
    pub fn candidate_cells(&self) -> (r: Vec<Vec2Isize>)
        ensures
            cells_of(r@) == candidates(self@),
            r@.no_duplicates(),
    {
        let cells = self.live_cells();
        let mut marks = Grid::new();
        for i in 0..cells.len()
            invariant
                cells_of(cells@) == self@,
                forall|q: (int, int)| #[trigger] marks@.contains(q) <==> on_lattice(q) && exists|j: int|
                    0 <= j < i && touches(#[trigger] cells@[j]@, q),
        {
            let ghost before = marks@;
            let c = cells[i];
            mark_neighborhood(&mut marks, c.x, c.y);
            assert forall|q: (int, int)| #[trigger] marks@.contains(q) <==> on_lattice(q) && exists|j: int|
                0 <= j < i + 1 && touches(#[trigger] cells@[j]@, q) by {
                if on_lattice(q) && touches(c@, q) {
                    assert(touches(cells@[i as int]@, q));
                }
                if on_lattice(q) && !touches(c@, q) && (exists|j: int|
                    0 <= j < i + 1 && touches(#[trigger] cells@[j]@, q)) {
                    let j = choose|j: int| 0 <= j < i + 1 && touches(#[trigger] cells@[j]@, q);
                    assert(j != i);
                }
            }
        }
        assert forall|q: (int, int)| #[trigger] marks@.contains(q) <==> candidates(self@).contains(q) by {
            if marks@.contains(q) {
                let j = choose|j: int| 0 <= j < cells.len() && touches(#[trigger] cells@[j]@, q);
                assert(positions(cells@)[j] == cells@[j]@);
                assert(self@.contains(cells@[j]@));
            }
            if candidates(self@).contains(q) {
                let p = choose|p: (int, int)| self@.contains(p) && #[trigger] touches(p, q);
                assert(cells_of(cells@).contains(p));
                let j = choose|j: int| 0 <= j < cells.len() && #[trigger] positions(cells@)[j] == p;
                assert(touches(cells@[j]@, q));
            }
        }
        assert(marks@ =~= candidates(self@));
        marks.live_cells()
    }
}

/// One generation of the game, computed on this thread.
pub fn advance(grid: &Grid) -> (r: Grid)
    ensures
        r@ == next_generation(grid@),
{
    if grid.is_empty() {
        assert(next_generation(grid@) =~= Set::<(int, int)>::empty());
        return Grid::new();
    }
    let cells = grid.candidate_cells();
    let next = select_next(grid, &cells);
    proof {
        lemma_selected_cells(grid@, cells@);
        lemma_next_generation_from_candidates(grid@);
    }
    Grid::from_cells(&next)
}

} // verus!
