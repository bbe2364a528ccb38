use std::collections::HashMap;
use std::collections::HashSet;
use vstd::prelude::*;
use vstd::std_specs::hash::spec_hash_keys_iter;
use vstd::std_specs::hash::spec_hash_map_iter;
use vstd::std_specs::iter::IteratorSpec;

use crate::coord::Vec2Isize;

verus! {

broadcast use vstd::std_specs::hash::group_hash_axioms;

/// A pair of integers that both fit in `isize`: a position the grid can hold.
pub open spec fn on_lattice(c: (int, int)) -> bool {
    isize::MIN <= c.0 <= isize::MAX && isize::MIN <= c.1 <= isize::MAX
}

/// The live set after writing `alive` at `c`.
pub open spec fn with_cell(live: Set<(int, int)>, c: (int, int), alive: bool) -> Set<(int, int)> {
    if alive {
        live.insert(c)
    } else {
        live.remove(c)
    }
}

/// The positions that a list of coordinates names.
pub open spec fn cells_of(s: Seq<Vec2Isize>) -> Set<(int, int)> {
    positions(s).to_set()
}

/// Each coordinate of a list as a pair of integers.
pub open spec fn positions(s: Seq<Vec2Isize>) -> Seq<(int, int)> {
    s.map_values(|c: Vec2Isize| c@)
}

/// A sparse set of live cells on the integer lattice, with no boundary but the
/// range of `isize`: no wraparound, and nothing is stored for dead cells.
///
/// Cells are kept row by row: `rows` maps an `x` to the set of `y` that are alive
/// in that row. A row that becomes empty is dropped, so memory follows the number
/// of live cells.
#[derive(Debug)]
pub struct Grid {
    rows: HashMap<isize, HashSet<isize>>,
}

/// Whether the row map holds position `c`.
spec fn rows_hold(rows: Map<isize, HashSet<isize>>, c: (int, int)) -> bool {
    &&& on_lattice(c)
    &&& rows.contains_key(c.0 as isize)
    &&& rows[c.0 as isize]@.contains(c.1 as isize)
}

impl View for Grid {
    type V = Set<(int, int)>;

    closed spec fn view(&self) -> Set<(int, int)> {
        Set::new(|c: (int, int)| rows_hold(self.rows@, c))
    }
}

impl Grid {
    /// No row is kept without a live cell in it.
    #[verifier::type_invariant]
    spec fn no_empty_row(self) -> bool {
        forall|x: isize| #[trigger] self.rows@.contains_key(x) ==> !self.rows@[x]@.is_empty()
    }

    /// An empty grid.
    pub fn new() -> (r: Grid)
        ensures
            r@ == Set::<(int, int)>::empty(),
    {
        let r = Grid { rows: HashMap::new() };
        assert(r@ =~= Set::<(int, int)>::empty());
        r
    }

    /// Only positions that fit in `isize` are ever alive.
    pub proof fn lemma_on_lattice(&self)
        ensures
            forall|c: (int, int)| #[trigger] self@.contains(c) ==> on_lattice(c),
    {
    }

    /// Whether the cell at `(x, y)` is alive.
    pub fn get_cell(&self, x: isize, y: isize) -> (r: bool)
        ensures
            r == self@.contains((x as int, y as int)),
    {
        match self.rows.get(&x) {
            Some(row) => row.contains(&y),
            None => false,
        }
    }

    /// Whether no cell is alive.
    pub fn is_empty(&self) -> (r: bool)
        ensures
            r == (self@ == Set::<(int, int)>::empty()),
    {
        proof {
            use_type_invariant(&*self);
            if !self.rows@.is_empty() {
                let x = choose|x: isize| self.rows@.contains_key(x);
                let y = choose|y: isize| self.rows@[x]@.contains(y);
                assert(self@.contains((x as int, y as int)));
            }
            if self.rows@.is_empty() {
                assert(self@ =~= Set::<(int, int)>::empty());
            }
        }
        self.rows.is_empty()
    }

    /// Makes the cell at `(x, y)` alive or dead; any other cell keeps its state.
    pub fn set_cell(&mut self, x: isize, y: isize, state: bool)
        ensures
            final(self)@ == with_cell(old(self)@, (x as int, y as int), state),
    {
        proof {
            use_type_invariant(&*self);
        }
        let ghost c = (x as int, y as int);
        let gotten_cell = self.get_cell(x, y);
        if gotten_cell == state {
            assert(self@ =~= with_cell(old(self)@, c, state));
            return;
        }
        let ghost before = self.rows@;
        let mut rows: HashMap<isize, HashSet<isize>> = HashMap::new();
        std::mem::swap(&mut rows, &mut self.rows);
        let mut row = match rows.remove(&x) {
            Some(r) => r,
            None => HashSet::new(),
        };
        let ghost row_before = row@;
        assert(before.contains_key(x) ==> row_before == before[x]@);
        assert(!before.contains_key(x) ==> row_before =~= Set::<isize>::empty());
        if state {
            row.insert(y);
        } else {
            row.remove(&y);
        }
        let ghost row_after = row@;
        if !row.is_empty() {
            rows.insert(x, row);
        }
        self.rows = rows;
        assert forall|d: (int, int)| #[trigger]
            self@.contains(d) == with_cell(old(self)@, c, state).contains(d) by {
            if on_lattice(d) && d.0 == x as int {
                assert(d.0 as isize == x);
                if !row_after.is_empty() {
                    assert(self.rows@[x]@ == row_after);
                } else {
                    assert(!row_after.contains(d.1 as isize));
                }
            }
        }
        assert(self@ =~= with_cell(old(self)@, c, state));
    }

    /// Kills every cell.
    pub fn clear_all(&mut self)
        ensures
            final(self)@ == Set::<(int, int)>::empty(),
    {
        self.rows = HashMap::new();
        assert(self@ =~= Set::<(int, int)>::empty());
    }

    /// An independent copy of the grid.
    pub fn get_grid(&self) -> (r: Grid)
        ensures
            r@ == self@,
    {
        proof {
            use_type_invariant(self);
        }
        Grid { rows: self.rows.clone() }
    }

    /// Every live cell, each once, in no particular order.
    pub fn live_cells(&self) -> (r: Vec<Vec2Isize>)
        ensures
            cells_of(r@) == self@,
            r@.no_duplicates(),
    {
        let ghost pairs = spec_hash_map_iter(&self.rows).remaining();
        let ghost rows = self.rows@;
        let mut out: Vec<Vec2Isize> = Vec::new();
        let ghost mut done: Set<isize> = Set::empty();
        for entry in it: self.rows.iter()
            invariant
                it.seq() == pairs,
                pairs == spec_hash_map_iter(&self.rows).remaining(),
                pairs.no_duplicates(),
                rows == self.rows@,
                out@.no_duplicates(),
                forall|k: isize| #[trigger] done.contains(k) ==>
                    exists|j: int| 0 <= j < it.index() && *pairs[j].0 == k,
                forall|j: int| 0 <= j < it.index() ==> done.contains(*#[trigger] pairs[j].0),
                forall|i: int| 0 <= i < out.len() ==>
                    self@.contains(#[trigger] out@[i]@) && done.contains(out@[i].x),
                forall|d: (int, int)| #[trigger] self@.contains(d) && done.contains(d.0 as isize)
                    ==> cells_of(out@).contains(d),
        {
            let (x, row) = entry;
            let ghost idx = it.index();
            let ghost before = out@;
            assert(rows.contains_key(*pairs[idx].0) && rows[*pairs[idx].0] == *pairs[idx].1);
            assert(!done.contains(*x)) by {
                if done.contains(*x) {
                    let j = choose|j: int| 0 <= j < it.index() && *pairs[j].0 == *x;
                    assert(rows[*pairs[j].0] == *pairs[j].1);
                    assert(pairs[j] == pairs[idx]);
                }
            }
            assert forall|i: int| 0 <= i < before.len() implies
                self@.contains(before[i]@) && done.contains(#[trigger] before[i].x) by {
                assert(out@[i] == before[i]);
            }
            let ghost ys = spec_hash_keys_iter(row).remaining();
            assert(ys.unref().to_set() == row@);
            for y in jt: row.iter()
                invariant
                    jt.seq() == ys,
                    !done.contains(*x),
                    forall|i: int| 0 <= i < before.len() ==>
                        self@.contains(before[i]@) && done.contains(#[trigger] before[i].x),
                    out@.len() == before.len() + jt.index(),
                    out@.subrange(0, before.len() as int) == before,
                    forall|i: int| before.len() <= i < out.len() ==>
                        #[trigger] out@[i] == (Vec2Isize { x: *x, y: *ys[i - before.len()] }),
            {
                out.push(Vec2Isize::new(*x, *y));
            }
            proof {
                assert(ys.no_duplicates());
                assert forall|i: int| 0 <= i < out.len() implies
                    self@.contains(#[trigger] out@[i]@) && done.insert(*x).contains(out@[i].x) by {
                    if i >= before.len() {
                        let k = i - before.len();
                        assert(ys.unref()[k] == *ys[k]);
                        assert(row@.contains(*ys[k]));
                        assert(rows_hold(self.rows@, out@[i]@));
                    } else {
                        assert(out@[i] == before[i]);
                        assert(self@.contains(before[i]@));
                    }
                }
                assert forall|a: int, b: int| 0 <= a < out.len() && 0 <= b < out.len() && a != b
                    implies out@[a] != out@[b] by {
                    if a < before.len() && b < before.len() {
                        assert(out@[a] == before[a] && out@[b] == before[b]);
                    } else if a >= before.len() && b >= before.len() {
                        assert(ys.unref()[a - before.len()] != ys.unref()[b - before.len()]);
                    } else if a < before.len() {
                        assert(out@[a] == before[a]);
                        assert(self@.contains(before[a]@) && done.contains(before[a].x));
                        assert(out@[b].x == *x);
                    } else {
                        assert(out@[b] == before[b]);
                        assert(self@.contains(before[b]@) && done.contains(before[b].x));
                    }
                }
                assert forall|d: (int, int)| #[trigger] self@.contains(d) && done.insert(*x).contains(d.0 as isize)
                    implies cells_of(out@).contains(d) by {
                    if d.0 as isize == *x {
                        assert(row@.contains(d.1 as isize));
                        let k = choose|k: int| 0 <= k < ys.unref().len() && ys.unref()[k] == d.1 as isize;
                        let i = before.len() + k;
                        assert(out@[i]@ == d);
                        assert(positions(out@)[i] == d);
                    } else {
                        assert(cells_of(before).contains(d));
                        let i = choose|i: int| 0 <= i < before.len() && #[trigger] positions(before)[i] == d;
                        assert(out@[i] == before[i]);
                        assert(positions(out@)[i] == d);
                    }
                }
                done = done.insert(*x);
                assert forall|k: isize| #[trigger] done.contains(k) implies
                    exists|j: int| 0 <= j < idx + 1 && *pairs[j].0 == k by {
                    if k != *x {
                        let j = choose|j: int| 0 <= j < idx && *pairs[j].0 == k;
                        assert(0 <= j < idx + 1 && *pairs[j].0 == k);
                    } else {
                        assert(*pairs[idx].0 == k);
                    }
                }
            }
        }
        proof {
            assert forall|d: (int, int)| self@.contains(d) implies cells_of(out@).contains(d) by {
                let k = d.0 as isize;
                assert(rows.contains_key(k));
                assert(pairs.contains((&k, &rows[k])));
                let j = choose|j: int| 0 <= j < pairs.len() && pairs[j] == (&k, &rows[k]);
                assert(done.contains(*pairs[j].0));
            }
            assert forall|d: (int, int)| cells_of(out@).contains(d) implies self@.contains(d) by {
                let i = choose|i: int| 0 <= i < out@.len() && #[trigger] positions(out@)[i] == d;
                assert(self@.contains(out@[i]@));
            }
        }
        assert(cells_of(out@) =~= self@);
        out
    }

    /// A grid whose live cells are exactly those listed.
    pub fn from_cells(cells: &Vec<Vec2Isize>) -> (r: Grid)
        ensures
            r@ == cells_of(cells@),
    {
        let mut r = Grid::new();
        for i in 0..cells.len()
            invariant
                r@ == cells_of(cells@.subrange(0, i as int)),
        {
            let c = cells[i];
            r.set_cell(c.x, c.y, true);
            assert(cells@.subrange(0, i + 1) == cells@.subrange(0, i as int).push(c));
            assert(positions(cells@.subrange(0, i + 1)) == positions(cells@.subrange(0, i as int)).push(c@));
            assert(cells_of(cells@.subrange(0, i + 1)) =~= cells_of(cells@.subrange(0, i as int)).insert(c@)) by {
                positions(cells@.subrange(0, i as int)).lemma_push_to_set_commute(c@);
            }
        }
        assert(cells@.subrange(0, cells.len() as int) == cells@);
        r
    }
}

impl Default for Grid {
    fn default() -> (r: Grid)
        ensures
            r@ == Set::<(int, int)>::empty(),
    {
        Grid::new()
    }
}

} // verus!
