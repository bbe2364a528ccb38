use vstd::prelude::*;

use crate::controller::{frame_spec, GolView};
use crate::coord::Vec2Isize;
use crate::grid::{cells_of, with_cell};
use crate::handoff::{submit_spec, HandoffView, PolledView};
use crate::step::{
    candidates, lemma_next_generation_from_candidates, lemma_selected_cells, next_alive,
    next_generation,
};

verus! {

/// The cells of `order` that the rule makes alive in the generation after `live`.
pub open spec fn survivors(live: Set<(int, int)>, order: Seq<Vec2Isize>) -> Seq<Vec2Isize> {
    order.filter(|c: Vec2Isize| next_alive(live, c@))
}

/// The generation does not depend on how the candidates are enumerated: applying
/// the rule to any list that names exactly the candidate set, in any order and
/// with any repetition, yields the next generation.
pub proof fn lemma_generation_ignores_order(live: Set<(int, int)>, order: Seq<Vec2Isize>)
    requires
        cells_of(order) == candidates(live),
    ensures
        cells_of(survivors(live, order)) == next_generation(live),
{
    lemma_selected_cells(live, order);
    lemma_next_generation_from_candidates(live);
}

/// The generation does not depend on how the candidates are split among workers:
/// when two parts together name the candidate set, the union of what each part
/// keeps is the next generation.
pub proof fn lemma_generation_ignores_partition(
    live: Set<(int, int)>,
    left: Seq<Vec2Isize>,
    right: Seq<Vec2Isize>,
)
    requires
        cells_of(left).union(cells_of(right)) == candidates(live),
    ensures
        cells_of(survivors(live, left)).union(cells_of(survivors(live, right)))
            == next_generation(live),
{
    lemma_selected_cells(live, left);
    lemma_selected_cells(live, right);
    lemma_next_generation_from_candidates(live);
    let keep = |q: (int, int)| next_alive(live, q);
    assert(cells_of(left).filter(keep).union(cells_of(right).filter(keep)) =~= cells_of(
        left,
    ).union(cells_of(right)).filter(keep));
}

/// While a request is outstanding a second one is refused: `submit` returns false
/// and the request already queued stays as it was, the only one.
pub proof fn lemma_second_submit_refused(
    h: HandoffView,
    first: Set<(int, int)>,
    first_pacing: u64,
    second: Set<(int, int)>,
    second_pacing: u64,
)
    requires
        submit_spec(h, first, first_pacing).1,
    ensures
        submit_spec(h, first, first_pacing).0.queued == Some((first, first_pacing)),
        submit_spec(submit_spec(h, first, first_pacing).0, second, second_pacing) == (
            submit_spec(h, first, first_pacing).0,
            false,
        ),
{
}

/// Making a cell alive twice is the same as making it alive once.
pub proof fn lemma_revive_idempotent(live: Set<(int, int)>, c: (int, int))
    ensures
        with_cell(with_cell(live, c, true), c, true) == with_cell(live, c, true),
{
    assert(with_cell(with_cell(live, c, true), c, true) =~= with_cell(live, c, true));
}

/// Killing a cell that is not alive changes nothing.
pub proof fn lemma_kill_absent_is_noop(live: Set<(int, int)>, c: (int, int))
    requires
        !live.contains(c),
    ensures
        with_cell(live, c, false) == live,
{
    assert(with_cell(live, c, false) =~= live);
}

/// The state after a run of frames, each one receiving the next outcome of `polls`.
pub open spec fn run_frames(s: GolView, pacing_ms: u64, polls: Seq<PolledView>) -> GolView
    decreases polls.len(),
{
    if polls.len() == 0 {
        s
    } else {
        frame_spec(run_frames(s, pacing_ms, polls.drop_last()), pacing_ms, polls.last())
    }
}

/// While paused with nothing in flight, frames never change the cells, whatever the
/// receives find; the state stays paused with nothing in flight.
pub proof fn lemma_paused_frames_keep_cells(s: GolView, pacing_ms: u64, polls: Seq<PolledView>)
    requires
        s.paused,
        !s.link.outstanding,
    ensures
        run_frames(s, pacing_ms, polls).cells == s.cells,
        run_frames(s, pacing_ms, polls).paused,
        !run_frames(s, pacing_ms, polls).link.outstanding,
    decreases polls.len(),
{
    if polls.len() > 0 {
        lemma_paused_frames_keep_cells(s, pacing_ms, polls.drop_last());
    }
}

} // verus!
