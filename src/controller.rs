use vstd::prelude::*;

use crate::coord::Vec2Isize;
use crate::grid::{cells_of, with_cell, Grid};
use crate::handoff::{
    receive_spec, send_failed_spec, submit_spec, Handoff, HandoffView, Polled, PolledView, Request,
};
use crate::step::{
    lemma_next_generation_from_candidates, lemma_selected_cells, next_generation, par_select_next,
};

verus! {

/// The simulation state: the live cells, whether the game is paused, and the
/// handoff to the worker.
pub ghost struct GolView {
    pub cells: Set<(int, int)>,
    pub paused: bool,
    pub link: HandoffView,
}

/// The first half of a frame: the state after the controller has offered the
/// current cells to the worker, and the request that is then to be sent.
pub open spec fn request_spec(s: GolView, pacing_ms: u64) -> (GolView, Option<(Set<(int, int)>, u64)>) {
    let link = if s.paused {
        s.link
    } else {
        submit_spec(s.link, s.cells, pacing_ms).0
    };
    (GolView { link: HandoffView { queued: None, ..link }, ..s }, link.queued)
}

/// The second half of a frame: the state after a receive found `polled`. A result
/// that answers the outstanding request replaces the cells.
pub open spec fn accept_spec(s: GolView, polled: PolledView) -> GolView {
    match polled {
        PolledView::Ready(next) => if s.link.outstanding {
            GolView { cells: next, link: receive_spec(s.link, polled), ..s }
        } else {
            s
        },
        _ => GolView { link: receive_spec(s.link, polled), ..s },
    }
}

/// One frame in which the request, if any, was sent and `polled` was received.
pub open spec fn frame_spec(s: GolView, pacing_ms: u64, polled: PolledView) -> GolView {
    accept_spec(request_spec(s, pacing_ms).0, polled)
}

/// The Game of Life controller: the current grid, the paused flag, and the
/// handoff that keeps at most one generation in flight on the worker.
#[derive(Debug)]
pub struct GOL {
    pub grid: Grid,
    pub paused: bool,
    pub link: Handoff,
}

impl GOL {
    pub open spec fn view(&self) -> GolView {
        GolView { cells: self.grid@, paused: self.paused, link: self.link@ }
    }

    /// A paused controller over `grid`, with nothing in flight.
    pub fn new(grid: Grid) -> (r: GOL)
        ensures
            r.grid@ == grid@,
            r.paused,
            r.link@ == (HandoffView { queued: None, outstanding: false, disconnected: false }),
    {
        GOL { grid, paused: true, link: Handoff::new() }
    }

    /// One generation of `grid`, with the rule applied to the candidates in parallel.
    pub fn update_from(grid: &Grid) -> (r: Grid)
        ensures
            r@ == next_generation(grid@),
    {
        if grid.is_empty() {
            assert(next_generation(grid@) =~= Set::<(int, int)>::empty());
            return Grid::new();
        }
        let cells = grid.candidate_cells();
        let next = par_select_next(grid, &cells);
        proof {
            lemma_selected_cells(grid@, cells@);
            lemma_next_generation_from_candidates(grid@);
        }
        Grid::from_cells(&next)
    }

    /// Stops the automatic advance; the grid is untouched.
    pub fn pause(&mut self)
        ensures
            final(self).paused,
            final(self).grid@ == old(self).grid@,
            final(self).link@ == old(self).link@,
    {
        self.paused = true;
    }

    /// Lets the automatic advance run again; the grid is untouched.
    pub fn resume(&mut self)
        ensures
            !final(self).paused,
            final(self).grid@ == old(self).grid@,
            final(self).link@ == old(self).link@,
    {
        self.paused = false;
    }

    /// Flips between paused and running; the grid is untouched.
    pub fn toggle_pause(&mut self)
        ensures
            final(self).paused == !old(self).paused,
            final(self).grid@ == old(self).grid@,
            final(self).link@ == old(self).link@,
    {
        self.paused = !self.paused;
    }

    /// Whether the automatic advance is stopped.
    pub fn is_paused(&self) -> (r: bool)
        ensures
            r == self.paused,
    {
        self.paused
    }

    /// Advances the grid by exactly one generation, paused or not.
    pub fn step_once(&mut self)
        ensures
            final(self).grid@ == next_generation(old(self).grid@),
            final(self).paused == old(self).paused,
            final(self).link@ == old(self).link@,
    {
        self.grid = GOL::update_from(&self.grid);
    }

    /// Makes the cell at `(x, y)` alive or dead, paused or not.
    pub fn edit_cell(&mut self, x: isize, y: isize, alive: bool)
        ensures
            final(self).grid@ == with_cell(old(self).grid@, (x as int, y as int), alive),
            final(self).paused == old(self).paused,
            final(self).link@ == old(self).link@,
    {
        self.grid.set_cell(x, y, alive);
    }

    /// Kills every cell; the paused flag stays as it is.
    pub fn reset(&mut self)
        ensures
            final(self).grid@ == Set::<(int, int)>::empty(),
            final(self).paused == old(self).paused,
            final(self).link@ == old(self).link@,
    {
        self.grid.clear_all();
    }

    /// Every live cell, each once, for display.
    pub fn live_cells(&self) -> (r: Vec<Vec2Isize>)
        ensures
            cells_of(r@) == self.grid@,
            r@.no_duplicates(),
    {
        self.grid.live_cells()
    }

    /// Whether a generation is being computed by the worker.
    pub fn is_update_in_progress(&self) -> (r: bool)
        ensures
            r == self.link@.outstanding,
    {
        self.link.is_outstanding()
    }

    /// First half of a frame: when running with nothing in flight and the worker
    /// there, a snapshot of the grid to send to the worker, now counted as in flight.
    pub fn request_update(&mut self, pacing_ms: u64) -> (r: Option<Request>)
        ensures
            (final(self)@, match r {
                Some(req) => Some((req.grid@, req.pacing_ms)),
                None => None,
            }) == request_spec(old(self)@, pacing_ms),
    {
        if !self.paused {
            let snapshot = self.grid.get_grid();
            self.link.submit(snapshot, pacing_ms);
        }
        let r = self.link.take_request();
        assert(self@ =~= request_spec(old(self)@, pacing_ms).0);
        r
    }

    /// The request could not be sent: the worker is gone, and no more are made.
    pub fn request_failed(&mut self)
        ensures
            final(self)@ == (GolView { link: send_failed_spec(old(self).link@), ..old(self)@ }),
    {
        self.link.send_failed();
    }

    /// Second half of a frame: takes in what a non-blocking receive on the result
    /// queue found, replacing the grid with a result that answers the request in flight.
    pub fn accept_update(&mut self, polled: Polled)
        ensures
            final(self)@ == accept_spec(old(self)@, polled@),
    {
        let ghost p = polled@;
        match self.link.try_take_result(polled) {
            Some(u) => {
                self.grid = u.next_grid;
            },
            None => {},
        }
        assert(self@ =~= accept_spec(old(self)@, p));
    }
}

} // verus!
