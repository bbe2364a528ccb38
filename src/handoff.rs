use std::time::Duration;
use vstd::prelude::*;

use crate::grid::Grid;

verus! {

/// A snapshot handed to the worker, with the pacing it should keep, in milliseconds
/// per generation.
#[derive(Debug)]
pub struct Request {
    pub grid: Grid,
    pub pacing_ms: u64,
}

/// What the worker hands back: the next generation and how long it took.
#[derive(Debug)]
pub struct UpdateResult {
    pub next_grid: Grid,
    pub compute_time: Duration,
}

/// What a non-blocking receive on the result queue found.
#[derive(Debug)]
pub enum Polled {
    Ready(UpdateResult),
    Empty,
    Disconnected,
}

/// The outcome of a receive, with a result reduced to the cells it holds.
pub ghost enum PolledView {
    Ready(Set<(int, int)>),
    Empty,
    Disconnected,
}

impl Polled {
    pub open spec fn view(&self) -> PolledView {
        match self {
            Polled::Ready(u) => PolledView::Ready(u.next_grid@),
            Polled::Empty => PolledView::Empty,
            Polled::Disconnected => PolledView::Disconnected,
        }
    }
}

/// The state of the handoff: the request waiting to be sent, whether a request is
/// out with the worker, and whether the worker is gone.
pub ghost struct HandoffView {
    pub queued: Option<(Set<(int, int)>, u64)>,
    pub outstanding: bool,
    pub disconnected: bool,
}

/// `submit` on a handoff state: the new state, and whether the request was taken.
/// A request is taken only when none is outstanding and the worker is still there.
pub open spec fn submit_spec(h: HandoffView, cells: Set<(int, int)>, pacing_ms: u64) -> (
    HandoffView,
    bool,
) {
    if h.outstanding || h.disconnected {
        (h, false)
    } else {
        (HandoffView { queued: Some((cells, pacing_ms)), outstanding: true, ..h }, true)
    }
}

/// The handoff state after a receive found `polled`. A result counts only while a
/// request is outstanding; a closed queue ends all requests.
pub open spec fn receive_spec(h: HandoffView, polled: PolledView) -> HandoffView {
    match polled {
        PolledView::Ready(_) => HandoffView { queued: None, outstanding: false, ..h },
        PolledView::Empty => h,
        PolledView::Disconnected => HandoffView {
            queued: None,
            outstanding: false,
            disconnected: true,
        },
    }
}

/// The handoff state once a send has failed: the worker is gone.
pub open spec fn send_failed_spec(h: HandoffView) -> HandoffView {
    HandoffView { queued: None, outstanding: false, disconnected: true }
}

/// The controller's side of the two queues to the worker. It holds at most one
/// request, and refuses another while one is outstanding.
#[derive(Debug)]
pub struct Handoff {
    queued: Option<Request>,
    outstanding: bool,
    disconnected: bool,
}

impl Handoff {
    /// A request waits only while it is outstanding.
    #[verifier::type_invariant]
    spec fn queued_is_outstanding(self) -> bool {
        self.queued is Some ==> self.outstanding
    }

    pub closed spec fn view(&self) -> HandoffView {
        HandoffView {
            queued: match self.queued {
                Some(r) => Some((r.grid@, r.pacing_ms)),
                None => None,
            },
            outstanding: self.outstanding,
            disconnected: self.disconnected,
        }
    }

    /// A handoff with nothing queued or outstanding, to a worker that is there.
    pub fn new() -> (r: Handoff)
        ensures
            r@ == (HandoffView { queued: None, outstanding: false, disconnected: false }),
    {
        Handoff { queued: None, outstanding: false, disconnected: false }
    }

    /// Whether a request is out with the worker and no result has come back yet.
    pub fn is_outstanding(&self) -> (r: bool)
        ensures
            r == self@.outstanding,
    {
        self.outstanding
    }

    /// Whether the worker is gone, so that no more requests are made.
    pub fn is_disconnected(&self) -> (r: bool)
        ensures
            r == self@.disconnected,
    {
        self.disconnected
    }

    /// Queues `snapshot` for the worker. Returns false, and changes nothing, while a
    /// request is outstanding or once the worker is gone.
    pub fn submit(&mut self, snapshot: Grid, pacing_ms: u64) -> (accepted: bool)
        ensures
            (final(self)@, accepted) == submit_spec(old(self)@, snapshot@, pacing_ms),
    {
        if self.outstanding || self.disconnected {
            false
        } else {
            self.outstanding = true;
            self.queued = Some(Request { grid: snapshot, pacing_ms });
            true
        }
    }

    /// Hands out the queued request, if any, for sending; it stays outstanding.
    pub fn take_request(&mut self) -> (r: Option<Request>)
        ensures
            match r {
                Some(req) => old(self)@.queued == Some((req.grid@, req.pacing_ms)),
                None => old(self)@.queued is None,
            },
            final(self)@ == (HandoffView { queued: None, ..old(self)@ }),
    {
        proof {
            use_type_invariant(&*self);
        }
        let mut r: Option<Request> = None;
        std::mem::swap(&mut r, &mut self.queued);
        r
    }

    /// Records that the request could not be sent: the worker is gone.
    pub fn send_failed(&mut self)
        ensures
            final(self)@ == send_failed_spec(old(self)@),
    {
        self.queued = None;
        self.outstanding = false;
        self.disconnected = true;
    }

    /// Takes in what a receive on the result queue found. A result that answers the
    /// outstanding request is handed back; anything else gives `None`.
    pub fn try_take_result(&mut self, polled: Polled) -> (r: Option<UpdateResult>)
        ensures
            final(self)@ == (if polled@ is Ready && !old(self)@.outstanding {
                old(self)@
            } else {
                receive_spec(old(self)@, polled@)
            }),
            match r {
                Some(u) => old(self)@.outstanding && polled@ == PolledView::Ready(u.next_grid@),
                None => !(old(self)@.outstanding && polled@ is Ready),
            },
    {
        match polled {
            Polled::Ready(u) => {
                if self.outstanding {
                    self.queued = None;
                    self.outstanding = false;
                    Some(u)
                } else {
                    None
                }
            },
            Polled::Empty => None,
            Polled::Disconnected => {
                self.queued = None;
                self.outstanding = false;
                self.disconnected = true;
                None
            },
        }
    }
}

/// The pause, in microseconds, that pads a generation which took `elapsed_micros`
/// to at least `pacing_ms` milliseconds; zero when it already took that long.
/// A budget too large for `u64` microseconds is held at `u64::MAX`.
pub open spec fn pacing_pause(pacing_ms: u64, elapsed_micros: u64) -> int {
    let budget = if pacing_ms * 1000 > u64::MAX {
        u64::MAX as int
    } else {
        pacing_ms * 1000
    };
    if budget > elapsed_micros {
        budget - elapsed_micros
    } else {
        0
    }
}

/// How long the worker sleeps after a generation, so that generations come no
/// faster than the pacing asks.
pub fn pacing_sleep_micros(pacing_ms: u64, elapsed_micros: u64) -> (r: u64)
    ensures
        r as int == pacing_pause(pacing_ms, elapsed_micros),
{
    let budget: u64 = if pacing_ms > u64::MAX / 1000 {
        u64::MAX
    } else {
        pacing_ms * 1000
    };
    budget.saturating_sub(elapsed_micros)
}

} // verus!
