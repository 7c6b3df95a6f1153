//! Fixed-capacity, time-ordered history of swap usage.
//!
//! The window keeps the most recent usage points for the trend chart. Its
//! time axis is a sliding interval `[t_left, t_right]` that advances by one
//! tick per accepted point; when the buffer is full the oldest point is
//! evicted first, strictly first-in first-out.

use vstd::prelude::*;

verus! {

/// How many points the window retains.
pub const HISTORY_CAPACITY: usize = 60;

/// Width of the time axis, in ticks.
pub const WINDOW_SPAN: u64 = 60;

/// One usage point: the tick it was accepted at and the used swap in
/// kilobytes.
#[derive(Debug, Clone, Copy, PartialEq, Eq, Structural)]
pub struct HistoryPoint {
    pub time: u64,
    pub used_kb: u64,
}

/// What one accepted point does to the retained buffer: append, after
/// evicting the oldest point if the buffer is full.
pub open spec fn window_step(prev: Seq<HistoryPoint>, pt: HistoryPoint) -> Seq<HistoryPoint> {
    if prev.len() < HISTORY_CAPACITY {
        prev.push(pt)
    } else {
        prev.drop_first().push(pt)
    }
}

/// The buffer after accepting `vals` in order, starting from `init`.
pub open spec fn window_after(init: Seq<HistoryPoint>, vals: Seq<HistoryPoint>) -> Seq<
    HistoryPoint,
>
    decreases vals.len(),
{
    if vals.len() == 0 {
        init
    } else {
        window_step(window_after(init, vals.drop_last()), vals.last())
    }
}

/// Law: starting empty, the window retains exactly the most recent
/// `HISTORY_CAPACITY` of the accepted points, in order. In particular,
/// accepting one point more than the capacity leaves every accepted point
/// but the first.
pub proof fn lemma_window_keeps_latest(vals: Seq<HistoryPoint>)
    ensures
        window_after(Seq::empty(), vals) == if vals.len() <= HISTORY_CAPACITY {
            vals
        } else {
            vals.subrange(vals.len() - HISTORY_CAPACITY, vals.len() as int)
        },
    decreases vals.len(),
{
    if vals.len() == 0 {
        assert(window_after(Seq::empty(), vals) =~= vals);
    } else {
        lemma_window_keeps_latest(vals.drop_last());
        let prevs = window_after(Seq::empty(), vals.drop_last());
        if vals.len() <= HISTORY_CAPACITY {
            assert(prevs =~= vals.drop_last());
            assert(prevs.push(vals.last()) =~= vals);
        } else if vals.len() == HISTORY_CAPACITY + 1 {
            assert(prevs =~= vals.drop_last());
            assert(prevs.drop_first().push(vals.last()) =~= vals.subrange(
                vals.len() - HISTORY_CAPACITY,
                vals.len() as int,
            ));
        } else {
            assert(prevs =~= vals.drop_last().subrange(
                vals.len() - 1 - HISTORY_CAPACITY,
                vals.len() - 1,
            ));
            assert(prevs.drop_first().push(vals.last()) =~= vals.subrange(
                vals.len() - HISTORY_CAPACITY,
                vals.len() as int,
            ));
        }
    }
}

/// The sliding window itself.
#[derive(Debug)]
pub struct HistoryWindow {
    points: Vec<HistoryPoint>,
    t_left: u64,
    t_right: u64,
}

impl HistoryWindow {
    /// The retained points, oldest first.
    pub closed spec fn points_seq(self) -> Seq<HistoryPoint> {
        self.points@
    }

    /// Left edge of the time axis.
    pub closed spec fn left_edge(self) -> u64 {
        self.t_left
    }

    /// Right edge of the time axis.
    pub closed spec fn right_edge(self) -> u64 {
        self.t_right
    }

    /// Well-formed: never over capacity, the axis keeps its span, and the
    /// retained points carry consecutive ticks ending just under the right
    /// edge.
    pub open spec fn wf(self) -> bool {
        &&& self.points_seq().len() <= HISTORY_CAPACITY
        &&& self.left_edge() + WINDOW_SPAN == self.right_edge()
        &&& forall|i: int|
            0 <= i < self.points_seq().len() ==> (#[trigger] self.points_seq()[i]).time
                == self.right_edge() - self.points_seq().len() + i
    }

    /// An empty window with the axis at the origin.
    pub fn new() -> (w: HistoryWindow)
        ensures
            w.wf(),
            w.points_seq() == Seq::<HistoryPoint>::empty(),
            w.left_edge() == 0,
            w.right_edge() == WINDOW_SPAN,
    {
        let w = HistoryWindow { points: Vec::new(), t_left: 0, t_right: WINDOW_SPAN };
        proof {
            assert(w.points_seq() =~= Seq::<HistoryPoint>::empty());
        }
        w
    }

    /// Accept one usage value: record it at the current right edge,
    /// evicting the oldest point if the buffer is full, then advance both
    /// axis edges by one tick.
    pub fn push(&mut self, used_kb: u64)
        requires
            old(self).wf(),
            old(self).right_edge() < u64::MAX,
        ensures
            final(self).wf(),
            final(self).points_seq() == window_step(
                old(self).points_seq(),
                HistoryPoint { time: old(self).right_edge(), used_kb },
            ),
            final(self).left_edge() == old(self).left_edge() + 1,
            final(self).right_edge() == old(self).right_edge() + 1,
    {
        let pt = HistoryPoint { time: self.t_right, used_kb };
        if self.points.len() == HISTORY_CAPACITY {
            self.points.remove(0);
            proof {
                assert(self.points@ =~= old(self).points_seq().drop_first());
            }
        }
        self.points.push(pt);
        self.t_left = self.t_left + 1;
        self.t_right = self.t_right + 1;
    }

    /// How many points are retained.
    pub fn len(&self) -> (n: usize)
        ensures
            n == self.points_seq().len(),
    {
        self.points.len()
    }

    /// The retained points, oldest first.
    pub fn points(&self) -> (r: &Vec<HistoryPoint>)
        ensures
            r@ == self.points_seq(),
    {
        &self.points
    }

    /// Left edge of the time axis.
    pub fn time_left(&self) -> (t: u64)
        ensures
            t == self.left_edge(),
    {
        self.t_left
    }

    /// Right edge of the time axis.
    pub fn time_right(&self) -> (t: u64)
        ensures
            t == self.right_edge(),
    {
        self.t_right
    }
}

} // verus!
