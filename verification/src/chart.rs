//! The live chart of packets per second: one point per elapsed second, newest
//! first.
//!
//! Times are milliseconds on a monotonic clock.
use vstd::prelude::*;
use std::collections::VecDeque;

verus! {

/// The number of points the chart starts with and keeps.
pub const CHART_POINTS: usize = 60;

/// The time between two points, in milliseconds.
pub const CHART_PERIOD_MS: u64 = 1_000;

/// The points of a live chart and the count of the current second.
pub struct MyChart {
    /// The counts of past seconds, newest first.
    pub points: VecDeque<usize>,
    /// The count of the current second.
    pub counter: usize,
    /// When the chart was made; a new point is due once a second has passed
    /// since then.
    pub last_check_time: u64,
}

/// A chart holds its sixty points, and while it is updated, one more.
pub open spec fn chart_len_ok(points: Seq<usize>) -> bool {
    points.len() == CHART_POINTS || points.len() == CHART_POINTS + 1
}

impl MyChart {
    /// A chart of sixty zero points, made at `now`.
    pub fn new(now: u64) -> (c: MyChart)
        ensures
            c.points@ == Seq::new(CHART_POINTS as nat, |i: int| 0usize),
            c.counter == 0,
            c.last_check_time == now,
    {
        let mut points: VecDeque<usize> = VecDeque::new();
        let mut i: usize = 0;
        while i < CHART_POINTS
            invariant
                i <= CHART_POINTS,
                points@ == Seq::new(i as nat, |j: int| 0usize),
            decreases CHART_POINTS - i,
        {
            points.push_back(0);
            assert(points@ == Seq::new((i + 1) as nat, |j: int| 0usize));
            i = i + 1;
        }
        MyChart { points, counter: 0, last_check_time: now }
    }

    /// Once a second has passed since the chart was made, moves the count of
    /// the current second to the front of the points and starts a new count;
    /// the oldest point is dropped when there are more than sixty. Before
    /// that, nothing changes.
    pub fn update(&mut self, now: u64)
        ensures
            (now <= old(self).last_check_time || now - old(self).last_check_time
                < CHART_PERIOD_MS) ==> *final(self) == *old(self),
            !(now <= old(self).last_check_time || now - old(self).last_check_time
                < CHART_PERIOD_MS) ==> {
                &&& final(self).points@ == seq![old(self).counter] + (if old(self).points@.len()
                    > CHART_POINTS {
                    old(self).points@.drop_last()
                } else {
                    old(self).points@
                })
                &&& final(self).counter == 0
                &&& final(self).last_check_time == old(self).last_check_time
            },
            chart_len_ok(old(self).points@) ==> chart_len_ok(final(self).points@),
    {
        if now <= self.last_check_time || now - self.last_check_time < CHART_PERIOD_MS {
            return ;
        }
        if self.points.len() > CHART_POINTS {
            let _ = self.points.pop_back();
        }
        self.points.push_front(self.counter);
        self.counter = 0;
    }

    /// The points to plot: the sixty newest counts, oldest first, each with
    /// its position on the time axis.
    pub fn plot_points(&self) -> (pts: Vec<(usize, usize)>)
        requires
            self.points@.len() >= CHART_POINTS,
        ensures
            pts@ == Seq::new(
                CHART_POINTS as nat,
                |i: int| (i as usize, self.points@[CHART_POINTS - 1 - i]),
            ),
    {
        let mut pts: Vec<(usize, usize)> = Vec::new();
        let mut i: usize = 0;
        while i < CHART_POINTS
            invariant
                i <= CHART_POINTS,
                self.points@.len() >= CHART_POINTS,
                pts@ == Seq::new(
                    i as nat,
                    |k: int| (k as usize, self.points@[CHART_POINTS - 1 - k]),
                ),
            decreases CHART_POINTS - i,
        {
            let count = self.points[CHART_POINTS - 1 - i];
            pts.push((i, count));
            assert(pts@ =~= Seq::new(
                (i + 1) as nat,
                |k: int| (k as usize, self.points@[CHART_POINTS - 1 - k]),
            ));
            i = i + 1;
        }
        pts
    }

    /// Adds `val` to the count of the current second.
    pub fn add(&mut self, val: usize)
        requires
            old(self).counter + val <= usize::MAX,
        ensures
            final(self).counter == old(self).counter + val,
            final(self).points == old(self).points,
            final(self).last_check_time == old(self).last_check_time,
    {
        self.counter = self.counter + val;
    }
}

/// Law: a chart always holds sixty or sixty-one points: it is made with
/// sixty, and an update keeps the count in that range.
pub proof fn law_chart_keeps_sixty_points(points: Seq<usize>, counter: usize)
    requires
        chart_len_ok(points),
    ensures
        chart_len_ok(Seq::new(CHART_POINTS as nat, |i: int| 0usize)),
        chart_len_ok(
            seq![counter] + (if points.len() > CHART_POINTS {
                points.drop_last()
            } else {
                points
            }),
        ),
{
}

} // verus!
