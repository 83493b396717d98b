//! The pool of workers: how many there are, and which of them are done.
use vstd::prelude::*;

verus! {

/// With automatic scaling, a download starts with so many workers.
pub const AUTO_START: usize = 16;

/// Automatic scaling stops at so many workers.
pub const AUTO_MAX: usize = 128;

/// How long the pool waits between two sweeps.
pub const SWEEP_PAUSE_MILLIS: u64 = 50;

/// How long automatic scaling waits between two measurements.
pub const SCALE_PAUSE_SECS: u64 = 1;

/// How the speed compares with the one measured before.
#[derive(Clone, Copy, Debug, PartialEq, Eq, Structural)]
pub struct SpeedTrend {
    /// Higher by more than a fiftieth.
    pub grew: bool,
    /// Higher by more than a fifth.
    pub surged: bool,
    /// Not zero, but less than 85 in 100.
    pub fell: bool,
}

/// What automatic scaling does after a measurement.
#[derive(Clone, Copy, Debug, PartialEq, Eq, Structural)]
pub enum ScaleAction {
    /// Add `count` workers, numbered from `first` on.
    Spawn { first: usize, count: usize },
    /// Leave the pool as it is.
    Hold,
    /// Leave the pool as it is, for good.
    Stop,
}

/// How many workers to add when the speed went up.
pub open spec fn growth(current: usize, surged: bool) -> int {
    let wanted: int = if surged {
        16
    } else {
        4
    };
    if wanted <= AUTO_MAX - current {
        wanted
    } else {
        AUTO_MAX - current
    }
}

/// What automatic scaling does with `current` workers, and how many there are then.
pub open spec fn scaled(current: usize, queue_empty: bool, trend: SpeedTrend) -> (
    usize,
    ScaleAction,
) {
    if queue_empty {
        (current, ScaleAction::Stop)
    } else if trend.grew && current < AUTO_MAX {
        let count = growth(current, trend.surged);
        (
            (current + count) as usize,
            ScaleAction::Spawn { first: (current + 1) as usize, count: count as usize },
        )
    } else if trend.fell {
        (current, ScaleAction::Stop)
    } else {
        (current, ScaleAction::Hold)
    }
}

/// Automatic scaling.
#[derive(Clone, Copy, Debug, PartialEq, Eq, Structural)]
pub struct Scaler {
    /// How many workers were started.
    pub current: usize,
}

impl Scaler {
    pub fn new(current: usize) -> (s: Scaler)
        ensures
            s.current == current,
    {
        Scaler { current }
    }

    /// Reacts to a measurement of the speed.
    pub fn step(&mut self, queue_empty: bool, trend: SpeedTrend) -> (action: ScaleAction)
        ensures
            (final(self).current, action) == scaled(old(self).current, queue_empty, trend),
    {
        if queue_empty {
            return ScaleAction::Stop;
        }
        if trend.grew && self.current < AUTO_MAX {
            let wanted: usize = if trend.surged {
                16
            } else {
                4
            };
            let room: usize = AUTO_MAX - self.current;
            let count: usize = if wanted <= room {
                wanted
            } else {
                room
            };
            let first: usize = self.current + 1;
            self.current = self.current + count;
            ScaleAction::Spawn { first, count }
        } else if trend.fell {
            ScaleAction::Stop
        } else {
            ScaleAction::Hold
        }
    }
}

/// The pool grows whenever the speed did and there is still something to fetch: by 16 workers
/// after a surge and by 4 otherwise, but never beyond 128 workers.
pub proof fn pool_grows_with_the_speed(current: usize, trend: SpeedTrend)
    requires
        current < 128,
        trend.grew,
    ensures
        scaled(current, false, trend).1 matches ScaleAction::Spawn { first, count } && {
            &&& first == current + 1
            &&& scaled(current, false, trend).0 == current + count
            &&& trend.surged && current <= 112 ==> count == 16
            &&& !trend.surged && current <= 124 ==> count == 4
            &&& count == 16 || count == 4 || current + count == 128
            &&& current + count <= 128
            &&& count <= if trend.surged {
                16int
            } else {
                4
            }
        },
{
}

/// Where the pool does not grow, it keeps its size, and scaling ends if and only if nothing is
/// left to fetch or the speed fell.
pub proof fn scaling_ends_with_the_queue_or_the_speed(
    current: usize,
    queue_empty: bool,
    trend: SpeedTrend,
)
    requires
        queue_empty || !trend.grew || current >= 128,
    ensures
        scaled(current, queue_empty, trend).0 == current,
        scaled(current, queue_empty, trend).1 == ScaleAction::Stop <==> queue_empty || trend.fell,
        scaled(current, queue_empty, trend).1 == ScaleAction::Hold <==> !queue_empty
            && !trend.fell,
{
}

/// The number of workers after several measurements.
pub open spec fn scaled_all(current: usize, steps: Seq<(bool, SpeedTrend)>) -> usize
    decreases steps.len(),
{
    if steps.len() == 0 {
        current
    } else {
        scaled(scaled_all(current, steps.drop_last()), steps.last().0, steps.last().1).0
    }
}

/// Automatic scaling never takes workers away and never goes beyond its limit.
pub proof fn scaling_stays_within_limit(current: usize, steps: Seq<(bool, SpeedTrend)>)
    requires
        current <= AUTO_MAX,
    ensures
        current <= scaled_all(current, steps) <= AUTO_MAX,
        AUTO_MAX == 128,
    decreases steps.len(),
{
    if steps.len() > 0 {
        scaling_stays_within_limit(current, steps.drop_last());
    }
}

/// The workers that one measurement adds are numbered on from the number of workers
/// before it, up to the number after it: no two workers added get the same number.
pub proof fn new_workers_are_numbered_on(current: usize, queue_empty: bool, trend: SpeedTrend)
    requires
        current <= AUTO_MAX,
    ensures
        match scaled(current, queue_empty, trend) {
            (after, ScaleAction::Spawn { first, count }) => {
                &&& first == current + 1
                &&& first + count == after + 1
                &&& count >= 1
            },
            (after, _) => after == current,
        },
{
}

/// A pass over the workers of a pool that collects those that are done.
#[derive(Clone, Copy, Debug, PartialEq, Eq, Structural)]
pub struct Sweep {
    /// The position of the next worker to look at.
    pub next: usize,
    /// How many workers are in the pool.
    pub count: usize,
}

impl Sweep {
    pub open spec fn wf(self) -> bool {
        self.next <= self.count
    }

    pub open spec fn after(self, finished: bool) -> Sweep {
        if finished {
            Sweep { count: (self.count - 1) as usize, ..self }
        } else {
            Sweep { next: (self.next + 1) as usize, ..self }
        }
    }

    /// The position of the worker to look at, if any is left.
    pub open spec fn due(self) -> Option<usize> {
        if self.next < self.count {
            Some(self.next)
        } else {
            None
        }
    }

    /// The pass after several workers were looked at.
    pub open spec fn after_all(self, finished: Seq<bool>) -> Sweep
        decreases finished.len(),
    {
        if finished.len() == 0 {
            self
        } else {
            self.after_all(finished.drop_last()).after(finished.last())
        }
    }

    pub fn new(count: usize) -> (s: Sweep)
        ensures
            s == (Sweep { next: 0, count }),
            s.wf(),
    {
        Sweep { next: 0, count }
    }

    /// The position of the worker to look at, if any is left.
    pub fn position(&self) -> (r: Option<usize>)
        ensures
            r == if self.next < self.count {
                Some(self.next)
            } else {
                None
            },
            r == self.due(),
    {
        if self.next < self.count {
            Some(self.next)
        } else {
            None
        }
    }

    /// Takes note of whether the worker at the position is done. One that is done leaves
    /// the pool, and the next one takes its position.
    pub fn record(&mut self, finished: bool)
        requires
            old(self).wf(),
            old(self).next < old(self).count,
        ensures
            *final(self) == old(self).after(finished),
            final(self).wf(),
    {
        if finished {
            self.count = self.count - 1;
        } else {
            self.next = self.next + 1;
        }
    }
}

/// How many of these workers are not done.
pub open spec fn unfinished(finished: Seq<bool>) -> int
    decreases finished.len(),
{
    if finished.len() == 0 {
        0
    } else {
        unfinished(finished.drop_last()) + if finished.last() {
            0int
        } else {
            1
        }
    }
}

/// While workers are left to look at, the one that is due stands behind all those found not
/// to be done, and when none is left, these are the pool.
pub proof fn sweep_looks_behind_the_unfinished(count: usize, finished: Seq<bool>)
    requires
        finished.len() <= count,
    ensures
        ({
            let stay = finished.filter(|f: bool| !f).len();
            let s = (Sweep { next: 0, count }).after_all(finished);
            &&& finished.len() < count ==> s.due() == Some(stay as usize) && stay < s.count
            &&& finished.len() == count ==> s.due() is None && s.count == stay
            &&& s.count == count - finished.len() + stay
        }),
    decreases finished.len(),
{
    sweep_keeps_the_unfinished(count, finished);
    lemma_unfinished(finished);
}

proof fn lemma_unfinished(finished: Seq<bool>)
    ensures
        unfinished(finished) == finished.filter(|f: bool| !f).len(),
    decreases finished.len(),
{
    reveal(Seq::filter);
    if finished.len() > 0 {
        lemma_unfinished(finished.drop_last());
    }
}

/// A pass looks at each worker once, and the workers that stay in the pool are those that
/// were not done.
pub proof fn sweep_keeps_the_unfinished(count: usize, finished: Seq<bool>)
    requires
        finished.len() <= count,
    ensures
        ({
            let s = (Sweep { next: 0, count }).after_all(finished);
            &&& s.wf()
            &&& s.next == unfinished(finished)
            &&& s.count == count - finished.len() + unfinished(finished)
            &&& (s.next == s.count) == (finished.len() == count)
        }),
    decreases finished.len(),
{
    if finished.len() > 0 {
        sweep_keeps_the_unfinished(count, finished.drop_last());
    }
}

/// The pool is swept twenty times a second, and the speed is measured every second; automatic
/// scaling starts with 16 workers.
pub proof fn pool_keeps_its_pace()
    ensures
        20 * SWEEP_PAUSE_MILLIS == 1000,
        1000 * SCALE_PAUSE_SECS == 1000,
        AUTO_START == 16,
{
}

} // verus!
