use vstd::prelude::*;

verus! {

/// Shortest wait between polls, in seconds.
pub const MIN_WAIT_TIME: u64 = 5;

/// Longest wait between polls, in seconds.
pub const MAX_WAIT_TIME: u64 = 30;

/// Number of workers a fresh configuration starts with; also the floor.
pub const INITIAL_WORKERS: u32 = 2;

/// Most workers the configuration ever asks for.
pub const MAX_WORKERS: u32 = 8;

/// Polling wait and worker count that adapt to how busy the queue is and
/// how often work succeeds.
pub struct AdaptiveConfig {
    pub wait_time: u64,
    pub worker_count: u32,
    pub success_count: u32,
    pub failure_count: u32,
}

impl AdaptiveConfig {
    /// The wait lies in `[MIN_WAIT_TIME, MAX_WAIT_TIME]` and the worker
    /// count in `[INITIAL_WORKERS, MAX_WORKERS]`.
    pub open spec fn within_bounds(&self) -> bool {
        &&& MIN_WAIT_TIME <= self.wait_time <= MAX_WAIT_TIME
        &&& INITIAL_WORKERS <= self.worker_count <= MAX_WORKERS
    }

    pub fn new() -> (c: Self)
        ensures
            c.wait_time == MIN_WAIT_TIME,
            c.worker_count == INITIAL_WORKERS,
            c.success_count == 0,
            c.failure_count == 0,
            c.within_bounds(),
    {
        AdaptiveConfig {
            wait_time: MIN_WAIT_TIME,
            worker_count: INITIAL_WORKERS,
            success_count: 0,
            failure_count: 0,
        }
    }

    /// An empty queue doubles the wait (capped at `MAX_WAIT_TIME`); a
    /// non-empty one halves it (floored at `MIN_WAIT_TIME`).
    pub fn adjust_wait_time(&mut self, queue_size: u32)
        requires
            queue_size == 0 ==> old(self).wait_time * 2 <= u64::MAX,
        ensures
            final(self).wait_time == (if queue_size == 0 {
                if old(self).wait_time * 2 <= MAX_WAIT_TIME {
                    old(self).wait_time * 2
                } else {
                    MAX_WAIT_TIME as int
                }
            } else {
                if old(self).wait_time / 2 >= MIN_WAIT_TIME {
                    (old(self).wait_time / 2) as int
                } else {
                    MIN_WAIT_TIME as int
                }
            }),
            final(self).worker_count == old(self).worker_count,
            final(self).success_count == old(self).success_count,
            final(self).failure_count == old(self).failure_count,
            old(self).within_bounds() ==> final(self).within_bounds(),
    {
        let current = self.wait_time;
        let new_wait_time = if queue_size == 0 {
            let doubled = current * 2;
            if doubled < MAX_WAIT_TIME {
                doubled
            } else {
                MAX_WAIT_TIME
            }
        } else {
            let halved = current / 2;
            if halved > MIN_WAIT_TIME {
                halved
            } else {
                MIN_WAIT_TIME
            }
        };
        self.wait_time = new_wait_time;
    }

    /// More successes than failures adds a worker (up to `MAX_WORKERS`);
    /// more failures than successes removes one (down to
    /// `INITIAL_WORKERS`). Both counters are then reset.
    pub fn adjust_worker_count(&mut self)
        ensures
            final(self).worker_count == (if old(self).success_count > old(self).failure_count
                && old(self).worker_count < MAX_WORKERS {
                old(self).worker_count + 1
            } else if old(self).failure_count > old(self).success_count && old(self).worker_count
                > INITIAL_WORKERS {
                old(self).worker_count - 1
            } else {
                old(self).worker_count as int
            }),
            final(self).wait_time == old(self).wait_time,
            final(self).success_count == 0,
            final(self).failure_count == 0,
            old(self).within_bounds() ==> final(self).within_bounds(),
    {
        let success = self.success_count;
        let failure = self.failure_count;
        let current = self.worker_count;
        if success > failure && current < MAX_WORKERS {
            let raised = current + 1;
            self.worker_count = if raised < MAX_WORKERS {
                raised
            } else {
                MAX_WORKERS
            };
        } else if failure > success && current > INITIAL_WORKERS {
            let lowered = current - 1;
            self.worker_count = if lowered > INITIAL_WORKERS {
                lowered
            } else {
                INITIAL_WORKERS
            };
        }
        self.success_count = 0;
        self.failure_count = 0;
    }
}

} // verus!
