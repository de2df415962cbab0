use vstd::prelude::*;

verus! {

/// Queue sizes. Chosen to be larger than the tasks API page size (currently, 50).
pub const TASK_QUEUE_SIZE: usize = 100;

pub const EVENT_QUEUE_SIZE: usize = 100;

pub const RESULT_QUEUE_SIZE: usize = 100;

/// Number of tasks fetched in one batch.
pub const BATCH_SIZE: usize = TASK_QUEUE_SIZE / 3;

/// Below this many queued tasks, more are fetched.
pub const LOW_WATER_MARK: usize = TASK_QUEUE_SIZE / 3;

pub const MAX_404S_BEFORE_GIVING_UP: usize = 3;

/// Back-off durations, in milliseconds.
pub const BACKOFF_DURATION: u64 = 10000;

pub const MIN_BACKOFF_DURATION: u64 = 5000;

pub const MAX_BACKOFF_DURATION: u64 = 60000;

/// How often the queue sizes are logged, in milliseconds.
pub const QUEUE_LOG_INTERVAL: u64 = 30000;

/// How long a task ID remains in the duplicate-prevention cache before expiring, in milliseconds.
pub const CACHE_EXPIRATION: u64 = 300000;

/// Consecutive empty fetches tolerated before a forced fetch.
pub const MAX_CONSECUTIVE_EMPTY_FETCHES: u32 = 5;

/// Timeout after which a fetch is forced, in milliseconds.
pub const FORCE_FETCH_TIMEOUT: u64 = 300000;

} // verus!
