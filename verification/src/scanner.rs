//! The chunked scanner: a range of blocks is walked from its upper bound
//! down to its lower bound in chunks whose size follows the density of the
//! swaps that the previous chunk held.

use vstd::prelude::*;
use crate::models::Range;

verus! {

/// The parameters of a scan.
#[derive(Clone, Copy, Debug)]
pub struct Params {
    /// Size of the first chunk, in blocks.
    pub blocks_per_chunk: u64,
    /// The largest size a chunk may take.
    pub max_blocks_per_chunk: u64,
    /// The number of swaps that a chunk should hold.
    pub target_swaps_per_chunk: u64,
    /// The widest window of blocks that one query may ask for.
    pub max_blocks_per_request: u64,
}

/// Why a scan cannot be set up.
#[derive(Clone, Copy, Debug, PartialEq, Eq, Structural)]
pub enum ScanError {
    /// A bound of the range is no block number.
    NumericOverflow,
}

/// Where a scan stands.
#[derive(Clone, Copy, Debug, PartialEq, Eq, Structural)]
pub enum ScanStatus {
    /// Blocks are left to fetch.
    Running,
    /// Every block of the range was fetched and stored.
    Complete,
    /// A chunk could not be fetched, enriched or stored.
    Failed,
}

/// What happened to the chunk that was last asked for.
#[derive(Clone, Copy, Debug, PartialEq, Eq, Structural)]
pub enum ChunkOutcome {
    /// The chunk held `events` swaps, and what was found in it is stored.
    Stored { events: u64 },
    /// Fetching, enriching or storing failed.
    Failed,
}

/// What the driver of a scan has to do next.
#[derive(Clone, Copy, Debug, PartialEq, Eq, Structural)]
pub enum ScanAction {
    /// Fetch the swaps of the blocks `lower ..= upper`.
    Fetch { lower: u64, upper: u64 },
    /// Record the range as complete.
    MarkComplete,
    /// Record the range as failed.
    MarkFailed,
}

/// The state of one scan job.
#[derive(Clone, Copy, Debug)]
pub struct ScanJob {
    pub params: Params,
    /// The lowest block of the range.
    pub floor: u64,
    /// The highest block not fetched yet.
    pub upper: u64,
    /// The size of the next chunk.
    pub chunk_size: u64,
    pub status: ScanStatus,
}

/// The lowest block of a chunk of `size` blocks that ends at `upper` and
/// does not reach below `floor`.
pub open spec fn chunk_lower(floor: int, upper: int, size: int) -> int {
    if upper - size + 1 > floor {
        upper - size + 1
    } else {
        floor
    }
}

/// A chunk size held between one block and `max_size` blocks; one block
/// where `max_size` is less.
pub open spec fn clamp_chunk(size: int, max_size: int) -> int {
    if size < 1 || max_size < 1 {
        1
    } else if size > max_size {
        max_size
    } else {
        size
    }
}

/// The size of the chunk that follows one of `span` blocks which held
/// `events` swaps: as many blocks as hold `target` swaps at that density,
/// rounded down; the largest size where the chunk held no swap.
pub open spec fn next_chunk_size(target: int, span: int, events: int, max_size: int) -> int {
    if events <= 0 {
        clamp_chunk(max_size, max_size)
    } else {
        clamp_chunk((target * span) / events, max_size)
    }
}

/// The lowest block of the chunk that ends at `upper`.
pub fn get_lower_bound(upper: u64, size: u64, min_lower: u64) -> (lower: u64)
    requires
        size >= 1,
    ensures
        lower == chunk_lower(min_lower as int, upper as int, size as int),
{
    if upper >= size - 1 && upper - (size - 1) > min_lower {
        upper - (size - 1)
    } else {
        min_lower
    }
}

/// The size of the chunk that follows one of `span` blocks with `events`
/// swaps.
pub fn adapt_chunk_size(params: &Params, events: u64, span: u64) -> (size: u64)
    ensures
        size == next_chunk_size(
            params.target_swaps_per_chunk as int,
            span as int,
            events as int,
            params.max_blocks_per_chunk as int,
        ),
        size >= 1,
{
    let max_size: u64 = params.max_blocks_per_chunk;
    let largest: u64 = if max_size >= 1 {
        max_size
    } else {
        1
    };
    if events == 0 {
        return largest;
    }
    assert(params.target_swaps_per_chunk as int * span as int <= u64::MAX as int * u64::MAX as int)
        by (nonlinear_arith)
        requires
            0 <= params.target_swaps_per_chunk as int <= u64::MAX as int,
            0 <= span as int <= u64::MAX as int,
    ;
    let product: u128 = (params.target_swaps_per_chunk as u128) * (span as u128);
    let ideal: u128 = product / (events as u128);
    if ideal > max_size as u128 {
        largest
    } else if ideal >= 1 {
        ideal as u64
    } else {
        1
    }
}

impl ScanJob {
    /// What holds of every job: a chunk has at least one block, and while
    /// the job runs there is a block left to fetch.
    pub open spec fn wf(&self) -> bool {
        &&& self.chunk_size >= 1
        &&& self.status == ScanStatus::Running ==> self.floor <= self.upper
    }

    /// The chunk to fetch next, as its lowest and highest block.
    pub open spec fn spec_chunk(&self) -> (int, int) {
        (chunk_lower(self.floor as int, self.upper as int, self.chunk_size as int), self.upper as int)
    }

    /// The number of blocks not fetched yet.
    pub open spec fn remaining(&self) -> int {
        if self.status == ScanStatus::Running {
            self.upper - self.floor + 1
        } else {
            0
        }
    }

    /// The job after `outcome` was reported for the chunk it asked for.
    pub open spec fn spec_record(&self, outcome: ChunkOutcome) -> ScanJob {
        if self.status != ScanStatus::Running {
            *self
        } else {
            match outcome {
                ChunkOutcome::Failed => ScanJob { status: ScanStatus::Failed, ..*self },
                ChunkOutcome::Stored { events } => {
                    let (lower, upper) = self.spec_chunk();
                    let size = next_chunk_size(
                        self.params.target_swaps_per_chunk as int,
                        upper - lower + 1,
                        events as int,
                        self.params.max_blocks_per_chunk as int,
                    ) as u64;
                    if lower == self.floor {
                        ScanJob { chunk_size: size, status: ScanStatus::Complete, ..*self }
                    } else {
                        ScanJob { chunk_size: size, upper: (lower - 1) as u64, ..*self }
                    }
                },
            }
        }
    }

    /// What the job asks of its driver.
    pub open spec fn spec_action(&self) -> ScanAction {
        match self.status {
            ScanStatus::Running => ScanAction::Fetch {
                lower: self.spec_chunk().0 as u64,
                upper: self.upper,
            },
            ScanStatus::Complete => ScanAction::MarkComplete,
            ScanStatus::Failed => ScanAction::MarkFailed,
        }
    }

    /// A job for the blocks of `range`, from its upper bound downward. A
    /// range without a block is complete at once. The first chunk has
    /// `params.blocks_per_chunk` blocks, and one block where that is zero.
    pub fn new(range: &Range, params: Params) -> (r: Result<ScanJob, ScanError>)
        ensures
            (r is Err) <==> (range.lower_bound < 0 || range.upper_bound < 0),
            r matches Err(e) ==> e == ScanError::NumericOverflow,
            r matches Ok(job) ==> {
                &&& job.wf()
                &&& job.params == params
                &&& job.floor == range.lower_bound
                &&& job.upper == range.upper_bound
                &&& job.chunk_size == clamp_chunk(params.blocks_per_chunk as int, u64::MAX as int)
                &&& job.status == if range.lower_bound <= range.upper_bound {
                    ScanStatus::Running
                } else {
                    ScanStatus::Complete
                }
            },
    {
        if range.lower_bound < 0 || range.upper_bound < 0 {
            return Err(ScanError::NumericOverflow);
        }
        let status = if range.lower_bound <= range.upper_bound {
            ScanStatus::Running
        } else {
            ScanStatus::Complete
        };
        let chunk_size: u64 = if params.blocks_per_chunk >= 1 {
            params.blocks_per_chunk
        } else {
            1
        };
        Ok(
            ScanJob {
                params,
                floor: range.lower_bound as u64,
                upper: range.upper_bound as u64,
                chunk_size,
                status,
            },
        )
    }

    /// What the driver has to do next.
    pub fn action(&self) -> (a: ScanAction)
        requires
            self.wf(),
        ensures
            a == self.spec_action(),
    {
        match self.status {
            ScanStatus::Running => ScanAction::Fetch {
                lower: get_lower_bound(self.upper, self.chunk_size, self.floor),
                upper: self.upper,
            },
            ScanStatus::Complete => ScanAction::MarkComplete,
            ScanStatus::Failed => ScanAction::MarkFailed,
        }
    }

    /// Takes in what became of the chunk that the job asked for: a failure
    /// ends the job; a stored chunk sets the size of the next one and moves
    /// the job below it, or completes the job where the chunk reached the
    /// lowest block. A job that has ended stays as it is.
    pub fn record(&mut self, outcome: ChunkOutcome)
        requires
            old(self).wf(),
        ensures
            *final(self) == old(self).spec_record(outcome),
            final(self).wf(),
    {
        match self.status {
            ScanStatus::Running => {},
            _ => {
                return ;
            },
        }
        match outcome {
            ChunkOutcome::Failed => {
                self.status = ScanStatus::Failed;
            },
            ChunkOutcome::Stored { events } => {
                let lower: u64 = get_lower_bound(self.upper, self.chunk_size, self.floor);
                let span: u64 = self.upper - lower + 1;
                self.chunk_size = adapt_chunk_size(&self.params, events, span);
                if lower == self.floor {
                    self.status = ScanStatus::Complete;
                } else {
                    self.upper = lower - 1;
                }
            },
        }
    }

    /// Takes in `outcome` and says what to do next.
    pub fn step(&mut self, outcome: ChunkOutcome) -> (a: ScanAction)
        requires
            old(self).wf(),
        ensures
            *final(self) == old(self).spec_record(outcome),
            final(self).wf(),
            a == final(self).spec_action(),
    {
        self.record(outcome);
        self.action()
    }
}

/// A chunk lies within what is left of the range, ends at the highest block
/// that is left, and holds no more blocks than the chunk size.
pub proof fn lemma_chunk_within_range(job: ScanJob)
    requires
        job.wf(),
        job.status == ScanStatus::Running,
    ensures
        job.floor <= job.spec_chunk().0 <= job.spec_chunk().1,
        job.spec_chunk().1 == job.upper,
        job.spec_chunk().1 - job.spec_chunk().0 + 1 <= job.chunk_size,
{
}

/// A stored chunk takes exactly its own blocks from what is left, the next
/// chunk ends right below it, and the job is complete exactly when the chunk
/// reached the lowest block of the range: every block of the range is fetched
/// once.
pub proof fn lemma_stored_chunk_consumed(job: ScanJob, events: u64)
    requires
        job.wf(),
        job.status == ScanStatus::Running,
    ensures
        ({
            let next = job.spec_record(ChunkOutcome::Stored { events });
            let (lower, upper) = job.spec_chunk();
            &&& next.wf()
            &&& next.floor == job.floor
            &&& next.remaining() == job.remaining() - (upper - lower + 1)
            &&& next.remaining() < job.remaining()
            &&& next.status == ScanStatus::Running ==> next.upper == lower - 1
            &&& (next.status == ScanStatus::Complete) <==> lower == job.floor
            &&& (next.status == ScanStatus::Complete) <==> next.remaining() == 0
            &&& next.status != ScanStatus::Failed
            &&& 1 <= next.chunk_size
            &&& next.chunk_size <= job.params.max_blocks_per_chunk || next.chunk_size == 1
        }),
{
}

/// A failed chunk fails the job, whatever was left of the range.
pub proof fn lemma_failed_chunk_fails_job(job: ScanJob)
    requires
        job.status == ScanStatus::Running,
    ensures
        job.spec_record(ChunkOutcome::Failed).status == ScanStatus::Failed,
        job.spec_record(ChunkOutcome::Failed).spec_action() == ScanAction::MarkFailed,
{
}

/// A job that is complete or failed stays so: no outcome reported later
/// changes it.
pub proof fn lemma_ended_job_stays(job: ScanJob, outcome: ChunkOutcome)
    requires
        job.status != ScanStatus::Running,
    ensures
        job.spec_record(outcome) == job,
{
}

} // verus!
