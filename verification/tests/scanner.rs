use sandwich_lab::models::Range;
use sandwich_lab::scanner::{
    adapt_chunk_size, get_lower_bound, ChunkOutcome, Params, ScanAction, ScanError, ScanJob,
    ScanStatus,
};

fn params() -> Params {
    Params {
        blocks_per_chunk: 1_000,
        max_blocks_per_chunk: 10_000,
        target_swaps_per_chunk: 300,
        max_blocks_per_request: 100_000,
    }
}

fn range(lower: i64, upper: i64) -> Range {
    Range {
        range_id: 1,
        pair_id: 7,
        lower_bound: lower,
        upper_bound: upper,
        scan_complete: false,
        scan_failed: false,
    }
}

#[test]
fn chunk_size_follows_density() {
    assert_eq!(adapt_chunk_size(&params(), 600, 1_000), 500);
}

#[test]
fn chunk_size_is_clamped_to_the_maximum() {
    let mut p = params();
    p.max_blocks_per_chunk = 400;
    assert_eq!(adapt_chunk_size(&p, 600, 1_000), 400);
    assert_eq!(adapt_chunk_size(&params(), 1, 1_000), 10_000);
}

#[test]
fn chunk_size_without_swaps_is_the_maximum() {
    assert_eq!(adapt_chunk_size(&params(), 0, 1_000), 10_000);
}

#[test]
fn chunk_size_is_at_least_one() {
    assert_eq!(adapt_chunk_size(&params(), 1_000_000, 10), 1);
    let mut p = params();
    p.max_blocks_per_chunk = 0;
    assert_eq!(adapt_chunk_size(&p, 0, 10), 1);
    assert_eq!(adapt_chunk_size(&p, 5, 10), 1);
}

#[test]
fn chunk_size_does_not_overflow() {
    let mut p = params();
    p.target_swaps_per_chunk = u64::MAX;
    p.max_blocks_per_chunk = u64::MAX;
    assert_eq!(adapt_chunk_size(&p, 1, u64::MAX), u64::MAX);
    assert_eq!(adapt_chunk_size(&p, u64::MAX, u64::MAX), u64::MAX);
}

#[test]
fn lower_bound_of_a_chunk() {
    assert_eq!(get_lower_bound(2_000, 1_000, 0), 1_001);
    assert_eq!(get_lower_bound(2_000, 1_000, 1_500), 1_500);
    assert_eq!(get_lower_bound(10, 1_000, 0), 0);
    assert_eq!(get_lower_bound(10, 1, 0), 10);
    assert_eq!(get_lower_bound(u64::MAX, u64::MAX, 0), 1);
}

#[test]
fn job_walks_the_range_downward() {
    let mut job = ScanJob::new(&range(1_000, 3_499), params()).unwrap();
    assert_eq!(job.action(), ScanAction::Fetch { lower: 2_500, upper: 3_499 });
    assert_eq!(
        job.step(ChunkOutcome::Stored { events: 600 }),
        ScanAction::Fetch { lower: 2_000, upper: 2_499 }
    );
    assert_eq!(job.chunk_size, 500);
    assert_eq!(
        job.step(ChunkOutcome::Stored { events: 0 }),
        ScanAction::Fetch { lower: 1_000, upper: 1_999 }
    );
    assert_eq!(job.chunk_size, 10_000);
    assert_eq!(job.step(ChunkOutcome::Stored { events: 3 }), ScanAction::MarkComplete);
    assert_eq!(job.status, ScanStatus::Complete);
}

#[test]
fn job_fails_on_a_failed_chunk_and_stays_failed() {
    let mut job = ScanJob::new(&range(0, 5_000), params()).unwrap();
    assert_eq!(job.step(ChunkOutcome::Failed), ScanAction::MarkFailed);
    assert_eq!(job.step(ChunkOutcome::Stored { events: 1 }), ScanAction::MarkFailed);
    assert_eq!(job.status, ScanStatus::Failed);
}

#[test]
fn job_reaches_block_zero_without_underflow() {
    let mut job = ScanJob::new(&range(0, 10), params()).unwrap();
    assert_eq!(job.action(), ScanAction::Fetch { lower: 0, upper: 10 });
    assert_eq!(job.step(ChunkOutcome::Stored { events: 11 }), ScanAction::MarkComplete);
}

#[test]
fn job_of_an_empty_range_is_complete() {
    let job = ScanJob::new(&range(10, 9), params()).unwrap();
    assert_eq!(job.action(), ScanAction::MarkComplete);
}

#[test]
fn job_rejects_negative_bounds() {
    assert_eq!(ScanJob::new(&range(-1, 9), params()).err(), Some(ScanError::NumericOverflow));
    assert_eq!(ScanJob::new(&range(0, -9), params()).err(), Some(ScanError::NumericOverflow));
}

#[test]
fn job_with_zero_initial_chunk_takes_one_block() {
    let mut p = params();
    p.blocks_per_chunk = 0;
    let job = ScanJob::new(&range(5, 9), p).unwrap();
    assert_eq!(job.action(), ScanAction::Fetch { lower: 9, upper: 9 });
}
