//! How a query for the sandwiches before a block is answered: from a range
//! that holds the block, or by allocating a range and scanning it.

use vstd::prelude::*;
use vstd::std_specs::convert::FromSpecImpl;
use crate::ledger::{
    covers, find_encompassing_range, find_preceding_range_upper_bound, insert_range,
    lemma_encompassing, lemma_preceding, max_id, spec_encompassing, spec_preceding, Ledger,
};
use crate::models::{Range, Sandwich};

verus! {

/// Why a query is turned down before anything is scanned or fetched.
#[derive(Clone, Copy, Debug, PartialEq, Eq, Structural)]
pub enum QueryError {
    /// A block number, a window width or an id does not fit 63 bits.
    NumericOverflow,
    /// The block is in no range, and the range to allocate for it would hold
    /// no block.
    EmptyWindow,
}

/// What a query leads to.
#[derive(Clone, Copy, Debug, PartialEq, Eq, Structural)]
pub enum QueryPlan {
    /// The block lies in a range whose scan failed: report that.
    ScanFailed { range: Range },
    /// The block lies in a range: return what is stored of the blocks
    /// `after_block ..= before_block`.
    Serve { range: Range, after_block: i64, before_block: i64 },
    /// The block lies in no range: allocate `lower ..= upper` and scan it.
    Scan { lower: i64, upper: i64 },
}

/// A plan, and the range that was allocated for it where it is a scan.
#[derive(Clone, Copy, Debug, PartialEq, Eq, Structural)]
pub struct Resolution {
    pub plan: QueryPlan,
    pub allocated: Option<Range>,
}

/// The bounds of a scan as a response shows them.
#[derive(Clone, Copy, Debug, PartialEq, Eq, Structural)]
pub struct ScanMetadata {
    pub lower_bound: u64,
    pub upper_bound: u64,
    pub complete: bool,
    pub failed: bool,
}

/// The bounds of what a response holds.
#[derive(Clone, Copy, Debug, PartialEq, Eq, Structural)]
pub struct FetchMetadata {
    pub lower_bound: u64,
    pub upper_bound: u64,
}

/// The lower bound of a range allocated for `before`: right above the
/// closest range below, and no more than `max_blocks` blocks in all. Where
/// no range lies below, the bound is taken above block zero.
pub open spec fn new_range_lower(before: int, max_blocks: int, preceding: Option<i64>) -> int {
    let bound = match preceding {
        Some(upper) => upper as int,
        None => 0,
    };
    if before - max_blocks >= bound {
        before - max_blocks + 1
    } else {
        bound + 1
    }
}

/// The lowest block that is served from a range for `before`: `max_blocks`
/// below it, but not below the range.
pub open spec fn window_lower(before: int, max_blocks: int, range_lower: int) -> int {
    if before - max_blocks >= range_lower {
        before - max_blocks
    } else {
        range_lower
    }
}

/// What a query for the blocks before `before` of pair `pid` leads to.
pub open spec fn spec_plan(ranges: Seq<Range>, pid: i32, before: u64, max_blocks: u64) -> Result<
    QueryPlan,
    QueryError,
> {
    if before > i64::MAX {
        Err(QueryError::NumericOverflow)
    } else {
        match spec_encompassing(ranges, pid, before as int) {
            Some(range) => if range.scan_failed {
                Ok(QueryPlan::ScanFailed { range })
            } else if max_blocks > i64::MAX {
                Err(QueryError::NumericOverflow)
            } else {
                Ok(
                    QueryPlan::Serve {
                        range,
                        after_block: window_lower(
                            before as int,
                            max_blocks as int,
                            range.lower_bound as int,
                        ) as i64,
                        before_block: before as i64,
                    },
                )
            },
            None => if max_blocks > i64::MAX {
                Err(QueryError::NumericOverflow)
            } else {
                let lower = new_range_lower(
                    before as int,
                    max_blocks as int,
                    spec_preceding(ranges, pid, before as int),
                );
                if lower > before {
                    Err(QueryError::EmptyWindow)
                } else {
                    Ok(QueryPlan::Scan { lower: lower as i64, upper: before as i64 })
                }
            },
        }
    }
}

/// Whether a sandwich is one of pair `pid` within the bounds that are given.
pub open spec fn in_window(
    sandwich: Sandwich,
    pid: i32,
    min_ge_block: Option<i64>,
    max_le_block: Option<i64>,
) -> bool {
    &&& sandwich.pair_id == pid
    &&& min_ge_block matches Some(min_block) ==> sandwich.block_number >= min_block
    &&& max_le_block matches Some(max_block) ==> sandwich.block_number <= max_block
}

/// The least block among the sandwiches, and `fallback` where there is none.
pub open spec fn least_block(sandwiches: Seq<Sandwich>, fallback: i64) -> i64
    decreases sandwiches.len(),
{
    if sandwiches.len() == 0 {
        fallback
    } else if sandwiches.len() == 1 {
        sandwiches[0].block_number
    } else {
        let earlier = least_block(sandwiches.drop_last(), fallback);
        if sandwiches.last().block_number < earlier {
            sandwiches.last().block_number
        } else {
            earlier
        }
    }
}

/// The bounds of what a response holds: up to `before_block`, and down to
/// `after_block` where the scan is complete, else down to the lowest block
/// with a sandwich, or `before_block` where there is none.
pub open spec fn spec_fetch_metadata(
    range: Range,
    sandwiches: Seq<Sandwich>,
    after_block: i64,
    before_block: i64,
) -> FetchMetadata {
    FetchMetadata {
        lower_bound: if range.scan_complete {
            after_block as u64
        } else {
            least_block(sandwiches, before_block) as u64
        },
        upper_bound: before_block as u64,
    }
}

impl From<Range> for ScanMetadata {
    fn from(range: Range) -> (r: ScanMetadata) {
        ScanMetadata {
            lower_bound: #[verifier::truncate]
            (range.lower_bound as u64),
            upper_bound: #[verifier::truncate]
            (range.upper_bound as u64),
            complete: range.scan_complete,
            failed: range.scan_failed,
        }
    }
}

impl FromSpecImpl<Range> for ScanMetadata {
    open spec fn obeys_from_spec() -> bool {
        true
    }

    open spec fn from_spec(range: Range) -> ScanMetadata {
        ScanMetadata {
            lower_bound: range.lower_bound as u64,
            upper_bound: range.upper_bound as u64,
            complete: range.scan_complete,
            failed: range.scan_failed,
        }
    }
}

/// Decides what a query for the blocks before `before` of pair `pid` leads
/// to, among the ranges that are stored.
pub fn plan_query(ranges: &Vec<Range>, pid: i32, before: u64, max_blocks: u64) -> (r: Result<
    QueryPlan,
    QueryError,
>)
    ensures
        r == spec_plan(ranges@, pid, before, max_blocks),
{
    if before > 0x7fff_ffff_ffff_ffff {
        return Err(QueryError::NumericOverflow);
    }
    let before_block: i64 = before as i64;
    match find_encompassing_range(ranges, pid, before_block) {
        Some(range) => {
            if range.scan_failed {
                return Ok(QueryPlan::ScanFailed { range });
            }
            if max_blocks > 0x7fff_ffff_ffff_ffff {
                return Err(QueryError::NumericOverflow);
            }
            let shifted: i64 = before_block - (max_blocks as i64);
            let after_block: i64 = if shifted >= range.lower_bound {
                shifted
            } else {
                range.lower_bound
            };
            Ok(QueryPlan::Serve { range, after_block, before_block })
        },
        None => {
            if max_blocks > 0x7fff_ffff_ffff_ffff {
                return Err(QueryError::NumericOverflow);
            }
            let preceding = find_preceding_range_upper_bound(ranges, pid, before_block);
            proof {
                lemma_preceding(ranges@, pid, before_block as int);
            }
            let bound: i64 = match preceding {
                Some(upper) => upper,
                None => 0,
            };
            let shifted: i64 = before_block - (max_blocks as i64);
            if shifted >= bound {
                if max_blocks == 0 {
                    return Err(QueryError::EmptyWindow);
                }
                Ok(QueryPlan::Scan { lower: shifted + 1, upper: before_block })
            } else {
                if bound >= before_block {
                    return Err(QueryError::EmptyWindow);
                }
                Ok(QueryPlan::Scan { lower: bound + 1, upper: before_block })
            }
        },
    }
}

/// The range that a scan plan allocates shares no block with a range of the
/// same pair, and holds at least one block, `before` among them, and no more
/// than `max_blocks`.
pub proof fn lemma_new_range_fits(ranges: Seq<Range>, pid: i32, before: u64, max_blocks: u64)
    requires
        spec_plan(ranges, pid, before, max_blocks) matches Ok(QueryPlan::Scan { .. }),
    ensures
        ({
            let plan = spec_plan(ranges, pid, before, max_blocks)->Ok_0;
            &&& plan->lower <= plan->upper
            &&& plan->upper == before
            &&& plan->upper - plan->lower + 1 <= max_blocks
            &&& forall|i: int|
                0 <= i < ranges.len() && (#[trigger] ranges[i]).pair_id == pid ==> !(
                ranges[i].lower_bound <= plan->upper && plan->lower <= ranges[i].upper_bound)
        }),
{
    lemma_encompassing(ranges, pid, before as int);
    lemma_preceding(ranges, pid, before as int);
    let plan = spec_plan(ranges, pid, before, max_blocks)->Ok_0;
    assert forall|i: int|
        0 <= i < ranges.len() && (#[trigger] ranges[i]).pair_id == pid implies !(
    ranges[i].lower_bound <= plan->upper && plan->lower <= ranges[i].upper_bound) by {
        assert(!covers(ranges[i], pid, before as int));
    }
}

/// A query for a block that lies in a range allocates nothing and starts no
/// scan: what is stored for the range is never scanned and stored again.
pub proof fn lemma_covered_query_starts_no_scan(
    ranges: Seq<Range>,
    pid: i32,
    before: u64,
    max_blocks: u64,
)
    requires
        before <= i64::MAX,
        exists|i: int| 0 <= i < ranges.len() && covers(#[trigger] ranges[i], pid, before as int),
    ensures
        !(spec_plan(ranges, pid, before, max_blocks) matches Ok(QueryPlan::Scan { .. })),
        spec_plan(ranges, pid, before, max_blocks) matches Ok(QueryPlan::Serve { range, .. })
            ==> covers(range, pid, before as int) && !range.scan_failed,
        spec_plan(ranges, pid, before, max_blocks) matches Ok(QueryPlan::ScanFailed { range })
            ==> covers(range, pid, before as int) && range.scan_failed,
{
    lemma_encompassing(ranges, pid, before as int);
}

/// Once a range is allocated, a query for any of its blocks finds a range
/// that holds the block, and so starts no scan, whatever became of the
/// scan of that range.
pub proof fn lemma_allocated_range_covers(
    ranges: Seq<Range>,
    range: Range,
    before: u64,
    max_blocks: u64,
)
    requires
        before <= i64::MAX,
        range.contains(before as int),
    ensures
        spec_encompassing(ranges.push(range), range.pair_id, before as int) is Some,
        !(spec_plan(ranges.push(range), range.pair_id, before, max_blocks) matches Ok(
            QueryPlan::Scan { .. },
        )),
{
    let after = ranges.push(range);
    assert(covers(after[ranges.len() as int], range.pair_id, before as int));
    lemma_encompassing(after, range.pair_id, before as int);
}

/// What is served from a range lies within the range and within the window:
/// from the higher of the range's lower bound and `before` less `max_blocks`,
/// up to `before`.
pub proof fn lemma_served_window(ranges: Seq<Range>, pid: i32, before: u64, max_blocks: u64)
    requires
        spec_plan(ranges, pid, before, max_blocks) matches Ok(QueryPlan::Serve { .. }),
    ensures
        spec_plan(ranges, pid, before, max_blocks) matches Ok(
            QueryPlan::Serve { range, after_block, before_block },
        ) && {
            &&& before_block == before
            &&& range.lower_bound <= after_block <= before_block <= range.upper_bound
            &&& after_block >= before - max_blocks
            &&& after_block == before - max_blocks || after_block == range.lower_bound
        },
{
    lemma_encompassing(ranges, pid, before as int);
}

/// Answers a query on the ledger: where the block lies in no range, the
/// range of the scan plan is allocated, not complete and not failed; else the
/// ledger stays as it is.
pub fn resolve_query(ledger: &mut Ledger, pid: i32, before: u64, max_blocks: u64) -> (r: Result<
    Resolution,
    QueryError,
>)
    requires
        old(ledger).wf(),
    ensures
        final(ledger).wf(),
        match spec_plan(old(ledger).ranges@, pid, before, max_blocks) {
            Err(e) => r == Err::<Resolution, QueryError>(e) && final(ledger).ranges@ == old(ledger).ranges@,
            Ok(QueryPlan::Scan { lower, upper }) => if max_id(old(ledger).ranges@) >= i64::MAX {
                r == Err::<Resolution, QueryError>(QueryError::NumericOverflow) && final(ledger).ranges@ == old(ledger).ranges@
            } else {
                let range = Range {
                    range_id: (max_id(old(ledger).ranges@) + 1) as i64,
                    pair_id: pid,
                    lower_bound: lower,
                    upper_bound: upper,
                    scan_complete: false,
                    scan_failed: false,
                };
                &&& r == Ok::<Resolution, QueryError>(
                    Resolution { plan: QueryPlan::Scan { lower, upper }, allocated: Some(range) },
                )
                &&& final(ledger).ranges@ == old(ledger).ranges@.push(range)
            },
            Ok(plan) => r == Ok::<Resolution, QueryError>(Resolution { plan, allocated: None })
                && final(ledger).ranges@ == old(ledger).ranges@,
        },
{
    let plan = match plan_query(&ledger.ranges, pid, before, max_blocks) {
        Ok(plan) => plan,
        Err(e) => {
            return Err(e);
        },
    };
    match plan {
        QueryPlan::Scan { lower, upper } => {
            proof {
                lemma_new_range_fits(ledger.ranges@, pid, before, max_blocks);
            }
            match insert_range(ledger, pid, lower, upper, false, false) {
                Ok(range) => Ok(Resolution { plan, allocated: Some(range) }),
                Err(_) => Err(QueryError::NumericOverflow),
            }
        },
        _ => Ok(Resolution { plan, allocated: None }),
    }
}

/// The stored sandwiches of pair `pid` within the bounds that are given, in
/// the order in which they are stored.
pub fn fetch_all_sandwiches_by_params(
    rows: &Vec<Sandwich>,
    pid: i32,
    min_ge_block: Option<i64>,
    max_le_block: Option<i64>,
) -> (r: Vec<Sandwich>)
    ensures
        r@ == rows@.filter(|s: Sandwich| in_window(s, pid, min_ge_block, max_le_block)),
{
    let ghost pred = |s: Sandwich| in_window(s, pid, min_ge_block, max_le_block);
    let mut r: Vec<Sandwich> = Vec::new();
    let mut k: usize = 0;
    proof {
        reveal(Seq::filter);
        assert(rows@.subrange(0, 0) =~= Seq::<Sandwich>::empty());
    }
    while k < rows.len()
        invariant
            k <= rows.len(),
            pred == (|s: Sandwich| in_window(s, pid, min_ge_block, max_le_block)),
            r@ == rows@.subrange(0, k as int).filter(pred),
        decreases rows.len() - k,
    {
        let row = rows[k];
        let above = match min_ge_block {
            Some(min_block) => row.block_number >= min_block,
            None => true,
        };
        let below = match max_le_block {
            Some(max_block) => row.block_number <= max_block,
            None => true,
        };
        proof {
            reveal(Seq::filter);
            let next = rows@.subrange(0, k + 1);
            assert(next.drop_last() =~= rows@.subrange(0, k as int));
            assert(next.last() == row);
        }
        if row.pair_id == pid && above && below {
            r.push(row);
        }
        k += 1;
    }
    assert(rows@.subrange(0, k as int) =~= rows@);
    r
}

/// The bounds of what a response holds.
pub fn fetch_metadata(range: &Range, sandwiches: &Vec<Sandwich>, after_block: i64, before_block: i64)
    -> (r: FetchMetadata)
    ensures
        r == spec_fetch_metadata(*range, sandwiches@, after_block, before_block),
{
    let lower: i64 = if range.scan_complete {
        after_block
    } else {
        let mut least: i64 = before_block;
        let mut k: usize = 0;
        assert(sandwiches@.subrange(0, 0) =~= Seq::<Sandwich>::empty());
        while k < sandwiches.len()
            invariant
                k <= sandwiches.len(),
                least == least_block(sandwiches@.subrange(0, k as int), before_block),
            decreases sandwiches.len() - k,
        {
            proof {
                let next = sandwiches@.subrange(0, k + 1);
                assert(next.drop_last() =~= sandwiches@.subrange(0, k as int));
                assert(next.last() == sandwiches@[k as int]);
            }
            if k == 0 || sandwiches[k].block_number < least {
                least = sandwiches[k].block_number;
            }
            k += 1;
        }
        assert(sandwiches@.subrange(0, k as int) =~= sandwiches@);
        least
    };
    FetchMetadata {
        lower_bound: #[verifier::truncate]
        (lower as u64),
        upper_bound: #[verifier::truncate]
        (before_block as u64),
    }
}

} // verus!
