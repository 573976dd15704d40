//! The ledger of scanned ranges: which intervals of a pair's history were
//! scanned, are being scanned, or failed.

use vstd::prelude::*;
use crate::models::Range;

verus! {

/// Why the ledger refuses a change.
#[derive(Clone, Copy, Debug, PartialEq, Eq, Structural)]
pub enum LedgerError {
    /// The interval holds no block: its lower bound lies above its upper.
    EmptyInterval,
    /// A range may be complete or failed, not both.
    CompleteAndFailed,
    /// The interval shares a block with a range of the same pair.
    Overlap,
    /// No range has the id.
    NotFound,
    /// The range is complete or failed already, and takes no other flags.
    Settled,
    /// No id is left for a new range.
    NumericOverflow,
}

/// The ranges of all pairs, in the order in which they were allocated.
#[derive(Debug)]
pub struct Ledger {
    pub ranges: Vec<Range>,
}

/// Whether no two ranges of one pair share a block.
pub open spec fn non_overlapping(ranges: Seq<Range>) -> bool {
    forall|i: int, j: int|
        0 <= i < j < ranges.len() && (#[trigger] ranges[i]).pair_id == (#[trigger] ranges[j]).pair_id
            ==> !ranges[i].overlaps(ranges[j])
}

/// Whether each range has an id of its own.
pub open spec fn distinct_ids(ranges: Seq<Range>) -> bool {
    forall|i: int, j: int|
        0 <= i < j < ranges.len() ==> (#[trigger] ranges[i]).range_id != (
        #[trigger] ranges[j]).range_id
}

/// Whether a range holds a block and is not complete and failed at once.
pub open spec fn range_wf(range: Range) -> bool {
    &&& range.lower_bound <= range.upper_bound
    &&& !(range.scan_complete && range.scan_failed)
}

/// Whether `range` is a range of pair `pid` that holds `block`.
pub open spec fn covers(range: Range, pid: i32, block: int) -> bool {
    range.pair_id == pid && range.contains(block)
}

/// Whether `range` is a range of pair `pid` that ends below `block`.
pub open spec fn precedes(range: Range, pid: i32, block: int) -> bool {
    range.pair_id == pid && range.upper_bound < block
}

/// The largest id among the ranges, and zero where there is none above.
pub open spec fn max_id(ranges: Seq<Range>) -> int
    decreases ranges.len(),
{
    if ranges.len() == 0 {
        0
    } else if ranges.last().range_id > max_id(ranges.drop_last()) {
        ranges.last().range_id as int
    } else {
        max_id(ranges.drop_last())
    }
}

/// Whether a range with id `rid` is stored and has the flags.
pub open spec fn has_flags(ranges: Seq<Range>, rid: i64, complete: bool, failed: bool) -> bool {
    exists|i: int|
        0 <= i < ranges.len() && (#[trigger] ranges[i]).range_id == rid && ranges[i].scan_complete
            == complete && ranges[i].scan_failed == failed
}

/// The ranges after the one with id `rid` was given the flags.
pub open spec fn with_flags(ranges: Seq<Range>, rid: i64, complete: bool, failed: bool) -> Seq<
    Range,
> {
    ranges.map_values(
        |range: Range|
            if range.range_id == rid {
                Range { scan_complete: complete, scan_failed: failed, ..range }
            } else {
                range
            },
    )
}

/// No id lies above the largest.
pub proof fn lemma_max_id(ranges: Seq<Range>)
    ensures
        max_id(ranges) >= 0,
        forall|i: int| 0 <= i < ranges.len() ==> (#[trigger] ranges[i]).range_id <= max_id(ranges),
    decreases ranges.len(),
{
    if ranges.len() > 0 {
        lemma_max_id(ranges.drop_last());
        assert forall|i: int| 0 <= i < ranges.len() implies (#[trigger] ranges[i]).range_id
            <= max_id(ranges) by {
            if i < ranges.len() - 1 {
                assert(ranges[i] == ranges.drop_last()[i]);
            }
        }
    }
}

/// Where no two ranges of one pair share a block, no block of a pair's
/// history lies in two ranges.
pub proof fn lemma_one_range_per_block(ranges: Seq<Range>, pid: i32, block: int, i: int, j: int)
    requires
        non_overlapping(ranges),
        0 <= i < ranges.len(),
        0 <= j < ranges.len(),
        i != j,
        covers(ranges[i], pid, block),
    ensures
        !covers(ranges[j], pid, block),
{
    if i < j {
        assert(ranges[i].pair_id == ranges[j].pair_id ==> !ranges[i].overlaps(ranges[j]));
    } else {
        assert(ranges[j].pair_id == ranges[i].pair_id ==> !ranges[j].overlaps(ranges[i]));
    }
}

/// The first range of pair `pid` that holds `block`, if any.
pub open spec fn spec_encompassing(ranges: Seq<Range>, pid: i32, block: int) -> Option<Range>
    decreases ranges.len(),
{
    if ranges.len() == 0 {
        None
    } else if covers(ranges[0], pid, block) {
        Some(ranges[0])
    } else {
        spec_encompassing(ranges.drop_first(), pid, block)
    }
}

/// The greatest upper bound below `block` among the ranges of pair `pid`,
/// if any of them ends below it.
pub open spec fn spec_preceding(ranges: Seq<Range>, pid: i32, block: int) -> Option<i64>
    decreases ranges.len(),
{
    if ranges.len() == 0 {
        None
    } else {
        let earlier = spec_preceding(ranges.drop_last(), pid, block);
        if precedes(ranges.last(), pid, block) {
            match earlier {
                Some(bound) => if ranges.last().upper_bound > bound {
                    Some(ranges.last().upper_bound)
                } else {
                    Some(bound)
                },
                None => Some(ranges.last().upper_bound),
            }
        } else {
            earlier
        }
    }
}

/// A range is found exactly when some range of the pair holds the block,
/// and it is the first such range.
pub proof fn lemma_encompassing(ranges: Seq<Range>, pid: i32, block: int)
    ensures
        (spec_encompassing(ranges, pid, block) is Some) <==> (exists|i: int|
            0 <= i < ranges.len() && covers(#[trigger] ranges[i], pid, block)),
        spec_encompassing(ranges, pid, block) matches Some(found) ==> covers(found, pid, block)
            && (exists|i: int|
            0 <= i < ranges.len() && #[trigger] ranges[i] == found && (forall|j: int|
                0 <= j < i ==> !covers(#[trigger] ranges[j], pid, block))),
    decreases ranges.len(),
{
    if ranges.len() > 0 {
        if covers(ranges[0], pid, block) {
            assert(ranges[0] == ranges[0]);
        } else {
            let rest = ranges.drop_first();
            lemma_encompassing(rest, pid, block);
            if spec_encompassing(rest, pid, block) is Some {
                let found = spec_encompassing(rest, pid, block)->Some_0;
                let i = choose|i: int|
                    0 <= i < rest.len() && #[trigger] rest[i] == found && (forall|j: int|
                        0 <= j < i ==> !covers(#[trigger] rest[j], pid, block));
                assert(ranges[i + 1] == found);
                assert forall|j: int| 0 <= j < i + 1 implies !covers(
                    #[trigger] ranges[j],
                    pid,
                    block,
                ) by {
                    if j > 0 {
                        assert(ranges[j] == rest[j - 1]);
                    }
                }
            } else {
                assert forall|i: int| 0 <= i < ranges.len() implies !covers(
                    #[trigger] ranges[i],
                    pid,
                    block,
                ) by {
                    if i > 0 {
                        assert(ranges[i] == rest[i - 1]);
                    }
                }
            }
        }
    }
}

/// A bound is found exactly when some range of the pair ends below the
/// block; it is the upper bound of such a range, and none of them ends above
/// it.
pub proof fn lemma_preceding(ranges: Seq<Range>, pid: i32, block: int)
    ensures
        (spec_preceding(ranges, pid, block) is Some) <==> (exists|i: int|
            0 <= i < ranges.len() && precedes(#[trigger] ranges[i], pid, block)),
        spec_preceding(ranges, pid, block) matches Some(bound) ==> {
            &&& bound < block
            &&& exists|i: int|
                0 <= i < ranges.len() && precedes(#[trigger] ranges[i], pid, block)
                    && ranges[i].upper_bound == bound
            &&& forall|i: int|
                0 <= i < ranges.len() && precedes(#[trigger] ranges[i], pid, block)
                    ==> ranges[i].upper_bound <= bound
        },
    decreases ranges.len(),
{
    if ranges.len() > 0 {
        let earlier = ranges.drop_last();
        let last = ranges.last();
        lemma_preceding(earlier, pid, block);
        assert forall|i: int| 0 <= i < earlier.len() implies #[trigger] earlier[i] == ranges[i] by {}
        if spec_preceding(earlier, pid, block) is Some {
            let i = choose|i: int|
                0 <= i < earlier.len() && precedes(#[trigger] earlier[i], pid, block)
                    && earlier[i].upper_bound == spec_preceding(earlier, pid, block)->Some_0;
            assert(precedes(ranges[i], pid, block));
        }
        if precedes(last, pid, block) {
            assert(precedes(ranges[ranges.len() - 1], pid, block));
        }
        if spec_preceding(ranges, pid, block) is Some {
            let bound = spec_preceding(ranges, pid, block)->Some_0;
            assert forall|i: int|
                0 <= i < ranges.len() && precedes(
                    #[trigger] ranges[i],
                    pid,
                    block,
                ) implies ranges[i].upper_bound <= bound by {
                if i < ranges.len() - 1 {
                    assert(ranges[i] == earlier[i]);
                }
            }
        } else {
            assert forall|i: int| 0 <= i < ranges.len() implies !precedes(
                #[trigger] ranges[i],
                pid,
                block,
            ) by {
                if i < ranges.len() - 1 {
                    assert(ranges[i] == earlier[i]);
                }
            }
        }
    }
}

/// The first range of pair `pid` that holds `block_number`, if any.
pub fn find_encompassing_range(ranges: &Vec<Range>, pid: i32, block_number: i64) -> (r: Option<
    Range,
>)
    ensures
        r == spec_encompassing(ranges@, pid, block_number as int),
{
    let mut k: usize = 0;
    assert(ranges@.skip(0) =~= ranges@);
    while k < ranges.len()
        invariant
            k <= ranges.len(),
            spec_encompassing(ranges@, pid, block_number as int) == spec_encompassing(
                ranges@.skip(k as int),
                pid,
                block_number as int,
            ),
        decreases ranges.len() - k,
    {
        let range = ranges[k];
        proof {
            assert(ranges@.skip(k as int)[0] == range);
            assert(ranges@.skip(k as int).drop_first() =~= ranges@.skip(k + 1));
        }
        if range.pair_id == pid && range.lower_bound <= block_number && range.upper_bound
            >= block_number {
            return Some(range);
        }
        k += 1;
    }
    None
}

/// The greatest upper bound below `block_number` among the ranges of pair
/// `pid`, if any of them ends below it.
pub fn find_preceding_range_upper_bound(ranges: &Vec<Range>, pid: i32, block_number: i64) -> (r:
    Option<i64>)
    ensures
        r == spec_preceding(ranges@, pid, block_number as int),
{
    let mut best: Option<i64> = None;
    let mut k: usize = 0;
    assert(ranges@.subrange(0, 0) =~= Seq::<Range>::empty());
    while k < ranges.len()
        invariant
            k <= ranges.len(),
            best == spec_preceding(ranges@.subrange(0, k as int), pid, block_number as int),
        decreases ranges.len() - k,
    {
        let range = ranges[k];
        proof {
            let next = ranges@.subrange(0, k + 1);
            assert(next.drop_last() =~= ranges@.subrange(0, k as int));
            assert(next.last() == range);
        }
        if range.pair_id == pid && range.upper_bound < block_number {
            best = match best {
                Some(bound) => if range.upper_bound > bound {
                    Some(range.upper_bound)
                } else {
                    Some(bound)
                },
                None => Some(range.upper_bound),
            };
        }
        k += 1;
    }
    assert(ranges@.subrange(0, k as int) =~= ranges@);
    best
}

impl Ledger {
    /// What holds of the ledger at all times: each range holds a block, no
    /// range is complete and failed at once, each has an id of its own, and
    /// no two ranges of one pair share a block.
    pub open spec fn wf(&self) -> bool {
        &&& forall|i: int| 0 <= i < self.ranges@.len() ==> range_wf(#[trigger] self.ranges@[i])
        &&& distinct_ids(self.ranges@)
        &&& non_overlapping(self.ranges@)
    }

    /// A ledger without ranges.
    pub fn new() -> (r: Ledger)
        ensures
            r.wf(),
            r.ranges@.len() == 0,
    {
        Ledger { ranges: Vec::new() }
    }

    /// Whether the range at `place` has an id of its own among the ranges
    /// behind it and shares no block with those of them that are of its pair.
    fn apart_from_later(rows: &Vec<Range>, place: usize) -> (r: bool)
        requires
            place < rows.len(),
        ensures
            r <==> (forall|j: int|
                place < j < rows.len() ==> (#[trigger] rows@[j]).range_id != rows@[
                    place as int
                ].range_id && (rows@[j].pair_id == rows@[place as int].pair_id ==> !rows@[
                    place as int
                ].overlaps(rows@[j]))),
    {
        let first = rows[place];
        let mut k: usize = place + 1;
        while k < rows.len()
            invariant
                place < k <= rows.len(),
                first == rows@[place as int],
                forall|j: int|
                    place < j < k ==> (#[trigger] rows@[j]).range_id != first.range_id && (
                    rows@[j].pair_id == first.pair_id ==> !first.overlaps(rows@[j])),
            decreases rows.len() - k,
        {
            let other = rows[k];
            if other.range_id == first.range_id {
                return false;
            }
            if other.pair_id == first.pair_id && first.lower_bound <= other.upper_bound
                && other.lower_bound <= first.upper_bound {
                return false;
            }
            k += 1;
        }
        true
    }

    /// A ledger of the ranges that are given, where what holds of a ledger
    /// holds of them.
    pub fn from_rows(rows: Vec<Range>) -> (r: Option<Ledger>)
        ensures
            (r is Some) <==> (Ledger { ranges: rows }).wf(),
            r matches Some(ledger) ==> ledger.ranges == rows,
    {
        let mut k: usize = 0;
        while k < rows.len()
            invariant
                k <= rows.len(),
                forall|i: int| 0 <= i < k ==> range_wf(#[trigger] rows@[i]),
                forall|i: int, j: int|
                    0 <= i < k && i < j < rows.len() ==> (#[trigger] rows@[i]).range_id != (
                    #[trigger] rows@[j]).range_id,
                forall|i: int, j: int|
                    0 <= i < k && i < j < rows.len() && (#[trigger] rows@[i]).pair_id == (
                    #[trigger] rows@[j]).pair_id ==> !rows@[i].overlaps(rows@[j]),
            decreases rows.len() - k,
        {
            let range = rows[k];
            if range.lower_bound > range.upper_bound || (range.scan_complete && range.scan_failed) {
                assert(!range_wf(rows@[k as int]));
                return None;
            }
            if !Self::apart_from_later(&rows, k) {
                return None;
            }
            k += 1;
        }
        Some(Ledger { ranges: rows })
    }

    /// The largest id in the ledger, and zero where there is none above.
    fn largest_id(&self) -> (r: i64)
        ensures
            r == max_id(self.ranges@),
    {
        let mut best: i64 = 0;
        let mut k: usize = 0;
        assert(self.ranges@.subrange(0, 0) =~= Seq::<Range>::empty());
        while k < self.ranges.len()
            invariant
                k <= self.ranges.len(),
                best == max_id(self.ranges@.subrange(0, k as int)),
            decreases self.ranges.len() - k,
        {
            proof {
                let next = self.ranges@.subrange(0, k + 1);
                assert(next.drop_last() =~= self.ranges@.subrange(0, k as int));
                assert(next.last() == self.ranges@[k as int]);
            }
            if self.ranges[k].range_id > best {
                best = self.ranges[k].range_id;
            }
            k += 1;
        }
        assert(self.ranges@.subrange(0, k as int) =~= self.ranges@);
        best
    }

    /// Whether a range of pair `pid` shares a block with `lb ..= ub`.
    fn overlaps_any(&self, pid: i32, lb: i64, ub: i64) -> (r: bool)
        ensures
            r <==> (exists|i: int|
                0 <= i < self.ranges@.len() && (#[trigger] self.ranges@[i]).pair_id == pid
                    && self.ranges@[i].lower_bound <= ub && lb <= self.ranges@[i].upper_bound),
    {
        let mut k: usize = 0;
        while k < self.ranges.len()
            invariant
                k <= self.ranges.len(),
                forall|i: int|
                    0 <= i < k ==> !((#[trigger] self.ranges@[i]).pair_id == pid
                        && self.ranges@[i].lower_bound <= ub && lb <= self.ranges@[i].upper_bound),
            decreases self.ranges.len() - k,
        {
            let range = self.ranges[k];
            if range.pair_id == pid && range.lower_bound <= ub && lb <= range.upper_bound {
                assert(self.ranges@[k as int] == range);
                return true;
            }
            k += 1;
        }
        false
    }

    /// Whether the interval `lb ..= ub` can be added for pair `pid` with the
    /// flags, and if not, why: the first of the reasons in the order an
    /// empty interval, both flags set, a block shared with a range of the
    /// pair, no id left.
    pub open spec fn insert_error(&self, pid: i32, lb: i64, ub: i64, complete: bool, failed: bool)
        -> Option<LedgerError> {
        if lb > ub {
            Some(LedgerError::EmptyInterval)
        } else if complete && failed {
            Some(LedgerError::CompleteAndFailed)
        } else if exists|i: int|
            0 <= i < self.ranges@.len() && (#[trigger] self.ranges@[i]).pair_id == pid
                && self.ranges@[i].lower_bound <= ub && lb <= self.ranges@[i].upper_bound {
            Some(LedgerError::Overlap)
        } else if max_id(self.ranges@) >= i64::MAX {
            Some(LedgerError::NumericOverflow)
        } else {
            None
        }
    }

    /// Whether the range with id `rid` can be given the flags, and if not,
    /// why: no range has the id, both flags are set, or the range is
    /// complete or failed already and the flags are not those it has.
    pub open spec fn update_error(&self, rid: i64, complete: bool, failed: bool) -> Option<
        LedgerError,
    > {
        if !(exists|i: int| 0 <= i < self.ranges@.len() && (#[trigger] self.ranges@[i]).range_id == rid) {
            Some(LedgerError::NotFound)
        } else if complete && failed {
            Some(LedgerError::CompleteAndFailed)
        } else if exists|i: int|
            0 <= i < self.ranges@.len() && (#[trigger] self.ranges@[i]).range_id == rid && (
            self.ranges@[i].scan_complete || self.ranges@[i].scan_failed) && !(
            self.ranges@[i].scan_complete == complete && self.ranges@[i].scan_failed == failed) {
            Some(LedgerError::Settled)
        } else {
            None
        }
    }

    /// A range that is complete or failed keeps its flags: to give it other
    /// flags is refused, and to give it the flags it has is accepted and
    /// changes nothing.
    pub proof fn lemma_settled_range_stays(&self, place: int, complete: bool, failed: bool)
        requires
            self.wf(),
            0 <= place < self.ranges@.len(),
            self.ranges@[place].scan_complete || self.ranges@[place].scan_failed,
        ensures
            (self.update_error(self.ranges@[place].range_id, complete, failed) is None) <==> (
            complete == self.ranges@[place].scan_complete && failed
                == self.ranges@[place].scan_failed),
            self.update_error(self.ranges@[place].range_id, complete, failed) is None
                ==> with_flags(self.ranges@, self.ranges@[place].range_id, complete, failed)
                == self.ranges@,
    {
        let rid = self.ranges@[place].range_id;
        assert(range_wf(self.ranges@[place]));
        assert forall|i: int|
            0 <= i < self.ranges@.len() && (#[trigger] self.ranges@[i]).range_id == rid implies i
            == place by {
            if i < place {
                assert(self.ranges@[i].range_id != self.ranges@[place].range_id);
            } else if place < i {
                assert(self.ranges@[place].range_id != self.ranges@[i].range_id);
            }
        }
        if complete == self.ranges@[place].scan_complete && failed
            == self.ranges@[place].scan_failed {
            assert(with_flags(self.ranges@, rid, complete, failed) =~= self.ranges@);
        }
    }

    /// Records the range with id `rid` as complete. A range that is
    /// complete already stays as it is; a failed one is not made complete.
    pub fn mark_complete(&mut self, rid: i64) -> (r: Result<i64, LedgerError>)
        requires
            old(self).wf(),
        ensures
            final(self).wf(),
            match old(self).update_error(rid, true, false) {
                Some(e) => r == Err::<i64, LedgerError>(e) && final(self).ranges@ == old(self).ranges@,
                None => r == Ok::<i64, LedgerError>(rid) && final(self).ranges@ == with_flags(
                    old(self).ranges@,
                    rid,
                    true,
                    false,
                ),
            },
            has_flags(old(self).ranges@, rid, true, false) ==> r == Ok::<i64, LedgerError>(rid)
                && final(self).ranges@ == old(self).ranges@,
    {
        update_range_metadata(self, rid, true, false)
    }

    /// Records the range with id `rid` as failed. A range that is failed
    /// already stays as it is; a complete one is not made failed.
    pub fn mark_failed(&mut self, rid: i64) -> (r: Result<i64, LedgerError>)
        requires
            old(self).wf(),
        ensures
            final(self).wf(),
            match old(self).update_error(rid, false, true) {
                Some(e) => r == Err::<i64, LedgerError>(e) && final(self).ranges@ == old(self).ranges@,
                None => r == Ok::<i64, LedgerError>(rid) && final(self).ranges@ == with_flags(
                    old(self).ranges@,
                    rid,
                    false,
                    true,
                ),
            },
            has_flags(old(self).ranges@, rid, false, true) ==> r == Ok::<i64, LedgerError>(rid)
                && final(self).ranges@ == old(self).ranges@,
    {
        update_range_metadata(self, rid, false, true)
    }
}

/// Adds the range `lb ..= ub` for pair `pid` under a new id, the largest
/// id so far plus one. The ledger refuses a range that would break what
/// holds of it, and is then unchanged.
pub fn insert_range(ledger: &mut Ledger, pid: i32, lb: i64, ub: i64, complete: bool, failed: bool) -> (r:
    Result<Range, LedgerError>)
    requires
        old(ledger).wf(),
    ensures
        final(ledger).wf(),
        match old(ledger).insert_error(pid, lb, ub, complete, failed) {
            Some(e) => r == Err::<Range, LedgerError>(e) && final(ledger).ranges@ == old(ledger).ranges@,
            None => {
                &&& r == Ok::<Range, LedgerError>(
                    Range {
                        range_id: (max_id(old(ledger).ranges@) + 1) as i64,
                        pair_id: pid,
                        lower_bound: lb,
                        upper_bound: ub,
                        scan_complete: complete,
                        scan_failed: failed,
                    },
                )
                &&& final(ledger).ranges@ == old(ledger).ranges@.push(r->Ok_0)
            },
        },
{
    if lb > ub {
        return Err(LedgerError::EmptyInterval);
    }
    if complete && failed {
        return Err(LedgerError::CompleteAndFailed);
    }
    if ledger.overlaps_any(pid, lb, ub) {
        return Err(LedgerError::Overlap);
    }
    let largest = ledger.largest_id();
    if largest >= i64::MAX {
        return Err(LedgerError::NumericOverflow);
    }
    let range = Range {
        range_id: largest + 1,
        pair_id: pid,
        lower_bound: lb,
        upper_bound: ub,
        scan_complete: complete,
        scan_failed: failed,
    };
    proof {
        lemma_max_id(ledger.ranges@);
    }
    ledger.ranges.push(range);
    Ok(range)
}

/// Gives the range with id `rid` the flags and returns the id; nothing
/// else of the range and no other range is changed. A range that is
/// complete or failed takes no flags but those it has, and no range becomes
/// both.
pub fn update_range_metadata(ledger: &mut Ledger, rid: i64, complete: bool, failed: bool) -> (r: Result<
    i64,
    LedgerError,
>)
    requires
        old(ledger).wf(),
    ensures
        final(ledger).wf(),
        match old(ledger).update_error(rid, complete, failed) {
            Some(e) => r == Err::<i64, LedgerError>(e) && final(ledger).ranges@ == old(ledger).ranges@,
            None => r == Ok::<i64, LedgerError>(rid) && final(ledger).ranges@ == with_flags(
                old(ledger).ranges@,
                rid,
                complete,
                failed,
            ),
        },
        has_flags(old(ledger).ranges@, rid, complete, failed) && !(complete && failed) ==> r
            == Ok::<i64, LedgerError>(rid) && final(ledger).ranges@ == old(ledger).ranges@,
{
    let mut k: usize = 0;
    while k < ledger.ranges.len() && ledger.ranges[k].range_id != rid
        invariant
            k <= ledger.ranges.len(),
            forall|i: int| 0 <= i < k ==> (#[trigger] ledger.ranges@[i]).range_id != rid,
        decreases ledger.ranges.len() - k,
    {
        k += 1;
    }
    if k >= ledger.ranges.len() {
        return Err(LedgerError::NotFound);
    }
    assert(ledger.ranges@[k as int].range_id == rid);
    if complete && failed {
        return Err(LedgerError::CompleteAndFailed);
    }
    let range = ledger.ranges[k];
    proof {
        assert forall|i: int|
            0 <= i < ledger.ranges@.len() && (#[trigger] ledger.ranges@[i]).range_id
                == rid implies i == k by {
            if i > k {
                assert(ledger.ranges@[k as int].range_id != ledger.ranges@[i].range_id);
            }
        }
    }
    if (range.scan_complete || range.scan_failed) && !(range.scan_complete == complete
        && range.scan_failed == failed) {
        return Err(LedgerError::Settled);
    }
    let marked = Range { scan_complete: complete, scan_failed: failed, ..range };
    ledger.ranges.set(k, marked);
    proof {
        assert(ledger.ranges@ =~= with_flags(old(ledger).ranges@, rid, complete, failed));
        if has_flags(old(ledger).ranges@, rid, complete, failed) {
            assert(marked == range);
            assert(ledger.ranges@ =~= old(ledger).ranges@);
        }
        assert forall|i: int, j: int|
            0 <= i < j < ledger.ranges@.len() && (#[trigger] ledger.ranges@[i]).pair_id == (
            #[trigger] ledger.ranges@[j]).pair_id implies !ledger.ranges@[i].overlaps(
            ledger.ranges@[j],
        ) by {
            assert(old(ledger).ranges@[i].pair_id == old(ledger).ranges@[j].pair_id);
        }
    }
    Ok(rid)
}

} // verus!
