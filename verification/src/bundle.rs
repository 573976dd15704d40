//! From the swaps of a chunk to the bundles that the detector takes: the
//! swaps of each block that holds three or more, in the order of their
//! transactions.

use vstd::prelude::*;
use crate::sandwich::{
    brackets_from, lemma_brackets_ordered, parse_sandwiches, sandwich_at, sandwich_views,
    spec_sandwiches, Sandwich, SandwichView,
};
use crate::swap::{spec_tx_index, Swap};

verus! {

/// The sandwiches that were found in one block.
#[derive(Debug)]
pub struct BlockSandwiches {
    pub block_number: u64,
    pub sandwiches: Vec<Sandwich>,
}

/// The sandwiches of one block as a value of specifications.
pub struct BlockSandwichesView {
    pub block_number: u64,
    pub sandwiches: Seq<SandwichView>,
}

impl View for BlockSandwiches {
    type V = BlockSandwichesView;

    open spec fn view(&self) -> BlockSandwichesView {
        BlockSandwichesView {
            block_number: self.block_number,
            sandwiches: sandwich_views(self.sandwiches@),
        }
    }
}

/// The key by which the swaps of a block are ordered.
pub open spec fn order_key(swap: Swap) -> i32 {
    spec_tx_index(swap.swap.tx_index)
}

/// The swaps of block `block`, in the order in which they were fetched.
pub open spec fn swaps_of_block(swaps: Seq<Swap>, block: u64) -> Seq<Swap> {
    swaps.filter(|swap: Swap| swap.swap.block_number == block)
}

/// The blocks that the swaps lie in, each once, in the order in which they
/// first occur.
pub open spec fn blocks_seen(swaps: Seq<Swap>) -> Seq<u64>
    decreases swaps.len(),
{
    if swaps.len() == 0 {
        Seq::empty()
    } else {
        let earlier = blocks_seen(swaps.drop_last());
        if earlier.contains(swaps.last().swap.block_number) {
            earlier
        } else {
            earlier.push(swaps.last().swap.block_number)
        }
    }
}

/// An ordered sequence with one more swap: it goes behind the last swap
/// whose transaction does not come later.
pub open spec fn insert_by_index(sorted: Seq<Swap>, swap: Swap) -> Seq<Swap>
    decreases sorted.len(),
{
    if sorted.len() == 0 {
        seq![swap]
    } else if order_key(sorted.last()) <= order_key(swap) {
        sorted.push(swap)
    } else {
        insert_by_index(sorted.drop_last(), swap).push(sorted.last())
    }
}

/// The swaps in the order of their transactions; swaps of one transaction
/// keep the order they had.
pub open spec fn sorted_by_index(swaps: Seq<Swap>) -> Seq<Swap>
    decreases swaps.len(),
{
    if swaps.len() == 0 {
        Seq::empty()
    } else {
        insert_by_index(sorted_by_index(swaps.drop_last()), swaps.last())
    }
}

/// Whether each swap's transaction comes no later than that of the next.
pub open spec fn is_ordered(swaps: Seq<Swap>) -> bool {
    forall|i: int, j: int|
        0 <= i < j < swaps.len() ==> order_key(#[trigger] swaps[i]) <= order_key(
            #[trigger] swaps[j],
        )
}

/// The blocks with three or more swaps, in the order in which they first
/// occur.
pub open spec fn busy_blocks(swaps: Seq<Swap>) -> Seq<u64> {
    blocks_seen(swaps).filter(|block: u64| swaps_of_block(swaps, block).len() >= 3)
}

/// What is found in the swaps of a chunk: for each block with three or more
/// swaps, the sandwiches among its swaps taken in the order of their
/// transactions.
pub open spec fn spec_scan_chunk(swaps: Seq<Swap>) -> Seq<BlockSandwichesView> {
    busy_blocks(swaps).map_values(
        |block: u64|
            BlockSandwichesView {
                block_number: block,
                sandwiches: spec_sandwiches(sorted_by_index(swaps_of_block(swaps, block))),
            },
    )
}

/// The views of the blocks of a vector.
pub open spec fn block_views(blocks: Seq<BlockSandwiches>) -> Seq<BlockSandwichesView> {
    blocks.map_values(|block: BlockSandwiches| block@)
}

/// Inserting into an ordered sequence is inserting at the place behind the
/// last swap whose transaction does not come later.
proof fn lemma_insert_at(sorted: Seq<Swap>, swap: Swap, place: int)
    requires
        0 <= place <= sorted.len(),
        forall|i: int| place <= i < sorted.len() ==> order_key(#[trigger] sorted[i]) > order_key(swap),
        place > 0 ==> order_key(sorted[place - 1]) <= order_key(swap),
    ensures
        insert_by_index(sorted, swap) == sorted.insert(place, swap),
    decreases sorted.len() - place,
{
    if place == sorted.len() {
        if sorted.len() > 0 {
            assert(sorted.last() == sorted[place - 1]);
        }
        assert(sorted.insert(place, swap) =~= sorted.push(swap));
    } else {
        let front = sorted.drop_last();
        assert(order_key(sorted.last()) > order_key(swap));
        assert forall|i: int| place <= i < front.len() implies order_key(#[trigger] front[i])
            > order_key(swap) by {
            assert(front[i] == sorted[i]);
        }
        if place > 0 {
            assert(front[place - 1] == sorted[place - 1]);
        }
        lemma_insert_at(front, swap, place);
        assert(front.insert(place, swap).push(sorted.last()) =~= sorted.insert(place, swap));
    }
}

/// Inserting keeps an ordered sequence ordered, and adds the one swap.
pub proof fn lemma_insert_ordered(sorted: Seq<Swap>, swap: Swap)
    requires
        is_ordered(sorted),
    ensures
        is_ordered(insert_by_index(sorted, swap)),
        insert_by_index(sorted, swap).len() == sorted.len() + 1,
        insert_by_index(sorted, swap).to_multiset() == sorted.to_multiset().insert(swap),
    decreases sorted.len(),
{
    broadcast use vstd::seq_lib::group_to_multiset_ensures;

    if sorted.len() == 0 {
        assert(seq![swap] =~= Seq::<Swap>::empty().push(swap));
    } else if order_key(sorted.last()) <= order_key(swap) {
        let result = sorted.push(swap);
        assert forall|i: int, j: int| 0 <= i < j < result.len() implies order_key(
            #[trigger] result[i],
        ) <= order_key(#[trigger] result[j]) by {
            if j == sorted.len() {
                if i < sorted.len() - 1 {
                    assert(order_key(sorted[i]) <= order_key(sorted[sorted.len() - 1]));
                }
            }
        }
    } else {
        let front = sorted.drop_last();
        assert forall|i: int, j: int| 0 <= i < j < front.len() implies order_key(
            #[trigger] front[i],
        ) <= order_key(#[trigger] front[j]) by {
            assert(front[i] == sorted[i] && front[j] == sorted[j]);
        }
        lemma_insert_ordered(front, swap);
        let inner = insert_by_index(front, swap);
        let result = inner.push(sorted.last());
        assert(sorted =~= front.push(sorted.last()));
        assert forall|i: int| 0 <= i < inner.len() implies order_key(#[trigger] inner[i])
            <= order_key(sorted.last()) by {
            assert(inner.to_multiset().count(inner[i]) > 0);
            if inner[i] != swap {
                assert(front.to_multiset().count(inner[i]) > 0);
                assert(front.contains(inner[i]));
                let k = choose|k: int| 0 <= k < front.len() && front[k] == inner[i];
                assert(order_key(sorted[k]) <= order_key(sorted[sorted.len() - 1]));
            }
        }
        assert forall|i: int, j: int| 0 <= i < j < result.len() implies order_key(
            #[trigger] result[i],
        ) <= order_key(#[trigger] result[j]) by {
            if j < inner.len() {
                assert(result[i] == inner[i] && result[j] == inner[j]);
            } else {
                assert(result[i] == inner[i]);
            }
        }
        assert(result.to_multiset() =~= sorted.to_multiset().insert(swap));
    }
}

/// The sorted swaps are ordered, and they are the swaps that were given,
/// each as often as it was given.
pub proof fn lemma_sorted_by_index(swaps: Seq<Swap>)
    ensures
        is_ordered(sorted_by_index(swaps)),
        sorted_by_index(swaps).len() == swaps.len(),
        sorted_by_index(swaps).to_multiset() == swaps.to_multiset(),
    decreases swaps.len(),
{
    broadcast use vstd::seq_lib::group_to_multiset_ensures;

    if swaps.len() > 0 {
        lemma_sorted_by_index(swaps.drop_last());
        lemma_insert_ordered(sorted_by_index(swaps.drop_last()), swaps.last());
        assert(swaps =~= swaps.drop_last().push(swaps.last()));
    } else {
        assert(swaps =~= Seq::<Swap>::empty());
    }
}

/// Swaps that are in the order of their transactions are left as they are.
pub proof fn lemma_sort_keeps_ordered(swaps: Seq<Swap>)
    requires
        is_ordered(swaps),
    ensures
        sorted_by_index(swaps) == swaps,
    decreases swaps.len(),
{
    if swaps.len() > 0 {
        let front = swaps.drop_last();
        assert forall|i: int, j: int| 0 <= i < j < front.len() implies order_key(
            #[trigger] front[i],
        ) <= order_key(#[trigger] front[j]) by {
            assert(front[i] == swaps[i] && front[j] == swaps[j]);
        }
        lemma_sort_keeps_ordered(front);
        if front.len() > 0 {
            assert(front.last() == swaps[swaps.len() - 2]);
            assert(order_key(swaps[swaps.len() - 2]) <= order_key(swaps[swaps.len() - 1]));
        }
        assert(front.push(swaps.last()) =~= swaps);
    } else {
        assert(swaps =~= Seq::<Swap>::empty());
    }
}

/// The bundle of a block holds the swaps of that block and no others, each
/// of them one of the swaps that were fetched, in the order of their
/// transactions.
pub proof fn lemma_bundle_of_block(swaps: Seq<Swap>, block: u64)
    ensures
        is_ordered(sorted_by_index(swaps_of_block(swaps, block))),
        sorted_by_index(swaps_of_block(swaps, block)).len() == swaps_of_block(swaps, block).len(),
        sorted_by_index(swaps_of_block(swaps, block)).len() <= swaps.len(),
        forall|i: int|
            0 <= i < sorted_by_index(swaps_of_block(swaps, block)).len() ==> (
            #[trigger] sorted_by_index(swaps_of_block(swaps, block))[i]).swap.block_number == block
                && swaps.contains(sorted_by_index(swaps_of_block(swaps, block))[i]),
        forall|i: int|
            0 <= i < swaps.len() && (#[trigger] swaps[i]).swap.block_number == block
                ==> sorted_by_index(swaps_of_block(swaps, block)).contains(swaps[i]),
{
    broadcast use vstd::seq_lib::group_to_multiset_ensures;

    let pred = |swap: Swap| swap.swap.block_number == block;
    let members = swaps.filter(pred);
    let bundle = sorted_by_index(members);
    lemma_sorted_by_index(members);
    swaps.lemma_filter_len(pred);
    assert forall|i: int| 0 <= i < bundle.len() implies (#[trigger] bundle[i]).swap.block_number
        == block && swaps.contains(bundle[i]) by {
        assert(bundle.contains(bundle[i]));
        assert(members.to_multiset().count(bundle[i]) > 0);
        assert(members.contains(bundle[i]));
        let at = choose|at: int| 0 <= at < members.len() && members[at] == bundle[i];
        swaps.lemma_filter_pred(pred, at);
        swaps.lemma_filter_contains_rev(pred, bundle[i]);
    }
    assert forall|i: int|
        0 <= i < swaps.len() && (#[trigger] swaps[i]).swap.block_number == block implies bundle.contains(
        swaps[i],
    ) by {
        swaps.lemma_filter_contains(pred, i);
        assert(members.to_multiset().count(swaps[i]) > 0);
    }
}

/// Every leg of a sandwich that is found in a chunk is a swap of the block
/// under which the sandwich is found.
pub proof fn lemma_sandwich_within_block(swaps: Seq<Swap>, block: u64, k: int)
    requires
        0 <= k < spec_sandwiches(sorted_by_index(swaps_of_block(swaps, block))).len(),
    ensures
        ({
            let sandwich = spec_sandwiches(sorted_by_index(swaps_of_block(swaps, block)))[k];
            &&& sandwich.frontrun.swap.block_number == block
            &&& sandwich.backrun.swap.block_number == block
            &&& forall|i: int|
                0 <= i < sandwich.lunchmeat.len() ==> (
                #[trigger] sandwich.lunchmeat[i]).swap.block_number == block
            &&& swaps.contains(sandwich.frontrun)
            &&& swaps.contains(sandwich.backrun)
        }),
{
    let bundle = sorted_by_index(swaps_of_block(swaps, block));
    lemma_bundle_of_block(swaps, block);
    lemma_brackets_ordered(bundle, 0);
    let bracket = brackets_from(bundle, 0)[k];
    let sandwich = spec_sandwiches(bundle)[k];
    assert(sandwich == sandwich_at(bundle, bracket));
    assert forall|i: int| 0 <= i < sandwich.lunchmeat.len() implies (
    #[trigger] sandwich.lunchmeat[i]).swap.block_number == block by {
        assert(sandwich.lunchmeat[i] == bundle[bracket.0 + 1 + i]);
    }
}

/// The swaps in the order of their transactions.
pub fn sort_by_index(swaps: &Vec<Swap>) -> (sorted: Vec<Swap>)
    ensures
        sorted@ == sorted_by_index(swaps@),
{
    let mut sorted: Vec<Swap> = Vec::new();
    let mut k: usize = 0;
    assert(swaps@.subrange(0, 0) =~= Seq::<Swap>::empty());
    while k < swaps.len()
        invariant
            k <= swaps.len(),
            sorted@ == sorted_by_index(swaps@.subrange(0, k as int)),
            sorted.len() == k,
        decreases swaps.len() - k,
    {
        let swap = swaps[k];
        let key = swap.swap.tx_index();
        let mut place: usize = sorted.len();
        while place > 0 && sorted[place - 1].swap.tx_index() > key
            invariant
                place <= sorted.len(),
                key == order_key(swap),
                forall|i: int|
                    place <= i < sorted.len() ==> order_key(#[trigger] sorted@[i]) > order_key(swap),
            decreases place,
        {
            place -= 1;
        }
        proof {
            lemma_insert_at(sorted@, swap, place as int);
            let next = swaps@.subrange(0, k + 1);
            assert(next.drop_last() =~= swaps@.subrange(0, k as int));
            assert(next.last() == swap);
        }
        sorted.insert(place, swap);
        k += 1;
    }
    assert(swaps@.subrange(0, k as int) =~= swaps@);
    sorted
}

/// The swaps of block `block`, in the order in which they were fetched.
pub fn collect_block(swaps: &Vec<Swap>, block: u64) -> (r: Vec<Swap>)
    ensures
        r@ == swaps_of_block(swaps@, block),
{
    let ghost pred = |swap: Swap| swap.swap.block_number == block;
    let mut r: Vec<Swap> = Vec::new();
    let mut k: usize = 0;
    proof {
        reveal(Seq::filter);
        assert(swaps@.subrange(0, 0) =~= Seq::<Swap>::empty());
    }
    while k < swaps.len()
        invariant
            k <= swaps.len(),
            pred == (|swap: Swap| swap.swap.block_number == block),
            r@ == swaps@.subrange(0, k as int).filter(pred),
        decreases swaps.len() - k,
    {
        proof {
            reveal(Seq::filter);
            let next = swaps@.subrange(0, k + 1);
            assert(next.drop_last() =~= swaps@.subrange(0, k as int));
            assert(next.last() == swaps@[k as int]);
        }
        if swaps[k].swap.block_number() == block {
            r.push(swaps[k]);
        }
        k += 1;
    }
    assert(swaps@.subrange(0, k as int) =~= swaps@);
    r
}

/// Whether `block` is among `blocks`.
fn seen(blocks: &Vec<u64>, block: u64) -> (r: bool)
    ensures
        r == blocks@.contains(block),
{
    let mut k: usize = 0;
    while k < blocks.len()
        invariant
            k <= blocks.len(),
            forall|i: int| 0 <= i < k ==> blocks@[i] != block,
        decreases blocks.len() - k,
    {
        if blocks[k] == block {
            return true;
        }
        k += 1;
    }
    false
}

/// The blocks that the swaps lie in, each once, in the order in which they
/// first occur.
pub fn list_blocks(swaps: &Vec<Swap>) -> (r: Vec<u64>)
    ensures
        r@ == blocks_seen(swaps@),
{
    let mut r: Vec<u64> = Vec::new();
    let mut k: usize = 0;
    assert(swaps@.subrange(0, 0) =~= Seq::<Swap>::empty());
    while k < swaps.len()
        invariant
            k <= swaps.len(),
            r@ == blocks_seen(swaps@.subrange(0, k as int)),
        decreases swaps.len() - k,
    {
        proof {
            let next = swaps@.subrange(0, k + 1);
            assert(next.drop_last() =~= swaps@.subrange(0, k as int));
            assert(next.last() == swaps@[k as int]);
        }
        let block = swaps[k].swap.block_number();
        if !seen(&r, block) {
            r.push(block);
        }
        k += 1;
    }
    assert(swaps@.subrange(0, k as int) =~= swaps@);
    r
}

/// Finds the sandwiches in the swaps of a chunk: the swaps are grouped by
/// block, blocks with fewer than three swaps are left out, and the swaps of
/// each block that is left go to the detector in the order of their
/// transactions.
pub fn scan_chunk(swaps: &Vec<Swap>) -> (r: Vec<BlockSandwiches>)
    ensures
        block_views(r@) == spec_scan_chunk(swaps@),
{
    let ghost pred = |block: u64| swaps_of_block(swaps@, block).len() >= 3;
    let ghost found = |block: u64|
        BlockSandwichesView {
            block_number: block,
            sandwiches: spec_sandwiches(sorted_by_index(swaps_of_block(swaps@, block))),
        };
    let blocks = list_blocks(swaps);
    let mut r: Vec<BlockSandwiches> = Vec::new();
    let mut k: usize = 0;
    proof {
        reveal(Seq::filter);
        assert(blocks@.subrange(0, 0) =~= Seq::<u64>::empty());
        assert(block_views(r@) =~= blocks@.subrange(0, 0).filter(pred).map_values(found));
    }
    while k < blocks.len()
        invariant
            k <= blocks.len(),
            blocks@ == blocks_seen(swaps@),
            pred == (|block: u64| swaps_of_block(swaps@, block).len() >= 3),
            found == (|block: u64|
                BlockSandwichesView {
                    block_number: block,
                    sandwiches: spec_sandwiches(sorted_by_index(swaps_of_block(swaps@, block))),
                }),
            block_views(r@) == blocks@.subrange(0, k as int).filter(pred).map_values(found),
        decreases blocks.len() - k,
    {
        let block = blocks[k];
        let members = collect_block(swaps, block);
        proof {
            reveal(Seq::filter);
            let next = blocks@.subrange(0, k + 1);
            assert(next.drop_last() =~= blocks@.subrange(0, k as int));
            assert(next.last() == block);
        }
        if members.len() >= 3 {
            let bundle = sort_by_index(&members);
            proof {
                lemma_sorted_by_index(members@);
            }
            let sandwiches = parse_sandwiches(&bundle);
            let entry = BlockSandwiches { block_number: block, sandwiches };
            proof {
                let before = blocks@.subrange(0, k as int).filter(pred);
                assert(entry@ == found(block));
                assert(before.push(block).map_values(found) =~= before.map_values(found).push(
                    found(block),
                ));
                assert(block_views(r@.push(entry)) =~= block_views(r@).push(entry@));
            }
            r.push(entry);
        }
        k += 1;
    }
    assert(blocks@.subrange(0, k as int) =~= blocks@);
    r
}

} // verus!
