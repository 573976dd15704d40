//! What is stored of a sandwich: one record for each of its legs.

use vstd::prelude::*;
use crate::sandwich::{Sandwich, SandwichView};
use crate::swap::{spec_decimals, spec_gas_text, spec_tx_index, Swap};
use crate::text::{amount_text, hex_text, prefixed_hex};

verus! {

/// The part that a leg plays in its sandwich.
#[derive(Clone, Copy, Debug, PartialEq, Eq, Structural)]
pub enum LegRole {
    Frontrun,
    Lunchmeat,
    Backrun,
}

/// One leg of a sandwich as it is stored: the hash of its transaction
/// behind `0x`, its place in the block, its amounts in whole tokens and its
/// gas cost in whole native tokens, as decimal numbers.
#[derive(Debug)]
pub struct TransactionLeg {
    pub role: LegRole,
    pub tx_hash: String,
    pub tx_index: i32,
    pub base_in: String,
    pub quote_in: String,
    pub base_out: String,
    pub quote_out: String,
    pub gas: String,
}

/// A leg as a value of specifications.
pub struct TransactionLegView {
    pub role: LegRole,
    pub tx_hash: Seq<char>,
    pub tx_index: i32,
    pub base_in: Seq<char>,
    pub quote_in: Seq<char>,
    pub base_out: Seq<char>,
    pub quote_out: Seq<char>,
    pub gas: Seq<char>,
}

impl View for TransactionLeg {
    type V = TransactionLegView;

    open spec fn view(&self) -> TransactionLegView {
        TransactionLegView {
            role: self.role,
            tx_hash: self.tx_hash@,
            tx_index: self.tx_index,
            base_in: self.base_in@,
            quote_in: self.quote_in@,
            base_out: self.base_out@,
            quote_out: self.quote_out@,
            gas: self.gas@,
        }
    }
}

/// The record of a swap that plays `role`.
pub open spec fn spec_leg(swap: Swap, role: LegRole) -> TransactionLegView {
    TransactionLegView {
        role,
        tx_hash: seq!['0', 'x'] + hex_text(swap.swap.tx_hash@),
        tx_index: spec_tx_index(swap.swap.tx_index),
        base_in: amount_text(swap.swap.in0@, spec_decimals(swap.base) as nat),
        quote_in: amount_text(swap.swap.in1@, spec_decimals(swap.quote) as nat),
        base_out: amount_text(swap.swap.out0@, spec_decimals(swap.base) as nat),
        quote_out: amount_text(swap.swap.out1@, spec_decimals(swap.quote) as nat),
        gas: spec_gas_text(swap),
    }
}

/// The records of a sandwich: the frontrun, the swaps between in their
/// order, the backrun.
pub open spec fn spec_leg_records(sandwich: SandwichView) -> Seq<TransactionLegView> {
    seq![spec_leg(sandwich.frontrun, LegRole::Frontrun)] + sandwich.lunchmeat.map_values(
        |swap: Swap| spec_leg(swap, LegRole::Lunchmeat),
    ) + seq![spec_leg(sandwich.backrun, LegRole::Backrun)]
}

/// A sandwich is stored as one frontrun, then its swaps between, then one
/// backrun: one record for each leg, three at least where a swap lies
/// between.
pub proof fn lemma_leg_roles(sandwich: SandwichView)
    ensures
        spec_leg_records(sandwich).len() == sandwich.lunchmeat.len() + 2,
        spec_leg_records(sandwich)[0] == spec_leg(sandwich.frontrun, LegRole::Frontrun),
        spec_leg_records(sandwich)[sandwich.lunchmeat.len() as int + 1] == spec_leg(
            sandwich.backrun,
            LegRole::Backrun,
        ),
        forall|i: int|
            0 <= i < sandwich.lunchmeat.len() ==> #[trigger] spec_leg_records(sandwich)[i + 1]
                == spec_leg(sandwich.lunchmeat[i], LegRole::Lunchmeat),
{
}

/// The records of a vector as values of specifications.
pub open spec fn leg_views(legs: Seq<TransactionLeg>) -> Seq<TransactionLegView> {
    legs.map_values(|leg: TransactionLeg| leg@)
}

/// The block of a sandwich as it is stored, where it fits 63 bits.
pub fn stored_block(block: u64) -> (r: Option<i64>)
    ensures
        r == if block <= i64::MAX {
            Some(block as i64)
        } else {
            None
        },
{
    if block > 0x7fff_ffff_ffff_ffff {
        None
    } else {
        Some(block as i64)
    }
}

/// The record of a swap that plays `role`.
pub fn leg_record(swap: &Swap, role: LegRole) -> (r: TransactionLeg)
    ensures
        r@ == spec_leg(*swap, role),
{
    TransactionLeg {
        role,
        tx_hash: prefixed_hex(swap.swap.tx_hash.as_slice()),
        tx_index: swap.swap.tx_index(),
        base_in: swap.in0(),
        quote_in: swap.in1(),
        base_out: swap.out0(),
        quote_out: swap.out1(),
        gas: swap.gas(),
    }
}

/// The records of a sandwich, in the order in which they are stored.
pub fn leg_records(sandwich: &Sandwich) -> (r: Vec<TransactionLeg>)
    ensures
        leg_views(r@) == spec_leg_records(sandwich@),
{
    let ghost between = |swap: Swap| spec_leg(swap, LegRole::Lunchmeat);
    let mut r: Vec<TransactionLeg> = Vec::new();
    let first = leg_record(&sandwich.frontrun, LegRole::Frontrun);
    proof {
        assert(leg_views(r@.push(first)) =~= seq![spec_leg(sandwich.frontrun, LegRole::Frontrun)]
            + sandwich.lunchmeat@.subrange(0, 0).map_values(between));
    }
    r.push(first);
    let mut k: usize = 0;
    while k < sandwich.lunchmeat.len()
        invariant
            k <= sandwich.lunchmeat.len(),
            between == (|swap: Swap| spec_leg(swap, LegRole::Lunchmeat)),
            leg_views(r@) == seq![spec_leg(sandwich.frontrun, LegRole::Frontrun)]
                + sandwich.lunchmeat@.subrange(0, k as int).map_values(between),
        decreases sandwich.lunchmeat.len() - k,
    {
        let leg = leg_record(&sandwich.lunchmeat[k], LegRole::Lunchmeat);
        proof {
            let done = sandwich.lunchmeat@.subrange(0, k as int);
            let next = sandwich.lunchmeat@.subrange(0, k + 1);
            assert(next =~= done.push(sandwich.lunchmeat@[k as int]));
            assert(next.map_values(between) =~= done.map_values(between).push(leg@));
            assert(leg_views(r@.push(leg)) =~= leg_views(r@).push(leg@));
        }
        r.push(leg);
        k += 1;
    }
    let last = leg_record(&sandwich.backrun, LegRole::Backrun);
    proof {
        assert(sandwich.lunchmeat@.subrange(0, k as int) =~= sandwich.lunchmeat@);
        assert(leg_views(r@.push(last)) =~= spec_leg_records(sandwich@));
    }
    r.push(last);
    r
}

} // verus!
