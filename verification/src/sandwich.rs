//! The sandwich detector: in the swaps of one block, a frontrun and a
//! backrun that reverses it, around the swaps between them.

use vstd::prelude::*;
use crate::swap::{ReceiptMeta, Swap, TransactionMeta};
use crate::uint256::{scaled_less_than, Uint256};

verus! {

/// A frontrun, the swaps it was placed around, and the backrun.
#[derive(Debug)]
pub struct Sandwich {
    pub frontrun: Swap,
    pub lunchmeat: Vec<Swap>,
    pub backrun: Swap,
}

/// A sandwich as a value of specifications.
pub struct SandwichView {
    pub frontrun: Swap,
    pub lunchmeat: Seq<Swap>,
    pub backrun: Swap,
}

impl View for Sandwich {
    type V = SandwichView;

    open spec fn view(&self) -> SandwichView {
        SandwichView {
            frontrun: self.frontrun,
            lunchmeat: self.lunchmeat@,
            backrun: self.backrun,
        }
    }
}

/// Whether the ratio of `a` to `b` lies strictly between 1/1.005 and 1.005.
/// A ratio with a zero on either side lies outside.
pub open spec fn within_tolerance(a: nat, b: nat) -> bool {
    1000 * b < 1005 * a && 1000 * a < 1005 * b
}

/// Whether `b` can be the backrun of the frontrun `a`: both are swaps of the
/// same two tokens, and what `b` takes out of one token is, within the
/// tolerance, what `a` put in of it.
pub open spec fn spec_is_match(a: Swap, b: Swap) -> bool {
    &&& a.base.token_id == b.base.token_id
    &&& a.quote.token_id == b.quote.token_id
    &&& (within_tolerance(a.swap.in0@, b.swap.out0@) || within_tolerance(
        a.swap.in1@,
        b.swap.out1@,
    ))
}

/// The first index from `j` on whose swap can be the backrun of the swap at
/// `i`, and the length of the bundle where there is none.
pub open spec fn first_backrun(bundle: Seq<Swap>, i: int, j: int) -> int
    decreases bundle.len() - j,
{
    if j >= bundle.len() {
        bundle.len() as int
    } else if spec_is_match(bundle[i], bundle[j]) {
        j
    } else {
        first_backrun(bundle, i, j + 1)
    }
}

/// The brackets found from index `i` on, each as the index of its frontrun
/// and the index of its backrun: the first swap that has a backrun at least
/// two places on opens a bracket, the nearest such backrun closes it, and
/// the search goes on behind that backrun.
pub open spec fn brackets_from(bundle: Seq<Swap>, i: int) -> Seq<(int, int)>
    decreases bundle.len() - i,
{
    if i < 0 || i + 2 >= bundle.len() {
        Seq::empty()
    } else {
        let j = first_backrun(bundle, i, i + 2);
        if i + 2 <= j < bundle.len() {
            seq![(i, j)] + brackets_from(bundle, j + 1)
        } else {
            brackets_from(bundle, i + 1)
        }
    }
}

/// The sandwich of a bracket: the swap that opens it, the swaps strictly
/// inside, and the swap that closes it.
pub open spec fn sandwich_at(bundle: Seq<Swap>, bracket: (int, int)) -> SandwichView {
    SandwichView {
        frontrun: bundle[bracket.0],
        lunchmeat: bundle.subrange(bracket.0 + 1, bracket.1),
        backrun: bundle[bracket.1],
    }
}

/// The sandwiches of a bundle, in the order of their frontruns.
pub open spec fn spec_sandwiches(bundle: Seq<Swap>) -> Seq<SandwichView> {
    brackets_from(bundle, 0).map_values(|bracket: (int, int)| sandwich_at(bundle, bracket))
}

/// The sandwiches of a vector as values of specifications.
pub open spec fn sandwich_views(sandwiches: Seq<Sandwich>) -> Seq<SandwichView> {
    sandwiches.map_values(|sandwich: Sandwich| sandwich@)
}

/// Whether the ratio of `a` to `b` lies within the tolerance.
pub fn ratio_within_tolerance(a: &Uint256, b: &Uint256) -> (r: bool)
    ensures
        r == within_tolerance(a@, b@),
{
    let above = scaled_less_than(b, 1000, a, 1005);
    let below = scaled_less_than(a, 1000, b, 1005);
    proof {
        assert(b@ * 1000 == 1000 * b@ && a@ * 1005 == 1005 * a@);
        assert(a@ * 1000 == 1000 * a@ && b@ * 1005 == 1005 * b@);
    }
    above && below
}

/// Whether `b` can be the backrun of the frontrun `a`.
pub fn is_match(a: &Swap, b: &Swap) -> (r: bool)
    ensures
        r == spec_is_match(*a, *b),
{
    if a.base.token_id != b.base.token_id {
        return false;
    }
    if a.quote.token_id != b.quote.token_id {
        return false;
    }
    if ratio_within_tolerance(&a.swap.in0, &b.swap.out0) {
        return true;
    }
    if ratio_within_tolerance(&a.swap.in1, &b.swap.out1) {
        return true;
    }
    false
}

/// Where the search for a backrun stands at `j`, the first backrun from the
/// start of the search is the first one from `j`.
proof fn lemma_first_backrun_step(bundle: Seq<Swap>, i: int, from: int, j: int)
    requires
        0 <= from <= j <= bundle.len(),
        forall|k: int| from <= k < j ==> !spec_is_match(bundle[i], bundle[k]),
    ensures
        first_backrun(bundle, i, from) == first_backrun(bundle, i, j),
    decreases j - from,
{
    if from < j {
        lemma_first_backrun_step(bundle, i, from + 1, j);
    }
}

/// The swaps from `from` up to `to`, copied.
fn copy_range(bundle: &Vec<Swap>, from: usize, to: usize) -> (r: Vec<Swap>)
    requires
        from <= to <= bundle.len(),
    ensures
        r@ == bundle@.subrange(from as int, to as int),
{
    let mut r: Vec<Swap> = Vec::new();
    let mut k: usize = from;
    while k < to
        invariant
            from <= k <= to <= bundle.len(),
            r@ == bundle@.subrange(from as int, k as int),
        decreases to - k,
    {
        r.push(bundle[k]);
        k += 1;
        assert(r@ =~= bundle@.subrange(from as int, k as int));
    }
    r
}

/// Finds the sandwiches among the swaps of one block, which the caller has
/// put in the order of their transactions. No swap is part of two
/// sandwiches.
pub fn parse_sandwiches(bundle: &Vec<Swap>) -> (sandwiches: Vec<Sandwich>)
    requires
        bundle.len() >= 3,
    ensures
        sandwich_views(sandwiches@) == spec_sandwiches(bundle@),
{
    let n: usize = bundle.len();
    let mut sandwiches: Vec<Sandwich> = Vec::new();
    let mut i: usize = 0;
    assert(sandwich_views(sandwiches@) =~= Seq::<SandwichView>::empty());
    while n - i > 2
        invariant
            n == bundle.len(),
            i <= n,
            spec_sandwiches(bundle@) == sandwich_views(sandwiches@) + brackets_from(
                bundle@,
                i as int,
            ).map_values(|bracket: (int, int)| sandwich_at(bundle@, bracket)),
        decreases n - i,
    {
        let mut j: usize = i + 2;
        let mut found: bool = false;
        while j < n && !found
            invariant
                n == bundle.len(),
                i + 2 <= j <= n,
                found ==> j < n && spec_is_match(bundle@[i as int], bundle@[j as int]),
                forall|k: int| i + 2 <= k < j ==> !spec_is_match(bundle@[i as int], bundle@[k]),
            decreases n - j + (if found { 0int } else { 1int }),
        {
            if is_match(&bundle[i], &bundle[j]) {
                found = true;
            } else {
                j += 1;
            }
        }
        proof {
            lemma_first_backrun_step(bundle@, i as int, i + 2, j as int);
        }
        if found {
            let sandwich = Sandwich {
                frontrun: bundle[i],
                lunchmeat: copy_range(bundle, i + 1, j),
                backrun: bundle[j],
            };
            proof {
                let f = |bracket: (int, int)| sandwich_at(bundle@, bracket);
                let rest = brackets_from(bundle@, j + 1);
                assert(brackets_from(bundle@, i as int) == seq![(i as int, j as int)] + rest);
                assert((seq![(i as int, j as int)] + rest).map_values(f) =~= seq![
                    sandwich_at(bundle@, (i as int, j as int)),
                ] + rest.map_values(f));
                assert(sandwich@ == sandwich_at(bundle@, (i as int, j as int)));
                assert(sandwich_views(sandwiches@.push(sandwich)) =~= sandwich_views(
                    sandwiches@,
                ).push(sandwich@));
            }
            sandwiches.push(sandwich);
            i = j + 1;
        } else {
            i += 1;
        }
    }
    proof {
        assert(brackets_from(bundle@, i as int) =~= Seq::<(int, int)>::empty());
    }
    sandwiches
}

/// The first backrun found from `j` on lies at or behind `j`, can be the
/// backrun of the swap at `i`, and nothing between `j` and it can.
pub proof fn lemma_first_backrun(bundle: Seq<Swap>, i: int, j: int)
    requires
        0 <= j <= bundle.len(),
    ensures
        j <= first_backrun(bundle, i, j) <= bundle.len(),
        first_backrun(bundle, i, j) < bundle.len() ==> spec_is_match(
            bundle[i],
            bundle[first_backrun(bundle, i, j)],
        ),
        forall|k: int|
            j <= k < first_backrun(bundle, i, j) ==> !spec_is_match(bundle[i], #[trigger] bundle[k]),
    decreases bundle.len() - j,
{
    if j < bundle.len() && !spec_is_match(bundle[i], bundle[j]) {
        lemma_first_backrun(bundle, i, j + 1);
    }
}

/// Whether the bracket consumes the swap at `index`: its frontrun, its
/// backrun and all between belong to it.
pub open spec fn consumes(bracket: (int, int), index: int) -> bool {
    bracket.0 <= index <= bracket.1
}

/// Every bracket found from `start` on lies within the bundle behind
/// `start`, holds at least one swap between its ends, and its ends match;
/// each bracket begins behind the end of the one before it.
pub proof fn lemma_brackets_ordered(bundle: Seq<Swap>, start: int)
    requires
        0 <= start,
    ensures
        forall|k: int|
            0 <= k < brackets_from(bundle, start).len() ==> {
                let bracket = #[trigger] brackets_from(bundle, start)[k];
                &&& start <= bracket.0
                &&& bracket.0 + 2 <= bracket.1 < bundle.len()
                &&& spec_is_match(bundle[bracket.0], bundle[bracket.1])
            },
        forall|k: int, l: int|
            0 <= k < l < brackets_from(bundle, start).len() ==> (#[trigger] brackets_from(
                bundle,
                start,
            )[k]).1 < (#[trigger] brackets_from(bundle, start)[l]).0,
    decreases bundle.len() - start,
{
    let all = brackets_from(bundle, start);
    if start + 2 < bundle.len() {
        let j = first_backrun(bundle, start, start + 2);
        lemma_first_backrun(bundle, start, start + 2);
        if j < bundle.len() {
            let rest = brackets_from(bundle, j + 1);
            lemma_brackets_ordered(bundle, j + 1);
            assert(all == seq![(start, j)] + rest);
            assert forall|k: int| 0 <= k < all.len() implies {
                let bracket = #[trigger] all[k];
                &&& start <= bracket.0
                &&& bracket.0 + 2 <= bracket.1 < bundle.len()
                &&& spec_is_match(bundle[bracket.0], bundle[bracket.1])
            } by {
                if k > 0 {
                    assert(all[k] == rest[k - 1]);
                }
            }
            assert forall|k: int, l: int| 0 <= k < l < all.len() implies (#[trigger] all[k]).1 < (
            #[trigger] all[l]).0 by {
                assert(all[l] == rest[l - 1]);
                if k > 0 {
                    assert(all[k] == rest[k - 1]);
                }
            }
        } else {
            lemma_brackets_ordered(bundle, start + 1);
            assert(all == brackets_from(bundle, start + 1));
        }
    } else {
        assert(all.len() == 0);
    }
}

/// No swap belongs to two sandwiches of one bundle: two different brackets
/// consume no index in common.
pub proof fn lemma_sandwiches_disjoint(bundle: Seq<Swap>, k: int, l: int, index: int)
    requires
        0 <= k < brackets_from(bundle, 0).len(),
        0 <= l < brackets_from(bundle, 0).len(),
        k != l,
    ensures
        !(consumes(brackets_from(bundle, 0)[k], index) && consumes(
            brackets_from(bundle, 0)[l],
            index,
        )),
{
    lemma_brackets_ordered(bundle, 0);
    let all = brackets_from(bundle, 0);
    if k < l {
        assert(all[k].1 < all[l].0);
    } else {
        assert(all[l].1 < all[k].0);
    }
}

/// Every sandwich has at least three legs: a frontrun, a backrun that
/// matches it, and at least one swap between them, all of them swaps of the
/// bundle.
pub proof fn lemma_sandwich_has_three_legs(bundle: Seq<Swap>, k: int)
    requires
        0 <= k < spec_sandwiches(bundle).len(),
    ensures
        spec_sandwiches(bundle)[k].lunchmeat.len() >= 1,
        spec_sandwiches(bundle)[k].lunchmeat.len() + 2 >= 3,
        spec_sandwiches(bundle)[k].lunchmeat.len() + 2 <= bundle.len(),
        spec_is_match(spec_sandwiches(bundle)[k].frontrun, spec_sandwiches(bundle)[k].backrun),
{
    lemma_brackets_ordered(bundle, 0);
    let bracket = brackets_from(bundle, 0)[k];
    assert(spec_sandwiches(bundle)[k] == sandwich_at(bundle, bracket));
}

/// The search from `start` finds nothing exactly when no swap from `start`
/// on has a backrun two or more places behind it. Where it finds a
/// bracket, the first one opens at the first swap that has such a backrun
/// and closes at the nearest, and the others are those found behind it.
pub proof fn lemma_first_bracket_is_least(bundle: Seq<Swap>, start: int)
    requires
        0 <= start,
    ensures
        brackets_from(bundle, start).len() == 0 <==> (forall|i: int, j: int|
            start <= i && i + 2 <= j < bundle.len() ==> !spec_is_match(
                #[trigger] bundle[i],
                #[trigger] bundle[j],
            )),
        brackets_from(bundle, start).len() > 0 ==> {
            let first = brackets_from(bundle, start)[0];
            &&& forall|i: int, j: int|
                start <= i < first.0 && i + 2 <= j < bundle.len() ==> !spec_is_match(
                    #[trigger] bundle[i],
                    #[trigger] bundle[j],
                )
            &&& forall|j: int|
                first.0 + 2 <= j < first.1 ==> !spec_is_match(bundle[first.0], #[trigger] bundle[j])
            &&& brackets_from(bundle, start).drop_first() == brackets_from(bundle, first.1 + 1)
        },
    decreases bundle.len() - start,
{
    let all = brackets_from(bundle, start);
    if start + 2 < bundle.len() {
        let j = first_backrun(bundle, start, start + 2);
        lemma_first_backrun(bundle, start, start + 2);
        if j < bundle.len() {
            let rest = brackets_from(bundle, j + 1);
            assert(all == seq![(start, j)] + rest);
            assert(all.drop_first() =~= rest);
            assert(spec_is_match(bundle[start], bundle[j]));
        } else {
            lemma_first_bracket_is_least(bundle, start + 1);
            assert(all == brackets_from(bundle, start + 1));
            assert forall|i: int, k: int|
                start <= i && i + 2 <= k < bundle.len() && all.len() == 0 implies !spec_is_match(
                #[trigger] bundle[i],
                #[trigger] bundle[k],
            ) by {
                if i == start {
                    assert(!spec_is_match(bundle[start], bundle[k]));
                }
            }
            if all.len() > 0 {
                let first = all[0];
                lemma_brackets_ordered(bundle, start + 1);
                assert forall|i: int, k: int|
                    start <= i < first.0 && i + 2 <= k < bundle.len() implies !spec_is_match(
                    #[trigger] bundle[i],
                    #[trigger] bundle[k],
                ) by {
                    if i == start {
                        assert(!spec_is_match(bundle[start], bundle[k]));
                    }
                }
            }
        }
    }
}

/// The tolerance is symmetric: a ratio lies within it exactly when its
/// inverse does.
pub proof fn lemma_tolerance_symmetric(a: nat, b: nat)
    ensures
        within_tolerance(a, b) == within_tolerance(b, a),
{
}

/// Equal amounts other than zero lie within the tolerance; a ratio of zero,
/// a ratio with zero below the line, and a ratio of 1.005 or more, or of
/// 1/1.005 or less, lie outside.
pub proof fn lemma_tolerance_band(a: nat, b: nat)
    ensures
        a == b && a > 0 ==> within_tolerance(a, b),
        a == 0 || b == 0 ==> !within_tolerance(a, b),
        1000 * a >= 1005 * b ==> !within_tolerance(a, b),
        1005 * a <= 1000 * b ==> !within_tolerance(a, b),
{
}

/// Why a sandwich could not be given its transactions and receipts.
#[derive(Clone, Copy, Debug, PartialEq, Eq, Structural)]
pub enum SandwichError {
    NoTransaction,
    NoReceipt,
    ProviderError,
    ParseError,
    JoinError,
}

/// What came of asking the provider for the transaction or the receipt of
/// one leg.
#[derive(Debug)]
pub enum FetchOutcome<T> {
    /// The provider had it.
    Found(T),
    /// The provider answered that there is none.
    NotFound,
    /// The provider answered with an error, or not at all.
    ProviderFailed,
    /// The provider's address could not be read.
    BadProviderUrl,
    /// The task that asked did not end.
    TaskFailed,
}

/// The error that an outcome stands for, if any; `missing` is the error for
/// what the provider does not have.
pub open spec fn outcome_error<T>(outcome: FetchOutcome<T>, missing: SandwichError) -> Option<
    SandwichError,
> {
    match outcome {
        FetchOutcome::Found(_) => None,
        FetchOutcome::NotFound => Some(missing),
        FetchOutcome::ProviderFailed => Some(SandwichError::ProviderError),
        FetchOutcome::BadProviderUrl => Some(SandwichError::ParseError),
        FetchOutcome::TaskFailed => Some(SandwichError::JoinError),
    }
}

/// The error of the first outcome that stands for one.
pub open spec fn first_error<T>(outcomes: Seq<FetchOutcome<T>>, missing: SandwichError) -> Option<
    SandwichError,
>
    decreases outcomes.len(),
{
    if outcomes.len() == 0 {
        None
    } else {
        match outcome_error(outcomes[0], missing) {
            Some(e) => Some(e),
            None => first_error(outcomes.drop_first(), missing),
        }
    }
}

/// The error that ends the enrichment of a sandwich: the first among the
/// transactions, in the order of the legs, and where there is none, the
/// first among the receipts.
pub open spec fn enrichment_error(
    transactions: Seq<FetchOutcome<TransactionMeta>>,
    receipts: Seq<FetchOutcome<ReceiptMeta>>,
) -> Option<SandwichError> {
    match first_error(transactions, SandwichError::NoTransaction) {
        Some(e) => Some(e),
        None => first_error(receipts, SandwichError::NoReceipt),
    }
}

/// A swap with its transaction and its receipt.
pub open spec fn enriched(
    swap: Swap,
    transaction: FetchOutcome<TransactionMeta>,
    receipt: FetchOutcome<ReceiptMeta>,
) -> Swap {
    Swap { transaction: Some(transaction->Found_0), receipt: Some(receipt->Found_0), ..swap }
}

/// The hashes of the transactions of a sandwich's legs: the frontrun, the
/// swaps between in their order, the backrun.
pub open spec fn spec_leg_hashes(sandwich: SandwichView) -> Seq<[u8; 32]> {
    seq![sandwich.frontrun.swap.tx_hash] + sandwich.lunchmeat.map_values(
        |swap: Swap| swap.swap.tx_hash,
    ) + seq![sandwich.backrun.swap.tx_hash]
}

/// Where no outcome stands for an error, all are found.
pub proof fn lemma_no_error_all_found<T>(outcomes: Seq<FetchOutcome<T>>, missing: SandwichError)
    requires
        first_error(outcomes, missing) is None,
    ensures
        forall|k: int| 0 <= k < outcomes.len() ==> #[trigger] outcomes[k] is Found,
    decreases outcomes.len(),
{
    if outcomes.len() > 0 {
        lemma_no_error_all_found(outcomes.drop_first(), missing);
        assert forall|k: int| 0 <= k < outcomes.len() implies #[trigger] outcomes[k] is Found by {
            if k > 0 {
                assert(outcomes[k] == outcomes.drop_first()[k - 1]);
            }
        }
    }
}

/// The error that an outcome stands for.
fn error_of<T>(outcome: &FetchOutcome<T>, missing: SandwichError) -> (r: Option<SandwichError>)
    ensures
        r == outcome_error(*outcome, missing),
{
    match outcome {
        FetchOutcome::Found(_) => None,
        FetchOutcome::NotFound => Some(missing),
        FetchOutcome::ProviderFailed => Some(SandwichError::ProviderError),
        FetchOutcome::BadProviderUrl => Some(SandwichError::ParseError),
        FetchOutcome::TaskFailed => Some(SandwichError::JoinError),
    }
}

/// The error of the first outcome that stands for one.
fn find_first_error<T>(outcomes: &Vec<FetchOutcome<T>>, missing: SandwichError) -> (r: Option<
    SandwichError,
>)
    ensures
        r == first_error(outcomes@, missing),
{
    let mut k: usize = 0;
    assert(outcomes@.skip(0) =~= outcomes@);
    while k < outcomes.len()
        invariant
            k <= outcomes.len(),
            first_error(outcomes@, missing) == first_error(outcomes@.skip(k as int), missing),
        decreases outcomes.len() - k,
    {
        let found = error_of(&outcomes[k], missing);
        proof {
            assert(outcomes@.skip(k as int)[0] == outcomes@[k as int]);
            assert(outcomes@.skip(k as int).drop_first() =~= outcomes@.skip(k + 1));
        }
        if found.is_some() {
            return found;
        }
        k += 1;
    }
    None
}

/// The transaction that an outcome holds.
fn found_transaction(outcome: &FetchOutcome<TransactionMeta>) -> (r: TransactionMeta)
    requires
        outcome is Found,
    ensures
        r == outcome->Found_0,
{
    match outcome {
        FetchOutcome::Found(t) => *t,
        _ => TransactionMeta { gas_price: None },
    }
}

/// The receipt that an outcome holds.
fn found_receipt(outcome: &FetchOutcome<ReceiptMeta>) -> (r: ReceiptMeta)
    requires
        outcome is Found,
    ensures
        r == outcome->Found_0,
{
    match outcome {
        FetchOutcome::Found(t) => *t,
        _ => ReceiptMeta { gas_used: None },
    }
}

impl SandwichError {
    /// The text of the error.
    pub open spec fn spec_message(&self) -> Seq<char> {
        match self {
            Self::NoTransaction => "no transaction was returned from the provider"@,
            Self::NoReceipt => "no receipt was returned from the provider"@,
            Self::ProviderError => "the provider returned with an error"@,
            Self::ParseError => "could not parse the provider url"@,
            Self::JoinError => "join error"@,
        }
    }

    /// The text of the error.
    pub fn message(&self) -> (r: &'static str)
        ensures
            r@ == self.spec_message(),
    {
        match self {
            Self::NoTransaction => "no transaction was returned from the provider",
            Self::NoReceipt => "no receipt was returned from the provider",
            Self::ProviderError => "the provider returned with an error",
            Self::ParseError => "could not parse the provider url",
            Self::JoinError => "join error",
        }
    }
}

impl Sandwich {
    /// The hashes of the transactions to fetch, one for each leg, in the
    /// order in which the outcomes are handed to `add_tx_meta`.
    pub fn leg_hashes(&self) -> (r: Vec<[u8; 32]>)
        ensures
            r@ == spec_leg_hashes(self@),
    {
        let mut r: Vec<[u8; 32]> = Vec::new();
        r.push(self.frontrun.swap.tx_hash);
        let mut k: usize = 0;
        while k < self.lunchmeat.len()
            invariant
                k <= self.lunchmeat.len(),
                r@ == seq![self.frontrun.swap.tx_hash] + self.lunchmeat@.subrange(
                    0,
                    k as int,
                ).map_values(|swap: Swap| swap.swap.tx_hash),
            decreases self.lunchmeat.len() - k,
        {
            r.push(self.lunchmeat[k].swap.tx_hash);
            k += 1;
            assert(r@ =~= seq![self.frontrun.swap.tx_hash] + self.lunchmeat@.subrange(
                0,
                k as int,
            ).map_values(|swap: Swap| swap.swap.tx_hash));
        }
        assert(self.lunchmeat@.subrange(0, k as int) =~= self.lunchmeat@);
        r.push(self.backrun.swap.tx_hash);
        r
    }

    /// Gives each leg its transaction and its receipt, by position: the
    /// first outcome of each vector belongs to the frontrun, the last to the
    /// backrun, those between to the swaps between. Where an outcome is
    /// anything but found, no leg is changed and the error of the first such
    /// outcome comes back, the transactions looked at before the receipts.
    pub fn add_tx_meta(
        &mut self,
        transactions: &Vec<FetchOutcome<TransactionMeta>>,
        receipts: &Vec<FetchOutcome<ReceiptMeta>>,
    ) -> (r: Result<(), SandwichError>)
        requires
            transactions.len() == old(self).lunchmeat.len() + 2,
            receipts.len() == old(self).lunchmeat.len() + 2,
        ensures
            (r is Err) <==> (enrichment_error(transactions@, receipts@) is Some),
            r matches Err(e) ==> enrichment_error(transactions@, receipts@) == Some(e),
            r is Err ==> *final(self) == *old(self),
            r is Ok ==> {
                let last = transactions.len() - 1;
                &&& final(self).frontrun == enriched(
                    old(self).frontrun,
                    transactions@[0],
                    receipts@[0],
                )
                &&& final(self).backrun == enriched(
                    old(self).backrun,
                    transactions@[last],
                    receipts@[last],
                )
                &&& final(self).lunchmeat@.len() == old(self).lunchmeat@.len()
                &&& forall|k: int|
                    0 <= k < old(self).lunchmeat@.len() ==> #[trigger] final(self).lunchmeat@[k]
                        == enriched(old(self).lunchmeat@[k], transactions@[k + 1], receipts@[k + 1])
            },
    {
        match find_first_error(transactions, SandwichError::NoTransaction) {
            Some(e) => {
                return Err(e);
            },
            None => {},
        }
        match find_first_error(receipts, SandwichError::NoReceipt) {
            Some(e) => {
                return Err(e);
            },
            None => {},
        }
        proof {
            lemma_no_error_all_found(transactions@, SandwichError::NoTransaction);
            lemma_no_error_all_found(receipts@, SandwichError::NoReceipt);
        }
        let n: usize = self.lunchmeat.len();
        let last: usize = n + 1;
        self.frontrun.add_transaction_meta(found_transaction(&transactions[0]));
        self.frontrun.add_receipt_meta(found_receipt(&receipts[0]));
        let mut k: usize = 0;
        while k < n
            invariant
                k <= n,
                n == old(self).lunchmeat.len(),
                n == self.lunchmeat.len(),
                transactions.len() == n + 2,
                receipts.len() == n + 2,
                self.frontrun == enriched(old(self).frontrun, transactions@[0], receipts@[0]),
                self.backrun == old(self).backrun,
                forall|i: int| 0 <= i < transactions.len() ==> #[trigger] transactions@[i] is Found,
                forall|i: int| 0 <= i < receipts.len() ==> #[trigger] receipts@[i] is Found,
                forall|i: int|
                    0 <= i < k ==> #[trigger] self.lunchmeat@[i] == enriched(
                        old(self).lunchmeat@[i],
                        transactions@[i + 1],
                        receipts@[i + 1],
                    ),
                forall|i: int| k <= i < n ==> #[trigger] self.lunchmeat@[i] == old(self).lunchmeat@[i],
            decreases n - k,
        {
            let mut leg: Swap = self.lunchmeat[k];
            leg.add_transaction_meta(found_transaction(&transactions[k + 1]));
            leg.add_receipt_meta(found_receipt(&receipts[k + 1]));
            self.lunchmeat.set(k, leg);
            k += 1;
        }
        self.backrun.add_transaction_meta(found_transaction(&transactions[last]));
        self.backrun.add_receipt_meta(found_receipt(&receipts[last]));
        Ok(())
    }
}

} // verus!
