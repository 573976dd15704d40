//! Swap events: the two encodings that exchanges emit, and the one form
//! that the detector works on.

use vstd::prelude::*;
use vstd::std_specs::convert::{FromSpec, FromSpecImpl};
use crate::models::Token;
use crate::text::{amount_text, format_amount, hex_encode, hex_text, zero_string, zero_text};
use crate::uint256::{
    lemma_from_nat, lemma_view_bound, pow255, pow256, spec_from_nat, spec_saturating_neg, Int256,
    Uint256,
};

verus! {

/// Where in the chain a log was emitted.
#[derive(Clone, Copy, Debug)]
pub struct LogMeta {
    pub block_number: u64,
    pub transaction_hash: [u8; 32],
    pub transaction_index: u64,
}

/// A swap as exchanges with constant-product pools emit it: what went in
/// and what came out, for each of the two tokens.
#[derive(Clone, Copy, Debug)]
pub struct RawSwapV2 {
    pub sender: [u8; 20],
    pub in0: Uint256,
    pub in1: Uint256,
    pub out0: Uint256,
    pub out1: Uint256,
    pub recipient: [u8; 20],
}

/// A swap as exchanges with concentrated liquidity emit it: one signed net
/// amount for each token, positive for what the pool took in.
#[derive(Clone, Copy, Debug)]
pub struct RawSwapV3 {
    pub sender: [u8; 20],
    pub recipient: [u8; 20],
    pub amount0: Int256,
    pub amount1: Int256,
    pub sqrt_price: Uint256,
    pub liquidity: u128,
    pub tick: Int256,
}

/// A swap in canonical form: amounts in base units, none negative.
#[derive(Clone, Copy, Debug)]
pub struct SwapCore {
    pub block_number: u64,
    pub tx_hash: [u8; 32],
    pub tx_index: u64,
    pub in0: Uint256,
    pub in1: Uint256,
    pub out0: Uint256,
    pub out1: Uint256,
}

/// What a swap needs of a token: its id and its count of decimals.
#[derive(Clone, Copy, Debug, PartialEq, Eq, Structural)]
pub struct TokenRef {
    pub token_id: i32,
    pub decimals: i16,
}

/// What a swap keeps of its transaction.
#[derive(Clone, Copy, Debug)]
pub struct TransactionMeta {
    pub gas_price: Option<Uint256>,
}

/// What a swap keeps of its transaction's receipt.
#[derive(Clone, Copy, Debug)]
pub struct ReceiptMeta {
    pub gas_used: Option<Uint256>,
}

/// A swap with the tokens of its pair and, once fetched, its transaction
/// and receipt.
#[derive(Clone, Copy, Debug)]
pub struct Swap {
    pub swap: SwapCore,
    pub transaction: Option<TransactionMeta>,
    pub receipt: Option<ReceiptMeta>,
    pub native_decimals: u8,
    pub base: TokenRef,
    pub quote: TokenRef,
}

/// What a signed net amount brings into the pool: the amount where it is
/// not negative, else nothing.
pub open spec fn inbound(amount: int) -> nat {
    if amount >= 0 {
        amount as nat
    } else {
        0
    }
}

/// What a signed net amount takes out of the pool: nothing where it is not
/// negative, else its magnitude, held at the largest signed number.
pub open spec fn outbound(amount: int) -> nat {
    if amount >= 0 {
        0
    } else {
        spec_saturating_neg(amount) as nat
    }
}

/// The index of a transaction as a signed 32-bit number, held at the
/// largest.
pub open spec fn spec_tx_index(index: u64) -> i32 {
    if index > i32::MAX {
        i32::MAX
    } else {
        index as i32
    }
}

/// The gas cost in base units of the native token, where the price and the
/// gas used are both known and their product fits 256 bits.
pub open spec fn spec_gas_cost(swap: Swap) -> Option<nat> {
    match (swap.transaction, swap.receipt) {
        (Some(transaction), Some(receipt)) => match (transaction.gas_price, receipt.gas_used) {
            (Some(price), Some(used)) => if price@ * used@ < pow256() {
                Some(price@ * used@)
            } else {
                None
            },
            _ => None,
        },
        _ => None,
    }
}

/// Splits a signed net amount in what went in and what came out.
fn split_net_amount(amount: Int256) -> (r: (Uint256, Uint256))
    ensures
        r.0@ == inbound(amount@),
        r.1@ == outbound(amount@),
        r.0 == spec_from_nat(inbound(amount@)),
        r.1 == spec_from_nat(outbound(amount@)),
{
    let r = if amount.is_negative() {
        (Uint256::zero(), amount.saturating_neg().into_raw())
    } else {
        (amount.into_raw(), Uint256::zero())
    };
    proof {
        lemma_from_nat(inbound(amount@));
        lemma_from_nat(outbound(amount@));
    }
    r
}

impl From<(RawSwapV2, LogMeta)> for SwapCore {
    /// The amounts as the event gives them.
    fn from(v: (RawSwapV2, LogMeta)) -> (r: SwapCore) {
        let (swap, meta) = v;
        SwapCore {
            block_number: meta.block_number,
            tx_hash: meta.transaction_hash,
            tx_index: meta.transaction_index,
            in0: swap.in0,
            in1: swap.in1,
            out0: swap.out0,
            out1: swap.out1,
        }
    }
}

impl FromSpecImpl<(RawSwapV2, LogMeta)> for SwapCore {
    open spec fn obeys_from_spec() -> bool {
        true
    }

    open spec fn from_spec(v: (RawSwapV2, LogMeta)) -> SwapCore {
        SwapCore {
            block_number: v.1.block_number,
            tx_hash: v.1.transaction_hash,
            tx_index: v.1.transaction_index,
            in0: v.0.in0,
            in1: v.0.in1,
            out0: v.0.out0,
            out1: v.0.out1,
        }
    }
}

impl From<(RawSwapV3, LogMeta)> for SwapCore {
    /// Each net amount becomes an inbound amount where it is positive and
    /// an outbound amount where it is negative.
    fn from(v: (RawSwapV3, LogMeta)) -> (r: SwapCore) {
        let (swap, meta) = v;
        let (in0, out0) = split_net_amount(swap.amount0);
        let (in1, out1) = split_net_amount(swap.amount1);
        SwapCore {
            block_number: meta.block_number,
            tx_hash: meta.transaction_hash,
            tx_index: meta.transaction_index,
            in0,
            in1,
            out0,
            out1,
        }
    }
}

impl FromSpecImpl<(RawSwapV3, LogMeta)> for SwapCore {
    open spec fn obeys_from_spec() -> bool {
        true
    }

    open spec fn from_spec(v: (RawSwapV3, LogMeta)) -> SwapCore {
        SwapCore {
            block_number: v.1.block_number,
            tx_hash: v.1.transaction_hash,
            tx_index: v.1.transaction_index,
            in0: spec_from_nat(inbound(v.0.amount0@)),
            in1: spec_from_nat(inbound(v.0.amount1@)),
            out0: spec_from_nat(outbound(v.0.amount0@)),
            out1: spec_from_nat(outbound(v.0.amount1@)),
        }
    }
}

/// Every net amount, whatever its sign, is split in two amounts that are
/// not negative: a net amount that is not negative is the inbound amount and
/// leaves the outbound amount zero; a negative one leaves the inbound amount
/// zero, and the outbound amount is its magnitude, but the largest signed
/// number for the least one, which has no magnitude in 256 bits. Neither
/// reaches two to the 255.
pub proof fn lemma_v3_amounts(swap: RawSwapV3, meta: LogMeta)
    ensures
        ({
            let core = <SwapCore as FromSpec<(RawSwapV3, LogMeta)>>::from_spec((swap, meta));
            &&& core.block_number == meta.block_number
            &&& core.tx_hash == meta.transaction_hash
            &&& core.tx_index == meta.transaction_index
            &&& core.in0@ == inbound(swap.amount0@)
            &&& core.out0@ == outbound(swap.amount0@)
            &&& core.in1@ == inbound(swap.amount1@)
            &&& core.out1@ == outbound(swap.amount1@)
            &&& swap.amount0@ >= 0 ==> core.in0@ == swap.amount0@ && core.out0@ == 0
            &&& swap.amount0@ < 0 ==> core.in0@ == 0 && core.out0@ > 0
            &&& -pow255() < swap.amount0@ < 0 ==> core.out0@ == -swap.amount0@
            &&& swap.amount0@ == -pow255() ==> core.out0@ == pow255() - 1
            &&& swap.amount1@ >= 0 ==> core.in1@ == swap.amount1@ && core.out1@ == 0
            &&& swap.amount1@ < 0 ==> core.in1@ == 0 && core.out1@ > 0
            &&& -pow255() < swap.amount1@ < 0 ==> core.out1@ == -swap.amount1@
            &&& swap.amount1@ == -pow255() ==> core.out1@ == pow255() - 1
            &&& core.in0@ < pow255() && core.out0@ < pow255()
            &&& core.in1@ < pow255() && core.out1@ < pow255()
        }),
{
    lemma_view_bound(swap.amount0.raw);
    lemma_view_bound(swap.amount1.raw);
    lemma_from_nat(inbound(swap.amount0@));
    lemma_from_nat(outbound(swap.amount0@));
    lemma_from_nat(inbound(swap.amount1@));
    lemma_from_nat(outbound(swap.amount1@));
}

impl SwapCore {
    /// The block of the swap.
    pub fn block_number(&self) -> (r: u64)
        ensures
            r == self.block_number,
    {
        self.block_number
    }

    /// The hash of the swap's transaction, as 64 hex digits.
    pub fn tx_hash(&self) -> (r: String)
        ensures
            r@ == hex_text(self.tx_hash@),
    {
        hex_encode(self.tx_hash.as_slice())
    }

    /// The index of the swap's transaction in its block, held at the
    /// largest signed 32-bit number.
    pub fn tx_index(&self) -> (r: i32)
        ensures
            r == spec_tx_index(self.tx_index),
    {
        if self.tx_index > 0x7fff_ffff {
            i32::MAX
        } else {
            self.tx_index as i32
        }
    }

    /// What went in of the first token, in whole tokens.
    pub fn in0(&self, decimals: u8) -> (r: String)
        ensures
            r@ == amount_text(self.in0@, decimals as nat),
    {
        format_amount(&self.in0, decimals)
    }

    /// What went in of the second token, in whole tokens.
    pub fn in1(&self, decimals: u8) -> (r: String)
        ensures
            r@ == amount_text(self.in1@, decimals as nat),
    {
        format_amount(&self.in1, decimals)
    }

    /// What came out of the first token, in whole tokens.
    pub fn out0(&self, decimals: u8) -> (r: String)
        ensures
            r@ == amount_text(self.out0@, decimals as nat),
    {
        format_amount(&self.out0, decimals)
    }

    /// What came out of the second token, in whole tokens.
    pub fn out1(&self, decimals: u8) -> (r: String)
        ensures
            r@ == amount_text(self.out1@, decimals as nat),
    {
        format_amount(&self.out1, decimals)
    }
}

/// The count of decimals of a token as the amounts are written with it.
pub open spec fn spec_decimals(token: TokenRef) -> u8 {
    token.decimals as u8
}

/// The count of decimals of a token, cut to eight bits.
pub fn token_decimals(token: &TokenRef) -> (r: u8)
    ensures
        r == spec_decimals(*token),
{
    #[verifier::truncate]
    (token.decimals as u8)
}

/// The gas cost of a swap as text: the cost in whole native tokens, and
/// `0.0` where the cost is not known.
pub open spec fn spec_gas_text(swap: Swap) -> Seq<char> {
    match spec_gas_cost(swap) {
        Some(cost) => amount_text(cost, swap.native_decimals as nat),
        None => zero_text(),
    }
}

impl Swap {
    /// Keeps what is needed of the swap's transaction.
    pub fn add_transaction_meta(&mut self, transaction: TransactionMeta)
        ensures
            *final(self) == (Swap { transaction: Some(transaction), ..*old(self) }),
    {
        self.transaction = Some(transaction);
    }

    /// Keeps what is needed of the receipt of the swap's transaction.
    pub fn add_receipt_meta(&mut self, receipt: ReceiptMeta)
        ensures
            *final(self) == (Swap { receipt: Some(receipt), ..*old(self) }),
    {
        self.receipt = Some(receipt);
    }

    /// What went in of the base token, in whole tokens.
    pub fn in0(&self) -> (r: String)
        ensures
            r@ == amount_text(self.swap.in0@, spec_decimals(self.base) as nat),
    {
        self.swap.in0(token_decimals(&self.base))
    }

    /// What went in of the quote token, in whole tokens.
    pub fn in1(&self) -> (r: String)
        ensures
            r@ == amount_text(self.swap.in1@, spec_decimals(self.quote) as nat),
    {
        self.swap.in1(token_decimals(&self.quote))
    }

    /// What came out of the base token, in whole tokens.
    pub fn out0(&self) -> (r: String)
        ensures
            r@ == amount_text(self.swap.out0@, spec_decimals(self.base) as nat),
    {
        self.swap.out0(token_decimals(&self.base))
    }

    /// What came out of the quote token, in whole tokens.
    pub fn out1(&self) -> (r: String)
        ensures
            r@ == amount_text(self.swap.out1@, spec_decimals(self.quote) as nat),
    {
        self.swap.out1(token_decimals(&self.quote))
    }

    /// The gas cost in base units of the native token: the gas price times
    /// the gas used, where both are known and the product fits 256 bits.
    pub fn gas_cost(&self) -> (r: Option<Uint256>)
        ensures
            (r is Some) <==> (spec_gas_cost(*self) is Some),
            r matches Some(cost) ==> spec_gas_cost(*self) == Some(cost@),
    {
        let transaction = match &self.transaction {
            Some(transaction) => transaction,
            None => {
                return None;
            },
        };
        let gas_price = match transaction.gas_price {
            Some(price) => price,
            None => {
                return None;
            },
        };
        let receipt = match &self.receipt {
            Some(receipt) => receipt,
            None => {
                return None;
            },
        };
        let gas_used = match receipt.gas_used {
            Some(amount) => amount,
            None => {
                return None;
            },
        };
        gas_price.checked_mul(&gas_used)
    }

    /// The gas cost in whole native tokens, and `0.0` where the gas price or
    /// the gas used is not known or their product does not fit 256 bits.
    pub fn gas(&self) -> (r: String)
        ensures
            r@ == spec_gas_text(*self),
    {
        match self.gas_cost() {
            Some(cost) => format_amount(&cost, self.native_decimals),
            None => zero_string(),
        }
    }
}

/// A swap with the tokens of its pair, its transaction and receipt not
/// fetched yet.
pub fn to_wrapped(swap: SwapCore, native_decimals: u8, base: &Token, quote: &Token) -> (r: Swap)
    ensures
        r.swap == swap,
        r.transaction is None,
        r.receipt is None,
        r.native_decimals == native_decimals,
        r.base == (TokenRef { token_id: base.token_id, decimals: base.decimals }),
        r.quote == (TokenRef { token_id: quote.token_id, decimals: quote.decimals }),
{
    Swap {
        swap,
        transaction: None,
        receipt: None,
        native_decimals,
        base: TokenRef { token_id: base.token_id, decimals: base.decimals },
        quote: TokenRef { token_id: quote.token_id, decimals: quote.decimals },
    }
}

} // verus!
