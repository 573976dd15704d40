use sandwich_lab::models::Token;
use sandwich_lab::swap::{
    to_wrapped, LogMeta, RawSwapV2, RawSwapV3, ReceiptMeta, Swap, SwapCore, TokenRef,
    TransactionMeta,
};
use sandwich_lab::uint256::{mul_small, scaled_less_than, Int256, Uint256};

fn u(v: u64) -> Uint256 {
    Uint256::from_u64(v)
}

fn neg(v: u64) -> Int256 {
    // two's complement of a small magnitude
    Int256 { raw: Uint256 { w0: (!v).wrapping_add(1), w1: u64::MAX, w2: u64::MAX, w3: u64::MAX } }
}

fn pos(v: u64) -> Int256 {
    Int256 { raw: u(v) }
}

fn meta() -> LogMeta {
    let mut hash = [0u8; 32];
    hash[0] = 0xab;
    hash[1] = 0x01;
    hash[31] = 0xff;
    LogMeta { block_number: 17, transaction_hash: hash, transaction_index: 4 }
}

fn v3(amount0: Int256, amount1: Int256) -> RawSwapV3 {
    RawSwapV3 {
        sender: [1u8; 20],
        recipient: [2u8; 20],
        amount0,
        amount1,
        sqrt_price: u(0),
        liquidity: 0,
        tick: pos(0),
    }
}

fn token(id: i32, decimals: i16) -> Token {
    Token {
        token_id: id,
        token_name: "Token".to_string(),
        token_symbol: "TKN".to_string(),
        decimals,
        blockchain_str_id: "ethereum".to_string(),
        token_address: "0x00".to_string(),
    }
}

fn core_with(in0: Uint256) -> SwapCore {
    SwapCore {
        block_number: 1,
        tx_hash: [0u8; 32],
        tx_index: 0,
        in0,
        in1: u(0),
        out0: u(0),
        out1: u(0),
    }
}

#[test]
fn v2_amounts_are_taken_as_they_are() {
    let raw = RawSwapV2 {
        sender: [1u8; 20],
        in0: u(10),
        in1: u(0),
        out0: u(0),
        out1: u(25),
        recipient: [2u8; 20],
    };
    let core = SwapCore::from((raw, meta()));
    assert_eq!(core.block_number(), 17);
    assert_eq!(core.tx_index(), 4);
    assert_eq!(core.in0, u(10));
    assert_eq!(core.in1, u(0));
    assert_eq!(core.out0, u(0));
    assert_eq!(core.out1, u(25));
    assert_eq!(core.tx_hash, meta().transaction_hash);
}

#[test]
fn v3_positive_amount_is_inbound() {
    let core = SwapCore::from((v3(pos(1_000), pos(0)), meta()));
    assert_eq!(core.in0, u(1_000));
    assert_eq!(core.out0, u(0));
    assert_eq!(core.in1, u(0));
    assert_eq!(core.out1, u(0));
}

#[test]
fn v3_negative_amount_is_outbound_with_its_magnitude() {
    let core = SwapCore::from((v3(neg(5), pos(7)), meta()));
    assert_eq!(core.in0, u(0));
    assert_eq!(core.out0, u(5));
    assert_eq!(core.in1, u(7));
    assert_eq!(core.out1, u(0));
}

#[test]
fn v3_least_amount_saturates() {
    let least = Int256 { raw: Uint256 { w0: 0, w1: 0, w2: 0, w3: 0x8000_0000_0000_0000 } };
    let core = SwapCore::from((v3(pos(0), least), meta()));
    assert_eq!(core.in1, u(0));
    assert_eq!(
        core.out1,
        Uint256 { w0: u64::MAX, w1: u64::MAX, w2: u64::MAX, w3: 0x7fff_ffff_ffff_ffff }
    );
}

#[test]
fn v3_largest_amount_is_inbound() {
    let largest =
        Int256 { raw: Uint256 { w0: u64::MAX, w1: u64::MAX, w2: u64::MAX, w3: 0x7fff_ffff_ffff_ffff } };
    let core = SwapCore::from((v3(largest, neg(1)), meta()));
    assert_eq!(core.in0, largest.raw);
    assert_eq!(core.out0, u(0));
    assert_eq!(core.out1, u(1));
}

#[test]
fn int256_sign_and_negation() {
    assert!(neg(1).is_negative());
    assert!(!pos(0).is_negative());
    assert!(!pos(1).is_negative());
    assert_eq!(neg(9).saturating_neg(), pos(9));
    assert_eq!(pos(9).saturating_neg(), neg(9));
    assert_eq!(pos(0).saturating_neg(), pos(0));
    assert_eq!(Int256::from_raw(u(3)).into_raw(), u(3));
}

#[test]
fn tx_hash_is_hex() {
    let core = SwapCore::from((v3(pos(1), pos(0)), meta()));
    assert_eq!(
        core.tx_hash(),
        "ab010000000000000000000000000000000000000000000000000000000000ff"
    );
}

#[test]
fn tx_index_is_held_at_the_largest() {
    let mut core = core_with(u(0));
    core.tx_index = 0x7fff_ffff;
    assert_eq!(core.tx_index(), i32::MAX);
    core.tx_index = 0x8000_0000;
    assert_eq!(core.tx_index(), i32::MAX);
    core.tx_index = u64::MAX;
    assert_eq!(core.tx_index(), i32::MAX);
    core.tx_index = 12;
    assert_eq!(core.tx_index(), 12);
}

#[test]
fn amounts_in_whole_tokens() {
    let core = core_with(u(1_395_633_240_123_456_789));
    assert_eq!(core.in0(18), "1.395633240123456789");
    assert_eq!(core.in0(0), "1395633240123456789.0");
    assert_eq!(core.in0(6), "1395633240123.456789");
    assert_eq!(core.in0(20), "0.01395633240123456789");
    assert_eq!(core.in1(18), "0.000000000000000000");
    assert_eq!(core_with(u(5)).in0(2), "0.05");
    assert_eq!(core_with(u(500)).in0(2), "5.00");
}

#[test]
fn amounts_with_too_many_decimals_are_zero() {
    let core = core_with(u(1_395_633_240_123_456_789));
    assert_eq!(core.in0(77).len(), 79);
    assert_eq!(core.in0(78), "0.0");
    assert_eq!(core.in0(255), "0.0");
}

#[test]
fn amount_above_one_word() {
    let big = Uint256 { w0: 0, w1: 1, w2: 0, w3: 0 };
    assert_eq!(core_with(big).in0(0), "18446744073709551616.0");
    let max = Uint256 { w0: u64::MAX, w1: u64::MAX, w2: u64::MAX, w3: u64::MAX };
    assert_eq!(
        core_with(max).in0(0),
        "115792089237316195423570985008687907853269984665640564039457584007913129639935.0"
    );
}

#[test]
fn wrapped_swap_takes_the_tokens() {
    let swap = to_wrapped(core_with(u(1_500_000)), 18, &token(3, 6), &token(4, 18));
    assert_eq!(swap.base, TokenRef { token_id: 3, decimals: 6 });
    assert_eq!(swap.quote, TokenRef { token_id: 4, decimals: 18 });
    assert!(swap.transaction.is_none());
    assert!(swap.receipt.is_none());
    assert_eq!(swap.native_decimals, 18);
    assert_eq!(swap.in0(), "1.500000");
    assert_eq!(swap.out0(), "0.000000");
    assert_eq!(swap.in1(), "0.000000000000000000");
    assert_eq!(swap.out1(), "0.000000000000000000");
}

fn swap_with_gas(price: Option<Uint256>, used: Option<Uint256>) -> Swap {
    let mut swap = to_wrapped(core_with(u(1)), 18, &token(3, 6), &token(4, 18));
    swap.add_transaction_meta(TransactionMeta { gas_price: price });
    swap.add_receipt_meta(ReceiptMeta { gas_used: used });
    swap
}

#[test]
fn gas_is_price_times_used() {
    let swap = swap_with_gas(Some(u(30_000_000_000)), Some(u(21_000)));
    assert_eq!(swap.gas_cost(), Some(u(630_000_000_000_000)));
    assert_eq!(swap.gas(), "0.000630000000000000");
}

#[test]
fn gas_defaults_to_zero() {
    assert_eq!(swap_with_gas(None, Some(u(21_000))).gas(), "0.0");
    assert_eq!(swap_with_gas(Some(u(1)), None).gas(), "0.0");
    let bare = to_wrapped(core_with(u(1)), 18, &token(3, 6), &token(4, 18));
    assert_eq!(bare.gas(), "0.0");
    assert_eq!(bare.gas_cost(), None);
    let mut only_tx = bare;
    only_tx.add_transaction_meta(TransactionMeta { gas_price: Some(u(1)) });
    assert_eq!(only_tx.gas(), "0.0");
}

#[test]
fn gas_that_overflows_is_zero() {
    let huge = Uint256 { w0: 0, w1: 0, w2: 1, w3: 0 };
    let swap = swap_with_gas(Some(huge), Some(huge));
    assert_eq!(swap.gas_cost(), None);
    assert_eq!(swap.gas(), "0.0");
    let fits = Uint256 { w0: 0, w1: 1, w2: 0, w3: 0 };
    assert_eq!(
        fits.checked_mul(&fits),
        Some(Uint256 { w0: 0, w1: 0, w2: 1, w3: 0 })
    );
}

#[test]
fn uint256_order_and_products() {
    let one_word = u(u64::MAX);
    let two_words = Uint256 { w0: 0, w1: 1, w2: 0, w3: 0 };
    assert!(one_word.less_than(&two_words));
    assert!(!two_words.less_than(&one_word));
    assert!(!two_words.less_than(&two_words));
    assert!(u(0).is_zero());
    assert!(!two_words.is_zero());
    assert_eq!(mul_small(one_word, 2), (Uint256 { w0: u64::MAX - 1, w1: 1, w2: 0, w3: 0 }, 0));
    let max = Uint256 { w0: u64::MAX, w1: u64::MAX, w2: u64::MAX, w3: u64::MAX };
    assert_eq!(
        mul_small(max, 2),
        (Uint256 { w0: u64::MAX - 1, w1: u64::MAX, w2: u64::MAX, w3: u64::MAX }, 1)
    );
    assert!(scaled_less_than(&max, 1000, &max, 1005));
    assert!(!scaled_less_than(&max, 1005, &max, 1000));
    assert!(!scaled_less_than(&max, 7, &max, 7));
}
