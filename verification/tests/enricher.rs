use sandwich_lab::bundle::{collect_block, list_blocks, scan_chunk, sort_by_index};
use sandwich_lab::records::{leg_record, leg_records, stored_block, LegRole};
use sandwich_lab::sandwich::{FetchOutcome, Sandwich, SandwichError};
use sandwich_lab::swap::{ReceiptMeta, Swap, SwapCore, TokenRef, TransactionMeta};
use sandwich_lab::uint256::Uint256;

fn u(v: u64) -> Uint256 {
    Uint256::from_u64(v)
}

fn swap(block: u64, index: u64, in0: u64, out0: u64) -> Swap {
    let mut hash = [0u8; 32];
    hash[0] = block as u8;
    hash[31] = index as u8;
    Swap {
        swap: SwapCore {
            block_number: block,
            tx_hash: hash,
            tx_index: index,
            in0: u(in0),
            in1: u(0),
            out0: u(out0),
            out1: u(0),
        },
        transaction: None,
        receipt: None,
        native_decimals: 18,
        base: TokenRef { token_id: 1, decimals: 3 },
        quote: TokenRef { token_id: 2, decimals: 6 },
    }
}

fn sandwich(between: usize) -> Sandwich {
    Sandwich {
        frontrun: swap(9, 0, 1_000, 0),
        lunchmeat: (0..between).map(|k| swap(9, 1 + k as u64, 5, 0)).collect(),
        backrun: swap(9, 1 + between as u64, 0, 1_000),
    }
}

fn tx(price: u64) -> FetchOutcome<TransactionMeta> {
    FetchOutcome::Found(TransactionMeta { gas_price: Some(u(price)) })
}

fn receipt(used: u64) -> FetchOutcome<ReceiptMeta> {
    FetchOutcome::Found(ReceiptMeta { gas_used: Some(u(used)) })
}

fn price_of(swap: &Swap) -> Option<Uint256> {
    swap.transaction.and_then(|t| t.gas_price)
}

fn used_of(swap: &Swap) -> Option<Uint256> {
    swap.receipt.and_then(|r| r.gas_used)
}

#[test]
fn leg_hashes_follow_the_legs() {
    let hashes = sandwich(2).leg_hashes();
    assert_eq!(hashes.len(), 4);
    for (k, hash) in hashes.iter().enumerate() {
        assert_eq!(hash[31], k as u8);
        assert_eq!(hash[0], 9);
    }
    assert_eq!(sandwich(0).leg_hashes().len(), 2);
}

#[test]
fn metadata_goes_to_each_leg_by_position() {
    let mut s = sandwich(2);
    let transactions = vec![tx(10), tx(11), tx(12), tx(13)];
    let receipts = vec![receipt(20), receipt(21), receipt(22), receipt(23)];
    assert_eq!(s.add_tx_meta(&transactions, &receipts), Ok(()));
    assert_eq!(price_of(&s.frontrun), Some(u(10)));
    assert_eq!(used_of(&s.frontrun), Some(u(20)));
    assert_eq!(price_of(&s.lunchmeat[0]), Some(u(11)));
    assert_eq!(used_of(&s.lunchmeat[0]), Some(u(21)));
    assert_eq!(price_of(&s.lunchmeat[1]), Some(u(12)));
    assert_eq!(used_of(&s.lunchmeat[1]), Some(u(22)));
    assert_eq!(price_of(&s.backrun), Some(u(13)));
    assert_eq!(used_of(&s.backrun), Some(u(23)));
    assert_eq!(s.frontrun.swap.in0, u(1_000));
    assert_eq!(s.lunchmeat[1].swap.tx_index, 2);
    assert_eq!(s.backrun.gas_cost(), Some(u(13 * 23)));
}

#[test]
fn missing_gas_fields_are_no_error() {
    let mut s = sandwich(1);
    let transactions = vec![
        FetchOutcome::Found(TransactionMeta { gas_price: None }),
        tx(11),
        tx(12),
    ];
    let receipts = vec![receipt(20), FetchOutcome::Found(ReceiptMeta { gas_used: None }), receipt(22)];
    assert_eq!(s.add_tx_meta(&transactions, &receipts), Ok(()));
    assert!(s.frontrun.transaction.is_some());
    assert_eq!(s.frontrun.gas(), "0.0");
    assert_eq!(s.lunchmeat[0].gas(), "0.0");
    assert_eq!(s.backrun.gas(), "0.000000000000000264");
}

#[test]
fn each_outcome_has_its_error() {
    let cases = [
        (FetchOutcome::NotFound, SandwichError::NoTransaction),
        (FetchOutcome::ProviderFailed, SandwichError::ProviderError),
        (FetchOutcome::BadProviderUrl, SandwichError::ParseError),
        (FetchOutcome::TaskFailed, SandwichError::JoinError),
    ];
    for (outcome, error) in cases {
        let mut s = sandwich(1);
        let transactions = vec![tx(10), outcome, tx(12)];
        let receipts = vec![receipt(20), receipt(21), receipt(22)];
        assert_eq!(s.add_tx_meta(&transactions, &receipts), Err(error));
        assert!(s.frontrun.transaction.is_none());
        assert!(s.frontrun.receipt.is_none());
        assert!(s.lunchmeat[0].transaction.is_none());
        assert!(s.backrun.receipt.is_none());
    }
    let mut s = sandwich(1);
    let transactions = vec![tx(10), tx(11), tx(12)];
    let receipts = vec![receipt(20), receipt(21), FetchOutcome::NotFound];
    assert_eq!(s.add_tx_meta(&transactions, &receipts), Err(SandwichError::NoReceipt));
    assert!(s.frontrun.transaction.is_none());
}

#[test]
fn first_error_comes_back_transactions_first() {
    let mut s = sandwich(1);
    let transactions = vec![tx(10), FetchOutcome::TaskFailed, FetchOutcome::NotFound];
    let receipts = vec![FetchOutcome::ProviderFailed, receipt(21), receipt(22)];
    assert_eq!(s.add_tx_meta(&transactions, &receipts), Err(SandwichError::JoinError));
    let mut s = sandwich(1);
    let transactions = vec![tx(10), tx(11), tx(12)];
    let receipts = vec![receipt(20), FetchOutcome::BadProviderUrl, FetchOutcome::NotFound];
    assert_eq!(s.add_tx_meta(&transactions, &receipts), Err(SandwichError::ParseError));
}

#[test]
fn error_messages() {
    assert_eq!(
        SandwichError::NoTransaction.message(),
        "no transaction was returned from the provider"
    );
    assert_eq!(SandwichError::NoReceipt.message(), "no receipt was returned from the provider");
    assert_eq!(SandwichError::ProviderError.message(), "the provider returned with an error");
    assert_eq!(SandwichError::ParseError.message(), "could not parse the provider url");
    assert_eq!(SandwichError::JoinError.message(), "join error");
}

#[test]
fn swaps_are_grouped_by_block() {
    let swaps = vec![
        swap(5, 2, 1, 0),
        swap(6, 0, 2, 0),
        swap(5, 0, 3, 0),
        swap(7, 1, 4, 0),
        swap(5, 1, 5, 0),
        swap(6, 1, 6, 0),
    ];
    assert_eq!(list_blocks(&swaps), vec![5, 6, 7]);
    let of_five: Vec<u64> = collect_block(&swaps, 5).iter().map(|s| s.swap.tx_index).collect();
    assert_eq!(of_five, vec![2, 0, 1]);
    assert_eq!(collect_block(&swaps, 8).len(), 0);
}

#[test]
fn sort_is_by_index_and_stable() {
    let swaps = vec![
        swap(5, 3, 1, 0),
        swap(5, 1, 2, 0),
        swap(5, 3, 3, 0),
        swap(5, 0, 4, 0),
        swap(5, 1, 5, 0),
        swap(5, u64::MAX, 6, 0),
        swap(5, 0x8000_0000, 7, 0),
    ];
    let sorted: Vec<(u64, Uint256)> =
        sort_by_index(&swaps).iter().map(|s| (s.swap.tx_index, s.swap.in0)).collect();
    assert_eq!(
        sorted,
        vec![
            (0, u(4)),
            (1, u(2)),
            (1, u(5)),
            (3, u(1)),
            (3, u(3)),
            (u64::MAX, u(6)),
            (0x8000_0000, u(7)),
        ]
    );
    assert_eq!(sort_by_index(&Vec::new()).len(), 0);
}

#[test]
fn chunk_is_scanned_block_by_block() {
    let swaps = vec![
        // block 11: three swaps out of order, a sandwich once sorted
        swap(11, 2, 0, 1_000),
        swap(11, 0, 1_000, 0),
        // block 12: two swaps only
        swap(12, 0, 1_000, 0),
        swap(11, 1, 9, 0),
        swap(12, 2, 0, 1_000),
        // block 13: three swaps, no sandwich
        swap(13, 0, 1, 0),
        swap(13, 1, 2, 0),
        swap(13, 2, 3, 0),
    ];
    let found = scan_chunk(&swaps);
    assert_eq!(found.len(), 2);
    assert_eq!(found[0].block_number, 11);
    assert_eq!(found[0].sandwiches.len(), 1);
    assert_eq!(found[0].sandwiches[0].frontrun.swap.tx_index, 0);
    assert_eq!(found[0].sandwiches[0].lunchmeat.len(), 1);
    assert_eq!(found[0].sandwiches[0].lunchmeat[0].swap.in0, u(9));
    assert_eq!(found[0].sandwiches[0].backrun.swap.tx_index, 2);
    assert_eq!(found[1].block_number, 13);
    assert_eq!(found[1].sandwiches.len(), 0);
    assert_eq!(scan_chunk(&Vec::new()).len(), 0);
}

#[test]
fn legs_are_recorded_in_order() {
    let mut s = sandwich(2);
    let transactions = vec![tx(1_000_000_000), tx(11), tx(12), tx(13)];
    let receipts = vec![receipt(21_000), receipt(21), receipt(22), receipt(23)];
    s.add_tx_meta(&transactions, &receipts).unwrap();
    let legs = leg_records(&s);
    assert_eq!(legs.len(), 4);
    assert_eq!(legs[0].role, LegRole::Frontrun);
    assert_eq!(legs[1].role, LegRole::Lunchmeat);
    assert_eq!(legs[2].role, LegRole::Lunchmeat);
    assert_eq!(legs[3].role, LegRole::Backrun);
    assert_eq!(
        legs[0].tx_hash,
        "0x0900000000000000000000000000000000000000000000000000000000000000"
    );
    assert_eq!(
        legs[3].tx_hash,
        "0x0900000000000000000000000000000000000000000000000000000000000003"
    );
    assert_eq!(legs[0].tx_index, 0);
    assert_eq!(legs[2].tx_index, 2);
    assert_eq!(legs[0].base_in, "1.000");
    assert_eq!(legs[0].base_out, "0.000");
    assert_eq!(legs[0].quote_in, "0.000000");
    assert_eq!(legs[0].quote_out, "0.000000");
    assert_eq!(legs[0].gas, "0.000021000000000000");
    assert_eq!(legs[1].base_in, "0.005");
    assert_eq!(legs[3].base_out, "1.000");
    let alone = leg_record(&swap(1, 7, 1_500, 0), LegRole::Lunchmeat);
    assert_eq!(alone.base_in, "1.500");
    assert_eq!(alone.gas, "0.0");
    assert_eq!(alone.tx_index, 7);
}

#[test]
fn block_number_as_it_is_stored() {
    assert_eq!(stored_block(0), Some(0));
    assert_eq!(stored_block(i64::MAX as u64), Some(i64::MAX));
    assert_eq!(stored_block(1 << 63), None);
}
