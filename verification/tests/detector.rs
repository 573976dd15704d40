use sandwich_lab::sandwich::{is_match, parse_sandwiches, ratio_within_tolerance, Sandwich};
use sandwich_lab::swap::{Swap, SwapCore, TokenRef};
use sandwich_lab::uint256::Uint256;

fn u(v: u64) -> Uint256 {
    Uint256::from_u64(v)
}

/// A swap of the pair (1, 2) at place `index` with the given base amounts.
fn swap(index: u64, in0: u64, out0: u64) -> Swap {
    swap_full(index, in0, 0, out0, 0, 1, 2)
}

fn swap_full(index: u64, in0: u64, in1: u64, out0: u64, out1: u64, base: i32, quote: i32) -> Swap {
    let mut hash = [0u8; 32];
    hash[31] = index as u8;
    Swap {
        swap: SwapCore {
            block_number: 100,
            tx_hash: hash,
            tx_index: index,
            in0: u(in0),
            in1: u(in1),
            out0: u(out0),
            out1: u(out1),
        },
        transaction: None,
        receipt: None,
        native_decimals: 18,
        base: TokenRef { token_id: base, decimals: 18 },
        quote: TokenRef { token_id: quote, decimals: 6 },
    }
}

fn indices(sandwich: &Sandwich) -> (u64, Vec<u64>, u64) {
    (
        sandwich.frontrun.swap.tx_index,
        sandwich.lunchmeat.iter().map(|s| s.swap.tx_index).collect(),
        sandwich.backrun.swap.tx_index,
    )
}

#[test]
fn tolerance_bounds() {
    assert!(ratio_within_tolerance(&u(10_049), &u(10_000)));
    assert!(!ratio_within_tolerance(&u(10_051), &u(10_000)));
    assert!(!ratio_within_tolerance(&u(10_050), &u(10_000)));
    assert!(ratio_within_tolerance(&u(10_000), &u(10_049)));
    assert!(!ratio_within_tolerance(&u(10_000), &u(10_051)));
    assert!(!ratio_within_tolerance(&u(10_000), &u(10_050)));
    assert!(ratio_within_tolerance(&u(1), &u(1)));
}

#[test]
fn tolerance_excludes_zero_and_the_unbounded() {
    assert!(!ratio_within_tolerance(&u(0), &u(10_000)));
    assert!(!ratio_within_tolerance(&u(10_000), &u(0)));
    assert!(!ratio_within_tolerance(&u(0), &u(0)));
    assert!(!ratio_within_tolerance(&u(u64::MAX), &u(1)));
    let max = Uint256 { w0: u64::MAX, w1: u64::MAX, w2: u64::MAX, w3: u64::MAX };
    assert!(!ratio_within_tolerance(&max, &u(1)));
    assert!(!ratio_within_tolerance(&u(1), &max));
    assert!(ratio_within_tolerance(&max, &max));
}

#[test]
fn match_needs_the_same_tokens() {
    let a = swap_full(0, 1_000, 0, 0, 0, 1, 2);
    assert!(is_match(&a, &swap_full(2, 0, 0, 1_000, 0, 1, 2)));
    assert!(!is_match(&a, &swap_full(2, 0, 0, 1_000, 0, 9, 2)));
    assert!(!is_match(&a, &swap_full(2, 0, 0, 1_000, 0, 1, 9)));
}

#[test]
fn match_on_either_token() {
    let a = swap_full(0, 1_000, 0, 0, 0, 1, 2);
    let b = swap_full(0, 0, 500, 0, 0, 1, 2);
    assert!(is_match(&a, &swap_full(2, 0, 0, 1_004, 0, 1, 2)));
    assert!(is_match(&b, &swap_full(2, 0, 0, 0, 502, 1, 2)));
    assert!(!is_match(&a, &swap_full(2, 0, 0, 0, 1_000, 1, 2)));
    assert!(!is_match(&a, &swap_full(2, 0, 0, 1_006, 0, 1, 2)));
    assert!(!is_match(&a, &swap_full(2, 1_000, 0, 0, 0, 1, 2)));
}

#[test]
fn four_swaps_one_sandwich_around_two() {
    // A and D match on the base token; B and C match nothing.
    let bundle = vec![swap(0, 1_000, 0), swap(1, 70, 0), swap(2, 0, 30), swap(3, 0, 1_001)];
    let found = parse_sandwiches(&bundle);
    assert_eq!(found.len(), 1);
    assert_eq!(indices(&found[0]), (0, vec![1, 2], 3));
}

#[test]
fn swap_behind_the_sandwich_yields_nothing() {
    // A and C match; D matches nothing.
    let bundle = vec![swap(0, 1_000, 0), swap(1, 70, 0), swap(2, 0, 1_000), swap(3, 5, 0)];
    let found = parse_sandwiches(&bundle);
    assert_eq!(found.len(), 1);
    assert_eq!(indices(&found[0]), (0, vec![1], 2));
}

#[test]
fn neighbours_are_no_sandwich() {
    let bundle = vec![swap(0, 1_000, 0), swap(1, 0, 1_000), swap(2, 7, 0)];
    assert_eq!(parse_sandwiches(&bundle).len(), 0);
}

#[test]
fn nearest_backrun_closes_the_bracket() {
    let bundle = vec![
        swap(0, 1_000, 0),
        swap(1, 3, 0),
        swap(2, 0, 1_000),
        swap(3, 3, 0),
        swap(4, 0, 1_000),
    ];
    let found = parse_sandwiches(&bundle);
    assert_eq!(found.len(), 1);
    assert_eq!(indices(&found[0]), (0, vec![1], 2));
}

#[test]
fn sandwiches_share_no_swap() {
    let bundle = vec![
        swap(0, 1_000, 0),
        swap(1, 3, 0),
        swap(2, 1_000, 1_000),
        swap(3, 3, 0),
        swap(4, 0, 1_000),
        swap(5, 2_000, 0),
        swap(6, 3, 0),
        swap(7, 0, 2_000),
    ];
    let found = parse_sandwiches(&bundle);
    // the backrun at 2 is not the frontrun of a second sandwich
    assert_eq!(found.len(), 2);
    assert_eq!(indices(&found[0]), (0, vec![1], 2));
    assert_eq!(indices(&found[1]), (5, vec![6], 7));
    let mut used = Vec::new();
    for sandwich in &found {
        let (front, between, back) = indices(sandwich);
        assert!(between.len() + 2 >= 3);
        for index in std::iter::once(front).chain(between).chain(std::iter::once(back)) {
            assert!(!used.contains(&index));
            used.push(index);
        }
    }
}

#[test]
fn later_frontrun_is_found_when_the_first_swaps_match_nothing() {
    let bundle = vec![
        swap(0, 5, 0),
        swap(1, 6, 0),
        swap(2, 1_000, 0),
        swap(3, 7, 0),
        swap(4, 8, 0),
        swap(5, 0, 999),
    ];
    let found = parse_sandwiches(&bundle);
    assert_eq!(found.len(), 1);
    assert_eq!(indices(&found[0]), (2, vec![3, 4], 5));
}

#[test]
fn sandwich_keeps_copies_of_its_swaps() {
    let bundle = vec![swap(0, 1_000, 0), swap(1, 70, 0), swap(2, 0, 1_000)];
    let found = parse_sandwiches(&bundle);
    assert_eq!(found.len(), 1);
    assert_eq!(found[0].frontrun.swap.in0, u(1_000));
    assert_eq!(found[0].lunchmeat[0].swap.in0, u(70));
    assert_eq!(found[0].backrun.swap.out0, u(1_000));
    assert_eq!(found[0].backrun.swap.tx_hash[31], 2);
}
