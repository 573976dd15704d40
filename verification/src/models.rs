//! The records that the scanner and the query path exchange with storage.

use vstd::prelude::*;
use crate::text::{spec_to_lowercase, to_lowercase};

verus! {

/// A token of a trading pair. Its address is kept in lower case.
#[derive(Clone, Debug)]
pub struct Token {
    pub token_id: i32,
    pub token_name: String,
    pub token_symbol: String,
    pub decimals: i16,
    pub blockchain_str_id: String,
    pub token_address: String,
}

/// A trading pair of one exchange on one chain.
#[derive(Clone, Debug)]
pub struct Pair {
    pub pair_id: i32,
    pub blockchain_str_id: String,
    pub factory_address: String,
    pub pair_address: String,
    pub base_token_id: i32,
    pub quote_token_id: i32,
}

/// One interval of blocks of a pair's history, and how far its scan got.
#[derive(Clone, Copy, Debug, PartialEq, Eq, Structural)]
pub struct Range {
    pub range_id: i64,
    pub pair_id: i32,
    pub lower_bound: i64,
    pub upper_bound: i64,
    pub scan_complete: bool,
    pub scan_failed: bool,
}

/// A stored sandwich: the pair it was found on and its block.
#[derive(Clone, Copy, Debug, PartialEq, Eq, Structural)]
pub struct Sandwich {
    pub sandwich_id: i64,
    pub pair_id: i32,
    pub block_number: i64,
}

/// The key under which a token or a pair is stored and looked up: the id
/// of its chain and its address, both in lower case.
#[derive(Debug)]
pub struct NaturalKey {
    pub blockchain_str_id: String,
    pub address: String,
}

/// The key of a token or a pair, for storing it and for looking it up.
pub fn natural_key(blockchain_id: &str, address: &str) -> (key: NaturalKey)
    ensures
        key.blockchain_str_id@ == spec_to_lowercase(blockchain_id@),
        key.address@ == spec_to_lowercase(address@),
{
    NaturalKey {
        blockchain_str_id: to_lowercase(blockchain_id),
        address: to_lowercase(address),
    }
}

impl Range {
    /// Whether `block` lies within the interval.
    pub open spec fn contains(&self, block: int) -> bool {
        self.lower_bound <= block <= self.upper_bound
    }

    /// Whether two intervals share a block.
    pub open spec fn overlaps(&self, other: Range) -> bool {
        self.lower_bound <= other.upper_bound && other.lower_bound <= self.upper_bound
    }
}

} // verus!
