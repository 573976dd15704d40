//! What a chain tells of a pair and its two tokens.

use vstd::prelude::*;
use crate::text::{hex_encode, hex_text, spec_to_lowercase, to_lowercase};

verus! {

/// A pair's factory and tokens, the addresses as hex digits in lower case.
#[derive(Clone, Debug)]
pub struct PairMetadata {
    pub factory_address: String,
    pub base_address: String,
    pub quote_address: String,
    pub base_name: String,
    pub quote_name: String,
    pub base_symbol: String,
    pub quote_symbol: String,
    pub base_decimals: u8,
    pub quote_decimals: u8,
}

/// What the aggregator contract returns for a pair: the factory; the base
/// token's address, name, symbol and decimals; the same of the quote token.
pub type Metadata = ([u8; 20], [u8; 20], String, String, u8, [u8; 20], String, String, u8);

/// An address as forty hex digits in lower case.
pub open spec fn address_text(address: [u8; 20]) -> Seq<char> {
    spec_to_lowercase(hex_text(address@))
}

/// An address as forty hex digits in lower case.
pub fn address_string(address: &[u8; 20]) -> (r: String)
    ensures
        r@ == address_text(*address),
{
    let digits = hex_encode(address.as_slice());
    to_lowercase(digits.as_str())
}

/// A text in lower case behind `0x`.
pub fn standard_address(text: &str) -> (r: String)
    ensures
        r@ == seq!['0', 'x'] + spec_to_lowercase(text@),
{
    proof {
        reveal_strlit("0x");
    }
    let mut r = "0x".to_owned();
    assert(r@ =~= seq!['0', 'x']);
    let lower = to_lowercase(text);
    r.append(lower.as_str());
    r
}

impl PairMetadata {
    /// The metadata with its addresses written out.
    pub fn from(metadata: Metadata) -> (r: PairMetadata)
        ensures
            r.factory_address@ == address_text(metadata.0),
            r.base_address@ == address_text(metadata.1),
            r.quote_address@ == address_text(metadata.5),
            r.base_name == metadata.2,
            r.quote_name == metadata.6,
            r.base_symbol == metadata.3,
            r.quote_symbol == metadata.7,
            r.base_decimals == metadata.4,
            r.quote_decimals == metadata.8,
    {
        PairMetadata {
            factory_address: address_string(&metadata.0),
            base_address: address_string(&metadata.1),
            quote_address: address_string(&metadata.5),
            base_name: metadata.2,
            quote_name: metadata.6,
            base_symbol: metadata.3,
            quote_symbol: metadata.7,
            base_decimals: metadata.4,
            quote_decimals: metadata.8,
        }
    }
}

} // verus!
