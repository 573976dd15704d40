//! What the two queries answer: a pair with its tokens, and the sandwiches
//! of a pair before a block.

use vstd::prelude::*;
use vstd::std_specs::convert::FromSpec;
use crate::metadata::{standard_address, PairMetadata};
use crate::models::{Pair, Range, Token};
use crate::query::{FetchMetadata, ScanMetadata};
use crate::state::Blockchain;
use crate::text::spec_to_lowercase;

verus! {

/// What can go wrong with a request, as the caller is told.
#[derive(Clone, Copy, Debug, PartialEq, Eq, Structural)]
pub enum RequestError {
    BlockchainNotSupported,
    ExchangeNotSupported,
    ExchangeNotFound,
    PairDoesNotExist,
    BaseDecimal,
    QuoteDecimal,
    Provider,
    NumericOverflow,
    Thread,
    NoDatabaseConnection,
    Database,
    DatabaseWrite,
    CreateScanRange,
    RangeSearch,
    FetchSandwiches,
    ScanFailed,
}

/// A pair in a response.
#[derive(Debug)]
pub struct PairInfo {
    pub address: String,
    pub exchange_name: String,
}

/// A token in a response.
#[derive(Debug)]
pub struct TokenMetadata {
    pub address: String,
    pub name: String,
    pub symbol: String,
    pub decimals: u8,
}

/// The answer to a query for a pair.
#[derive(Debug)]
pub struct PairResponse {
    pub pair: Option<PairInfo>,
    pub base: Option<TokenMetadata>,
    pub quote: Option<TokenMetadata>,
    pub error_message: String,
}

/// The symbols that the amounts of a response are in.
#[derive(Debug)]
pub struct SymbolMetadata {
    pub base_symbol: String,
    pub quote_symbol: String,
    pub native_symbol: String,
}

/// The answer to a query for sandwiches, of whatever form the sandwiches
/// are handed out in.
#[derive(Debug)]
pub struct SandwichesResponse<T> {
    pub sandwiches: Option<Vec<T>>,
    pub token_metadata: Option<SymbolMetadata>,
    pub fetch_metadata: Option<FetchMetadata>,
    pub scan_metadata: Option<ScanMetadata>,
    pub error_message: String,
}

impl RequestError {
    /// The words in which the caller is told.
    pub open spec fn spec_message(&self) -> Seq<char> {
        match self {
            Self::BlockchainNotSupported => "blockchain not supported"@,
            Self::ExchangeNotSupported => "exchange not supported"@,
            Self::ExchangeNotFound => "exchange not found"@,
            Self::PairDoesNotExist => "pair does not exist"@,
            Self::BaseDecimal => "base decimal error"@,
            Self::QuoteDecimal => "quote decimal error"@,
            Self::Provider => "provider error"@,
            Self::NumericOverflow => "numeric overflow"@,
            Self::Thread => "thread error"@,
            Self::NoDatabaseConnection => "cannot connect to database"@,
            Self::Database => "database error"@,
            Self::DatabaseWrite => "database write error"@,
            Self::CreateScanRange => "create scan range database error"@,
            Self::RangeSearch => "range search database error"@,
            Self::FetchSandwiches => "fetch sandwiches database error"@,
            Self::ScanFailed => "scan failed"@,
        }
    }

    /// The words in which the caller is told.
    pub fn message(&self) -> (r: &'static str)
        ensures
            r@ == self.spec_message(),
    {
        match self {
            Self::BlockchainNotSupported => "blockchain not supported",
            Self::ExchangeNotSupported => "exchange not supported",
            Self::ExchangeNotFound => "exchange not found",
            Self::PairDoesNotExist => "pair does not exist",
            Self::BaseDecimal => "base decimal error",
            Self::QuoteDecimal => "quote decimal error",
            Self::Provider => "provider error",
            Self::NumericOverflow => "numeric overflow",
            Self::Thread => "thread error",
            Self::NoDatabaseConnection => "cannot connect to database",
            Self::Database => "database error",
            Self::DatabaseWrite => "database write error",
            Self::CreateScanRange => "create scan range database error",
            Self::RangeSearch => "range search database error",
            Self::FetchSandwiches => "fetch sandwiches database error",
            Self::ScanFailed => "scan failed",
        }
    }
}

/// The count of decimals of a token, where it fits eight bits.
pub fn decimals_u8(decimals: i16) -> (r: Option<u8>)
    ensures
        r == if 0 <= decimals <= 255 {
            Some(decimals as u8)
        } else {
            None
        },
{
    if decimals < 0 || decimals > 255 {
        None
    } else {
        Some(decimals as u8)
    }
}

/// What goes wrong with the answer for a stored pair, if anything: a
/// count of decimals that does not fit eight bits, the base token looked at
/// first, or a factory that is no known exchange.
pub open spec fn stored_pair_error(pair: Pair, base: Token, quote: Token, blockchain: Blockchain)
    -> Option<RequestError> {
    if !(0 <= base.decimals <= 255) {
        Some(RequestError::BaseDecimal)
    } else if !(0 <= quote.decimals <= 255) {
        Some(RequestError::QuoteDecimal)
    } else if !blockchain.exchanges.has(pair.factory_address@) {
        Some(RequestError::ExchangeNotFound)
    } else {
        None
    }
}

impl PairResponse {
    /// An answer that holds nothing but the words of an error.
    pub fn as_error(msg: String) -> (r: PairResponse)
        ensures
            r.pair is None,
            r.base is None,
            r.quote is None,
            r.error_message == msg,
    {
        PairResponse { pair: None, base: None, quote: None, error_message: msg }
    }

    /// The answer for a pair that is stored with its tokens.
    pub fn from_stored(pair: &Pair, base: &Token, quote: &Token, blockchain: &Blockchain) -> (r:
        PairResponse)
        ensures
            match stored_pair_error(*pair, *base, *quote, *blockchain) {
                Some(e) => {
                    &&& r.pair is None
                    &&& r.base is None
                    &&& r.quote is None
                    &&& r.error_message@ == e.spec_message()
                },
                None => {
                    &&& r.error_message@.len() == 0
                    &&& r.pair matches Some(info) && info.address@ == pair.pair_address@
                        && info.exchange_name@ == blockchain.exchanges.value(
                        pair.factory_address@,
                    ).spec_name()
                    &&& r.base matches Some(token) && token.address@ == base.token_address@
                        && token.name@ == base.token_name@ && token.symbol@ == base.token_symbol@
                        && token.decimals == base.decimals
                    &&& r.quote matches Some(token) && token.address@ == quote.token_address@
                        && token.name@ == quote.token_name@ && token.symbol@
                        == quote.token_symbol@ && token.decimals == quote.decimals
                },
            },
    {
        let base_decimals = match decimals_u8(base.decimals) {
            Some(d) => d,
            None => {
                return PairResponse::as_error(RequestError::BaseDecimal.message().to_owned());
            },
        };
        let quote_decimals = match decimals_u8(quote.decimals) {
            Some(d) => d,
            None => {
                return PairResponse::as_error(RequestError::QuoteDecimal.message().to_owned());
            },
        };
        let exchange_name = match blockchain.exchange(&pair.factory_address) {
            Some(exchange) => exchange.name().to_owned(),
            None => {
                return PairResponse::as_error(RequestError::ExchangeNotFound.message().to_owned());
            },
        };
        PairResponse {
            pair: Some(PairInfo { address: pair.pair_address.clone(), exchange_name }),
            base: Some(
                TokenMetadata {
                    address: base.token_address.clone(),
                    name: base.token_name.clone(),
                    symbol: base.token_symbol.clone(),
                    decimals: base_decimals,
                },
            ),
            quote: Some(
                TokenMetadata {
                    address: quote.token_address.clone(),
                    name: quote.token_name.clone(),
                    symbol: quote.token_symbol.clone(),
                    decimals: quote_decimals,
                },
            ),
            error_message: String::new(),
        }
    }

    /// The answer for a pair that the chain was asked about: the addresses
    /// of the tokens in lower case behind `0x`, and the exchange that is
    /// known under the factory's address written likewise; an error where no
    /// exchange is.
    pub fn from_chain(pair_address: &String, metadata: &PairMetadata, blockchain: &Blockchain) -> (r:
        PairResponse)
        ensures
            ({
                let factory = seq!['0', 'x'] + spec_to_lowercase(metadata.factory_address@);
                if !blockchain.exchanges.has(factory) {
                    &&& r.pair is None
                    &&& r.base is None
                    &&& r.quote is None
                    &&& r.error_message@ == RequestError::ExchangeNotSupported.spec_message()
                } else {
                    &&& r.error_message@.len() == 0
                    &&& r.pair matches Some(info) && info.address@ == pair_address@
                        && info.exchange_name@ == blockchain.exchanges.value(factory).spec_name()
                    &&& r.base matches Some(token) && token.address@ == seq!['0', 'x']
                        + spec_to_lowercase(metadata.base_address@) && token.name@
                        == metadata.base_name@ && token.symbol@ == metadata.base_symbol@
                        && token.decimals == metadata.base_decimals
                    &&& r.quote matches Some(token) && token.address@ == seq!['0', 'x']
                        + spec_to_lowercase(metadata.quote_address@) && token.name@
                        == metadata.quote_name@ && token.symbol@ == metadata.quote_symbol@
                        && token.decimals == metadata.quote_decimals
                }
            }),
    {
        let factory_address = standard_address(metadata.factory_address.as_str());
        let base_address = standard_address(metadata.base_address.as_str());
        let quote_address = standard_address(metadata.quote_address.as_str());
        let exchange_name = match blockchain.exchange(&factory_address) {
            Some(exchange) => exchange.name().to_owned(),
            None => {
                return PairResponse::as_error(
                    RequestError::ExchangeNotSupported.message().to_owned(),
                );
            },
        };
        PairResponse {
            pair: Some(PairInfo { address: pair_address.clone(), exchange_name }),
            base: Some(
                TokenMetadata {
                    address: base_address,
                    name: metadata.base_name.clone(),
                    symbol: metadata.base_symbol.clone(),
                    decimals: metadata.base_decimals,
                },
            ),
            quote: Some(
                TokenMetadata {
                    address: quote_address,
                    name: metadata.quote_name.clone(),
                    symbol: metadata.quote_symbol.clone(),
                    decimals: metadata.quote_decimals,
                },
            ),
            error_message: String::new(),
        }
    }
}

impl<T> SandwichesResponse<T> {
    /// An answer that holds nothing but the words of an error.
    pub fn as_error(msg: String) -> (r: SandwichesResponse<T>)
        ensures
            r.sandwiches is None,
            r.token_metadata is None,
            r.fetch_metadata is None,
            r.scan_metadata is None,
            r.error_message == msg,
    {
        SandwichesResponse {
            sandwiches: None,
            token_metadata: None,
            fetch_metadata: None,
            scan_metadata: None,
            error_message: msg,
        }
    }

    /// The answer where a scan of `range` was started: its bounds and
    /// flags, and nothing else.
    pub fn scan_started(range: Range) -> (r: SandwichesResponse<T>)
        ensures
            r.sandwiches is None,
            r.token_metadata is None,
            r.fetch_metadata is None,
            r.scan_metadata == Some(<ScanMetadata as FromSpec<Range>>::from_spec(range)),
            r.error_message@.len() == 0,
    {
        SandwichesResponse {
            sandwiches: None,
            token_metadata: None,
            fetch_metadata: None,
            scan_metadata: Some(ScanMetadata::from(range)),
            error_message: String::new(),
        }
    }

    /// The answer where the scan of `range` failed: its bounds and flags,
    /// and the words that say so.
    pub fn scan_failed(range: Range) -> (r: SandwichesResponse<T>)
        ensures
            r.sandwiches is None,
            r.token_metadata is None,
            r.fetch_metadata is None,
            r.scan_metadata == Some(<ScanMetadata as FromSpec<Range>>::from_spec(range)),
            r.error_message@ == RequestError::ScanFailed.spec_message(),
    {
        SandwichesResponse {
            sandwiches: None,
            token_metadata: None,
            fetch_metadata: None,
            scan_metadata: Some(ScanMetadata::from(range)),
            error_message: RequestError::ScanFailed.message().to_owned(),
        }
    }

    /// The answer that holds what is stored of `range`: the sandwiches and
    /// the symbols where there is a sandwich, and the bounds of what was
    /// fetched and of the scan in any case.
    pub fn results(
        sandwiches: Vec<T>,
        token_metadata: SymbolMetadata,
        fetch_metadata: FetchMetadata,
        range: Range,
    ) -> (r: SandwichesResponse<T>)
        ensures
            r.sandwiches == if sandwiches@.len() > 0 {
                Some(sandwiches)
            } else {
                None
            },
            r.token_metadata == if sandwiches@.len() > 0 {
                Some(token_metadata)
            } else {
                None
            },
            r.fetch_metadata == Some(fetch_metadata),
            r.scan_metadata == Some(<ScanMetadata as FromSpec<Range>>::from_spec(range)),
            r.error_message@.len() == 0,
    {
        let total = sandwiches.len();
        SandwichesResponse {
            sandwiches: if total > 0 {
                Some(sandwiches)
            } else {
                None
            },
            token_metadata: if total > 0 {
                Some(token_metadata)
            } else {
                None
            },
            fetch_metadata: Some(fetch_metadata),
            scan_metadata: Some(ScanMetadata::from(range)),
            error_message: String::new(),
        }
    }
}

} // verus!
