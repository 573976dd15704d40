use sandwich_lab::metadata::{address_string, standard_address, PairMetadata};
use sandwich_lab::models::{Pair, Range, Token};
use sandwich_lab::query::{FetchMetadata, ScanMetadata};
use sandwich_lab::routes::{
    decimals_u8, PairResponse, RequestError, SandwichesResponse, SymbolMetadata,
};
use sandwich_lab::scanner::Params;
use sandwich_lab::state::{Blockchain, Exchange, NativeToken, Table};
use sandwich_lab::templates::{wrap_in_html, BODY_BOTTOM, BODY_TOP, BOTTOM, TOP};

fn chain() -> Blockchain {
    let mut chain = Blockchain::new(
        "Ethereum".to_string(),
        "http://localhost:8545".to_string(),
        "0x00".to_string(),
        Params {
            blocks_per_chunk: 1_000,
            max_blocks_per_chunk: 10_000,
            target_swaps_per_chunk: 300,
            max_blocks_per_request: 100_000,
        },
        NativeToken { name: "Ethereum".to_string(), symbol: "ETH".to_string(), decimals: 18 },
    );
    chain.add_exchange(
        "0x5C69bEe701ef814a2B6a3EDD4B1652CB9cc5aA6f",
        Exchange::V2 { name: "Uniswap V2".to_string() },
    );
    chain.add_exchange(
        "0x1F98431c8aD98523631AE4a59f267346ea31F984",
        Exchange::V3 { name: "Uniswap V3".to_string() },
    );
    chain
}

fn token(id: i32, symbol: &str, decimals: i16) -> Token {
    Token {
        token_id: id,
        token_name: format!("{symbol} token"),
        token_symbol: symbol.to_string(),
        decimals,
        blockchain_str_id: "ethereum".to_string(),
        token_address: format!("0x{id:040x}"),
    }
}

fn pair(factory: &str) -> Pair {
    Pair {
        pair_id: 7,
        blockchain_str_id: "ethereum".to_string(),
        factory_address: factory.to_string(),
        pair_address: "0xb4e16d0168e52d35cacd2c6185b44281ec28c9dc".to_string(),
        base_token_id: 1,
        quote_token_id: 2,
    }
}

fn range() -> Range {
    Range {
        range_id: 3,
        pair_id: 7,
        lower_bound: 100,
        upper_bound: 200,
        scan_complete: false,
        scan_failed: false,
    }
}

#[test]
fn exchange_name() {
    assert_eq!(Exchange::V2 { name: "Trader Joe".to_string() }.name(), "Trader Joe");
    assert_eq!(Exchange::V3 { name: "Uniswap V3".to_string() }.name(), "Uniswap V3");
}

#[test]
fn exchanges_are_kept_under_lower_case_addresses() {
    let chain = chain();
    let found = chain.exchange(&"0x5c69bee701ef814a2b6a3edd4b1652cb9cc5aa6f".to_string());
    assert_eq!(found.map(|e| e.name()), Some("Uniswap V2"));
    assert!(matches!(
        chain.exchange(&"0x1f98431c8ad98523631ae4a59f267346ea31f984".to_string()),
        Some(Exchange::V3 { .. })
    ));
    assert!(chain.exchange(&"0x5C69bEe701ef814a2B6a3EDD4B1652CB9cc5aA6f".to_string()).is_none());
    assert!(chain.exchange(&"0x00".to_string()).is_none());
    assert_eq!(chain.exchanges.entries.len(), 2);
}

#[test]
fn later_exchange_takes_the_place_of_the_earlier() {
    let mut chain = chain();
    chain.add_exchange(
        "0x5c69BEE701ef814a2B6a3EDD4B1652CB9cc5aA6f",
        Exchange::V2 { name: "Other".to_string() },
    );
    assert_eq!(chain.exchanges.entries.len(), 2);
    let found = chain.exchange(&"0x5c69bee701ef814a2b6a3edd4b1652cb9cc5aa6f".to_string());
    assert_eq!(found.map(|e| e.name()), Some("Other"));
    let other = chain.exchange(&"0x1f98431c8ad98523631ae4a59f267346ea31f984".to_string());
    assert_eq!(other.map(|e| e.name()), Some("Uniswap V3"));
}

#[test]
fn table_holds_each_key_once() {
    let mut table: Table<u32> = Table::new();
    assert_eq!(table.get(&"a".to_string()), None);
    table.insert("a".to_string(), 1);
    table.insert("b".to_string(), 2);
    table.insert("a".to_string(), 3);
    assert_eq!(table.get(&"a".to_string()), Some(&3));
    assert_eq!(table.get(&"b".to_string()), Some(&2));
    assert_eq!(table.get(&"c".to_string()), None);
    assert_eq!(table.entries.len(), 2);
}

#[test]
fn pair_metadata_writes_addresses_out() {
    let mut factory = [0u8; 20];
    factory[0] = 0x5c;
    factory[19] = 0x6f;
    let base = [0xabu8; 20];
    let quote = [0x01u8; 20];
    let metadata = PairMetadata::from((
        factory,
        base,
        "Wrapped Ether".to_string(),
        "WETH".to_string(),
        18,
        quote,
        "USD Coin".to_string(),
        "USDC".to_string(),
        6,
    ));
    assert_eq!(metadata.factory_address, "5c0000000000000000000000000000000000006f");
    assert_eq!(metadata.base_address, "abababababababababababababababababababab");
    assert_eq!(metadata.quote_address, "0101010101010101010101010101010101010101");
    assert_eq!(metadata.base_name, "Wrapped Ether");
    assert_eq!(metadata.base_symbol, "WETH");
    assert_eq!(metadata.base_decimals, 18);
    assert_eq!(metadata.quote_name, "USD Coin");
    assert_eq!(metadata.quote_symbol, "USDC");
    assert_eq!(metadata.quote_decimals, 6);
    assert_eq!(address_string(&factory), "5c0000000000000000000000000000000000006f");
}

#[test]
fn standard_address_is_lower_case_behind_the_prefix() {
    assert_eq!(standard_address("5C69bEe7"), "0x5c69bee7");
    assert_eq!(standard_address(""), "0x");
}

#[test]
fn page_frame() {
    let page = wrap_in_html("<head/>", "<p>body</p>", "run();");
    assert_eq!(
        page,
        format!("{TOP}{}{BODY_TOP}{}{BODY_BOTTOM}{}{BOTTOM}", "<head/>", "<p>body</p>", "run();")
    );
    assert!(page.contains("<title>{{title}}</title>"));
    assert!(page.contains("<div class=\"container\">\n        <p>body</p>"));
    assert!(page.contains("window.onload = async () => {\n        run();"));
    assert!(page.trim_end().ends_with("</html>"));
    assert!(page.starts_with("\n        <!DOCTYPE html>"));
}

#[test]
fn decimals_that_fit_eight_bits() {
    assert_eq!(decimals_u8(0), Some(0));
    assert_eq!(decimals_u8(18), Some(18));
    assert_eq!(decimals_u8(255), Some(255));
    assert_eq!(decimals_u8(256), None);
    assert_eq!(decimals_u8(-1), None);
}

#[test]
fn stored_pair_is_answered() {
    let chain = chain();
    let response = PairResponse::from_stored(
        &pair("0x5c69bee701ef814a2b6a3edd4b1652cb9cc5aa6f"),
        &token(1, "WETH", 18),
        &token(2, "USDC", 6),
        &chain,
    );
    assert_eq!(response.error_message, "");
    let info = response.pair.unwrap();
    assert_eq!(info.address, "0xb4e16d0168e52d35cacd2c6185b44281ec28c9dc");
    assert_eq!(info.exchange_name, "Uniswap V2");
    let base = response.base.unwrap();
    assert_eq!(base.symbol, "WETH");
    assert_eq!(base.name, "WETH token");
    assert_eq!(base.decimals, 18);
    assert_eq!(base.address, "0x0000000000000000000000000000000000000001");
    let quote = response.quote.unwrap();
    assert_eq!(quote.symbol, "USDC");
    assert_eq!(quote.decimals, 6);
}

#[test]
fn stored_pair_errors() {
    let chain = chain();
    let known = pair("0x5c69bee701ef814a2b6a3edd4b1652cb9cc5aa6f");
    let r = PairResponse::from_stored(&known, &token(1, "A", -1), &token(2, "B", 300), &chain);
    assert_eq!(r.error_message, "base decimal error");
    assert!(r.pair.is_none() && r.base.is_none() && r.quote.is_none());
    let r = PairResponse::from_stored(&known, &token(1, "A", 18), &token(2, "B", 300), &chain);
    assert_eq!(r.error_message, "quote decimal error");
    let r = PairResponse::from_stored(&pair("0x00"), &token(1, "A", 18), &token(2, "B", 6), &chain);
    assert_eq!(r.error_message, "exchange not found");
    assert!(r.pair.is_none());
}

#[test]
fn pair_from_the_chain_is_answered() {
    let chain = chain();
    let metadata = PairMetadata {
        factory_address: "1F98431c8aD98523631AE4a59f267346ea31F984".to_string(),
        base_address: "AB".to_string(),
        quote_address: "cd".to_string(),
        base_name: "Wrapped Ether".to_string(),
        quote_name: "USD Coin".to_string(),
        base_symbol: "WETH".to_string(),
        quote_symbol: "USDC".to_string(),
        base_decimals: 18,
        quote_decimals: 6,
    };
    let address = "0xpair".to_string();
    let r = PairResponse::from_chain(&address, &metadata, &chain);
    assert_eq!(r.error_message, "");
    let info = r.pair.unwrap();
    assert_eq!(info.address, "0xpair");
    assert_eq!(info.exchange_name, "Uniswap V3");
    assert_eq!(r.base.unwrap().address, "0xab");
    let quote = r.quote.unwrap();
    assert_eq!(quote.address, "0xcd");
    assert_eq!(quote.name, "USD Coin");
    assert_eq!(quote.decimals, 6);
    let unknown = PairMetadata { factory_address: "00".to_string(), ..metadata };
    let r = PairResponse::from_chain(&address, &unknown, &chain);
    assert_eq!(r.error_message, "exchange not supported");
    assert!(r.pair.is_none() && r.base.is_none() && r.quote.is_none());
}

#[test]
fn error_answers() {
    let r = PairResponse::as_error("thread error".to_string());
    assert!(r.pair.is_none() && r.base.is_none() && r.quote.is_none());
    assert_eq!(r.error_message, "thread error");
    let r: SandwichesResponse<u8> = SandwichesResponse::as_error("database error".to_string());
    assert!(r.sandwiches.is_none() && r.token_metadata.is_none());
    assert!(r.fetch_metadata.is_none() && r.scan_metadata.is_none());
    assert_eq!(r.error_message, "database error");
}

#[test]
fn request_error_messages() {
    let all = [
        (RequestError::BlockchainNotSupported, "blockchain not supported"),
        (RequestError::ExchangeNotSupported, "exchange not supported"),
        (RequestError::ExchangeNotFound, "exchange not found"),
        (RequestError::PairDoesNotExist, "pair does not exist"),
        (RequestError::BaseDecimal, "base decimal error"),
        (RequestError::QuoteDecimal, "quote decimal error"),
        (RequestError::Provider, "provider error"),
        (RequestError::NumericOverflow, "numeric overflow"),
        (RequestError::Thread, "thread error"),
        (RequestError::NoDatabaseConnection, "cannot connect to database"),
        (RequestError::Database, "database error"),
        (RequestError::DatabaseWrite, "database write error"),
        (RequestError::CreateScanRange, "create scan range database error"),
        (RequestError::RangeSearch, "range search database error"),
        (RequestError::FetchSandwiches, "fetch sandwiches database error"),
        (RequestError::ScanFailed, "scan failed"),
    ];
    for (error, message) in all {
        assert_eq!(error.message(), message);
    }
}

#[test]
fn sandwiches_answers() {
    let scan = ScanMetadata { lower_bound: 100, upper_bound: 200, complete: false, failed: false };
    let started: SandwichesResponse<u8> = SandwichesResponse::scan_started(range());
    assert!(started.sandwiches.is_none() && started.token_metadata.is_none());
    assert!(started.fetch_metadata.is_none());
    assert_eq!(started.scan_metadata, Some(scan));
    assert_eq!(started.error_message, "");

    let failed: SandwichesResponse<u8> =
        SandwichesResponse::scan_failed(Range { scan_failed: true, ..range() });
    assert_eq!(failed.scan_metadata, Some(ScanMetadata { failed: true, ..scan }));
    assert_eq!(failed.error_message, "scan failed");
    assert!(failed.sandwiches.is_none() && failed.fetch_metadata.is_none());

    let symbols = || SymbolMetadata {
        base_symbol: "WETH".to_string(),
        quote_symbol: "USDC".to_string(),
        native_symbol: "ETH".to_string(),
    };
    let fetch = FetchMetadata { lower_bound: 150, upper_bound: 180 };
    let full = SandwichesResponse::results(vec![1u8, 2], symbols(), fetch, range());
    assert_eq!(full.sandwiches, Some(vec![1u8, 2]));
    assert_eq!(full.token_metadata.unwrap().native_symbol, "ETH");
    assert_eq!(full.fetch_metadata, Some(fetch));
    assert_eq!(full.scan_metadata, Some(scan));
    assert_eq!(full.error_message, "");
    let empty = SandwichesResponse::results(Vec::<u8>::new(), symbols(), fetch, range());
    assert!(empty.sandwiches.is_none());
    assert!(empty.token_metadata.is_none());
    assert_eq!(empty.fetch_metadata, Some(fetch));
    assert_eq!(empty.scan_metadata, Some(scan));
}
