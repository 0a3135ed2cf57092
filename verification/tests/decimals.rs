use wallet_value::amount::RawAmount;
use wallet_value::decimals::{
    get_decimal, get_decimals, pending_queries, DecimalsMap, DEFAULT_DECIMALS, UNKNOWN_DECIMALS,
};
use wallet_value::price::Usd;
use wallet_value::targets::BadAddress;
use wallet_value::token::Token;

const DAI: &str = "0x6b175474e89094c44da98b954eedeac495271d0f";
const USDC: &str = "0xa0b86991c6218b36c1d19d4a2e9eb0ce3606eb48";
const WBTC: &str = "0x2260fac5e5542a773aa44fbcfedf7c193bc2c599";

fn token(symbol: &str, address: &str) -> Token {
    Token {
        name: symbol.to_string(),
        symbol: symbol.to_string(),
        address: address.to_string(),
        price: Usd::from_bits(1.0f64.to_bits()),
    }
}

fn cache_of(entries: &[(&str, i32)]) -> DecimalsMap {
    let mut cache = DecimalsMap::new();
    for (address, decimals) in entries {
        cache.insert(address.to_string(), *decimals);
    }
    cache
}

#[test]
fn the_sentinel_and_the_default() {
    assert_eq!(UNKNOWN_DECIMALS, 69);
    assert_eq!(DEFAULT_DECIMALS, 18);
}

#[test]
fn map_keeps_the_last_precision_per_address() {
    let mut map = DecimalsMap::new();
    assert_eq!(map.get(DAI), None);
    assert_eq!(map.lookup(DAI), 69);
    map.insert(DAI.to_string(), 18);
    map.insert(USDC.to_string(), 6);
    map.insert(DAI.to_string(), 17);
    assert_eq!(map.get(DAI), Some(17));
    assert_eq!(map.lookup(USDC), 6);
    assert_eq!(map.get(WBTC), None);
}

#[test]
fn answered_call_gives_the_answer() {
    let answer = RawAmount { limbs: [6, 0, 0, 1] };
    assert_eq!(get_decimal(Some(answer)), answer);
}

#[test]
fn failed_call_gives_eighteen() {
    assert_eq!(get_decimal(None), RawAmount::from_u64(18));
    assert_eq!(get_decimal(None).low_i32(), 18);
}

#[test]
fn unknown_tokens_are_queried_in_catalog_order() {
    let tokens = vec![token("dai", DAI), token("usdc", USDC), token("wbtc", WBTC)];
    let cache = cache_of(&[(USDC, 6)]);
    let targets = pending_queries(&tokens, &cache).unwrap();
    let indices: Vec<usize> = targets.iter().map(|t| t.index).collect();
    assert_eq!(indices, vec![0, 2]);
    assert_eq!(targets[0].contract.bytes()[0], 0x6b);
    assert_eq!(targets[1].contract.bytes()[19], 0x99);
}

#[test]
fn cached_sentinel_is_queried_again() {
    let tokens = vec![token("dai", DAI), token("usdc", USDC)];
    let cache = cache_of(&[(DAI, 69), (USDC, 6)]);
    let targets = pending_queries(&tokens, &cache).unwrap();
    assert_eq!(targets.len(), 1);
    assert_eq!(targets[0].index, 0);
}

#[test]
fn fully_cached_catalog_needs_no_query() {
    let tokens = vec![token("dai", DAI), token("usdc", USDC)];
    let cache = cache_of(&[(DAI, 18), (USDC, 6)]);
    assert_eq!(pending_queries(&tokens, &cache), Ok(Vec::new()));
}

#[test]
fn unknown_token_with_a_bad_address_stops_the_pass() {
    let tokens = vec![token("dai", DAI), token("bad", "not an address"), token("worse", "0x12")];
    let cache = DecimalsMap::new();
    assert_eq!(pending_queries(&tokens, &cache), Err(BadAddress { index: 1 }));
}

#[test]
fn cached_token_with_a_bad_address_is_not_parsed() {
    let tokens = vec![token("bad", "not an address"), token("dai", DAI)];
    let cache = cache_of(&[("not an address", 9)]);
    let targets = pending_queries(&tokens, &cache).unwrap();
    assert_eq!(targets.len(), 1);
    assert_eq!(targets[0].index, 1);
}

#[test]
fn precisions_come_from_cache_and_contracts() {
    let tokens = vec![token("dai", DAI), token("usdc", USDC), token("wbtc", WBTC)];
    let cache = cache_of(&[(USDC, 6), ("0xsomething-else", 12)]);
    let answers = vec![Some(RawAmount::from_u64(18)), Some(RawAmount::from_u64(8))];
    let decimals = get_decimals(&tokens, &cache, &answers).unwrap();
    assert_eq!(decimals.get(DAI), Some(18));
    assert_eq!(decimals.get(USDC), Some(6));
    assert_eq!(decimals.get(WBTC), Some(8));
    assert_eq!(decimals.get("0xsomething-else"), None);
}

#[test]
fn failed_decimals_call_resolves_to_eighteen() {
    let tokens = vec![token("dai", DAI), token("usdc", USDC)];
    let cache = DecimalsMap::new();
    let answers = vec![None, Some(RawAmount::from_u64(6))];
    let decimals = get_decimals(&tokens, &cache, &answers).unwrap();
    assert_eq!(decimals.get(DAI), Some(18));
    assert_eq!(decimals.get(USDC), Some(6));
}

#[test]
fn large_answer_is_cut_to_its_low_bits() {
    let tokens = vec![token("dai", DAI), token("usdc", USDC)];
    let cache = DecimalsMap::new();
    let answers =
        vec![Some(RawAmount { limbs: [0x1_0000_0012, 3, 0, 0] }), Some(RawAmount::from_u64(0xffff_ffff))];
    let decimals = get_decimals(&tokens, &cache, &answers).unwrap();
    assert_eq!(decimals.get(DAI), Some(18));
    assert_eq!(decimals.get(USDC), Some(-1));
}

#[test]
fn answer_of_sixty_nine_is_kept() {
    let tokens = vec![token("dai", DAI)];
    let answers = vec![Some(RawAmount::from_u64(69))];
    let decimals = get_decimals(&tokens, &DecimalsMap::new(), &answers).unwrap();
    assert_eq!(decimals.get(DAI), Some(69));
}

#[test]
fn later_entry_decides_for_a_shared_address() {
    let tokens = vec![token("dai", DAI), token("dai-again", DAI)];
    let answers = vec![Some(RawAmount::from_u64(18)), Some(RawAmount::from_u64(9))];
    let decimals = get_decimals(&tokens, &DecimalsMap::new(), &answers).unwrap();
    assert_eq!(decimals.get(DAI), Some(9));
}

#[test]
fn wrong_number_of_answers_gives_no_result() {
    let tokens = vec![token("dai", DAI), token("usdc", USDC)];
    let cache = cache_of(&[(USDC, 6)]);
    assert!(get_decimals(&tokens, &cache, &Vec::new()).is_none());
    assert!(get_decimals(&tokens, &cache, &vec![None, None]).is_none());
    assert!(get_decimals(&tokens, &cache, &vec![None]).is_some());
}

#[test]
fn empty_catalog_resolves_to_nothing() {
    let cache = cache_of(&[(DAI, 18)]);
    let decimals = get_decimals(&Vec::new(), &cache, &Vec::new()).unwrap();
    assert_eq!(decimals.get(DAI), None);
}
