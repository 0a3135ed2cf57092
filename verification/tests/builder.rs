use wallet_value::builder::{CatalogBuilder, Request};
use wallet_value::catalog::{CatalogError, PriceQuote};
use wallet_value::coins::{CoinListing, Platforms};
use wallet_value::pager::PAGE_SIZE;
use wallet_value::price::Usd;
use wallet_value::token::Token;

const DAI: &str = "0x6b175474e89094c44da98b954eedeac495271d0f";
const ZERO: &str = "0x0000000000000000000000000000000000000000";

fn usd(amount: f64) -> Usd {
    Usd::from_bits(amount.to_bits())
}

fn cached(symbol: &str, address: &str, price: f64) -> Token {
    Token {
        name: symbol.to_string(),
        symbol: symbol.to_string(),
        address: address.to_string(),
        price: usd(price),
    }
}

fn listed(id: &str, ethereum: &str) -> CoinListing {
    CoinListing {
        id: id.to_string(),
        symbol: id.to_string(),
        name: id.to_string(),
        platforms: Some(Platforms { ethereum: Some(ethereum.to_string()) }),
    }
}

fn quoted(id: &str, price: f64) -> PriceQuote {
    PriceQuote { id: id.to_string(), current_price: Some(usd(price)) }
}

fn filler(page: i32) -> Vec<PriceQuote> {
    (0..PAGE_SIZE).map(|i| quoted(&format!("coin-{}-{}", page, i), 1.0 + i as f64)).collect()
}

/// Drives a build the way the program does, and counts the requests made.
fn drive(
    cache: Vec<Token>,
    listings: &Vec<CoinListing>,
    pages: &Vec<Vec<PriceQuote>>,
) -> (usize, Vec<i32>, Option<Result<Vec<Token>, CatalogError>>) {
    let mut builder = CatalogBuilder::start(cache);
    let mut coin_lists = 0;
    let mut asked = Vec::new();
    while let Some(request) = builder.next_request() {
        match request {
            Request::CoinList => {
                coin_lists += 1;
                builder.take_coin_list(listings);
            }
            Request::PricePage(page) => {
                asked.push(page);
                let answer = pages.get(page as usize - 1).cloned().unwrap_or_default();
                builder.take_price_page(answer);
            }
        }
    }
    (coin_lists, asked, builder.finish())
}

#[test]
fn cached_catalog_is_used_as_it_stands() {
    let cache = vec![cached("dai", DAI, 1.0), cached("dai", DAI, 2.0)];
    let builder = CatalogBuilder::start(cache.clone());
    assert!(builder.uses_cache());
    assert_eq!(builder.next_request(), None);
    assert_eq!(builder.finish(), Some(Ok(cache)));
}

#[test]
fn cached_catalog_leads_to_no_request() {
    let cache = vec![cached("dai", DAI, 1.0)];
    let listings = vec![listed("usd-coin", "0xa0b86991c6218b36c1d19d4a2e9eb0ce3606eb48")];
    let pages = vec![vec![quoted("usd-coin", 1.0)]];
    let (coin_lists, asked, outcome) = drive(cache.clone(), &listings, &pages);
    assert_eq!(coin_lists, 0);
    assert_eq!(asked, Vec::<i32>::new());
    assert_eq!(outcome, Some(Ok(cache)));
}

#[test]
fn answers_that_are_not_due_change_nothing() {
    let cache = vec![cached("dai", DAI, 1.0)];
    let mut builder = CatalogBuilder::start(cache.clone());
    builder.take_coin_list(&vec![listed("x", DAI)]);
    builder.take_price_page(vec![quoted("x", 3.0)]);
    assert_eq!(builder.next_request(), None);
    assert_eq!(builder.finish(), Some(Ok(cache)));

    let mut builder = CatalogBuilder::start(Vec::new());
    builder.take_price_page(vec![quoted("x", 3.0)]);
    assert_eq!(builder.next_request(), Some(Request::CoinList));
    builder.take_coin_list(&vec![listed("x", DAI)]);
    builder.take_coin_list(&Vec::new());
    assert_eq!(builder.next_request(), Some(Request::PricePage(1)));
    builder.take_price_page(vec![quoted("x", 3.0)]);
    builder.take_price_page(Vec::new());
    let tokens = builder.finish().unwrap().unwrap();
    assert_eq!(tokens.len(), 2);
    assert_eq!(tokens[0].address, DAI);
}

#[test]
fn empty_cache_leads_to_a_fetch() {
    let builder = CatalogBuilder::start(Vec::new());
    assert!(!builder.uses_cache());
    assert_eq!(builder.next_request(), Some(Request::CoinList));
    assert_eq!(builder.finish(), None);
}

#[test]
fn unfinished_build_has_no_outcome() {
    let mut builder = CatalogBuilder::start(Vec::new());
    builder.take_coin_list(&Vec::new());
    builder.take_price_page(vec![quoted("x", 3.0)]);
    assert_eq!(builder.next_request(), Some(Request::PricePage(2)));
    assert_eq!(builder.finish(), None);
}

#[test]
fn fresh_build_asks_for_the_coin_list_and_every_page() {
    let listings = vec![listed("coin-2-7", DAI), listed("not-quoted", "0x01")];
    let pages = vec![filler(1), filler(2), filler(3)];
    let (coin_lists, asked, outcome) = drive(Vec::new(), &listings, &pages);
    assert_eq!(coin_lists, 1);
    assert_eq!(asked, vec![1, 2, 3, 4]);
    let tokens = outcome.unwrap().unwrap();
    assert_eq!(tokens.len(), 2);
    assert_eq!(tokens[0].address, DAI);
    assert_eq!(tokens[0].price, usd(8.0));
    assert_eq!(tokens[1].address, ZERO);
    assert_eq!(tokens[1].price, usd(1.0));
}

#[test]
fn fresh_build_without_prices_fails() {
    let (coin_lists, asked, outcome) = drive(Vec::new(), &vec![listed("dai", DAI)], &Vec::new());
    assert_eq!(coin_lists, 1);
    assert_eq!(asked, vec![1]);
    assert_eq!(outcome, Some(Err(CatalogError::NoPrice)));
}
