use wallet_value::catalog::PriceQuote;
use wallet_value::pager::{PricePager, FIRST_PAGE, PAGE_SIZE};
use wallet_value::price::Usd;

fn page_of(size: usize, page: i32) -> Vec<PriceQuote> {
    (0..size)
        .map(|i| PriceQuote {
            id: format!("coin-{}-{}", page, i),
            current_price: Some(Usd::from_bits((i as f64).to_bits())),
        })
        .collect()
}

fn walk(full_pages: usize) -> (Vec<i32>, Vec<PriceQuote>) {
    let mut pager = PricePager::new();
    let mut asked = Vec::new();
    while let Some(page) = pager.next_page() {
        asked.push(page);
        let answer = if asked.len() <= full_pages { page_of(PAGE_SIZE, page) } else { Vec::new() };
        pager.accept(answer);
    }
    assert!(pager.is_finished());
    (asked, pager.into_quotes())
}

#[test]
fn first_page_is_page_one() {
    assert_eq!(FIRST_PAGE, 1);
    assert_eq!(PAGE_SIZE, 250);
    let pager = PricePager::new();
    assert_eq!(pager.next_page(), Some(1));
    assert!(!pager.is_finished());
}

#[test]
fn empty_listing_takes_one_request() {
    let (asked, quotes) = walk(0);
    assert_eq!(asked, vec![1]);
    assert!(quotes.is_empty());
}

#[test]
fn three_full_pages_take_four_requests() {
    let (asked, quotes) = walk(3);
    assert_eq!(asked, vec![1, 2, 3, 4]);
    assert_eq!(quotes.len(), 750);
    assert_eq!(quotes[0].id, "coin-1-0");
    assert_eq!(quotes[249].id, "coin-1-249");
    assert_eq!(quotes[250].id, "coin-2-0");
    assert_eq!(quotes[749].id, "coin-3-249");
}

#[test]
fn twenty_full_pages_take_twenty_one_requests() {
    let (asked, quotes) = walk(20);
    assert_eq!(asked.len(), 21);
    assert_eq!(asked, (1..=21).collect::<Vec<i32>>());
    assert_eq!(quotes.len(), 250 * 20);
}

#[test]
fn short_page_does_not_end_the_walk() {
    let mut pager = PricePager::new();
    pager.accept(page_of(250, 1));
    pager.accept(page_of(3, 2));
    assert_eq!(pager.next_page(), Some(3));
    pager.accept(Vec::new());
    assert_eq!(pager.next_page(), None);
    assert_eq!(pager.into_quotes().len(), 253);
}

#[test]
fn pages_after_the_end_are_ignored() {
    let mut pager = PricePager::new();
    pager.accept(page_of(2, 1));
    pager.accept(Vec::new());
    pager.accept(page_of(5, 3));
    assert!(pager.is_finished());
    assert_eq!(pager.next_page(), None);
    assert_eq!(pager.into_quotes().len(), 2);
}
