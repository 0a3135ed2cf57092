//! Building the catalog, from the cache or from the price service.
//!
//! `CatalogBuilder` says which request is due next and takes in the answers;
//! the caller makes the requests. A cache that holds a catalog is the catalog:
//! no request is due then. Otherwise the coin listing is due first, then the
//! pages of the price listing, one after the other, until a page comes back
//! empty. The catalog is then the join of the two.

use vstd::prelude::*;
use crate::catalog::{catalog, get_tokens, quote_views, CatalogError, PriceQuote, QuoteView};
use crate::coins::{
    coin_views, ethereum_coins, get_coins, listing_views, Coin, CoinListing, CoinView, ListingView,
};
use crate::pager::{
    after_page, after_pages, all_quotes, pages_received, start, walk_ends_at_first_empty_page,
    walk_ends_by_an_empty_page,
    PagerView, PricePager, FIRST_PAGE,
};
use crate::token::{token_views, Token, TokenView};

verus! {

/// A request to the price service.
#[derive(Clone, Copy, Debug, PartialEq, Eq, Structural)]
pub enum Request {
    /// The listing of all coins, with their addresses.
    CoinList,
    /// The page of the price listing with this number.
    PricePage(i32),
}

/// A request that is due, as a builder's state has it.
pub enum Due {
    /// The listing of all coins.
    CoinList,
    /// The page of the price listing with this number.
    PricePage(int),
}

/// An answer of the price service.
pub enum Answer {
    /// The listing of all coins.
    CoinList(Seq<ListingView>),
    /// One page of the price listing.
    PricePage(Seq<QuoteView>),
}

/// How far the building of a catalog has come.
pub struct BuildView {
    /// What the cache held at the start.
    pub cache: Seq<TokenView>,
    /// The coins on Ethereum, once the coin listing has been taken in.
    pub coins: Option<Seq<CoinView>>,
    /// The walk through the price listing.
    pub pager: PagerView,
}

/// The state at the start, given what the cache holds.
pub open spec fn begin(cache: Seq<TokenView>) -> BuildView {
    BuildView { cache, coins: None, pager: start() }
}

/// The request that is due next, if any. None is due while the cache holds a
/// catalog, whatever else has happened.
pub open spec fn due(build: BuildView) -> Option<Due> {
    if build.cache.len() > 0 {
        None
    } else if build.coins is None {
        Some(Due::CoinList)
    } else if !build.pager.finished {
        Some(Due::PricePage(build.pager.page))
    } else {
        None
    }
}

/// The state after an answer has been taken in. An answer to a request that
/// is not due changes nothing.
pub open spec fn after_answer(build: BuildView, answer: Answer) -> BuildView {
    match (due(build), answer) {
        (Some(Due::CoinList), Answer::CoinList(listings)) => BuildView {
            coins: Some(ethereum_coins(listings)),
            ..build
        },
        (Some(Due::PricePage(_)), Answer::PricePage(page)) => BuildView {
            pager: after_page(build.pager, page),
            ..build
        },
        _ => build,
    }
}

/// The state after a run of answers has been taken in.
pub open spec fn after_answers(build: BuildView, answers: Seq<Answer>) -> BuildView
    decreases answers.len(),
{
    if answers.len() == 0 {
        build
    } else {
        after_answer(after_answers(build, answers.drop_last()), answers.last())
    }
}

/// How many answers to the request for the coin listing have been taken in.
pub open spec fn coin_lists_received(build: BuildView) -> nat {
    if build.coins is Some {
        1
    } else {
        0
    }
}

/// How many pages of the price listing have been taken in.
pub open spec fn price_pages_received(build: BuildView) -> int {
    pages_received(build.pager)
}

/// What the building comes to, once no request is due: the cached catalog as
/// it stands, or the join of the coins and the quotes gathered.
pub open spec fn outcome(build: BuildView) -> Option<Result<Seq<TokenView>, CatalogError>> {
    if due(build) is Some {
        None
    } else if build.cache.len() > 0 {
        Some(Ok(build.cache))
    } else {
        match catalog(build.coins->0, build.pager.quotes) {
            Some(tokens) => Some(Ok(tokens)),
            None => Some(Err(CatalogError::NoPrice)),
        }
    }
}

/// The answers to the requests of a fresh build: the coin listing, then the
/// pages of the price listing in order.
pub open spec fn fresh_answers(listings: Seq<ListingView>, pages: Seq<Seq<QuoteView>>) -> Seq<Answer> {
    seq![Answer::CoinList(listings)] + pages.map_values(|page: Seq<QuoteView>| Answer::PricePage(page))
}

/// While the cache holds a catalog, no request to the price service is ever
/// due: whatever answers are handed in, the state stays as it was at the
/// start, no coin listing and no page has been taken in, and the outcome is
/// the cached catalog as it stands.
pub proof fn cached_build_asks_nothing(cache: Seq<TokenView>, answers: Seq<Answer>)
    requires
        cache.len() > 0,
    ensures
        after_answers(begin(cache), answers) == begin(cache),
        due(after_answers(begin(cache), answers)) is None,
        coin_lists_received(after_answers(begin(cache), answers)) == 0,
        price_pages_received(after_answers(begin(cache), answers)) == 0,
        outcome(after_answers(begin(cache), answers)) == Some(
            Ok::<Seq<TokenView>, CatalogError>(cache),
        ),
    decreases answers.len(),
{
    if answers.len() > 0 {
        cached_build_asks_nothing(cache, answers.drop_last());
    }
}

/// Once the coin listing is in, the pages that are handed in go to the walk
/// through the price listing, one for one.
proof fn lemma_pages_go_to_the_pager(
    cache: Seq<TokenView>,
    listings: Seq<ListingView>,
    pages: Seq<Seq<QuoteView>>,
)
    requires
        cache.len() == 0,
    ensures
        after_answers(begin(cache), fresh_answers(listings, pages)) == (BuildView {
            cache,
            coins: Some(ethereum_coins(listings)),
            pager: after_pages(start(), pages),
        }),
    decreases pages.len(),
{
    let answers = fresh_answers(listings, pages);
    if pages.len() == 0 {
        assert(answers.len() == 1);
        assert(answers.drop_last() =~= Seq::<Answer>::empty());
        assert(answers.last() == Answer::CoinList(listings));
        assert(after_answers(begin(cache), answers.drop_last()) == begin(cache));
        assert(due(begin(cache)) == Some(Due::CoinList));
    } else {
        let earlier = fresh_answers(listings, pages.drop_last());
        lemma_pages_go_to_the_pager(cache, listings, pages.drop_last());
        assert(answers.len() == pages.len() + 1);
        assert(answers.drop_last() =~= earlier);
        assert(answers.last() == Answer::PricePage(pages.last()));
        let before = after_answers(begin(cache), earlier);
        assert(after_answers(begin(cache), answers) == after_answer(before, answers.last()));
        assert(after_page(before.pager, pages.last()) == after_pages(start(), pages));
    }
}

/// A fresh build ends at the first empty page, however long the price listing
/// is. With an empty cache, the coin listing and then `n` pages that hold
/// something, each of these is followed by the request for the next page;
/// the empty page after them leaves no request due. One coin listing and
/// `n + 1` pages have then been taken in, and the outcome is the join of the
/// coins with the quotes of the `n` pages.
pub proof fn fresh_build_ends_at_first_empty_page(
    listings: Seq<ListingView>,
    pages: Seq<Seq<QuoteView>>,
    n: nat,
)
    requires
        pages.len() == n + 1,
        forall|i: int| 0 <= i < n ==> (#[trigger] pages[i]).len() > 0,
        pages[n as int].len() == 0,
    ensures
        due(begin(Seq::empty())) == Some(Due::CoinList),
        forall|k: int|
            0 <= k <= n ==> due(
                after_answers(begin(Seq::empty()), #[trigger] fresh_answers(listings, pages.take(k))),
            ) == Some(Due::PricePage(FIRST_PAGE + k)),
        due(after_answers(begin(Seq::empty()), fresh_answers(listings, pages))) is None,
        coin_lists_received(after_answers(begin(Seq::empty()), fresh_answers(listings, pages))) == 1,
        price_pages_received(after_answers(begin(Seq::empty()), fresh_answers(listings, pages))) == n
            + 1,
        outcome(after_answers(begin(Seq::empty()), fresh_answers(listings, pages))) == Some(
            match catalog(ethereum_coins(listings), all_quotes(pages.take(n as int))) {
                Some(tokens) => Ok::<Seq<TokenView>, CatalogError>(tokens),
                None => Err::<Seq<TokenView>, CatalogError>(CatalogError::NoPrice),
            },
        ),
{
    let cache = Seq::<TokenView>::empty();
    walk_ends_at_first_empty_page(pages, n);
    lemma_pages_go_to_the_pager(cache, listings, pages);
    assert forall|k: int| 0 <= k <= n implies due(
        after_answers(begin(cache), #[trigger] fresh_answers(listings, pages.take(k))),
    ) == Some(Due::PricePage(FIRST_PAGE + k)) by {
        lemma_pages_go_to_the_pager(cache, listings, pages.take(k));
    }
}

/// A fresh build is over with no more page requests than it takes to reach
/// an empty page, whatever the sizes of the pages before it: once the page
/// at position `m` has come back empty, no request is due, and at most
/// `m + 1` pages have been taken in.
pub proof fn fresh_build_ends_by_an_empty_page(
    listings: Seq<ListingView>,
    pages: Seq<Seq<QuoteView>>,
    m: int,
)
    requires
        0 <= m < pages.len(),
        pages[m].len() == 0,
    ensures
        due(
            after_answers(begin(Seq::empty()), fresh_answers(listings, pages.take(m + 1))),
        ) is None,
        price_pages_received(
            after_answers(begin(Seq::empty()), fresh_answers(listings, pages.take(m + 1))),
        ) <= m + 1,
        after_answers(begin(Seq::empty()), fresh_answers(listings, pages)) == after_answers(
            begin(Seq::empty()),
            fresh_answers(listings, pages.take(m + 1)),
        ),
{
    let cache = Seq::<TokenView>::empty();
    walk_ends_by_an_empty_page(pages, m);
    lemma_pages_go_to_the_pager(cache, listings, pages);
    lemma_pages_go_to_the_pager(cache, listings, pages.take(m + 1));
}

/// The building of a catalog.
pub struct CatalogBuilder {
    cache: Vec<Token>,
    coins: Option<Vec<Coin>>,
    pager: PricePager,
}

impl View for CatalogBuilder {
    type V = BuildView;

    closed spec fn view(&self) -> BuildView {
        BuildView {
            cache: token_views(self.cache@),
            coins: match self.coins {
                Some(coins) => Some(coin_views(coins@)),
                None => None,
            },
            pager: self.pager@,
        }
    }
}

impl CatalogBuilder {
    /// Starts a build, given what the cache holds.
    pub fn start(cache: Vec<Token>) -> (r: CatalogBuilder)
        ensures
            r@ == begin(token_views(cache@)),
    {
        CatalogBuilder { cache, coins: None, pager: PricePager::new() }
    }

    /// Whether the cache holds a catalog, which is then used as it stands.
    pub fn uses_cache(&self) -> (r: bool)
        ensures
            r == (self@.cache.len() > 0),
    {
        self.cache.len() > 0
    }

    /// The request to make next, or `None` where none is due.
    pub fn next_request(&self) -> (r: Option<Request>)
        ensures
            match r {
                Some(Request::CoinList) => due(self@) == Some(Due::CoinList),
                Some(Request::PricePage(page)) => due(self@) == Some(Due::PricePage(page as int)),
                None => due(self@) is None,
            },
    {
        if self.cache.len() > 0 {
            None
        } else if self.coins.is_none() {
            Some(Request::CoinList)
        } else {
            match self.pager.next_page() {
                Some(page) => Some(Request::PricePage(page)),
                None => None,
            }
        }
    }

    /// Takes in the coin listing. Where it is not due, nothing changes.
    pub fn take_coin_list(&mut self, listings: &Vec<CoinListing>)
        ensures
            final(self)@ == after_answer(old(self)@, Answer::CoinList(listing_views(listings@))),
    {
        if self.cache.len() == 0 && self.coins.is_none() {
            self.coins = Some(get_coins(listings));
        }
    }

    /// Takes in a page of the price listing. Where none is due, nothing
    /// changes.
    ///
    /// The page counter is a 32-bit number: where the page with the last
    /// number there is was due, only an empty page can be taken in.
    pub fn take_price_page(&mut self, page: Vec<PriceQuote>)
        requires
            due(old(self)@) matches Some(Due::PricePage(number)) ==> page@.len() == 0 || number
                < i32::MAX,
        ensures
            final(self)@ == after_answer(old(self)@, Answer::PricePage(quote_views(page@))),
    {
        if self.cache.len() == 0 && self.coins.is_some() && !self.pager.is_finished() {
            self.pager.accept(page);
        }
    }

    /// What the building has come to: `None` while a request is due, else the
    /// cached catalog as it stands, or the join of the coins and the quotes
    /// gathered.
    pub fn finish(self) -> (r: Option<Result<Vec<Token>, CatalogError>>)
        ensures
            match r {
                Some(Ok(tokens)) => outcome(self@) == Some(
                    Ok::<Seq<TokenView>, CatalogError>(token_views(tokens@)),
                ),
                Some(Err(e)) => outcome(self@) == Some(Err::<Seq<TokenView>, CatalogError>(e)),
                None => outcome(self@) is None,
            },
    {
        if self.cache.len() > 0 {
            return Some(Ok(self.cache));
        }
        match self.coins {
            Some(coins) => {
                if !self.pager.is_finished() {
                    return None;
                }
                let quotes = self.pager.into_quotes();
                Some(get_tokens(&coins, &quotes))
            },
            None => None,
        }
    }
}

} // verus!
