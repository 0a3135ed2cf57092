//! The token catalog as the join of the coins and the price listing.
//!
//! The coins are joined with their prices, one entry per address, and the
//! native asset is put at the end, at the address that is kept for it.

use vstd::prelude::*;
use crate::coins::{coin_views, Coin, CoinView};
use crate::price::Usd;
use crate::token::{
    contains_address, distinct_addresses, has_address, native_address, native_token, token_views,
    Token, TokenView,
};

verus! {

/// One entry of the price listing. A coin may be listed without a price.
#[derive(Clone, Debug, PartialEq, Eq)]
pub struct PriceQuote {
    pub id: String,
    pub current_price: Option<Usd>,
}

/// What a `PriceQuote` holds, with its identifier as a character sequence.
pub struct QuoteView {
    pub id: Seq<char>,
    pub current_price: Option<Usd>,
}

impl View for PriceQuote {
    type V = QuoteView;

    open spec fn view(&self) -> QuoteView {
        QuoteView { id: self.id@, current_price: self.current_price }
    }
}

/// The views of a sequence of quotes, in order.
pub open spec fn quote_views(quotes: Seq<PriceQuote>) -> Seq<QuoteView> {
    quotes.map_values(|q: PriceQuote| q@)
}

/// Why no catalog could be built.
#[derive(Clone, Copy, Debug, PartialEq, Eq, Structural)]
pub enum CatalogError {
    /// The price listing holds no price at all, so the native asset cannot be
    /// priced.
    NoPrice,
}

/// Whether a quote is for the coin `id` and carries a price.
pub open spec fn prices_coin(quote: QuoteView, id: Seq<char>) -> bool {
    quote.id == id && quote.current_price is Some
}

/// The price of the first quote for the coin `id` that carries one.
pub open spec fn quoted_price(quotes: Seq<QuoteView>, id: Seq<char>) -> Option<Usd>
    decreases quotes.len(),
{
    if quotes.len() == 0 {
        None
    } else if prices_coin(quotes[0], id) {
        quotes[0].current_price
    } else {
        quoted_price(quotes.drop_first(), id)
    }
}

/// The first price found in the listing, whichever coin it is for.
pub open spec fn first_price(quotes: Seq<QuoteView>) -> Option<Usd>
    decreases quotes.len(),
{
    if quotes.len() == 0 {
        None
    } else if quotes[0].current_price is Some {
        quotes[0].current_price
    } else {
        first_price(quotes.drop_first())
    }
}

/// The catalog entry of a coin at a price.
pub open spec fn coin_token(coin: CoinView, price: Usd) -> TokenView {
    TokenView { name: coin.name, symbol: coin.symbol, address: coin.ethereum, price }
}

/// The coins joined with their prices, in the order of the coins. A coin
/// without a priced quote is left out, and so is one whose address an earlier
/// entry already has. The all-zero address is the native asset's: a coin
/// listed there is left out as well.
pub open spec fn priced_tokens(coins: Seq<CoinView>, quotes: Seq<QuoteView>) -> Seq<TokenView>
    decreases coins.len(),
{
    if coins.len() == 0 {
        Seq::empty()
    } else {
        let earlier = priced_tokens(coins.drop_last(), quotes);
        let coin = coins.last();
        match quoted_price(quotes, coin.id) {
            Some(price) => if coin.ethereum == native_address() || has_address(
                earlier,
                coin.ethereum,
            ) {
                earlier
            } else {
                earlier.push(coin_token(coin, price))
            },
            None => earlier,
        }
    }
}

/// The whole catalog: the priced coins, then the native asset at the first
/// price of the listing. There is none when the listing holds no price.
pub open spec fn catalog(coins: Seq<CoinView>, quotes: Seq<QuoteView>) -> Option<Seq<TokenView>> {
    match first_price(quotes) {
        Some(price) => Some(priced_tokens(coins, quotes).push(native_token(price))),
        None => None,
    }
}

/// If no quote before position `n` prices the coin, the quoted price is the
/// one found from position `n` on.
proof fn lemma_quoted_price_skip(quotes: Seq<QuoteView>, id: Seq<char>, n: int)
    requires
        0 <= n <= quotes.len(),
        forall|k: int| 0 <= k < n ==> !prices_coin(#[trigger] quotes[k], id),
    ensures
        quoted_price(quotes, id) == quoted_price(quotes.skip(n), id),
    decreases n,
{
    if n == 0 {
        assert(quotes.skip(0) =~= quotes);
    } else {
        assert(!prices_coin(quotes[0], id));
        let rest = quotes.drop_first();
        assert forall|k: int| 0 <= k < n - 1 implies !prices_coin(#[trigger] rest[k], id) by {
            assert(rest[k] == quotes[k + 1]);
        }
        lemma_quoted_price_skip(rest, id, n - 1);
        assert(rest.skip(n - 1) =~= quotes.skip(n));
    }
}

/// If no quote before position `n` carries a price, the first price is the one
/// found from position `n` on.
proof fn lemma_first_price_skip(quotes: Seq<QuoteView>, n: int)
    requires
        0 <= n <= quotes.len(),
        forall|k: int| 0 <= k < n ==> (#[trigger] quotes[k]).current_price is None,
    ensures
        first_price(quotes) == first_price(quotes.skip(n)),
    decreases n,
{
    if n == 0 {
        assert(quotes.skip(0) =~= quotes);
    } else {
        assert(quotes[0].current_price is None);
        let rest = quotes.drop_first();
        assert forall|k: int| 0 <= k < n - 1 implies (#[trigger] rest[k]).current_price is None by {
            assert(rest[k] == quotes[k + 1]);
        }
        lemma_first_price_skip(rest, n - 1);
        assert(rest.skip(n - 1) =~= quotes.skip(n));
    }
}

/// The quoted price of a coin is that of the quote at position `n`, where
/// that quote prices the coin and none before it does.
pub proof fn quoted_price_found(quotes: Seq<QuoteView>, id: Seq<char>, n: int)
    requires
        0 <= n < quotes.len(),
        prices_coin(quotes[n], id),
        forall|k: int| 0 <= k < n ==> !prices_coin(#[trigger] quotes[k], id),
    ensures
        quoted_price(quotes, id) == quotes[n].current_price,
{
    lemma_quoted_price_skip(quotes, id, n);
    assert(quotes.skip(n)[0] == quotes[n]);
}

/// A coin that no quote prices has no quoted price.
pub proof fn quoted_price_missing(quotes: Seq<QuoteView>, id: Seq<char>)
    requires
        forall|k: int| 0 <= k < quotes.len() ==> !prices_coin(#[trigger] quotes[k], id),
    ensures
        quoted_price(quotes, id) is None,
{
    lemma_quoted_price_skip(quotes, id, quotes.len() as int);
}

/// The first price of the listing is that of the quote at position `n`, where
/// that quote carries a price and none before it does.
pub proof fn first_price_found(quotes: Seq<QuoteView>, n: int)
    requires
        0 <= n < quotes.len(),
        quotes[n].current_price is Some,
        forall|k: int| 0 <= k < n ==> (#[trigger] quotes[k]).current_price is None,
    ensures
        first_price(quotes) == quotes[n].current_price,
{
    lemma_first_price_skip(quotes, n);
    assert(quotes.skip(n)[0] == quotes[n]);
}

/// A listing in which no quote carries a price has no first price.
pub proof fn first_price_missing(quotes: Seq<QuoteView>)
    requires
        forall|k: int| 0 <= k < quotes.len() ==> (#[trigger] quotes[k]).current_price is None,
    ensures
        first_price(quotes) is None,
{
    lemma_first_price_skip(quotes, quotes.len() as int);
}

/// No two priced coins of the join share an address, whatever the listings.
pub proof fn priced_addresses_distinct(coins: Seq<CoinView>, quotes: Seq<QuoteView>)
    ensures
        distinct_addresses(priced_tokens(coins, quotes)),
    decreases coins.len(),
{
    if coins.len() > 0 {
        priced_addresses_distinct(coins.drop_last(), quotes);
    }
}

/// No priced coin of the join sits at the native asset's address.
pub proof fn priced_addresses_avoid_native(coins: Seq<CoinView>, quotes: Seq<QuoteView>)
    ensures
        !has_address(priced_tokens(coins, quotes), native_address()),
    decreases coins.len(),
{
    if coins.len() > 0 {
        let earlier = priced_tokens(coins.drop_last(), quotes);
        let whole = priced_tokens(coins, quotes);
        priced_addresses_avoid_native(coins.drop_last(), quotes);
        assert forall|k: int| 0 <= k < whole.len() implies (#[trigger] whole[k]).address
            != native_address() by {
            if k < earlier.len() {
                assert(whole[k] == earlier[k]);
            }
        }
    }
}

/// Every coin that has a quoted price and does not sit at the native asset's
/// address has its address in the join.
pub proof fn priced_coin_is_listed(coins: Seq<CoinView>, quotes: Seq<QuoteView>, i: int)
    requires
        0 <= i < coins.len(),
        quoted_price(quotes, coins[i].id) is Some,
        coins[i].ethereum != native_address(),
    ensures
        has_address(priced_tokens(coins, quotes), coins[i].ethereum),
    decreases coins.len(),
{
    let earlier = priced_tokens(coins.drop_last(), quotes);
    let whole = priced_tokens(coins, quotes);
    if i == coins.len() - 1 {
        if has_address(earlier, coins[i].ethereum) {
            assert(whole == earlier);
        } else {
            assert(whole[earlier.len() as int].address == coins[i].ethereum);
        }
    } else {
        assert(coins.drop_last()[i] == coins[i]);
        priced_coin_is_listed(coins.drop_last(), quotes, i);
        let k = choose|k: int| 0 <= k < earlier.len() && (#[trigger] earlier[k]).address == coins[i].ethereum;
        assert(whole[k] == earlier[k]);
    }
}

/// Whether an entry of the join stems from the coin at position `i`: the coin
/// has a quoted price and does not sit at the native asset's address, the
/// entry is the coin at that price, and no coin before it that has a quoted
/// price shares its address.
pub open spec fn stems_from(
    entry: TokenView,
    coins: Seq<CoinView>,
    quotes: Seq<QuoteView>,
    i: int,
) -> bool {
    &&& 0 <= i < coins.len()
    &&& coins[i].ethereum != native_address()
    &&& quoted_price(quotes, coins[i].id) == Some(entry.price)
    &&& entry == coin_token(coins[i], entry.price)
    &&& forall|j: int|
        0 <= j < i && (#[trigger] coins[j]).ethereum == coins[i].ethereum ==> quoted_price(
            quotes,
            coins[j].id,
        ) is None
}

/// Every entry of the join stems from a coin: the first one with its address
/// that has a quoted price.
pub proof fn priced_entry_stems_from_coin(coins: Seq<CoinView>, quotes: Seq<QuoteView>, k: int)
    requires
        0 <= k < priced_tokens(coins, quotes).len(),
    ensures
        exists|i: int| stems_from(priced_tokens(coins, quotes)[k], coins, quotes, i),
    decreases coins.len(),
{
    let shorter = coins.drop_last();
    let earlier = priced_tokens(shorter, quotes);
    let entry = priced_tokens(coins, quotes)[k];
    if k < earlier.len() {
        priced_entry_stems_from_coin(shorter, quotes, k);
        let i = choose|i: int| stems_from(earlier[k], shorter, quotes, i);
        assert(shorter[i] == coins[i]);
        assert forall|j: int| 0 <= j < i && (#[trigger] coins[j]).ethereum
            == coins[i].ethereum implies quoted_price(quotes, coins[j].id) is None by {
            assert(shorter[j] == coins[j]);
        }
        assert(stems_from(entry, coins, quotes, i));
    } else {
        let i = coins.len() - 1;
        assert forall|j: int| 0 <= j < i && (#[trigger] coins[j]).ethereum
            == coins[i].ethereum implies quoted_price(quotes, coins[j].id) is None by {
            if quoted_price(quotes, coins[j].id) is Some {
                assert(shorter[j] == coins[j]);
                priced_coin_is_listed(shorter, quotes, j);
            }
        }
        assert(stems_from(entry, coins, quotes, i));
    }
}

/// The catalog holds no address twice, for any coin listing and any price
/// listing: the priced coins have addresses of their own, none of them the
/// native asset's, and the native asset is the one entry at that address.
pub proof fn catalog_addresses_distinct(coins: Seq<CoinView>, quotes: Seq<QuoteView>)
    requires
        catalog(coins, quotes) is Some,
    ensures
        distinct_addresses(catalog(coins, quotes)->0),
{
    let priced = priced_tokens(coins, quotes);
    let whole = catalog(coins, quotes)->0;
    priced_addresses_distinct(coins, quotes);
    priced_addresses_avoid_native(coins, quotes);
    assert forall|i: int, j: int| 0 <= i < j < whole.len() implies (#[trigger] whole[i]).address != (
    #[trigger] whole[j]).address by {
        assert(whole[i] == priced[i]);
        if j < priced.len() {
            assert(whole[j] == priced[j]);
        }
    }
}

/// The price of the first quote for the coin `id` that carries one.
pub fn find_price(quotes: &Vec<PriceQuote>, id: &String) -> (r: Option<Usd>)
    ensures
        r == quoted_price(quote_views(quotes@), id@),
{
    let ghost views = quote_views(quotes@);
    let mut j: usize = 0;
    while j < quotes.len()
        invariant
            j <= quotes.len(),
            views == quote_views(quotes@),
            forall|k: int| 0 <= k < j ==> !prices_coin(#[trigger] views[k], id@),
        decreases quotes.len() - j,
    {
        let quote = &quotes[j];
        if quote.id == *id {
            if let Some(price) = quote.current_price {
                proof {
                    quoted_price_found(views, id@, j as int);
                }
                return Some(price);
            }
        }
        j += 1;
    }
    proof {
        quoted_price_missing(views, id@);
    }
    None
}

/// The first price found in the listing, whichever coin it is for.
pub fn find_first_price(quotes: &Vec<PriceQuote>) -> (r: Option<Usd>)
    ensures
        r == first_price(quote_views(quotes@)),
{
    let ghost views = quote_views(quotes@);
    let mut j: usize = 0;
    while j < quotes.len()
        invariant
            j <= quotes.len(),
            views == quote_views(quotes@),
            forall|k: int| 0 <= k < j ==> (#[trigger] views[k]).current_price is None,
        decreases quotes.len() - j,
    {
        if let Some(price) = quotes[j].current_price {
            proof {
                first_price_found(views, j as int);
            }
            return Some(price);
        }
        j += 1;
    }
    proof {
        first_price_missing(views);
    }
    None
}

/// Joins the coins with their prices and appends the native asset.
///
/// Every coin with a priced quote becomes an entry, at the price of its first
/// such quote, unless an earlier entry already has its address or the
/// address is the all-zero one, which is the native asset's; addresses are
/// compared as the strings they are. The native asset comes last, at the
/// first price of the listing. So no two entries of the catalog share an
/// address. A listing without any price gives `NoPrice`.
pub fn get_tokens(coins: &Vec<Coin>, prices: &Vec<PriceQuote>) -> (r: Result<
    Vec<Token>,
    CatalogError,
>)
    ensures
        match r {
            Ok(tokens) => catalog(coin_views(coins@), quote_views(prices@)) == Some(
                token_views(tokens@),
            ),
            Err(e) => catalog(coin_views(coins@), quote_views(prices@)) is None && e
                == CatalogError::NoPrice,
        },
        r matches Ok(tokens) ==> distinct_addresses(token_views(tokens@)),
{
    let ghost all = coin_views(coins@);
    let ghost quotes = quote_views(prices@);
    let reserved = "0x0000000000000000000000000000000000000000".to_owned();
    let mut tokens: Vec<Token> = Vec::new();
    let mut i: usize = 0;
    while i < coins.len()
        invariant
            i <= coins.len(),
            all == coin_views(coins@),
            quotes == quote_views(prices@),
            reserved@ == native_address(),
            token_views(tokens@) == priced_tokens(all.take(i as int), quotes),
        decreases coins.len() - i,
    {
        let coin = &coins[i];
        proof {
            assert(all.take(i + 1).drop_last() =~= all.take(i as int));
            assert(all.take(i + 1).last() == coin@);
        }
        if let Some(price) = find_price(prices, &coin.id) {
            if coin.ethereum != reserved && !contains_address(&tokens, &coin.ethereum) {
                tokens.push(
                    Token {
                        name: coin.name.clone(),
                        symbol: coin.symbol.clone(),
                        address: coin.ethereum.clone(),
                        price,
                    },
                );
            }
        }
        i += 1;
    }
    assert(all.take(i as int) =~= all);
    match find_first_price(prices) {
        Some(price) => {
            let ghost before = token_views(tokens@);
            tokens.push(Token::native(price));
            proof {
                assert(token_views(tokens@) =~= before.push(native_token(price)));
                catalog_addresses_distinct(all, quotes);
            }
            Ok(tokens)
        },
        None => Err(CatalogError::NoPrice),
    }
}

} // verus!
