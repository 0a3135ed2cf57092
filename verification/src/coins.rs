//! The coin listing of the price service, and the coins of it that are
//! deployed on Ethereum.

use vstd::prelude::*;

verus! {

/// A coin that is deployed on Ethereum, with its contract address there.
#[derive(Clone, Debug, PartialEq, Eq)]
pub struct Coin {
    pub id: String,
    pub symbol: String,
    pub name: String,
    pub ethereum: String,
}

/// What a `Coin` holds, with its strings as character sequences.
pub struct CoinView {
    pub id: Seq<char>,
    pub symbol: Seq<char>,
    pub name: Seq<char>,
    pub ethereum: Seq<char>,
}

impl View for Coin {
    type V = CoinView;

    open spec fn view(&self) -> CoinView {
        CoinView { id: self.id@, symbol: self.symbol@, name: self.name@, ethereum: self.ethereum@ }
    }
}

/// The views of a sequence of coins, in order.
pub open spec fn coin_views(coins: Seq<Coin>) -> Seq<CoinView> {
    coins.map_values(|c: Coin| c@)
}

/// The chains a listed coin is deployed on, as far as the catalog cares.
#[derive(Clone, Debug, PartialEq, Eq)]
pub struct Platforms {
    pub ethereum: Option<String>,
}

/// One entry of the coin listing, as the price service gives it.
#[derive(Clone, Debug, PartialEq, Eq)]
pub struct CoinListing {
    pub id: String,
    pub symbol: String,
    pub name: String,
    pub platforms: Option<Platforms>,
}

/// What a `CoinListing` holds: its names, and its Ethereum address where the
/// listing gives one.
pub struct ListingView {
    pub id: Seq<char>,
    pub symbol: Seq<char>,
    pub name: Seq<char>,
    pub ethereum: Option<Seq<char>>,
}

impl View for CoinListing {
    type V = ListingView;

    open spec fn view(&self) -> ListingView {
        ListingView {
            id: self.id@,
            symbol: self.symbol@,
            name: self.name@,
            ethereum: match self.platforms {
                Some(platforms) => match platforms.ethereum {
                    Some(address) => Some(address@),
                    None => None,
                },
                None => None,
            },
        }
    }
}

/// The views of a sequence of listings, in order.
pub open spec fn listing_views(listings: Seq<CoinListing>) -> Seq<ListingView> {
    listings.map_values(|l: CoinListing| l@)
}

/// A listing as a coin on Ethereum, if it has a non-empty address there.
pub open spec fn ethereum_coin(listing: ListingView) -> Option<CoinView> {
    match listing.ethereum {
        Some(address) => if address.len() > 0 {
            Some(
                CoinView {
                    id: listing.id,
                    symbol: listing.symbol,
                    name: listing.name,
                    ethereum: address,
                },
            )
        } else {
            None
        },
        None => None,
    }
}

/// The listings that are coins on Ethereum, in the order of the listing.
pub open spec fn ethereum_coins(listings: Seq<ListingView>) -> Seq<CoinView>
    decreases listings.len(),
{
    if listings.len() == 0 {
        Seq::empty()
    } else {
        let earlier = ethereum_coins(listings.drop_last());
        match ethereum_coin(listings.last()) {
            Some(coin) => earlier.push(coin),
            None => earlier,
        }
    }
}

/// Keeps the listed coins that have a non-empty address on Ethereum.
pub fn get_coins(listings: &Vec<CoinListing>) -> (r: Vec<Coin>)
    ensures
        coin_views(r@) == ethereum_coins(listing_views(listings@)),
{
    let ghost all = listing_views(listings@);
    let mut coins: Vec<Coin> = Vec::new();
    let mut i: usize = 0;
    while i < listings.len()
        invariant
            i <= listings.len(),
            all == listing_views(listings@),
            coin_views(coins@) == ethereum_coins(all.take(i as int)),
        decreases listings.len() - i,
    {
        let listing = &listings[i];
        proof {
            assert(all.take(i + 1).drop_last() =~= all.take(i as int));
            assert(all.take(i + 1).last() == listing@);
        }
        if let Some(platforms) = &listing.platforms {
            if let Some(ethereum) = &platforms.ethereum {
                if !ethereum.as_str().is_empty() {
                    coins.push(
                        Coin {
                            id: listing.id.clone(),
                            symbol: listing.symbol.clone(),
                            name: listing.name.clone(),
                            ethereum: ethereum.clone(),
                        },
                    );
                }
            }
        }
        i += 1;
    }
    assert(all.take(i as int) =~= all);
    coins
}

} // verus!
