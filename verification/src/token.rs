//! Catalog entries.

use vstd::prelude::*;
use crate::price::Usd;

verus! {

/// A token of the catalog: where it lives on chain and what one unit costs.
#[derive(Clone, Debug, PartialEq, Eq)]
pub struct Token {
    pub name: String,
    pub symbol: String,
    pub address: String,
    pub price: Usd,
}

/// What a `Token` holds, with its strings as character sequences.
pub struct TokenView {
    pub name: Seq<char>,
    pub symbol: Seq<char>,
    pub address: Seq<char>,
    pub price: Usd,
}

impl View for Token {
    type V = TokenView;

    open spec fn view(&self) -> TokenView {
        TokenView {
            name: self.name@,
            symbol: self.symbol@,
            address: self.address@,
            price: self.price,
        }
    }
}

/// The views of a sequence of tokens, in order.
pub open spec fn token_views(tokens: Seq<Token>) -> Seq<TokenView> {
    tokens.map_values(|t: Token| t@)
}

/// The display name of the chain's native asset.
pub open spec fn native_name() -> Seq<char> {
    "Ethereum"@
}

/// The symbol of the chain's native asset.
pub open spec fn native_symbol() -> Seq<char> {
    "ETH"@
}

/// The all-zero address under which the native asset is listed.
pub open spec fn native_address() -> Seq<char> {
    "0x0000000000000000000000000000000000000000"@
}

/// The catalog entry that stands for the native asset at a given price.
pub open spec fn native_token(price: Usd) -> TokenView {
    TokenView {
        name: native_name(),
        symbol: native_symbol(),
        address: native_address(),
        price,
    }
}

/// Whether an entry is the one that stands for the native asset.
pub open spec fn is_native(token: TokenView) -> bool {
    token.symbol == native_symbol() && token.address == native_address()
}

/// Whether some entry has the given address.
pub open spec fn has_address(tokens: Seq<TokenView>, address: Seq<char>) -> bool {
    exists|i: int| 0 <= i < tokens.len() && (#[trigger] tokens[i]).address == address
}

/// No two entries share an address.
pub open spec fn distinct_addresses(tokens: Seq<TokenView>) -> bool {
    forall|i: int, j: int|
        0 <= i < j < tokens.len() ==> (#[trigger] tokens[i]).address != (#[trigger] tokens[j]).address
}

impl Token {
    /// The native asset's entry at a given price.
    pub fn native(price: Usd) -> (r: Token)
        ensures
            r@ == native_token(price),
    {
        Token {
            name: "Ethereum".to_owned(),
            symbol: "ETH".to_owned(),
            address: "0x0000000000000000000000000000000000000000".to_owned(),
            price,
        }
    }

    /// Whether this entry stands for the native asset.
    pub fn is_native(&self) -> (r: bool)
        ensures
            r == is_native(self@),
    {
        let symbol = "ETH".to_owned();
        let address = "0x0000000000000000000000000000000000000000".to_owned();
        self.symbol == symbol && self.address == address
    }
}

/// Whether some token of `tokens` has the address `address`.
pub fn contains_address(tokens: &Vec<Token>, address: &String) -> (r: bool)
    ensures
        r == has_address(token_views(tokens@), address@),
{
    let mut i: usize = 0;
    while i < tokens.len()
        invariant
            i <= tokens.len(),
            forall|k: int| 0 <= k < i ==> (#[trigger] tokens@[k]).address@ != address@,
        decreases tokens.len() - i,
    {
        if tokens[i].address == *address {
            assert(token_views(tokens@)[i as int].address == address@);
            return true;
        }
        i += 1;
    }
    assert(!has_address(token_views(tokens@), address@)) by {
        assert forall|k: int| 0 <= k < token_views(tokens@).len() implies (#[trigger] token_views(
            tokens@,
        )[k]).address != address@ by {
            assert(token_views(tokens@)[k] == tokens@[k]@);
        }
    }
    false
}

} // verus!
