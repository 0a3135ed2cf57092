//! Account and contract addresses.

use std::str::FromStr;
use vstd::prelude::*;
use web3::types::H160;

verus! {

/// What parsing a text as an address gives: the twenty bytes of the address,
/// or nothing where the text is not one. The parser is the `FromStr` impl of
/// `web3::types::H160`; what it accepts is its business, and the same text
/// always parses the same way.
pub uninterp spec fn parsed_address(text: Seq<char>) -> Option<Seq<u8>>;

/// A twenty-byte address.
#[derive(Clone, Copy, Debug, PartialEq, Eq)]
pub struct Address {
    bytes: [u8; 20],
}

impl View for Address {
    type V = Seq<u8>;

    closed spec fn view(&self) -> Seq<u8> {
        self.bytes@
    }
}

/// Calls `H160::from_str` on the text and hands back the bytes of the address
/// it parsed, or `None` where it reports an error. Trusted: the call returns
/// for every text, and its result is what `parsed_address` names.
#[verifier::external_body]
fn parse_h160(text: &str) -> (r: Option<Address>)
    ensures
        match r {
            Some(address) => parsed_address(text@) == Some(address@),
            None => parsed_address(text@) is None,
        },
{
    match H160::from_str(text) {
        Ok(hash) => Some(Address { bytes: hash.0 }),
        Err(_) => None,
    }
}

impl Address {
    /// Parses a text as an address.
    pub fn parse(text: &str) -> (r: Option<Address>)
        ensures
            match r {
                Some(address) => parsed_address(text@) == Some(address@),
                None => parsed_address(text@) is None,
            },
    {
        parse_h160(text)
    }

    /// The twenty bytes, most significant first.
    pub fn bytes(&self) -> (r: [u8; 20])
        ensures
            r@ == self@,
    {
        self.bytes
    }
}

} // verus!
