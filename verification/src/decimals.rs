//! Resolving the decimal precision of every token of the catalog.
//!
//! A precision that the cache knows is taken from it. One that it does not
//! know, or knows only as `UNKNOWN_DECIMALS`, is asked of the token's contract.
//! A contract that does not answer counts as answering `DEFAULT_DECIMALS`.

use vstd::hash_map::StringHashMap;
use vstd::prelude::*;
use crate::amount::{low_i32, RawAmount};
use crate::positions::picked_positions;
use crate::targets::{first_bad_address, pick_targets, targets_at, BadAddress, Target};
use crate::token::{has_address, token_views, Token, TokenView};

verus! {

/// The precision that stands for "not known yet" in the cache.
pub const UNKNOWN_DECIMALS: i32 = 69;

/// The precision assumed of a contract that does not answer.
pub const DEFAULT_DECIMALS: u64 = 18;

/// Decimal precisions by token address.
pub struct DecimalsMap {
    entries: StringHashMap<i32>,
}

impl View for DecimalsMap {
    type V = Map<Seq<char>, i32>;

    closed spec fn view(&self) -> Map<Seq<char>, i32> {
        self.entries@
    }
}

impl DecimalsMap {
    /// A map without entries.
    pub fn new() -> (r: DecimalsMap)
        ensures
            r@ == Map::<Seq<char>, i32>::empty(),
    {
        DecimalsMap { entries: StringHashMap::new() }
    }

    /// Records the precision of the token at `address`, in place of any that
    /// was recorded before.
    pub fn insert(&mut self, address: String, decimals: i32)
        ensures
            final(self)@ == old(self)@.insert(address@, decimals),
    {
        self.entries.insert(address, decimals);
    }

    /// The precision recorded for the token at `address`, if there is one.
    pub fn get(&self, address: &str) -> (r: Option<i32>)
        ensures
            r == if self@.contains_key(address@) {
                Some(self@[address@])
            } else {
                None
            },
    {
        match self.entries.get(address) {
            Some(decimals) => Some(*decimals),
            None => None,
        }
    }

    /// The precision the cache gives for the token at `address`:
    /// `UNKNOWN_DECIMALS` where it has no entry.
    pub fn lookup(&self, address: &str) -> (r: i32)
        ensures
            r == cached_decimals(self@, address@),
    {
        match self.get(address) {
            Some(decimals) => decimals,
            None => UNKNOWN_DECIMALS,
        }
    }
}

/// The precision the cache gives for an address: `UNKNOWN_DECIMALS` where it
/// has no entry.
pub open spec fn cached_decimals(cache: Map<Seq<char>, i32>, address: Seq<char>) -> i32 {
    if cache.contains_key(address) {
        cache[address]
    } else {
        UNKNOWN_DECIMALS
    }
}

/// Whether the contract at an address has to be asked for its precision.
pub open spec fn needs_query(cache: Map<Seq<char>, i32>, address: Seq<char>) -> bool {
    cached_decimals(cache, address) == UNKNOWN_DECIMALS
}

/// For each entry of the catalog, whether its contract has to be asked.
pub open spec fn queries_wanted(tokens: Seq<TokenView>, cache: Map<Seq<char>, i32>) -> Seq<bool> {
    Seq::new(tokens.len(), |i: int| needs_query(cache, tokens[i].address))
}

/// How many contracts have to be asked.
pub open spec fn query_count(tokens: Seq<TokenView>, cache: Map<Seq<char>, i32>) -> nat {
    picked_positions(queries_wanted(tokens, cache)).len()
}

/// The number a contract's answer stands for: `DEFAULT_DECIMALS` where the
/// contract did not answer.
pub open spec fn answered_amount(answer: Option<RawAmount>) -> nat {
    match answer {
        Some(amount) => amount@,
        None => DEFAULT_DECIMALS as nat,
    }
}

/// The precision taken from a contract's answer: the low 32 bits of the
/// number, read as a signed integer.
pub open spec fn answered_decimals(answer: Option<RawAmount>) -> i32 {
    low_i32(answered_amount(answer)) as i32
}

/// The precisions of all the tokens, given the cache and the contracts'
/// answers. The answers are those of the contracts that had to be asked, in
/// the order of the catalog. Where two entries share an address, the later
/// one decides.
pub open spec fn resolved(
    tokens: Seq<TokenView>,
    cache: Map<Seq<char>, i32>,
    answers: Seq<Option<RawAmount>>,
) -> Map<Seq<char>, i32>
    decreases tokens.len(),
{
    if tokens.len() == 0 {
        Map::empty()
    } else {
        let earlier = tokens.drop_last();
        let address = tokens.last().address;
        let known = resolved(earlier, cache, answers);
        if needs_query(cache, address) {
            known.insert(address, answered_decimals(answers[query_count(earlier, cache) as int]))
        } else {
            known.insert(address, cache[address])
        }
    }
}

/// Taking one more entry into account adds one query where that entry needs
/// one, and none where it does not.
proof fn lemma_query_count_step(tokens: Seq<TokenView>, cache: Map<Seq<char>, i32>, n: int)
    requires
        0 <= n < tokens.len(),
    ensures
        tokens.take(n + 1).drop_last() == tokens.take(n),
        tokens.take(n + 1).last() == tokens[n],
        query_count(tokens.take(n + 1), cache) == query_count(tokens.take(n), cache) + if needs_query(
            cache,
            tokens[n].address,
        ) {
            1nat
        } else {
            0nat
        },
{
    assert(queries_wanted(tokens.take(n + 1), cache).drop_last() =~= queries_wanted(
        tokens.take(n),
        cache,
    ));
}

/// The first entries of a catalog need no more queries than the whole of it.
proof fn lemma_query_count_grows(tokens: Seq<TokenView>, cache: Map<Seq<char>, i32>, n: int)
    requires
        0 <= n <= tokens.len(),
    ensures
        query_count(tokens.take(n), cache) <= query_count(tokens, cache),
    decreases tokens.len() - n,
{
    if n == tokens.len() {
        assert(tokens.take(n) =~= tokens);
    } else {
        lemma_query_count_step(tokens, cache, n);
        lemma_query_count_grows(tokens, cache, n + 1);
    }
}

/// What a contract's `decimals()` call comes to: its answer, or
/// `DEFAULT_DECIMALS` where the call failed.
pub fn get_decimal(answer: Option<RawAmount>) -> (r: RawAmount)
    ensures
        r@ == answered_amount(answer),
        answer matches Some(amount) ==> r == amount,
        answer is None ==> r@ == DEFAULT_DECIMALS,
{
    match answer {
        Some(amount) => amount,
        None => RawAmount::from_u64(DEFAULT_DECIMALS),
    }
}

/// The contracts that have to be asked for their precision, in the order of
/// the catalog: those of the entries for which the cache has no precision
/// other than `UNKNOWN_DECIMALS`. Fails on the first such entry whose address
/// cannot be parsed.
pub fn pending_queries(tokens: &Vec<Token>, cache: &DecimalsMap) -> (r: Result<
    Vec<Target>,
    BadAddress,
>)
    ensures
        match r {
            Ok(targets) => targets_at(
                targets@,
                token_views(tokens@),
                picked_positions(queries_wanted(token_views(tokens@), cache@)),
            ),
            Err(bad) => first_bad_address(
                token_views(tokens@),
                queries_wanted(token_views(tokens@), cache@),
                bad.index as int,
            ),
        },
{
    let ghost views = token_views(tokens@);
    let mut wanted: Vec<bool> = Vec::new();
    let mut i: usize = 0;
    while i < tokens.len()
        invariant
            i <= tokens.len(),
            views == token_views(tokens@),
            wanted@.len() == i,
            forall|k: int| 0 <= k < i ==> wanted@[k] == needs_query(cache@, views[k].address),
        decreases tokens.len() - i,
    {
        wanted.push(cache.lookup(tokens[i].address.as_str()) == UNKNOWN_DECIMALS);
        i += 1;
    }
    assert(wanted@ =~= queries_wanted(views, cache@));
    pick_targets(tokens, &wanted)
}

/// Resolves the precision of every token of the catalog.
///
/// `answers` holds what the contracts named by `pending_queries` answered, in
/// that order, with `None` for a call that failed. The result has an entry
/// for each address of the catalog and no other: the cache's precision where
/// it has one other than `UNKNOWN_DECIMALS`, else the low 32 bits of the
/// contract's answer, or `DEFAULT_DECIMALS` for a failed call. Entries of the
/// cache for addresses outside the catalog are dropped. There is no result
/// when the number of answers is not the number of pending queries.
pub fn get_decimals(
    tokens: &Vec<Token>,
    cache: &DecimalsMap,
    answers: &Vec<Option<RawAmount>>,
) -> (r: Option<DecimalsMap>)
    ensures
        match r {
            Some(map) => answers@.len() == query_count(token_views(tokens@), cache@) && map@
                == resolved(token_views(tokens@), cache@, answers@),
            None => answers@.len() != query_count(token_views(tokens@), cache@),
        },
{
    let ghost views = token_views(tokens@);
    let mut map = DecimalsMap::new();
    let mut used: usize = 0;
    let mut i: usize = 0;
    while i < tokens.len()
        invariant
            i <= tokens.len(),
            views == token_views(tokens@),
            used == query_count(views.take(i as int), cache@),
            used <= answers@.len(),
            map@ == resolved(views.take(i as int), cache@, answers@),
        decreases tokens.len() - i,
    {
        let token = &tokens[i];
        proof {
            assert(views[i as int] == token@);
            lemma_query_count_step(views, cache@, i as int);
        }
        let cached = cache.lookup(token.address.as_str());
        if cached == UNKNOWN_DECIMALS {
            if used >= answers.len() {
                proof {
                    lemma_query_count_grows(views, cache@, i + 1);
                }
                return None;
            }
            let decimals = get_decimal(answers[used]).low_i32();
            map.insert(token.address.clone(), decimals);
            used += 1;
        } else {
            map.insert(token.address.clone(), cached);
        }
        i += 1;
    }
    assert(views.take(i as int) =~= views);
    if used != answers.len() {
        return None;
    }
    Some(map)
}

/// What is resolved for a token that no later entry shares its address with:
/// the cache's precision where that is known, else what its contract
/// answered.
pub proof fn resolved_entry(
    tokens: Seq<TokenView>,
    cache: Map<Seq<char>, i32>,
    answers: Seq<Option<RawAmount>>,
    i: int,
)
    requires
        0 <= i < tokens.len(),
        forall|j: int| i < j < tokens.len() ==> (#[trigger] tokens[j]).address != tokens[i].address,
    ensures
        resolved(tokens, cache, answers).contains_key(tokens[i].address),
        resolved(tokens, cache, answers)[tokens[i].address] == if needs_query(
            cache,
            tokens[i].address,
        ) {
            answered_decimals(answers[query_count(tokens.take(i), cache) as int])
        } else {
            cache[tokens[i].address]
        },
    decreases tokens.len(),
{
    let earlier = tokens.drop_last();
    if i < tokens.len() - 1 {
        assert forall|j: int| i < j < earlier.len() implies (#[trigger] earlier[j]).address
            != earlier[i].address by {
            assert(earlier[j] == tokens[j]);
        }
        resolved_entry(earlier, cache, answers, i);
        assert(earlier.take(i) =~= tokens.take(i));
    }
}

/// A token whose contract had to be asked and did not answer is resolved to
/// `DEFAULT_DECIMALS`.
pub proof fn failed_query_resolves_to_default(
    tokens: Seq<TokenView>,
    cache: Map<Seq<char>, i32>,
    answers: Seq<Option<RawAmount>>,
    i: int,
)
    requires
        0 <= i < tokens.len(),
        forall|j: int| i < j < tokens.len() ==> (#[trigger] tokens[j]).address != tokens[i].address,
        needs_query(cache, tokens[i].address),
        answers[query_count(tokens.take(i), cache) as int] is None,
    ensures
        resolved(tokens, cache, answers).contains_key(tokens[i].address),
        resolved(tokens, cache, answers)[tokens[i].address] == DEFAULT_DECIMALS,
{
    resolved_entry(tokens, cache, answers, i);
}

/// The resolved precisions cover the addresses of the catalog and no others.
pub proof fn resolved_covers_catalog(
    tokens: Seq<TokenView>,
    cache: Map<Seq<char>, i32>,
    answers: Seq<Option<RawAmount>>,
)
    ensures
        forall|address: Seq<char>|
            resolved(tokens, cache, answers).contains_key(address) <==> has_address(
                tokens,
                address,
            ),
    decreases tokens.len(),
{
    if tokens.len() > 0 {
        let earlier = tokens.drop_last();
        resolved_covers_catalog(earlier, cache, answers);
        assert forall|address: Seq<char>|
            resolved(tokens, cache, answers).contains_key(address) <==> has_address(
                tokens,
                address,
            ) by {
            if has_address(earlier, address) {
                let k = choose|k: int| 0 <= k < earlier.len() && (#[trigger] earlier[k]).address == address;
                assert(tokens[k] == earlier[k]);
            }
            if has_address(tokens, address) {
                let k = choose|k: int| 0 <= k < tokens.len() && (#[trigger] tokens[k]).address == address;
                if k < earlier.len() {
                    assert(earlier[k] == tokens[k]);
                }
            }
            if address == tokens.last().address {
                assert(tokens[tokens.len() - 1].address == address);
            }
        }
    }
}

} // verus!
