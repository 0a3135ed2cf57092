//! What the wallet holds, and the lines of the report.
//!
//! A holding pairs a balance with the precision and price it is valued by.
//! Its value in dollars is `amount / 10^decimals * price` in floating-point
//! arithmetic, over the whole 256-bit amount, which the caller computes: the
//! library takes the values back as bit patterns and decides which of them
//! are shown.

use vstd::prelude::*;
use crate::amount::RawAmount;
use crate::balances::{answered_balance, balances_wanted};
use crate::decimals::DecimalsMap;
use crate::price::Usd;
use crate::positions::{
    picked_positions, picked_positions_are_picked, picked_positions_prefix, picked_positions_step,
};
use crate::token::{native_symbol, token_views, Token, TokenView};

verus! {

/// The decimal precision of the native asset.
pub const NATIVE_DECIMALS: i32 = 18;

/// A text in upper case, as `str::to_uppercase` gives it.
pub uninterp spec fn uppercased(text: Seq<char>) -> Seq<char>;

/// Calls `str::to_uppercase`. Trusted: the result is what `uppercased` names.
#[verifier::external_body]
fn to_uppercase(text: &str) -> (r: String)
    ensures
        r@ == uppercased(text@),
{
    text.to_uppercase()
}

/// An amount of one asset, ready to be valued.
#[derive(Clone, Debug, PartialEq, Eq)]
pub struct Holding {
    /// The asset's symbol, as the catalog has it.
    pub symbol: String,
    /// The raw balance, whole.
    pub amount: RawAmount,
    /// The number of decimal places that the raw balance counts in.
    pub decimals: i32,
    /// The price of one whole unit of the asset.
    pub price: Usd,
}

/// What a `Holding` holds, with its symbol as a character sequence and its
/// amount as the number it stands for.
pub struct HoldingView {
    pub symbol: Seq<char>,
    pub amount: nat,
    pub decimals: i32,
    pub price: Usd,
}

impl View for Holding {
    type V = HoldingView;

    open spec fn view(&self) -> HoldingView {
        HoldingView {
            symbol: self.symbol@,
            amount: self.amount@,
            decimals: self.decimals,
            price: self.price,
        }
    }
}

/// The views of a sequence of holdings, in order.
pub open spec fn holding_views(holdings: Seq<Holding>) -> Seq<HoldingView> {
    holdings.map_values(|h: Holding| h@)
}

/// The price of the native asset: that of the first entry of the catalog
/// whose symbol is the native asset's.
pub open spec fn native_price(tokens: Seq<TokenView>) -> Option<Usd>
    decreases tokens.len(),
{
    if tokens.len() == 0 {
        None
    } else if tokens[0].symbol == native_symbol() {
        Some(tokens[0].price)
    } else {
        native_price(tokens.drop_first())
    }
}

/// If no entry before position `n` has the native asset's symbol, the native
/// price is the one found from position `n` on.
proof fn lemma_native_price_skip(tokens: Seq<TokenView>, n: int)
    requires
        0 <= n <= tokens.len(),
        forall|k: int| 0 <= k < n ==> (#[trigger] tokens[k]).symbol != native_symbol(),
    ensures
        native_price(tokens) == native_price(tokens.skip(n)),
    decreases n,
{
    if n == 0 {
        assert(tokens.skip(0) =~= tokens);
    } else {
        assert(tokens[0].symbol != native_symbol());
        let rest = tokens.drop_first();
        assert forall|k: int| 0 <= k < n - 1 implies (#[trigger] rest[k]).symbol != native_symbol() by {
            assert(rest[k] == tokens[k + 1]);
        }
        lemma_native_price_skip(rest, n - 1);
        assert(rest.skip(n - 1) =~= tokens.skip(n));
    }
}

/// The native price is that of the entry at position `n`, where that entry
/// has the native asset's symbol and none before it has.
pub proof fn native_price_found(tokens: Seq<TokenView>, n: int)
    requires
        0 <= n < tokens.len(),
        tokens[n].symbol == native_symbol(),
        forall|k: int| 0 <= k < n ==> (#[trigger] tokens[k]).symbol != native_symbol(),
    ensures
        native_price(tokens) == Some(tokens[n].price),
{
    lemma_native_price_skip(tokens, n);
    assert(tokens.skip(n)[0] == tokens[n]);
}

/// A catalog without an entry that has the native asset's symbol has no
/// native price.
pub proof fn native_price_missing(tokens: Seq<TokenView>)
    requires
        forall|k: int| 0 <= k < tokens.len() ==> (#[trigger] tokens[k]).symbol != native_symbol(),
    ensures
        native_price(tokens) is None,
{
    lemma_native_price_skip(tokens, tokens.len() as int);
}

/// The holding of the native asset, given its balance.
pub open spec fn native_holding(price: Usd, balance: nat) -> HoldingView {
    HoldingView { symbol: native_symbol(), amount: balance, decimals: NATIVE_DECIMALS, price }
}

/// The holding of a token, given its precision and its balance.
pub open spec fn token_holding(token: TokenView, decimals: i32, balance: nat) -> HoldingView {
    HoldingView { symbol: token.symbol, amount: balance, decimals, price: token.price }
}

/// A token whose balance call failed is held at an amount of zero, whatever
/// its precision and price: it adds nothing to what the wallet is worth.
pub proof fn failed_call_holds_nothing(token: TokenView, decimals: i32)
    ensures
        token_holding(token, decimals, answered_balance(None)).amount == 0,
{
}

/// The wallet's holding of the native asset. There is none where the catalog
/// has no entry with the native asset's symbol to take the price from.
pub fn get_eth_balance(tokens: &Vec<Token>, balance: RawAmount) -> (r: Option<Holding>)
    ensures
        match r {
            Some(holding) => native_price(token_views(tokens@)) matches Some(price) && holding@
                == native_holding(price, balance@) && holding.amount == balance,
            None => native_price(token_views(tokens@)) is None,
        },
{
    let ghost views = token_views(tokens@);
    let symbol = "ETH".to_owned();
    let mut i: usize = 0;
    while i < tokens.len()
        invariant
            i <= tokens.len(),
            views == token_views(tokens@),
            symbol@ == native_symbol(),
            forall|k: int| 0 <= k < i ==> (#[trigger] views[k]).symbol != native_symbol(),
        decreases tokens.len() - i,
    {
        if tokens[i].symbol == symbol {
            proof {
                native_price_found(views, i as int);
            }
            return Some(
                Holding {
                    symbol,
                    amount: balance,
                    decimals: NATIVE_DECIMALS,
                    price: tokens[i].price,
                },
            );
        }
        i += 1;
    }
    proof {
        native_price_missing(views);
    }
    None
}

/// The wallet's holding of one token, given the token's balance. There is
/// none where no precision is on record for the token's address.
pub fn get_token_balance(token: &Token, decimals: &DecimalsMap, balance: RawAmount) -> (r: Option<
    Holding,
>)
    ensures
        match r {
            Some(holding) => decimals@.contains_key(token@.address) && holding@ == token_holding(
                token@,
                decimals@[token@.address],
                balance@,
            ) && holding.amount == balance,
            None => !decimals@.contains_key(token@.address),
        },
{
    match decimals.get(token.address.as_str()) {
        Some(places) => Some(
            Holding {
                symbol: token.symbol.clone(),
                amount: balance,
                decimals: places,
                price: token.price,
            },
        ),
        None => None,
    }
}

/// Whether every token that has a balance call also has a precision on
/// record.
pub open spec fn precisions_known(tokens: Seq<TokenView>, decimals: Map<Seq<char>, i32>) -> bool {
    forall|i: int|
        0 <= i < tokens.len() && balances_wanted(tokens)[i] ==> decimals.contains_key(
            (#[trigger] tokens[i]).address,
        )
}

/// The holdings are those of the tokens at the given positions, one for one
/// and in order, each with its precision and the balance at its place.
pub open spec fn holdings_at(
    holdings: Seq<HoldingView>,
    tokens: Seq<TokenView>,
    positions: Seq<int>,
    decimals: Map<Seq<char>, i32>,
    balances: Seq<RawAmount>,
) -> bool {
    &&& holdings.len() == positions.len()
    &&& forall|k: int|
        0 <= k < holdings.len() ==> #[trigger] holdings[k] == token_holding(
            tokens[positions[k]],
            decimals[tokens[positions[k]].address],
            balances[k]@,
        )
}

/// The wallet's holdings of the tokens, in the order of the catalog.
///
/// `balances` holds one balance for every entry but the native asset's, in
/// the order of the catalog, as `balance_targets` and `arrange_balances` give
/// them. There is no result when their number is another, or when a token
/// among them has no precision on record.
pub fn get_token_balances(
    tokens: &Vec<Token>,
    decimals: &DecimalsMap,
    balances: &Vec<RawAmount>,
) -> (r: Option<Vec<Holding>>)
    ensures
        r is Some <==> balances@.len() == picked_positions(
            balances_wanted(token_views(tokens@)),
        ).len() && precisions_known(token_views(tokens@), decimals@),
        r matches Some(holdings) ==> holdings_at(
            holding_views(holdings@),
            token_views(tokens@),
            picked_positions(balances_wanted(token_views(tokens@))),
            decimals@,
            balances@,
        ),
{
    let ghost views = token_views(tokens@);
    let ghost wanted = balances_wanted(views);
    let mut holdings: Vec<Holding> = Vec::new();
    let mut used: usize = 0;
    let mut i: usize = 0;
    while i < tokens.len()
        invariant
            i <= tokens.len(),
            views == token_views(tokens@),
            wanted == balances_wanted(views),
            used == picked_positions(wanted.take(i as int)).len(),
            used <= balances@.len(),
            holdings_at(
                holding_views(holdings@),
                views,
                picked_positions(wanted.take(i as int)),
                decimals@,
                balances@,
            ),
            forall|j: int|
                0 <= j < i && wanted[j] ==> decimals@.contains_key((#[trigger] views[j]).address),
        decreases tokens.len() - i,
    {
        let token = &tokens[i];
        proof {
            assert(views[i as int] == token@);
            picked_positions_step(wanted, i as int);
            picked_positions_prefix(wanted, i + 1);
        }
        if !token.is_native() {
            if used >= balances.len() {
                return None;
            }
            match get_token_balance(token, decimals, balances[used]) {
                Some(holding) => {
                    let ghost before = holding_views(holdings@);
                    holdings.push(holding);
                    assert(holding_views(holdings@) =~= before.push(holding@));
                },
                None => {
                    return None;
                },
            }
            used += 1;
        }
        i += 1;
    }
    assert(wanted.take(i as int) =~= wanted);
    if used != balances.len() {
        return None;
    }
    Some(holdings)
}

/// A line of the report: an asset and what the wallet holds of it, in
/// dollars.
#[derive(Clone, Debug, PartialEq, Eq)]
pub struct ReportLine {
    pub symbol: String,
    pub value: Usd,
}

/// What a `ReportLine` holds, with its symbol as a character sequence.
pub struct LineView {
    pub symbol: Seq<char>,
    pub value: Usd,
}

impl View for ReportLine {
    type V = LineView;

    open spec fn view(&self) -> LineView {
        LineView { symbol: self.symbol@, value: self.value }
    }
}

/// The views of a sequence of lines, in order.
pub open spec fn line_views(lines: Seq<ReportLine>) -> Seq<LineView> {
    lines.map_values(|l: ReportLine| l@)
}

/// For each value, whether it is strictly positive.
pub open spec fn shown(values: Seq<Usd>) -> Seq<bool> {
    Seq::new(values.len(), |i: int| values[i].positive())
}

/// The line of a token's holding: its symbol in upper case, and its value.
pub open spec fn token_line_of(holding: HoldingView, value: Usd) -> LineView {
    LineView { symbol: uppercased(holding.symbol), value }
}

/// The line of the native asset's holding. It is part of every report,
/// whatever the value.
pub fn native_line(holding: &Holding, value: Usd) -> (r: ReportLine)
    ensures
        r@ == (LineView { symbol: holding@.symbol, value }),
{
    ReportLine { symbol: holding.symbol.clone(), value }
}

/// The line of a token's holding, if it has one: a holding is shown only
/// where its value is strictly positive.
pub fn token_line(holding: &Holding, value: Usd) -> (r: Option<ReportLine>)
    ensures
        r is Some <==> value.positive(),
        r matches Some(line) ==> line@ == token_line_of(holding@, value),
{
    if value.is_positive() {
        Some(ReportLine { symbol: to_uppercase(holding.symbol.as_str()), value })
    } else {
        None
    }
}

/// The lines are those of the holdings at the given positions, one for one
/// and in order.
pub open spec fn lines_at(
    lines: Seq<LineView>,
    holdings: Seq<HoldingView>,
    values: Seq<Usd>,
    positions: Seq<int>,
) -> bool {
    &&& lines.len() == positions.len()
    &&& forall|k: int|
        0 <= k < lines.len() ==> #[trigger] lines[k] == token_line_of(
            holdings[positions[k]],
            values[positions[k]],
        )
}

/// The lines of the tokens' holdings, in the order of the holdings: one for
/// each holding whose value is strictly positive, and none for the others.
/// `values` holds the value of each holding. There is no result when there
/// are not as many values as holdings.
pub fn token_lines(holdings: &Vec<Holding>, values: &Vec<Usd>) -> (r: Option<Vec<ReportLine>>)
    ensures
        r is Some <==> holdings@.len() == values@.len(),
        r matches Some(lines) ==> lines_at(
            line_views(lines@),
            holding_views(holdings@),
            values@,
            picked_positions(shown(values@)),
        ),
{
    if holdings.len() != values.len() {
        return None;
    }
    let ghost flags = shown(values@);
    let mut lines: Vec<ReportLine> = Vec::new();
    let mut i: usize = 0;
    while i < holdings.len()
        invariant
            i <= holdings.len(),
            holdings.len() == values.len(),
            flags == shown(values@),
            lines_at(
                line_views(lines@),
                holding_views(holdings@),
                values@,
                picked_positions(flags.take(i as int)),
            ),
        decreases holdings.len() - i,
    {
        proof {
            picked_positions_step(flags, i as int);
            assert(holding_views(holdings@)[i as int] == holdings@[i as int]@);
        }
        if let Some(line) = token_line(&holdings[i], values[i]) {
            let ghost before = line_views(lines@);
            lines.push(line);
            assert(line_views(lines@) =~= before.push(line@));
        }
        i += 1;
    }
    assert(flags.take(i as int) =~= flags);
    Some(lines)
}

/// A holding whose value is not strictly positive has no line: no line of
/// the report stems from its position.
pub proof fn unshown_value_has_no_line(values: Seq<Usd>, i: int)
    requires
        0 <= i < values.len(),
        !values[i].positive(),
    ensures
        forall|k: int|
            0 <= k < picked_positions(shown(values)).len() ==> #[trigger] picked_positions(
                shown(values),
            )[k] != i,
{
    picked_positions_are_picked(shown(values));
}

/// A holding whose value is zero, of either sign, has no line.
pub proof fn zero_value_has_no_line(values: Seq<Usd>, i: int)
    requires
        0 <= i < values.len(),
        values[i].zero(),
    ensures
        !values[i].positive(),
        forall|k: int|
            0 <= k < picked_positions(shown(values)).len() ==> #[trigger] picked_positions(
                shown(values),
            )[k] != i,
{
    unshown_value_has_no_line(values, i);
}

/// Every line of a token stems from a holding whose value is strictly
/// positive.
pub proof fn lines_have_positive_values(values: Seq<Usd>)
    ensures
        forall|k: int|
            0 <= k < picked_positions(shown(values)).len() ==> values[#[trigger] picked_positions(
                shown(values),
            )[k]].positive(),
{
    picked_positions_are_picked(shown(values));
}

} // verus!
