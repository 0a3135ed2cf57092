//! Walking the paged price listing until it runs out.
//!
//! The price service hands out its listing in numbered pages. How many there
//! are is not known in advance: the listing ends at the first page that comes
//! back empty. `PricePager` keeps the number of the page to ask for and the
//! quotes gathered so far; the caller does the asking.

use vstd::prelude::*;
use crate::catalog::{quote_views, PriceQuote, QuoteView};

verus! {

/// The number of quotes the service is asked to put on a page.
pub const PAGE_SIZE: usize = 250;

/// The number of the first page.
pub const FIRST_PAGE: i32 = 1;

/// Where a walk through the pages stands.
pub struct PagerView {
    /// The page to ask for next; once finished, the page that came back empty.
    pub page: int,
    /// Whether an empty page has been seen.
    pub finished: bool,
    /// The quotes of the pages received, in order.
    pub quotes: Seq<QuoteView>,
}

/// The state before any page was asked for.
pub open spec fn start() -> PagerView {
    PagerView { page: FIRST_PAGE as int, finished: false, quotes: Seq::empty() }
}

/// The state after one more page has come back. An empty page ends the walk;
/// any other page is appended and the next one is due. After the end, pages
/// are ignored.
pub open spec fn after_page(state: PagerView, page: Seq<QuoteView>) -> PagerView {
    if state.finished {
        state
    } else if page.len() == 0 {
        PagerView { finished: true, ..state }
    } else {
        PagerView { page: state.page + 1, finished: false, quotes: state.quotes + page }
    }
}

/// The state after a run of pages has come back, one after the other.
pub open spec fn after_pages(state: PagerView, pages: Seq<Seq<QuoteView>>) -> PagerView
    decreases pages.len(),
{
    if pages.len() == 0 {
        state
    } else {
        after_page(after_pages(state, pages.drop_last()), pages.last())
    }
}

/// How many pages have been asked for and answered so far.
pub open spec fn pages_received(state: PagerView) -> int {
    if state.finished {
        state.page - FIRST_PAGE + 1
    } else {
        state.page - FIRST_PAGE
    }
}

/// The walk through the price listing.
pub struct PricePager {
    page: i32,
    finished: bool,
    quotes: Vec<PriceQuote>,
}

impl View for PricePager {
    type V = PagerView;

    closed spec fn view(&self) -> PagerView {
        PagerView {
            page: self.page as int,
            finished: self.finished,
            quotes: quote_views(self.quotes@),
        }
    }
}

impl PricePager {
    /// A walk that has not asked for anything yet.
    pub fn new() -> (r: PricePager)
        ensures
            r@ == start(),
    {
        let pager = PricePager { page: FIRST_PAGE, finished: false, quotes: Vec::new() };
        assert(pager@.quotes =~= Seq::<QuoteView>::empty());
        pager
    }

    /// The page to ask for now, or `None` once the listing has ended.
    pub fn next_page(&self) -> (r: Option<i32>)
        ensures
            r == if self@.finished {
                None
            } else {
                Some(self@.page as i32)
            },
            r matches Some(page) ==> page == self@.page,
    {
        if self.finished {
            None
        } else {
            Some(self.page)
        }
    }

    /// Takes in the page that was asked for.
    ///
    /// The page counter is a 32-bit number: a walk that is still going on and
    /// has reached the last number there is can take in an empty page, which
    /// ends it, and no other.
    pub fn accept(&mut self, page: Vec<PriceQuote>)
        requires
            old(self)@.finished || page@.len() == 0 || old(self)@.page < i32::MAX,
        ensures
            final(self)@ == after_page(old(self)@, quote_views(page@)),
    {
        if self.finished {
            return ;
        }
        if page.len() == 0 {
            self.finished = true;
            return ;
        }
        let ghost before = quote_views(self.quotes@);
        let mut page = page;
        let ghost added = quote_views(page@);
        self.quotes.append(&mut page);
        self.page = self.page + 1;
        assert(quote_views(self.quotes@) =~= before + added);
    }

    /// Whether the listing has ended.
    pub fn is_finished(&self) -> (r: bool)
        ensures
            r == self@.finished,
    {
        self.finished
    }

    /// The quotes gathered, in the order of the pages.
    pub fn into_quotes(self) -> (r: Vec<PriceQuote>)
        ensures
            quote_views(r@) == self@.quotes,
    {
        self.quotes
    }
}

/// All the quotes of a run of pages, in order.
pub open spec fn all_quotes(pages: Seq<Seq<QuoteView>>) -> Seq<QuoteView>
    decreases pages.len(),
{
    if pages.len() == 0 {
        Seq::empty()
    } else {
        all_quotes(pages.drop_last()) + pages.last()
    }
}

/// As long as the pages that come back hold something, the walk goes on: each
/// page is appended and the next one is asked for.
pub proof fn walk_continues(pages: Seq<Seq<QuoteView>>)
    requires
        forall|i: int| 0 <= i < pages.len() ==> (#[trigger] pages[i]).len() > 0,
    ensures
        !after_pages(start(), pages).finished,
        after_pages(start(), pages).page == FIRST_PAGE + pages.len(),
        after_pages(start(), pages).quotes == all_quotes(pages),
        pages_received(after_pages(start(), pages)) == pages.len(),
    decreases pages.len(),
{
    if pages.len() > 0 {
        let earlier = pages.drop_last();
        assert forall|i: int| 0 <= i < earlier.len() implies (#[trigger] earlier[i]).len() > 0 by {
            assert(earlier[i] == pages[i]);
        }
        walk_continues(earlier);
    }
}

/// The total length of a run of pages that all have the same length.
pub proof fn even_pages_total(pages: Seq<Seq<QuoteView>>, size: nat)
    requires
        forall|i: int| 0 <= i < pages.len() ==> (#[trigger] pages[i]).len() == size,
    ensures
        all_quotes(pages).len() == size * pages.len(),
    decreases pages.len(),
{
    if pages.len() > 0 {
        let earlier = pages.drop_last();
        assert forall|i: int| 0 <= i < earlier.len() implies (#[trigger] earlier[i]).len() == size by {
            assert(earlier[i] == pages[i]);
        }
        even_pages_total(earlier, size);
        assert(size * pages.len() == size * earlier.len() + size) by (nonlinear_arith)
            requires
                pages.len() == earlier.len() + 1,
        ;
    }
}

/// No more pages are received than were handed in, and a walk that has ended
/// stays ended.
pub proof fn walk_receives_at_most(pages: Seq<Seq<QuoteView>>, k: int)
    requires
        0 <= k <= pages.len(),
    ensures
        pages_received(after_pages(start(), pages)) <= pages.len(),
        after_pages(start(), pages.take(k)).finished ==> after_pages(start(), pages)
            == after_pages(start(), pages.take(k)),
    decreases pages.len(),
{
    if pages.len() > 0 {
        if k == pages.len() {
            assert(pages.take(k) =~= pages);
            walk_receives_at_most(pages.drop_last(), 0);
        } else {
            walk_receives_at_most(pages.drop_last(), k);
            assert(pages.drop_last().take(k) =~= pages.take(k));
        }
    } else {
        assert(pages.take(k) =~= pages);
    }
}

/// A listing that has an empty page is walked to its end with no more
/// requests than it takes to reach that page, whatever the sizes of the pages
/// before it: once the page at position `m` has come back empty, the walk has
/// ended, at most `m + 1` pages have been asked for, and no page that is
/// handed in later changes that.
pub proof fn walk_ends_by_an_empty_page(pages: Seq<Seq<QuoteView>>, m: int)
    requires
        0 <= m < pages.len(),
        pages[m].len() == 0,
    ensures
        after_pages(start(), pages.take(m + 1)).finished,
        pages_received(after_pages(start(), pages.take(m + 1))) <= m + 1,
        after_pages(start(), pages) == after_pages(start(), pages.take(m + 1)),
{
    let upto = pages.take(m + 1);
    assert(upto.last() == pages[m]);
    walk_receives_at_most(upto, 0);
    walk_receives_at_most(pages, m + 1);
}

/// The walk ends at the first empty page, however long the listing is: after
/// each of the `n` pages before it another page is due, the empty page ends
/// the walk, `n + 1` pages have then been asked for, and what was gathered is
/// the `n` pages before the empty one.
pub proof fn walk_ends_at_first_empty_page(pages: Seq<Seq<QuoteView>>, n: nat)
    requires
        pages.len() == n + 1,
        forall|i: int| 0 <= i < n ==> (#[trigger] pages[i]).len() > 0,
        pages[n as int].len() == 0,
    ensures
        forall|k: int| 0 <= k <= n ==> !(#[trigger] after_pages(start(), pages.take(k))).finished,
        forall|k: int|
            0 <= k <= n ==> (#[trigger] after_pages(start(), pages.take(k))).page == FIRST_PAGE + k,
        after_pages(start(), pages).finished,
        pages_received(after_pages(start(), pages)) == n + 1,
        after_pages(start(), pages).quotes == all_quotes(pages.take(n as int)),
{
    assert forall|k: int| 0 <= k <= n implies !(#[trigger] after_pages(
        start(),
        pages.take(k),
    )).finished && after_pages(start(), pages.take(k)).page == FIRST_PAGE + k by {
        walk_continues(pages.take(k));
    }
    walk_continues(pages.take(n as int));
}

/// A listing of `n` full pages followed by an empty one is walked with exactly
/// `n + 1` requests, and `PAGE_SIZE * n` quotes are gathered.
pub proof fn full_pages_then_empty(pages: Seq<Seq<QuoteView>>, n: nat)
    requires
        pages.len() == n + 1,
        forall|i: int| 0 <= i < n ==> (#[trigger] pages[i]).len() == PAGE_SIZE,
        pages[n as int].len() == 0,
    ensures
        after_pages(start(), pages).finished,
        pages_received(after_pages(start(), pages)) == n + 1,
        after_pages(start(), pages).quotes == all_quotes(pages.take(n as int)),
        after_pages(start(), pages).quotes.len() == PAGE_SIZE * n,
{
    walk_ends_at_first_empty_page(pages, n);
    even_pages_total(pages.take(n as int), PAGE_SIZE as nat);
}

} // verus!
