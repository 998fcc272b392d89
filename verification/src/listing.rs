//! The paginated listing of Drive collections. Fetching a page is the
//! caller's work; this module decides which page to ask for next, gathers
//! the items, and decides when the listing is complete or must give up.

use vstd::prelude::*;
use crate::drive::{ListKind, MAX_LIST_PAGES};
use crate::urls::{
    files_list_url, files_list_url_spec, opt_view, revisions_list_url, revisions_list_url_spec,
};

verus! {

/// A listing in progress: the items gathered so far, how many pages have
/// been fetched, and the token of the page to fetch next.
pub struct PagedListing<T> {
    collected: Vec<T>,
    pages_fetched: usize,
    page_token: Option<String>,
}

/// The view of an optional owned text.
pub open spec fn opt_string_view(o: Option<String>) -> Option<Seq<char>> {
    match o {
        Some(t) => Some(t@),
        None => None,
    }
}

/// The state of a listing as seen from outside, and what one page does to it.
pub enum StepView<T> {
    /// Still in progress, with the items so far, the pages fetched, and the
    /// token of the next page.
    Fetch(Seq<T>, nat, Seq<char>),
    /// Complete, with all items.
    Complete(Seq<T>),
    /// Given up at the page limit, with the number of items gathered.
    Exhausted(nat),
}

/// One step of a listing: a listing that holds `items` after `pages` pages
/// receives a page of `page_items` that names `next` as the next page.
pub open spec fn step_spec<T>(items: Seq<T>, pages: nat, page_items: Seq<T>, next: Option<Seq<char>>) -> StepView<T> {
    match next {
        None => StepView::Complete(items + page_items),
        Some(t) => if pages + 1 < MAX_LIST_PAGES {
            StepView::Fetch(items + page_items, pages + 1, t)
        } else {
            StepView::Exhausted(items.len() + page_items.len())
        },
    }
}

/// What follows the receipt of one page.
pub enum ListingStep<T> {
    /// More pages remain: fetch the page that the listing now names.
    FetchNext(PagedListing<T>),
    /// The last page arrived: all items, in the order the pages gave them.
    Complete(Vec<T>),
    /// The page limit was reached while pages remained; the number of items
    /// gathered so far.
    Exhausted(usize),
}

impl<T> ListingStep<T> {
    /// The outside view of this step.
    pub open spec fn view_step(&self) -> StepView<T> {
        match self {
            ListingStep::FetchNext(next) => StepView::Fetch(
                next.items(),
                next.pages(),
                match next.token() {
                    Some(t) => t,
                    None => Seq::empty(),
                },
            ),
            ListingStep::Complete(all) => StepView::Complete(all@),
            ListingStep::Exhausted(count) => StepView::Exhausted(*count as nat),
        }
    }
}

impl<T> PagedListing<T> {
    /// The items gathered so far.
    pub closed spec fn items(&self) -> Seq<T> {
        self.collected@
    }

    /// The number of pages fetched so far.
    pub closed spec fn pages(&self) -> nat {
        self.pages_fetched as nat
    }

    /// The token of the next page to fetch (none for the first page).
    pub closed spec fn token(&self) -> Option<Seq<char>> {
        match self.page_token {
            Some(t) => Some(t@),
            None => None,
        }
    }

    /// A listing in progress always has a page left to fetch; the first
    /// request carries no token and every later one does; nothing is
    /// gathered before the first page.
    pub closed spec fn well_formed(&self) -> bool {
        &&& self.pages_fetched < MAX_LIST_PAGES
        &&& (self.pages_fetched == 0 <==> self.page_token is None)
        &&& (self.pages_fetched == 0 ==> self.collected@.len() == 0)
    }

    /// The facts that hold of every listing in progress.
    pub proof fn lemma_in_progress(&self)
        requires
            self.well_formed(),
        ensures
            self.pages() < MAX_LIST_PAGES,
            self.pages() == 0 <==> self.token() is None,
            self.pages() == 0 ==> self.items().len() == 0,
    {
    }

    /// A listing that has fetched nothing yet.
    pub fn new() -> (res: Self)
        ensures
            res.well_formed(),
            res.items().len() == 0,
            res.pages() == 0,
            res.token() is None,
    {
        PagedListing { collected: Vec::new(), pages_fetched: 0, page_token: None }
    }

    fn token_str(&self) -> (res: Option<&str>)
        ensures
            opt_view(res) == self.token(),
    {
        match &self.page_token {
            Some(t) => Some(t.as_str()),
            None => None,
        }
    }

    /// The files.list URL of the next page to fetch.
    pub fn files_url(&self) -> (res: String)
        ensures
            res@ == files_list_url_spec(self.token()),
    {
        files_list_url(self.token_str())
    }

    /// The revisions.list URL of the next page of `file_id`'s revisions.
    pub fn revisions_url(&self, file_id: &str) -> (res: String)
        ensures
            res@ == revisions_list_url_spec(file_id@, self.token()),
    {
        revisions_list_url(file_id, self.token_str())
    }

    /// The URL of the next page of the listing `kind`.
    pub fn next_url(&self, kind: &ListKind) -> (res: String)
        ensures
            res@ == match *kind {
                ListKind::Files => files_list_url_spec(self.token()),
                ListKind::Revisions { file_id } => revisions_list_url_spec(file_id@, self.token()),
            },
    {
        match kind {
            ListKind::Files => self.files_url(),
            ListKind::Revisions { file_id } => self.revisions_url(file_id.as_str()),
        }
    }

    /// Records the page just fetched: its items and the token it named for
    /// the next page. Without a token the listing is complete; with one it
    /// goes on, unless the page limit is reached.
    pub fn record_page(self, page_items: Vec<T>, next_page_token: Option<String>) -> (res: ListingStep<T>)
        requires
            self.well_formed(),
        ensures
            res.view_step() == step_spec(self.items(), self.pages(), page_items@, opt_string_view(next_page_token)),
            res matches ListingStep::FetchNext(next) ==> next.well_formed(),
            res matches ListingStep::FetchNext(next) ==> {
                &&& next_page_token is Some
                &&& next.token() == Some(next_page_token->0@)
                &&& next.items() == self.items() + page_items@
                &&& next.pages() == self.pages() + 1
            },
            res matches ListingStep::Complete(all) ==> next_page_token is None && all@ == self.items()
                + page_items@,
            res matches ListingStep::Exhausted(count) ==> next_page_token is Some && count
                == self.items().len() + page_items@.len(),
            next_page_token is None ==> res is Complete,
            next_page_token is Some && self.pages() + 1 < MAX_LIST_PAGES ==> res is FetchNext,
            next_page_token is Some && self.pages() + 1 >= MAX_LIST_PAGES ==> res is Exhausted,
    {
        let PagedListing { mut collected, pages_fetched, page_token: _ } = self;
        let mut page_items = page_items;
        let ghost old_collected = collected@;
        let ghost old_page = page_items@;
        collected.append(&mut page_items);
        assert(collected@ == old_collected + old_page);
        match next_page_token {
            None => ListingStep::Complete(collected),
            Some(token) => {
                let pages = pages_fetched + 1;
                if pages < MAX_LIST_PAGES {
                    ListingStep::FetchNext(
                        PagedListing { collected, pages_fetched: pages, page_token: Some(token) },
                    )
                } else {
                    ListingStep::Exhausted(collected.len())
                }
            },
        }
    }
}

/// Where a whole listing stands after receiving `pages` in order.
pub enum ListingOutcome<T> {
    /// More pages are wanted: the items so far and the number of pages.
    InProgress(Seq<T>, nat),
    /// The listing is complete with these items.
    Complete(Seq<T>),
    /// The listing gave up at the page limit with this many items.
    Exhausted(nat),
}

/// The outcome of a fresh listing that receives `pages` (items and next
/// token of each) one after the other; pages received after the listing
/// ended change nothing.
pub open spec fn run_listing<T>(pages: Seq<(Seq<T>, Option<Seq<char>>)>) -> ListingOutcome<T>
    decreases pages.len(),
{
    if pages.len() == 0 {
        ListingOutcome::InProgress(Seq::empty(), 0)
    } else {
        let last = pages.last();
        match run_listing(pages.drop_last()) {
            ListingOutcome::InProgress(items, n) => match step_spec(items, n, last.0, last.1) {
                StepView::Fetch(all, m, _) => ListingOutcome::InProgress(all, m),
                StepView::Complete(all) => ListingOutcome::Complete(all),
                StepView::Exhausted(c) => ListingOutcome::Exhausted(c),
            },
            done => done,
        }
    }
}

/// The items of the first `k` pages, in order.
pub open spec fn items_of<T>(pages: Seq<(Seq<T>, Option<Seq<char>>)>, k: int) -> Seq<T>
    decreases k,
{
    if k <= 0 || k > pages.len() {
        Seq::empty()
    } else {
        items_of(pages, k - 1) + pages[k - 1].0
    }
}

/// Each of the first `k` pages names a next page.
pub open spec fn all_name_next<T>(pages: Seq<(Seq<T>, Option<Seq<char>>)>, k: int) -> bool {
    forall|j: int| 0 <= j < k ==> (#[trigger] pages[j]).1 is Some
}

proof fn lemma_items_of_prefix<T>(pages: Seq<(Seq<T>, Option<Seq<char>>)>, k: int)
    requires
        pages.len() > 0,
        0 <= k < pages.len(),
    ensures
        items_of(pages, k) == items_of(pages.drop_last(), k),
    decreases k,
{
    if k > 0 {
        lemma_items_of_prefix(pages, k - 1);
        assert(pages.drop_last()[k - 1] == pages[k - 1]);
    }
}

/// How a listing ends: it completes at the first page that names no next
/// page (if that page comes within the page limit) with the items of all
/// pages up to it, in order; it gives up after the limit's worth of pages
/// that all named a next page; and until either, it holds every item
/// received.
pub proof fn lemma_run_listing_cases<T>(pages: Seq<(Seq<T>, Option<Seq<char>>)>)
    ensures
        all_name_next(pages, pages.len() as int) && pages.len() < MAX_LIST_PAGES
            ==> run_listing(pages) == ListingOutcome::InProgress(items_of(pages, pages.len() as int), pages.len()),
        pages.len() >= MAX_LIST_PAGES && all_name_next(pages, MAX_LIST_PAGES as int)
            ==> run_listing(pages) == ListingOutcome::<T>::Exhausted(items_of(pages, MAX_LIST_PAGES as int).len()),
        forall|k: int|
            0 <= k < pages.len() && k < MAX_LIST_PAGES && (#[trigger] pages[k]).1 is None && all_name_next(pages, k)
                ==> run_listing(pages) == ListingOutcome::Complete(items_of(pages, k + 1)),
    decreases pages.len(),
{
    let n = pages.len() as int;
    if n > 0 {
        let prev = pages.drop_last();
        lemma_run_listing_cases(prev);
        let last = pages.last();
        assert forall|j: int| 0 <= j < n - 1 implies #[trigger] prev[j] == pages[j] by {}
        if exists|k: int| 0 <= k < n - 1 && k < MAX_LIST_PAGES && (#[trigger] pages[k]).1 is None && all_name_next(pages, k) {
            let k = choose|k: int| 0 <= k < n - 1 && k < MAX_LIST_PAGES && (#[trigger] pages[k]).1 is None && all_name_next(pages, k);
            assert(prev[k] == pages[k]);
            assert(all_name_next(prev, k));
            lemma_items_of_prefix(pages, k + 1);
            assert(run_listing(prev) == ListingOutcome::Complete(items_of(prev, k + 1)));
            assert forall|k2: int|
                0 <= k2 < n && k2 < MAX_LIST_PAGES && (#[trigger] pages[k2]).1 is None && all_name_next(pages, k2)
                implies k2 == k by {
                if k2 < k {
                    assert(pages[k2].1 is Some);
                } else if k2 > k {
                    assert(pages[k].1 is Some);
                }
            }
        } else if n - 1 >= MAX_LIST_PAGES && all_name_next(pages, MAX_LIST_PAGES as int) {
            assert(all_name_next(prev, MAX_LIST_PAGES as int));
            lemma_items_of_prefix(pages, MAX_LIST_PAGES as int);
        } else {
            // No page before the last one ended the listing, and fewer than
            // the limit came before it.
            assert(all_name_next(prev, n - 1)) by {
                assert forall|j: int| 0 <= j < n - 1 implies (#[trigger] prev[j]).1 is Some by {
                    if prev[j].1 is None {
                        assert(pages[j].1 is None);
                        let k = lemma_first_missing_next(pages, j);
                        if n - 1 >= MAX_LIST_PAGES {
                            assert(all_name_next(pages, MAX_LIST_PAGES as int));
                        }
                    }
                }
            }
            if n - 1 >= MAX_LIST_PAGES {
                assert(all_name_next(pages, MAX_LIST_PAGES as int));
            }
            lemma_items_of_prefix(pages, n - 1);
            assert(run_listing(prev) == ListingOutcome::InProgress(items_of(pages, n - 1), (n - 1) as nat));
            assert(items_of(pages, n) == items_of(pages, n - 1) + last.0);
            if last.1 is None {
                assert forall|k2: int|
                    0 <= k2 < n && k2 < MAX_LIST_PAGES && (#[trigger] pages[k2]).1 is None && all_name_next(pages, k2)
                    implies k2 == n - 1 by {
                    if k2 < n - 1 {
                        assert(prev[k2] == pages[k2]);
                    }
                }
            } else {
                assert(all_name_next(pages, n));
                assert forall|k2: int|
                    0 <= k2 < n && k2 < MAX_LIST_PAGES && (#[trigger] pages[k2]).1 is None && all_name_next(pages, k2)
                    implies false by {
                    if k2 < n - 1 {
                        assert(prev[k2] == pages[k2]);
                    }
                }
            }
        }
    }
}

/// Some page among the first `j + 1` names no next page: the first such
/// page.
proof fn lemma_first_missing_next<T>(pages: Seq<(Seq<T>, Option<Seq<char>>)>, j: int) -> (k: int)
    requires
        0 <= j < pages.len(),
        pages[j].1 is None,
    ensures
        0 <= k <= j,
        pages[k].1 is None,
        all_name_next(pages, k),
    decreases j,
{
    if all_name_next(pages, j) {
        j
    } else {
        let j2 = choose|j2: int| 0 <= j2 < j && (#[trigger] pages[j2]).1 is None;
        lemma_first_missing_next(pages, j2)
    }
}

/// A listing never asks for more pages than the limit: while it is in
/// progress every page received named a next page, fewer than the limit
/// were received, and it holds all their items in order.
pub proof fn lemma_listing_in_progress_is_bounded<T>(pages: Seq<(Seq<T>, Option<Seq<char>>)>)
    ensures
        run_listing(pages) is InProgress ==> {
            &&& pages.len() < MAX_LIST_PAGES
            &&& all_name_next(pages, pages.len() as int)
            &&& run_listing(pages) == ListingOutcome::InProgress(items_of(pages, pages.len() as int), pages.len())
        },
        pages.len() >= MAX_LIST_PAGES ==> !(run_listing(pages) is InProgress),
{
    lemma_run_listing_cases(pages);
    let n = pages.len() as int;
    if !all_name_next(pages, n) {
        let j = choose|j: int| 0 <= j < n && (#[trigger] pages[j]).1 is None;
        let k = lemma_first_missing_next(pages, j);
        if k < MAX_LIST_PAGES {
            assert(run_listing(pages) == ListingOutcome::Complete(items_of(pages, k + 1)));
        } else {
            assert(all_name_next(pages, MAX_LIST_PAGES as int));
        }
    } else if n >= MAX_LIST_PAGES {
        assert(all_name_next(pages, MAX_LIST_PAGES as int));
    }
}

/// One page moves a listing on as follows: a page without a next token
/// ends it with every item received, in order; a page that names a token
/// `t` keeps it going with all items so far and exactly `t` as the token of
/// the next request, whatever `t` holds; at the page limit it gives up,
/// counting every item received.
pub proof fn lemma_step_keeps_items_and_token<T>(
    items: Seq<T>,
    pages: nat,
    page_items: Seq<T>,
    next: Option<Seq<char>>,
)
    ensures
        next is None ==> (step_spec(items, pages, page_items, next) matches StepView::Complete(all)
            && all.len() == items.len() + page_items.len()
            && (forall|i: int| 0 <= i < items.len() ==> all[i] == items[i])
            && (forall|i: int| 0 <= i < page_items.len() ==> all[items.len() + i] == page_items[i])),
        next is Some ==> (pages + 1 < MAX_LIST_PAGES <==> step_spec(items, pages, page_items, next) is Fetch),
        next is Some && pages + 1 < MAX_LIST_PAGES ==> (step_spec(items, pages, page_items, next)
            matches StepView::Fetch(all, n, t2)
            && Some(t2) == next
            && n == pages + 1
            && all.len() == items.len() + page_items.len()
            && (forall|i: int| 0 <= i < items.len() ==> all[i] == items[i])
            && (forall|i: int| 0 <= i < page_items.len() ==> all[items.len() + i] == page_items[i])),
        next is Some && pages + 1 >= MAX_LIST_PAGES ==> (step_spec(items, pages, page_items, next)
            matches StepView::Exhausted(c) && c == items.len() + page_items.len()),
{
}

} // verus!
