//! The crawl as a machine: from what has come back, what to do next.
//!
//! The crawl goes through the categories one at a time. For each it fetches
//! the first page of the listing, then all its pages, then the pages of the
//! advertisements, then reads the advertisements and hands them out, and
//! pauses before the next category. Only the two first steps, which find the
//! categories, can end the crawl early.

use crate::dispatch::{lemma_present_members, present, successes};
use crate::listing::{collect_page_ads, lemma_union_links, page_links, union_links};
use crate::markup::selected_texts;
use crate::parser::{
    all_pages, get_categories, links_in, listing_pages, page_count, Ad, FetchError, HtmlResponse,
    CATEGORY_SELECTOR, PAGER_SELECTOR,
};
use crate::text::texts;
use crate::utils::{page_urls, table_name, table_of};
use crate::SALES;
use vstd::prelude::*;
use vstd::string::*;

verus! {

/// How many requests may be under way at once, at each point where the crawl
/// fans out.
pub const CONCURRENCY: usize = 10;

/// The pause after each category, in seconds.
pub const COOLDOWN_SECS: u64 = 5;

/// Where the crawl stands.
#[derive(Clone, Copy, Debug, PartialEq, Eq)]
pub enum Stage {
    /// Nothing has been asked for yet.
    Start,
    /// The page of all sales has been asked for.
    SalesRoot,
    /// The first page of the listing of the current category has been asked for.
    Listing,
    /// All pages of the listing have been asked for.
    Pages,
    /// The pages of the advertisements have been asked for.
    AdBodies,
    /// The advertisements are being read from their pages.
    Extraction,
    /// The advertisements are being handed out.
    Emission,
    /// The pause after the category is being taken.
    Cooldown,
    /// Every category has been gone through.
    Done,
    /// The categories could not be found.
    Failed,
}

/// What has come back.
#[derive(Debug)]
pub enum Event {
    /// The crawl is to begin.
    Begin,
    /// The page that was asked for, or why it could not be had.
    Fetched(Result<HtmlResponse, FetchError>),
    /// The pages that were asked for together, one outcome for each.
    Dispatched(Vec<Option<HtmlResponse>>),
    /// The advertisements read, one outcome for each page.
    Extracted(Vec<Option<Ad>>),
    /// The advertisements have been handed out.
    Emitted,
    /// The pause is over.
    Slept,
}

/// What to do next.
#[derive(Debug)]
pub enum Action {
    /// Fetch the page at this address.
    Fetch(String),
    /// Fetch the pages at these addresses, at most `limit` at once.
    Dispatch { urls: Vec<String>, limit: usize },
    /// Read one advertisement from each page, at most `limit` at once.
    Extract { pages: Vec<HtmlResponse>, limit: usize },
    /// Put one row for each advertisement at the end of the table.
    Emit { table: String, ads: Vec<Ad> },
    /// Pause for this many seconds.
    Sleep(u64),
    /// The crawl is over.
    Finish,
    /// The crawl cannot go on.
    Abort,
}

/// What an action says.
pub enum ActionView {
    Fetch(Seq<char>),
    Dispatch { urls: Seq<Seq<char>>, limit: usize },
    Extract { pages: Seq<HtmlResponse>, limit: usize },
    Emit { table: Seq<char>, ads: Seq<Ad> },
    Sleep(u64),
    Finish,
    Abort,
}

impl View for Action {
    type V = ActionView;

    open spec fn view(&self) -> ActionView {
        match *self {
            Action::Fetch(url) => ActionView::Fetch(url@),
            Action::Dispatch { urls, limit } => ActionView::Dispatch { urls: texts(urls@), limit },
            Action::Extract { pages, limit } => ActionView::Extract { pages: pages@, limit },
            Action::Emit { table, ads } => ActionView::Emit { table: table@, ads: ads@ },
            Action::Sleep(secs) => ActionView::Sleep(secs),
            Action::Finish => ActionView::Finish,
            Action::Abort => ActionView::Abort,
        }
    }
}

/// To fetch the pages at `urls`, as many at once as the crawl allows.
pub open spec fn dispatch_of(urls: Seq<Seq<char>>) -> ActionView {
    ActionView::Dispatch { urls, limit: CONCURRENCY }
}

/// To read the advertisements of `pages`, as many at once as the crawl
/// allows.
pub open spec fn extract_of(pages: Seq<HtmlResponse>) -> ActionView {
    ActionView::Extract { pages, limit: CONCURRENCY }
}

/// What a crawl is: where it stands, the categories it found, and which of
/// them it is going through.
pub struct CrawlView {
    pub stage: Stage,
    pub categories: Seq<Seq<char>>,
    pub current: nat,
}

impl CrawlView {
    /// Whether the crawl is going through a category.
    pub open spec fn in_category(self) -> bool {
        self.stage == Stage::Listing || self.stage == Stage::Pages || self.stage == Stage::AdBodies
            || self.stage == Stage::Extraction || self.stage == Stage::Emission || self.stage
            == Stage::Cooldown
    }

    /// While the crawl goes through a category, there is such a category.
    pub open spec fn wf(self) -> bool {
        self.in_category() ==> self.current < self.categories.len()
    }

    /// The address of the category that the crawl is going through.
    pub open spec fn category(self) -> Seq<char> {
        self.categories[self.current as int]
    }

    /// The crawl at another stage.
    pub open spec fn at(self, stage: Stage) -> Self {
        CrawlView { stage, ..self }
    }

    /// After the page of all sales: the first category, the end if there is
    /// none, and no crawl at all if the categories cannot be found.
    pub open spec fn bootstrap(self, reply: Result<HtmlResponse, FetchError>) -> (Self, ActionView) {
        match reply {
            Ok(page) => match links_in(page.html@, CATEGORY_SELECTOR@) {
                Some(categories) => if categories.len() > 0 {
                    (
                        CrawlView { stage: Stage::Listing, categories, current: 0 },
                        ActionView::Fetch(categories[0]),
                    )
                } else {
                    (CrawlView { stage: Stage::Done, categories, current: 0 }, ActionView::Finish)
                },
                None => (self.at(Stage::Failed), ActionView::Abort),
            },
            Err(_) => (self.at(Stage::Failed), ActionView::Abort),
        }
    }

    /// After the first page of a listing: all its pages. A listing that
    /// cannot be had or read ends the category, not the crawl.
    pub open spec fn enumerate(self, reply: Result<HtmlResponse, FetchError>) -> (Self, ActionView) {
        match reply {
            Ok(page) => match listing_pages(page.html@, self.category()) {
                Some(pages) => (self.at(Stage::Pages), dispatch_of(pages)),
                None => (self.at(Stage::Cooldown), ActionView::Sleep(COOLDOWN_SECS)),
            },
            Err(_) => (self.at(Stage::Cooldown), ActionView::Sleep(COOLDOWN_SECS)),
        }
    }

    /// After the pause: the next category, or the end after the last.
    pub open spec fn advance(self) -> (Self, ActionView) {
        if self.current + 1 < self.categories.len() {
            (
                CrawlView { stage: Stage::Listing, current: self.current + 1, ..self },
                ActionView::Fetch(self.categories[self.current as int + 1]),
            )
        } else {
            (self.at(Stage::Done), ActionView::Finish)
        }
    }

    /// The crawl after `event` and what to do then; `None` for an event that
    /// the crawl does not wait for where it stands.
    pub open spec fn step(self, event: Event) -> Option<(Self, ActionView)> {
        match (self.stage, event) {
            (Stage::Start, Event::Begin) => Some(
                (self.at(Stage::SalesRoot), ActionView::Fetch(SALES@)),
            ),
            (Stage::SalesRoot, Event::Fetched(reply)) => Some(self.bootstrap(reply)),
            (Stage::Listing, Event::Fetched(reply)) => Some(self.enumerate(reply)),
            (Stage::Pages, Event::Dispatched(outcomes)) => Some(
                (
                    self.at(Stage::AdBodies),
                    dispatch_of(union_links(present(outcomes@))),
                ),
            ),
            (Stage::AdBodies, Event::Dispatched(outcomes)) => Some(
                (self.at(Stage::Extraction), extract_of(present(outcomes@))),
            ),
            (Stage::Extraction, Event::Extracted(outcomes)) => Some(
                (
                    self.at(Stage::Emission),
                    ActionView::Emit {
                        table: table_name(self.category()),
                        ads: present(outcomes@),
                    },
                ),
            ),
            (Stage::Emission, Event::Emitted) => Some(
                (self.at(Stage::Cooldown), ActionView::Sleep(COOLDOWN_SECS)),
            ),
            (Stage::Cooldown, Event::Slept) => Some(self.advance()),
            _ => None,
        }
    }
}

/// Every step leaves a crawl that is well formed.
pub proof fn lemma_step_wf(crawl: CrawlView, event: Event)
    requires
        crawl.wf(),
    ensures
        crawl.step(event) matches Some((next, _)) ==> next.wf(),
{
}

/// A listing whose markup announces `count` pages has exactly `count` pages
/// fetched: pages 1 to `count` of the category.
pub proof fn lemma_all_pages_dispatched(
    crawl: CrawlView,
    page: HtmlResponse,
    found: Seq<Seq<Seq<char>>>,
    count: nat,
)
    requires
        crawl.wf(),
        crawl.stage == Stage::Listing,
        selected_texts(page.html@, PAGER_SELECTOR@) == Some(found),
        page_count(found) == Some(count),
    ensures
        crawl.step(Event::Fetched(Ok(page))) == Some(
            (
                crawl.at(Stage::Pages),
                dispatch_of(page_urls(crawl.category(), count)),
            ),
        ),
        page_urls(crawl.category(), count).len() == count,
{
}

/// A listing whose markup announces no number of pages has one page
/// fetched: the address of the category itself.
pub proof fn lemma_single_page(crawl: CrawlView, page: HtmlResponse, found: Seq<Seq<Seq<char>>>)
    requires
        crawl.wf(),
        crawl.stage == Stage::Listing,
        selected_texts(page.html@, PAGER_SELECTOR@) == Some(found),
        page_count(found) is None,
    ensures
        crawl.step(Event::Fetched(Ok(page))) == Some(
            (crawl.at(Stage::Pages), dispatch_of(seq![crawl.category()])),
        ),
        found.len() == 0 ==> page_count(found) is None,
{
}

/// The advertisements asked for after the pages of a listing are those that
/// the pages fetched link to: each address stands in the markup of a page
/// that came back, every address of such a page is asked for, and none
/// twice.
pub proof fn lemma_ads_come_from_pages(crawl: CrawlView, outcomes: Vec<Option<HtmlResponse>>)
    requires
        crawl.stage == Stage::Pages,
    ensures
        crawl.step(Event::Dispatched(outcomes)) == Some(
            (
                crawl.at(Stage::AdBodies),
                dispatch_of(union_links(present(outcomes@))),
            ),
        ),
        union_links(present(outcomes@)).no_duplicates(),
        forall|url: Seq<char>| #[trigger]
            union_links(present(outcomes@)).contains(url) <==> exists|i: int|
                0 <= i < outcomes@.len() && came_back_with(#[trigger] outcomes@[i], url),
{
    let pages = present(outcomes@);
    lemma_union_links(pages);
    lemma_present_members(outcomes@);
    assert forall|url: Seq<char>| #[trigger]
        union_links(pages).contains(url) <==> exists|i: int|
            0 <= i < outcomes@.len() && came_back_with(#[trigger] outcomes@[i], url) by {
        if union_links(pages).contains(url) {
            let k = choose|k: int|
                0 <= k < pages.len() && #[trigger] page_links(pages[k].html@).contains(url);
            let i = choose|i: int|
                0 <= i < outcomes@.len() && #[trigger] outcomes@[i] == Some(pages[k]);
            assert(came_back_with(outcomes@[i], url));
        }
        if exists|i: int| 0 <= i < outcomes@.len() && came_back_with(#[trigger] outcomes@[i], url) {
            let i = choose|i: int|
                0 <= i < outcomes@.len() && came_back_with(#[trigger] outcomes@[i], url);
            assert(outcomes@[i] is Some);
            assert(pages.contains(outcomes@[i].unwrap()));
            let k = choose|k: int| 0 <= k < pages.len() && pages[k] == outcomes@[i].unwrap();
            assert(page_links(pages[k].html@).contains(url));
        }
    }
}

/// Whether a page came back and links to the advertisement at `url`.
pub open spec fn came_back_with(outcome: Option<HtmlResponse>, url: Seq<char>) -> bool {
    match outcome {
        Some(page) => page_links(page.html@).contains(url),
        None => false,
    }
}

/// Only the search for the categories can end the crawl early: whatever
/// happens inside a category, the crawl goes on.
pub proof fn lemma_only_bootstrap_aborts(crawl: CrawlView, event: Event)
    requires
        crawl.step(event) is Some,
    ensures
        crawl.step(event).unwrap().1 is Abort || crawl.step(event).unwrap().0.stage
            == Stage::Failed ==> crawl.stage == Stage::SalesRoot,
{
}

/// A category begins after the pause that follows the category before it:
/// apart from the first, the first page of a listing is asked for only when
/// a pause is over, and it is the listing of the next category.
pub proof fn lemma_pause_between_categories(crawl: CrawlView, event: Event)
    requires
        crawl.wf(),
        crawl.step(event) is Some,
        crawl.step(event).unwrap().0.stage == Stage::Listing,
    ensures
        ({
            let next = crawl.step(event).unwrap().0;
            &&& crawl.step(event).unwrap().1 == ActionView::Fetch(next.category())
            &&& crawl.stage == Stage::SalesRoot || crawl.stage == Stage::Cooldown
            &&& crawl.stage == Stage::SalesRoot ==> next.current == 0
            &&& crawl.stage == Stage::Cooldown ==> event is Slept && next.current == crawl.current
                + 1 && next.categories == crawl.categories
        }),
{
}

/// A crawl of the site.
pub struct Crawl {
    stage: Stage,
    categories: Vec<String>,
    current: usize,
}

impl View for Crawl {
    type V = CrawlView;

    closed spec fn view(&self) -> CrawlView {
        CrawlView {
            stage: self.stage,
            categories: texts(self.categories@),
            current: self.current as nat,
        }
    }
}

impl Crawl {
    /// What holds of every crawl that this library hands out.
    pub open spec fn wf(&self) -> bool {
        self@.wf()
    }

    /// A crawl that has not begun.
    pub fn new() -> (crawl: Crawl)
        ensures
            crawl.wf(),
            crawl@ == (CrawlView { stage: Stage::Start, categories: Seq::empty(), current: 0 }),
    {
        let crawl = Crawl { stage: Stage::Start, categories: Vec::new(), current: 0 };
        assert(texts(crawl.categories@) =~= Seq::<Seq<char>>::empty());
        crawl
    }

    /// A crawl of the one category at `category`, about to ask for the
    /// first page of its listing.
    pub fn of_category(category: &str) -> (r: (Crawl, Action))
        ensures
            r.0.wf(),
            r.0@ == (CrawlView { stage: Stage::Listing, categories: seq![category@], current: 0 }),
            r.1@ == ActionView::Fetch(category@),
    {
        let mut categories: Vec<String> = Vec::new();
        categories.push(String::from_str(category));
        let crawl = Crawl { stage: Stage::Listing, categories, current: 0 };
        assert(texts(crawl.categories@) =~= seq![category@]);
        (crawl, Action::Fetch(String::from_str(category)))
    }

    /// Where the crawl stands.
    pub fn stage(&self) -> (stage: Stage)
        ensures
            stage == self@.stage,
    {
        self.stage
    }

    /// The addresses of the categories found.
    pub fn categories(&self) -> (r: &Vec<String>)
        ensures
            texts(r@) == self@.categories,
    {
        &self.categories
    }

    /// Which category the crawl is going through, counted from 0.
    pub fn current(&self) -> (r: usize)
        ensures
            r == self@.current,
    {
        self.current
    }

    /// Takes what has come back and says what to do next. An event that the
    /// crawl does not wait for where it stands gives `None` and changes
    /// nothing.
    pub fn step(&mut self, event: Event) -> (r: Option<Action>)
        requires
            old(self).wf(),
        ensures
            final(self).wf(),
            match old(self)@.step(event) {
                Some((next, action)) => final(self)@ == next && r is Some && r.unwrap()@ == action,
                None => final(self)@ == old(self)@ && r is None,
            },
    {
        match event {
            Event::Begin => match self.stage {
                Stage::Start => {
                    self.stage = Stage::SalesRoot;
                    Some(Action::Fetch(String::from_str(SALES)))
                },
                _ => None,
            },
            Event::Fetched(reply) => match self.stage {
                Stage::SalesRoot => Some(self.after_sales_root(reply)),
                Stage::Listing => Some(self.after_listing(reply)),
                _ => None,
            },
            Event::Dispatched(outcomes) => match self.stage {
                Stage::Pages => {
                    let pages = successes(outcomes);
                    self.stage = Stage::AdBodies;
                    Some(Action::Dispatch { urls: collect_page_ads(&pages), limit: CONCURRENCY })
                },
                Stage::AdBodies => {
                    self.stage = Stage::Extraction;
                    Some(Action::Extract { pages: successes(outcomes), limit: CONCURRENCY })
                },
                _ => None,
            },
            Event::Extracted(outcomes) => match self.stage {
                Stage::Extraction => {
                    let table = table_of(self.categories[self.current].as_str());
                    self.stage = Stage::Emission;
                    Some(Action::Emit { table, ads: successes(outcomes) })
                },
                _ => None,
            },
            Event::Emitted => match self.stage {
                Stage::Emission => {
                    self.stage = Stage::Cooldown;
                    Some(Action::Sleep(COOLDOWN_SECS))
                },
                _ => None,
            },
            Event::Slept => match self.stage {
                Stage::Cooldown => {
                    let count: usize = self.categories.len();
                    if self.current + 1 < count {
                        self.current = self.current + 1;
                        self.stage = Stage::Listing;
                        Some(Action::Fetch(self.categories[self.current].clone()))
                    } else {
                        self.stage = Stage::Done;
                        Some(Action::Finish)
                    }
                },
                _ => None,
            },
        }
    }

    /// The step after the page of all sales.
    fn after_sales_root(&mut self, reply: Result<HtmlResponse, FetchError>) -> (action: Action)
        requires
            old(self).wf(),
            old(self)@.stage == Stage::SalesRoot,
        ensures
            final(self).wf(),
            (final(self)@, action@) == old(self)@.bootstrap(reply),
    {
        match reply {
            Ok(page) => match get_categories(page.html) {
                Ok(categories) => {
                    self.categories = categories;
                    self.current = 0;
                    if self.categories.len() > 0 {
                        self.stage = Stage::Listing;
                        Action::Fetch(self.categories[0].clone())
                    } else {
                        self.stage = Stage::Done;
                        Action::Finish
                    }
                },
                Err(_) => {
                    self.stage = Stage::Failed;
                    Action::Abort
                },
            },
            Err(_) => {
                self.stage = Stage::Failed;
                Action::Abort
            },
        }
    }

    /// The step after the first page of a listing.
    fn after_listing(&mut self, reply: Result<HtmlResponse, FetchError>) -> (action: Action)
        requires
            old(self).wf(),
            old(self)@.stage == Stage::Listing,
        ensures
            final(self).wf(),
            (final(self)@, action@) == old(self)@.enumerate(reply),
    {
        match reply {
            Ok(page) => match all_pages(page.html, self.categories[self.current].as_str()) {
                Ok(pages) => {
                    self.stage = Stage::Pages;
                    Action::Dispatch { urls: pages, limit: CONCURRENCY }
                },
                Err(_) => {
                    self.stage = Stage::Cooldown;
                    Action::Sleep(COOLDOWN_SECS)
                },
            },
            Err(_) => {
                self.stage = Stage::Cooldown;
                Action::Sleep(COOLDOWN_SECS)
            },
        }
    }
}

} // verus!
