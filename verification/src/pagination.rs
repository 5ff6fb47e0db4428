//! Offset-based pagination: what one page says about the next, the cursor
//! that walks a listing page by page, and the collector that gathers the
//! items, with or without a ceiling on their number.
//!
//! Fetching a page is the caller's business. The cursor says which page to
//! ask for, if any; the caller fetches it and hands it back.

use vstd::prelude::*;
use crate::error::ApiError;

verus! {

/// One page of a listing. Only `values` is always there.
#[derive(Debug, Clone)]
pub struct PagedResponse<T> {
    pub values: Vec<T>,
    pub start_at: Option<u32>,
    pub max_results: Option<u32>,
    pub total: Option<u32>,
    pub is_last: Option<bool>,
}

impl<T> PagedResponse<T> {
    /// The page says that another one follows. `is_last` decides where it
    /// is present; else the three counters do, where all are present; else
    /// there is no next page.
    pub open spec fn more(self) -> bool {
        match self.is_last {
            Some(last) => !last,
            None => match (self.start_at, self.max_results, self.total) {
                (Some(start), Some(max), Some(total)) => start + max < total,
                _ => false,
            },
        }
    }

    /// The offset after this page by its own counters: `start_at +
    /// max_results` where both are present and the sum is a `u32`.
    pub open spec fn following(self) -> Option<u32> {
        match (self.start_at, self.max_results) {
            (Some(start), Some(max)) => if start + max <= u32::MAX {
                Some((start + max) as u32)
            } else {
                None
            },
            _ => None,
        }
    }

    /// Whether another page follows this one.
    pub fn has_next(&self) -> (r: bool)
        ensures
            r == self.more(),
    {
        match self.is_last {
            Some(last) => !last,
            None => match (self.start_at, self.max_results, self.total) {
                (Some(start), Some(max), Some(total)) => (start as u64) + (max as u64) < (
                total as u64),
                _ => false,
            },
        }
    }

    /// The offset of the page after this one, where the page tells.
    pub fn next_start(&self) -> (r: Option<u32>)
        ensures
            r == self.following(),
    {
        match (self.start_at, self.max_results) {
            (Some(start), Some(max)) => start.checked_add(max),
            _ => None,
        }
    }
}

/// The position of a walk through a listing: the offset of the next page to
/// ask for, the page size, and whether the walk has ended.
#[derive(Debug, Clone, Copy, PartialEq, Eq, Structural)]
pub struct PageCursor {
    pub start_at: u32,
    pub max_results: u32,
    pub finished: bool,
}

impl PageCursor {
    /// The cursor before the first page.
    pub open spec fn initial(max_results: u32) -> PageCursor {
        PageCursor { start_at: 0, max_results, finished: false }
    }

    /// The request that the cursor calls for: offset and page size, or
    /// nothing once the walk has ended.
    pub open spec fn request(self) -> Option<(u32, u32)> {
        if self.finished {
            None
        } else {
            Some((self.start_at, self.max_results))
        }
    }

    /// The same position, with the walk ended.
    pub open spec fn stopped(self) -> PageCursor {
        PageCursor { finished: true, ..self }
    }

    /// The offset that follows `page`: the one the page gives, else the
    /// current offset advanced by the page size. `None` where the walk ends
    /// with `page`: it announces no next page, it is empty, or the next
    /// offset would not fit in a `u32`.
    pub open spec fn next_offset<T>(self, page: PagedResponse<T>) -> Option<u32> {
        if !page.more() || page.values@.len() == 0 {
            None
        } else {
            match page.following() {
                Some(next) => Some(next),
                None => if self.start_at + self.max_results <= u32::MAX {
                    Some((self.start_at + self.max_results) as u32)
                } else {
                    None
                },
            }
        }
    }

    /// The cursor after `page` came in answer to its request. A cursor that
    /// has ended stays as it is.
    pub open spec fn after<T>(self, page: PagedResponse<T>) -> PageCursor {
        if self.finished {
            self
        } else {
            match self.next_offset(page) {
                Some(next) => PageCursor { start_at: next, ..self },
                None => self.stopped(),
            }
        }
    }

    /// Starts a walk at offset 0.
    pub fn new(max_results: u32) -> (r: Self)
        ensures
            r == PageCursor::initial(max_results),
    {
        PageCursor { start_at: 0, max_results, finished: false }
    }

    /// The page to fetch next, as `(start_at, max_results)`, or `None` when
    /// the walk has ended and nothing more is to be fetched.
    pub fn next_request(&self) -> (r: Option<(u32, u32)>)
        ensures
            r == self.request(),
    {
        if self.finished {
            None
        } else {
            Some((self.start_at, self.max_results))
        }
    }

    /// Moves past a page that was fetched.
    pub fn advance<T>(&mut self, page: &PagedResponse<T>)
        ensures
            *final(self) == old(self).after(*page),
    {
        if self.finished {
            return ;
        }
        if !page.has_next() || page.values.len() == 0 {
            self.finished = true;
            return ;
        }
        let next = match page.next_start() {
            Some(next) => Some(next),
            None => self.start_at.checked_add(self.max_results),
        };
        match next {
            Some(next) => {
                self.start_at = next;
            },
            None => {
                self.finished = true;
            },
        }
    }

    /// Ends the walk, as after a failed fetch or when the consumer has
    /// enough.
    pub fn stop(&mut self)
        ensures
            *final(self) == old(self).stopped(),
    {
        self.finished = true;
    }
}

/// What a collector holds: where the walk stands, the items gathered so
/// far, and the ceiling on their number, if there is one.
pub struct Collected<T> {
    pub cursor: PageCursor,
    pub items: Seq<T>,
    pub limit: Option<usize>,
}

impl<T> Collected<T> {
    /// Nothing gathered yet.
    pub open spec fn initial(max_results: u32, limit: Option<usize>) -> Collected<T> {
        Collected { cursor: PageCursor::initial(max_results), items: Seq::empty(), limit }
    }

    /// No more items are held than the ceiling allows.
    pub open spec fn within_limit(self) -> bool {
        self.limit matches Some(limit) ==> self.items.len() <= limit
    }

    /// The collector after `page` came in. Its items are appended. Where
    /// that reaches the ceiling, the items are cut to the ceiling and the
    /// walk ends at once; else the walk moves on as the page directs. A
    /// collector whose walk has ended ignores the page.
    pub open spec fn absorbed(self, page: PagedResponse<T>) -> Collected<T> {
        if self.cursor.finished {
            self
        } else {
            let all = self.items + page.values@;
            match self.limit {
                Some(limit) if all.len() >= limit => Collected {
                    cursor: self.cursor.stopped(),
                    items: all.take(limit as int),
                    limit: self.limit,
                },
                _ => Collected { cursor: self.cursor.after(page), items: all, limit: self.limit },
            }
        }
    }

    /// The collector after each page of `pages` came in, in order.
    pub open spec fn absorbed_all(self, pages: Seq<PagedResponse<T>>) -> Collected<T>
        decreases pages.len(),
    {
        if pages.len() == 0 {
            self
        } else {
            self.absorbed_all(pages.drop_last()).absorbed(pages.last())
        }
    }
}

/// Gathers the items of a listing page by page.
pub struct PageCollector<T> {
    cursor: PageCursor,
    items: Vec<T>,
    limit: Option<usize>,
}

impl<T> View for PageCollector<T> {
    type V = Collected<T>;

    closed spec fn view(&self) -> Collected<T> {
        Collected { cursor: self.cursor, items: self.items@, limit: self.limit }
    }
}

impl<T> PageCollector<T> {
    /// A collector for a whole listing (`limit` is `None`) or for its first
    /// `limit` items.
    pub fn new(max_results: u32, limit: Option<usize>) -> (r: Self)
        ensures
            r@ == Collected::<T>::initial(max_results, limit),
            r@.within_limit(),
    {
        PageCollector { cursor: PageCursor::new(max_results), items: Vec::new(), limit }
    }

    /// The page to fetch next, or `None` when the collection is complete.
    pub fn next_request(&self) -> (r: Option<(u32, u32)>)
        ensures
            r == self@.cursor.request(),
    {
        self.cursor.next_request()
    }

    /// Whether the collection is complete.
    pub fn is_finished(&self) -> (r: bool)
        ensures
            r == self@.cursor.finished,
    {
        self.cursor.finished
    }

    /// Takes in a page that was fetched.
    pub fn absorb(&mut self, page: PagedResponse<T>)
        ensures
            final(self)@ == old(self)@.absorbed(page),
            old(self)@.within_limit() ==> final(self)@.within_limit(),
    {
        if self.cursor.finished {
            return ;
        }
        let mut moved = self.cursor;
        moved.advance(&page);
        let mut values = page.values;
        self.items.append(&mut values);
        match self.limit {
            Some(limit) => {
                if self.items.len() >= limit {
                    self.items.truncate(limit);
                    self.cursor.stop();
                } else {
                    self.cursor = moved;
                }
            },
            None => {
                self.cursor = moved;
            },
        }
    }

    /// The items gathered so far.
    pub fn items(&self) -> (r: &Vec<T>)
        ensures
            r@ == self@.items,
    {
        &self.items
    }

    /// Gives up the items gathered.
    pub fn into_items(self) -> (r: Vec<T>)
        ensures
            r@ == self@.items,
    {
        self.items
    }
}

/// The most pages that one walk fetches: as many as there are offsets. A
/// walk that has fetched that many has come by some offset twice; it ends
/// there with what it has.
pub const MAX_PAGES: u64 = 4_294_967_296;

/// Page `k` of `pages` is what `fetch_page` returned for the request that
/// a collector, started as `start`, made after the pages before it.
pub open spec fn served_at<T, F: Fn(u32, u32) -> Result<PagedResponse<T>, ApiError>>(
    fetch_page: F,
    start: Collected<T>,
    pages: Seq<PagedResponse<T>>,
    k: int,
) -> bool {
    let request = start.absorbed_all(pages.take(k)).cursor.request();
    &&& request is Some
    &&& call_ensures(fetch_page, request->0, Ok::<PagedResponse<T>, ApiError>(pages[k]))
}

/// The pages came one after the other in answer to the requests of a
/// collector that started as `start`: each is what `fetch_page` returned
/// for the request that the collector made after the pages before it.
pub open spec fn walked<T, F: Fn(u32, u32) -> Result<PagedResponse<T>, ApiError>>(
    fetch_page: F,
    start: Collected<T>,
    pages: Seq<PagedResponse<T>>,
) -> bool {
    forall|k: int| 0 <= k < pages.len() ==> #[trigger] served_at(fetch_page, start, pages, k)
}

/// What a walk returns that fetched `pages` and then ended in `r`: the
/// items gathered, once the collector asks for no further page or the walk
/// has reached [`MAX_PAGES`]; or the failure of the fetch that the
/// collector asked for next.
pub open spec fn ended<T, F: Fn(u32, u32) -> Result<PagedResponse<T>, ApiError>>(
    fetch_page: F,
    start: Collected<T>,
    pages: Seq<PagedResponse<T>>,
    r: Result<Vec<T>, ApiError>,
) -> bool {
    let end = start.absorbed_all(pages);
    match r {
        Ok(items) => items@ == end.items && (end.cursor.request() is None || pages.len()
            == MAX_PAGES),
        Err(e) => end.cursor.request() is Some && call_ensures(
            fetch_page,
            end.cursor.request()->0,
            Err::<PagedResponse<T>, ApiError>(e),
        ),
    }
}

/// A walk goes on by one page: where the collector asked for a page after
/// `pages` and `page` is what `fetch_page` returned for that request, the
/// pages with `page` at their end are walked too, and the collector has
/// taken `page` in after them.
pub proof fn lemma_walk_goes_on<T, F: Fn(u32, u32) -> Result<PagedResponse<T>, ApiError>>(
    fetch_page: F,
    start: Collected<T>,
    pages: Seq<PagedResponse<T>>,
    page: PagedResponse<T>,
)
    requires
        walked(fetch_page, start, pages),
        start.absorbed_all(pages).cursor.request() is Some,
        call_ensures(
            fetch_page,
            start.absorbed_all(pages).cursor.request()->0,
            Ok::<PagedResponse<T>, ApiError>(page),
        ),
    ensures
        walked(fetch_page, start, pages.push(page)),
        start.absorbed_all(pages.push(page)) == start.absorbed_all(pages).absorbed(page),
{
    let longer = pages.push(page);
    assert(longer.drop_last() =~= pages);
    assert forall|k: int| 0 <= k < longer.len() implies #[trigger] served_at(
        fetch_page,
        start,
        longer,
        k,
    ) by {
        if k < pages.len() {
            assert(served_at(fetch_page, start, pages, k));
            assert(longer.take(k) =~= pages.take(k));
            assert(longer[k] == pages[k]);
        } else {
            assert(longer.take(k) =~= pages);
            assert(longer[k] == page);
        }
    }
}

fn collect<T, F: Fn(u32, u32) -> Result<PagedResponse<T>, ApiError>>(
    fetch_page: F,
    max_results: u32,
    limit: Option<usize>,
) -> (r: Result<Vec<T>, ApiError>)
    requires
        forall|start_at: u32, size: u32| call_requires(fetch_page, (start_at, size)),
    ensures
        exists|pages: Seq<PagedResponse<T>>|
            walked(fetch_page, Collected::initial(max_results, limit), pages) && ended(
                fetch_page,
                Collected::initial(max_results, limit),
                pages,
                r,
            ),
{
    let ghost start = Collected::<T>::initial(max_results, limit);
    let mut collector: PageCollector<T> = PageCollector::new(max_results, limit);
    let ghost mut pages: Seq<PagedResponse<T>> = Seq::empty();
    let mut fetched: u64 = 0;
    while fetched < MAX_PAGES
        invariant
            fetched <= MAX_PAGES,
            pages.len() == fetched,
            start == Collected::<T>::initial(max_results, limit),
            collector@ == start.absorbed_all(pages),
            walked(fetch_page, start, pages),
            forall|start_at: u32, size: u32| call_requires(fetch_page, (start_at, size)),
        decreases MAX_PAGES - fetched,
    {
        match collector.next_request() {
            None => {
                return Ok(collector.into_items());
            },
            Some((start_at, size)) => {
                match fetch_page(start_at, size) {
                    Ok(page) => {
                        proof {
                            lemma_walk_goes_on(fetch_page, start, pages, page);
                        }
                        collector.absorb(page);
                        proof {
                            pages = pages.push(page);
                        }
                        fetched = fetched + 1;
                    },
                    Err(e) => {
                        return Err(e);
                    },
                }
            },
        }
    }
    Ok(collector.into_items())
}

/// Gathers a whole listing: pages are fetched from offset 0 on, each
/// after the one before, until a page announces no successor or holds no
/// item. A fetch that fails ends the walk with its failure.
pub fn fetch_all<T, F: Fn(u32, u32) -> Result<PagedResponse<T>, ApiError>>(
    fetch_page: F,
    max_results: u32,
) -> (r: Result<Vec<T>, ApiError>)
    requires
        forall|start_at: u32, size: u32| call_requires(fetch_page, (start_at, size)),
    ensures
        exists|pages: Seq<PagedResponse<T>>|
            walked(fetch_page, Collected::initial(max_results, None), pages) && ended(
                fetch_page,
                Collected::initial(max_results, None),
                pages,
                r,
            ),
{
    collect(fetch_page, max_results, None)
}

/// Gathers a listing, or its first `limit` items: as [`fetch_all`], but
/// the walk also ends with the page that reaches the limit, and no page is
/// fetched after it.
pub fn collect_pages<T, F: Fn(u32, u32) -> Result<PagedResponse<T>, ApiError>>(
    fetch_page: F,
    max_results: u32,
    limit: Option<usize>,
) -> (r: Result<Vec<T>, ApiError>)
    requires
        forall|start_at: u32, size: u32| call_requires(fetch_page, (start_at, size)),
    ensures
        exists|pages: Seq<PagedResponse<T>>|
            walked(fetch_page, Collected::initial(max_results, limit), pages) && ended(
                fetch_page,
                Collected::initial(max_results, limit),
                pages,
                r,
            ),
{
    collect(fetch_page, max_results, limit)
}

/// A collector never holds more items than its ceiling allows, whatever
/// pages come in.
pub proof fn lemma_limit_respected<T>(collected: Collected<T>, page: PagedResponse<T>)
    requires
        collected.within_limit(),
    ensures
        collected.absorbed(page).within_limit(),
{
}

/// The same, for any run of pages.
pub proof fn lemma_limit_respected_throughout<T>(
    collected: Collected<T>,
    pages: Seq<PagedResponse<T>>,
)
    requires
        collected.within_limit(),
    ensures
        collected.absorbed_all(pages).within_limit(),
    decreases pages.len(),
{
    if pages.len() > 0 {
        lemma_limit_respected_throughout(collected, pages.drop_last());
    }
}

/// The page that reaches the ceiling ends the walk: the collector then
/// holds exactly as many items as the ceiling says and asks for no further
/// page.
pub proof fn lemma_limit_ends_the_walk<T>(collected: Collected<T>, page: PagedResponse<T>)
    requires
        !collected.cursor.finished,
        collected.limit is Some,
        collected.items.len() + page.values@.len() >= collected.limit->0,
    ensures
        collected.absorbed(page).cursor.request() is None,
        collected.absorbed(page).items.len() == collected.limit->0,
        collected.absorbed(page).items == (collected.items + page.values@).take(
            collected.limit->0 as int,
        ),
{
}

/// Below the ceiling, or without one, every item of the page is kept, in
/// order, after those already held.
pub proof fn lemma_items_accumulate<T>(collected: Collected<T>, page: PagedResponse<T>)
    requires
        !collected.cursor.finished,
        collected.limit matches Some(limit) ==> collected.items.len() + page.values@.len() < limit,
    ensures
        collected.absorbed(page).items == collected.items + page.values@,
        collected.absorbed(page).cursor == collected.cursor.after(page),
{
}

/// Once the walk has ended, no page is asked for and none changes
/// anything.
pub proof fn lemma_finished_stays_finished<T>(
    collected: Collected<T>,
    pages: Seq<PagedResponse<T>>,
)
    requires
        collected.cursor.finished,
    ensures
        collected.cursor.request() is None,
        collected.absorbed_all(pages) == collected,
    decreases pages.len(),
{
    if pages.len() > 0 {
        lemma_finished_stays_finished(collected, pages.drop_last());
    }
}

/// A walk ends with the first page that announces no successor or holds
/// no item, and moves on after any other page whose successor has an
/// offset.
pub proof fn lemma_walk_ends_with_the_last_page<T>(cursor: PageCursor, page: PagedResponse<T>)
    requires
        !cursor.finished,
    ensures
        !page.more() || page.values@.len() == 0 ==> cursor.after(page).finished,
        cursor.after(page).max_results == cursor.max_results,
        !cursor.after(page).finished ==> page.more() && page.values@.len() > 0 && (
        match page.following() {
            Some(next) => cursor.after(page).start_at == next,
            None => cursor.after(page).start_at == cursor.start_at + cursor.max_results,
        }),
{
}

} // verus!
