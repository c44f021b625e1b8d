//! What the `now` command shows.

use std::collections::VecDeque;
use vstd::prelude::*;

use crate::models::pagination::{page_count, page_fields, PaginatedQueue, PaginationView, PAGE_LIMIT};
use crate::state::{Track, track_views};

verus! {

/// What the `now` (`queue`) command shows.
pub enum NowListing {
    /// There is no queue: no music is playing.
    NotPlaying,
    /// The queue is empty.
    Empty,
    /// The page asked for is past the last page; the number of pages.
    PageTooLarge(usize),
    /// The page's listing, and the number of pages.
    Page { fields: Vec<(String, String, bool)>, pages: usize },
}

/// What the `now` command shows for `queue`, asked for page `n` (the first page by default).
pub fn now_listing(queue: &Option<VecDeque<Track>>, n: Option<usize>) -> (listing: NowListing)
    requires
        match *queue {
            Some(q) => q.len() > 0 ==> (n != Some(0usize) && q.len() + PAGE_LIMIT <= usize::MAX),
            None => true,
        },
    ensures
        match *queue {
            None => listing is NotPlaying,
            Some(q) => {
                let page = match n { Some(p) => p, None => 1 };
                let pages = page_count(q.len() as int, 10);
                if q.len() == 0 {
                    listing is Empty
                } else if page > pages {
                    listing matches NowListing::PageTooLarge(p) && p == pages
                } else {
                    listing matches NowListing::Page { fields, pages: p } && p == pages
                        && page_fields(fields@, PaginationView {
                            entries: track_views(q@), page: page as nat, limit: 10, total: q.len() as nat })
                }
            },
        },
{
    let page = match n {
        Some(p) => p,
        None => 1,
    };
    match queue {
        None => NowListing::NotPlaying,
        Some(q) => {
            let len = q.len();
            if len == 0 {
                return NowListing::Empty;
            }
            let paginated = PaginatedQueue::new(q, len, page);
            let pages = paginated.total_pages();
            if page > pages {
                NowListing::PageTooLarge(pages)
            } else {
                let fields = paginated.get_fields();
                NowListing::Page { fields, pages }
            }
        },
    }
}

} // verus!
