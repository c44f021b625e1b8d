//! Pages of a queue, ten tracks to a page.

use std::collections::VecDeque;
use vstd::prelude::*;

use crate::state::{Track, TrackView, track_views};
use crate::text::{chars_of, decimal, push_decimal, string_from_chars};

verus! {

/// Tracks shown on one page.
pub const PAGE_LIMIT: usize = 10;

/// Index of the first entry of `page` (pages count from 1).
pub open spec fn page_start(page: int, limit: int) -> int {
    (page - 1) * limit
}

/// One past the last entry of `page`: the page is full unless the entries run out.
pub open spec fn page_end(page: int, limit: int, total: int) -> int {
    if page_start(page, limit) + limit <= total {
        page_start(page, limit) + limit
    } else {
        total
    }
}

/// How many pages `total` entries fill, the last one possibly partly.
pub open spec fn page_count(total: int, limit: int) -> int {
    (total + limit - 1) / limit
}

/// What a paginated queue holds: the queue, the page asked for, the page size and the number of
/// entries the queue is said to have.
pub struct PaginationView {
    pub entries: Seq<TrackView>,
    pub page: nat,
    pub limit: nat,
    pub total: nat,
}

/// The entries that `skip(start).take(end - start)` yields of `entries`.
pub open spec fn window(entries: Seq<TrackView>, start: int, end: int) -> Seq<TrackView> {
    if start >= entries.len() {
        Seq::empty()
    } else if end <= entries.len() {
        entries.subrange(start, end)
    } else {
        entries.subrange(start, entries.len() as int)
    }
}

/// The heading of a listed track: its position in the whole queue, artist, name and duration,
/// and for the first entry of the page a pointing arrow.
pub open spec fn entry_heading(position: nat, t: TrackView, first: bool) -> Seq<char> {
    decimal(position) + seq!['.', ' '] + t.artist + seq![' ', '-', ' '] + t.name + seq!['['] + t.duration
        + seq![']'] + (if first { seq![' ', '\u{2B05}', '\u{FE0F}'] } else { Seq::<char>::empty() })
}

/// The listing of page `v.page` of `v.entries`: for each track on the page, its heading, an
/// empty value, and `false` (not inline).
pub open spec fn page_fields(fields: Seq<(String, String, bool)>, v: PaginationView) -> bool {
    let start = page_start(v.page as int, v.limit as int);
    let shown = window(v.entries, start, page_end(v.page as int, v.limit as int, v.total as int));
    &&& fields.len() == shown.len()
    &&& forall|i: int| 0 <= i < shown.len() ==> {
        &&& (#[trigger] fields[i]).0@ == entry_heading((i + 1 + start) as nat, shown[i], i == 0)
        &&& fields[i].1@ == Seq::<char>::empty()
        &&& !fields[i].2
    }
}

/// A view of one page of a queue.
pub struct PaginatedQueue<'a> {
    queue: &'a VecDeque<Track>,
    page: usize,
    limit: usize,
    total: usize,
}

impl<'a> View for PaginatedQueue<'a> {
    type V = PaginationView;

    closed spec fn view(&self) -> PaginationView {
        PaginationView {
            entries: track_views(self.queue@),
            page: self.page as nat,
            limit: self.limit as nat,
            total: self.total as nat,
        }
    }
}

impl<'a> PaginatedQueue<'a> {
    #[verifier::type_invariant]
    spec fn limit_is_fixed(self) -> bool {
        self.limit == PAGE_LIMIT
    }

    /// The page numbered `page` of `queue`, which holds `total` entries, ten to a page.
    pub fn new(queue: &'a VecDeque<Track>, total: usize, page: usize) -> (p: Self)
        ensures
            p@ == (PaginationView { entries: track_views(queue@), page: page as nat, limit: PAGE_LIMIT as nat, total: total as nat }),
    {
        Self { queue, page, limit: PAGE_LIMIT, total }
    }

    /// The size of a page.
    pub fn limit(&self) -> (l: usize)
        ensures
            l == self@.limit,
            l == PAGE_LIMIT,
    {
        proof {
            use_type_invariant(self);
        }
        self.limit
    }

    /// Index of the first entry of this page.
    pub fn start_idx(&self) -> (start: usize)
        requires
            self@.page >= 1,
            page_start(self@.page as int, PAGE_LIMIT as int) <= usize::MAX,
        ensures
            start == page_start(self@.page as int, self@.limit as int),
    {
        proof {
            use_type_invariant(self);
        }
        (self.page - 1) * self.limit
    }

    /// One past the index of the last entry of this page.
    pub fn end_idx(&self) -> (end: usize)
        requires
            self@.page >= 1,
            page_start(self@.page as int, PAGE_LIMIT as int) + PAGE_LIMIT <= usize::MAX,
        ensures
            end == page_end(self@.page as int, self@.limit as int, self@.total as int),
    {
        proof {
            use_type_invariant(self);
        }
        let start = self.start_idx();
        if start + self.limit <= self.total {
            start + self.limit
        } else {
            self.total
        }
    }

    /// How many pages the entries fill.
    pub fn total_pages(&self) -> (pages: usize)
        requires
            self@.total + PAGE_LIMIT <= usize::MAX,
        ensures
            pages == page_count(self@.total as int, self@.limit as int),
    {
        proof {
            use_type_invariant(self);
        }
        (self.total + self.limit - 1) / self.limit
    }

    /// The listing of this page: for each track on it, its heading, an empty value, and `false`
    /// (not inline).
    pub fn get_fields(&self) -> (fields: Vec<(String, String, bool)>)
        requires
            self@.page >= 1,
            page_start(self@.page as int, PAGE_LIMIT as int) + PAGE_LIMIT <= usize::MAX,
            page_start(self@.page as int, PAGE_LIMIT as int) <= self@.total,
        ensures
            page_fields(fields@, self@),
    {
        proof {
            use_type_invariant(self);
        }
        let start = self.start_idx();
        let end = self.end_idx();
        let len = self.queue.len();
        let stop = if start >= len {
            start
        } else if end <= len {
            end
        } else {
            len
        };
        let ghost shown = window(self@.entries, start as int, end as int);
        assert(shown.len() == stop - start);
        let mut fields: Vec<(String, String, bool)> = Vec::new();
        let mut j: usize = start;
        while j < stop
            invariant
                start <= end,
                stop <= self.queue@.len() || stop == start,
                stop <= end,
                start <= j <= stop,
                shown.len() == stop - start,
                shown == window(track_views(self.queue@), start as int, end as int),
                fields@.len() == j - start,
                forall|i: int| 0 <= i < j - start ==> {
                    &&& (#[trigger] fields@[i]).0@ == entry_heading((i + 1 + start) as nat, shown[i], i == 0)
                    &&& fields@[i].1@ == Seq::<char>::empty()
                    &&& !fields@[i].2
                },
            decreases stop - j,
        {
            let t = &self.queue[j];
            let ghost tv = t@;
            assert(shown[j - start] == tv);
            let mut text: Vec<char> = Vec::new();
            push_decimal(&mut text, (j + 1) as u64);
            text.push('.');
            text.push(' ');
            text.append(&mut chars_of(t.artist.as_str()));
            text.push(' ');
            text.push('-');
            text.push(' ');
            text.append(&mut chars_of(t.name.as_str()));
            text.push('[');
            text.append(&mut chars_of(t.duration.as_str()));
            text.push(']');
            if j == start {
                text.push(' ');
                text.push('\u{2B05}');
                text.push('\u{FE0F}');
            }
            assert(text@ =~= entry_heading((j - start + 1 + start) as nat, tv, j == start));
            let heading = string_from_chars(&text);
            fields.push((heading, String::new(), false));
            j += 1;
        }
        fields
    }
}

/// Every entry of the queue is on exactly one page, and that page is one of the counted pages.
pub proof fn law_pages_partition(total: int, index: int)
    requires
        0 <= index < total,
    ensures
        ({
            let p = index / 10 + 1;
            &&& 1 <= p <= page_count(total, 10)
            &&& page_start(p, 10) <= index < page_end(p, 10, total)
            &&& forall|q: int| #[trigger] page_start(q, 10) <= index < page_end(q, 10, total) ==> q == p
        }),
{
}

/// Each counted page holds at least one entry and at most a page's worth.
pub proof fn law_counted_pages_not_empty(total: int, page: int)
    requires
        total >= 0,
        1 <= page <= page_count(total, 10),
    ensures
        page_start(page, 10) < page_end(page, 10, total),
        page_end(page, 10, total) - page_start(page, 10) <= 10,
{
}

/// The headings of page `page` of `entries`, which are said to number `total`, ten to a page.
pub open spec fn page_headings(entries: Seq<TrackView>, total: int, page: int) -> Seq<Seq<char>> {
    let start = page_start(page, 10);
    let shown = window(entries, start, page_end(page, 10, total));
    Seq::new(shown.len(), |i: int| entry_heading((i + 1 + start) as nat, shown[i], i == 0))
}

/// The headings of a page's listing.
pub open spec fn headings(fields: Seq<(String, String, bool)>) -> Seq<Seq<char>> {
    fields.map_values(|f: (String, String, bool)| f.0@)
}

/// The headings of the first `k` listings, joined in order.
pub open spec fn joined_headings(listings: Seq<Seq<(String, String, bool)>>, k: nat) -> Seq<Seq<char>>
    decreases k,
{
    if k == 0 {
        Seq::empty()
    } else {
        joined_headings(listings, (k - 1) as nat) + headings(listings[k - 1])
    }
}

/// The whole queue listed at once: every entry numbered from 1, an arrow on the first entry of
/// each page of ten.
pub open spec fn full_listing(entries: Seq<TrackView>, total: int) -> Seq<Seq<char>> {
    Seq::new(total as nat, |j: int| entry_heading((j + 1) as nat, entries[j], j % 10 == 0))
}

proof fn lemma_page_headings(fields: Seq<(String, String, bool)>, entries: Seq<TrackView>, total: nat, page: nat)
    requires
        page_fields(fields, PaginationView { entries, page, limit: 10, total }),
    ensures
        headings(fields) == page_headings(entries, total as int, page as int),
{
    assert(headings(fields) =~= page_headings(entries, total as int, page as int));
}

proof fn lemma_pages_upto(entries: Seq<TrackView>, total: int, k: nat)
    requires
        0 <= total <= entries.len(),
        k <= page_count(total, 10),
    ensures
        ({
            let n: int = if 10 * k <= total { 10 * k as int } else { total };
            forall|listings: Seq<Seq<(String, String, bool)>>|
                (forall|p: int| 1 <= p <= k ==> #[trigger] headings(listings[p - 1]) == page_headings(entries, total, p))
                    && listings.len() >= k
                ==> joined_headings(listings, k) == full_listing(entries, total).take(n)
        }),
    decreases k,
{
    if k > 0 {
        lemma_pages_upto(entries, total, (k - 1) as nat);
        let start = page_start(k as int, 10);
        let n: int = if 10 * k <= total { 10 * k as int } else { total };
        assert forall|listings: Seq<Seq<(String, String, bool)>>|
            (forall|p: int| 1 <= p <= k ==> #[trigger] headings(listings[p - 1]) == page_headings(entries, total, p))
                && listings.len() >= k
            implies joined_headings(listings, k) == full_listing(entries, total).take(n) by {
            assert(headings(listings[k - 1]) == page_headings(entries, total, k as int));
            let prev = joined_headings(listings, (k - 1) as nat);
            assert(prev == full_listing(entries, total).take(start));
            let page = page_headings(entries, total, k as int);
            assert(page.len() == n - start);
            assert forall|i: int| 0 <= i < n - start implies #[trigger] page[i] == full_listing(entries, total)[start + i] by {
                assert((start + i) % 10 == i % 10);
            }
            assert(prev + page =~= full_listing(entries, total).take(n));
        }
    } else {
        assert(full_listing(entries, total).take(0) =~= Seq::<Seq<char>>::empty());
    }
}

/// Listing pages 1, 2, ... up to the last page, in order, lists every entry of the queue
/// exactly once, in queue order, numbered from 1; each page's first entry has the arrow.
pub proof fn law_pages_list_every_entry_once(entries: Seq<TrackView>, total: nat, listings: Seq<Seq<(String, String, bool)>>)
    requires
        total <= entries.len(),
        listings.len() == page_count(total as int, 10),
        forall|p: int| 1 <= p <= listings.len() ==> page_fields(#[trigger] listings[p - 1],
            PaginationView { entries, page: p as nat, limit: 10, total }),
    ensures
        joined_headings(listings, listings.len()) == full_listing(entries, total as int),
{
    let k = listings.len();
    assert forall|p: int| 1 <= p <= k implies #[trigger] headings(listings[p - 1]) == page_headings(entries, total as int, p) by {
        lemma_page_headings(listings[p - 1], entries, total, p as nat);
    }
    lemma_pages_upto(entries, total as int, k);
    assert(full_listing(entries, total as int).take(total as int) =~= full_listing(entries, total as int));
}

} // verus!
