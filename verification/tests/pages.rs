use std::collections::VecDeque;
use yt_yapper::commands::now::{now_listing, NowListing};
use yt_yapper::models::pagination::PaginatedQueue;
use yt_yapper::state::Track;

fn queue_of(n: usize) -> VecDeque<Track> {
    (1..=n)
        .map(|i| Track {
            name: format!("Song{}", i),
            artist: format!("Band{}", i),
            duration: "0:03:00".to_string(),
            ..Default::default()
        })
        .collect()
}

#[test]
fn counts_pages_of_ten() {
    let q = queue_of(0);
    for (total, pages) in [(0usize, 0usize), (1, 1), (9, 1), (10, 1), (11, 2), (20, 2), (25, 3)] {
        assert_eq!(PaginatedQueue::new(&q, total, 1).total_pages(), pages);
    }
}

#[test]
fn page_bounds() {
    let q = queue_of(25);
    let p = PaginatedQueue::new(&q, 25, 3);
    assert_eq!(p.limit(), 10);
    assert_eq!(p.start_idx(), 20);
    assert_eq!(p.end_idx(), 25);
    let p = PaginatedQueue::new(&q, 25, 2);
    assert_eq!((p.start_idx(), p.end_idx()), (10, 20));
}

#[test]
fn lists_the_page_with_an_arrow_on_its_first_entry() {
    let q = queue_of(12);
    let fields = PaginatedQueue::new(&q, 12, 1).get_fields();
    assert_eq!(fields.len(), 10);
    assert_eq!(fields[0], ("1. Band1 - Song1[0:03:00] \u{2B05}\u{FE0F}".to_string(), String::new(), false));
    assert_eq!(fields[9], ("10. Band10 - Song10[0:03:00]".to_string(), String::new(), false));
    let fields = PaginatedQueue::new(&q, 12, 2).get_fields();
    assert_eq!(fields.len(), 2);
    assert_eq!(fields[0].0, "11. Band11 - Song11[0:03:00] \u{2B05}\u{FE0F}");
    assert_eq!(fields[1].0, "12. Band12 - Song12[0:03:00]");
}

#[test]
fn lists_only_what_the_queue_holds() {
    let q = queue_of(3);
    let fields = PaginatedQueue::new(&q, 15, 1).get_fields();
    assert_eq!(fields.len(), 3);
    let fields = PaginatedQueue::new(&q, 15, 2).get_fields();
    assert!(fields.is_empty());
}

#[test]
fn every_entry_is_on_exactly_one_page() {
    let q = queue_of(23);
    let pages = PaginatedQueue::new(&q, 23, 1).total_pages();
    let mut seen = Vec::new();
    for page in 1..=pages {
        let p = PaginatedQueue::new(&q, 23, page);
        assert!(p.start_idx() < p.end_idx());
        seen.extend(p.start_idx()..p.end_idx());
    }
    assert_eq!(seen, (0..23).collect::<Vec<_>>());
}

#[test]
fn now_listing_cases() {
    assert!(matches!(now_listing(&None, None), NowListing::NotPlaying));
    assert!(matches!(now_listing(&Some(queue_of(0)), Some(3)), NowListing::Empty));
    assert!(matches!(now_listing(&Some(queue_of(12)), Some(3)), NowListing::PageTooLarge(2)));
    match now_listing(&Some(queue_of(12)), None) {
        NowListing::Page { fields, pages } => {
            assert_eq!(pages, 2);
            assert_eq!(fields.len(), 10);
        }
        _ => panic!("expected a page"),
    }
    match now_listing(&Some(queue_of(12)), Some(2)) {
        NowListing::Page { fields, pages } => {
            assert_eq!(pages, 2);
            assert_eq!(fields[1].0, "12. Band12 - Song12[0:03:00]");
        }
        _ => panic!("expected a page"),
    }
}

#[test]
fn pages_listed_in_order_number_every_entry_once() {
    let q = queue_of(23);
    let pages = PaginatedQueue::new(&q, 23, 1).total_pages();
    let joined: Vec<String> = (1..=pages)
        .flat_map(|page| PaginatedQueue::new(&q, 23, page).get_fields())
        .map(|f| f.0)
        .collect();
    assert_eq!(joined.len(), 23);
    for (j, heading) in joined.iter().enumerate() {
        let plain = format!("{}. Band{} - Song{}[0:03:00]", j + 1, j + 1, j + 1);
        if j % 10 == 0 {
            assert_eq!(*heading, format!("{} \u{2B05}\u{FE0F}", plain));
        } else {
            assert_eq!(*heading, plain);
        }
    }
}
