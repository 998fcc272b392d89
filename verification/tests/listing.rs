use appdata_browser::drive::{ListKind, MAX_LIST_PAGES};
use appdata_browser::listing::{ListingStep, PagedListing};

fn s(text: &str) -> String {
    text.to_string()
}

#[test]
fn listing_completes_on_page_without_token() {
    let listing: PagedListing<u32> = PagedListing::new();
    assert!(!listing.files_url().contains("pageToken="));
    let listing = match listing.record_page(vec![1, 2], Some(s("p2"))) {
        ListingStep::FetchNext(next) => next,
        _ => panic!("expected another page"),
    };
    assert!(listing.files_url().ends_with("&pageToken=p2"));
    assert_eq!(
        listing.next_url(&ListKind::Revisions { file_id: s("F") }),
        "https://www.googleapis.com/drive/v3/files/F/revisions?fields=nextPageToken,revisions(id,modifiedTime,size)&pageSize=1000&pageToken=p2"
    );
    match listing.record_page(vec![3], None) {
        ListingStep::Complete(all) => assert_eq!(all, vec![1, 2, 3]),
        _ => panic!("expected completion"),
    }
}

#[test]
fn single_page_listing_completes_immediately() {
    let listing: PagedListing<&str> = PagedListing::new();
    match listing.record_page(vec![], None) {
        ListingStep::Complete(all) => assert!(all.is_empty()),
        _ => panic!("expected completion"),
    }
}

#[test]
fn listing_gives_up_after_max_pages() {
    let mut listing: PagedListing<u8> = PagedListing::new();
    let mut fetched = 0;
    loop {
        fetched += 1;
        match listing.record_page(vec![0], Some(s("again"))) {
            ListingStep::FetchNext(next) => listing = next,
            ListingStep::Exhausted(count) => {
                assert_eq!(count, MAX_LIST_PAGES);
                break;
            }
            ListingStep::Complete(_) => panic!("never completes"),
        }
    }
    assert_eq!(fetched, MAX_LIST_PAGES);
    assert_eq!(fetched, 50);
}
