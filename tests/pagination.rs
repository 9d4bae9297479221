use wyvern::{Page, Pagination};

#[test]
fn page_count_is_ceiling() {
    assert_eq!(Page::new(vec![1, 2], 1, 10, 21).total_pages, 3);
    assert_eq!(Page::<i32>::new(vec![], 1, 10, 20).total_pages, 2);
    assert_eq!(Page::<i32>::new(vec![], 1, 10, 0).total_pages, 0);
    assert_eq!(Page::<i32>::new(vec![], 1, 1, i64::MAX).total_pages, i64::MAX);
    assert_eq!(Page::<i32>::new(vec![], 1, i64::MAX, i64::MAX).total_pages, 1);
    assert_eq!(Page::<i32>::new(vec![], 1, 3, 1).total_pages, 1);
}

#[test]
fn page_keeps_its_fields() {
    let page = Page::new(vec!["a", "b"], 2, 2, 5);
    assert_eq!(page.items, vec!["a", "b"]);
    assert_eq!(page.page, 2);
    assert_eq!(page.per_page, 2);
    assert_eq!(page.total_items, 5);
    assert_eq!(page.total_pages, 3);
}

#[test]
fn navigation_boundaries() {
    let single = Page::<i32>::new(vec![], 1, 10, 5);
    assert_eq!(single.total_pages, 1);
    assert!(!single.has_next());
    assert!(!single.has_previous());
    assert_eq!(single.next_page(), None);
    assert_eq!(single.previous_page(), None);

    let first = Page::<i32>::new(vec![], 1, 10, 25);
    assert_eq!(first.total_pages, 3);
    assert!(first.has_next());
    assert!(!first.has_previous());
    assert_eq!(first.next_page(), Some(2));
    assert_eq!(first.previous_page(), None);

    let last = Page::<i32>::new(vec![], 3, 10, 25);
    assert!(!last.has_next());
    assert!(last.has_previous());
    assert_eq!(last.next_page(), None);
    assert_eq!(last.previous_page(), Some(2));
}

#[test]
fn pagination_offset_and_limit() {
    let p = Pagination::new(3, 25);
    assert_eq!(p.offset(), 50);
    assert_eq!(p.limit(), 25);
    let first = Pagination::new(1, 10);
    assert_eq!(first.offset(), 0);
    let d = Pagination::default();
    assert_eq!(d.page, 1);
    assert_eq!(d.per_page, 20);
    assert_eq!(d.offset(), 0);
    assert_eq!(d.limit(), 20);
}
