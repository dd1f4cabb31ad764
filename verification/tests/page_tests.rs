use rbatis::sql::page::{IPage, IPageRequest, Page, PageRequest, DEFAULT_PAGE_SIZE};

#[test]
fn test_page() {
    let mut page = Page::<i32>::new_total(1, 10, 1);
    page.records = vec![];
    println!("{:?}", page);
    assert_eq!(page.pages, 1);
}

#[test]
fn test_page_into_range() {
    let v = vec![1, 2, 3, 4, 5, 6, 7, 8, 9];
    let ranges = Page::<i32>::into_ranges(v.len() as u64, 3);
    let mut new_v = vec![];
    for (offset, limit) in ranges {
        for i in offset..limit {
            new_v.push(i + 1);
        }
    }
    assert_eq!(v, new_v);
}

#[test]
fn test_page_into_pages() {
    let v = vec![1, 2, 3, 4, 5, 6, 7, 8, 9];
    let pages = Page::into_pages(v.clone(), 3);
    let mut new_v = vec![];
    for x in pages {
        for i in x.records {
            new_v.push(i);
        }
    }
    assert_eq!(v, new_v);
}

#[test]
fn test_page_into_pages_more_than() {
    let v = vec![1, 2, 3, 4, 5, 6, 7, 8, 9];
    let pages = Page::into_pages(v.clone(), 18);
    let mut new_v = vec![];
    for x in pages {
        for i in x.records {
            new_v.push(i);
        }
    }
    assert_eq!(v, new_v);
}

#[test]
fn test_page_into_pages_zero() {
    let v = vec![1, 2, 3, 4, 5, 6, 7, 8, 9];
    let pages = Page::into_pages(v.clone(), 0);
    let mut new_v = vec![];
    for x in pages {
        for i in x.records {
            new_v.push(i);
        }
    }
    assert_eq!(v, new_v);
}

#[test]
fn test_page_into_pages_one() {
    let v = vec![1];
    let pages = Page::into_pages(v.clone(), 1);
    let mut new_v = vec![];
    for x in pages {
        for i in x.records {
            new_v.push(i);
        }
    }
    assert_eq!(v, new_v);
}

#[test]
fn page_request_defaults() {
    let r = PageRequest::new(0, 20);
    assert_eq!(r.page_no, 1);
    assert_eq!(r.page_size, 20);
    assert_eq!(r.total, DEFAULT_PAGE_SIZE);
    assert_eq!(r.offset(), 0);
    assert_eq!(PageRequest::new_total(3, 10, 25).offset(), 20);
    assert_eq!(PageRequest::new_total(3, 10, 25).offset_limit(), 25);
    assert_eq!(PageRequest::new_total(3, 10, 25).get_pages(), 3);
}

#[test]
fn page_figures() {
    let p = Page::<i32>::new_total(0, 0, 25);
    assert_eq!(p.page_no, 1);
    assert_eq!(p.page_size, DEFAULT_PAGE_SIZE);
    assert_eq!(p.pages, 3);
    assert_eq!(p.total, 25);
    assert!(p.search_count);
    assert!(p.records.is_empty());
    assert_eq!(Page::<i32>::new_total(2, 5, 25).pages, 5);
    assert_eq!(Page::<i32>::new_total(2, 5, 0).pages, 0);
    assert_eq!(Page::<i32>::new(3, 7).total, 0);
    assert_eq!(Page::<i32>::new(3, 7).page_no, 3);
    let q = Page::<i32>::new_option(&None, &None);
    assert_eq!((q.page_no, q.page_size), (1, DEFAULT_PAGE_SIZE));
    let r = Page::<i32>::new_option(&Some(4), &Some(2));
    assert_eq!((r.page_no, r.page_size), (4, 2));
    let d = Page::<i32>::default();
    assert_eq!((d.total, d.pages, d.page_no, d.page_size, d.search_count), (0, 0, 1, 10, true));
}

#[test]
fn page_request_builders() {
    let r = PageRequest::new_option(&None, &Some(5));
    assert_eq!((r.page_no, r.page_size, r.total), (1, 5, DEFAULT_PAGE_SIZE));
    let p = PageRequest::new_plugin(String::from("x"), 0, 5, 11);
    assert_eq!(p, PageRequest { total: 11, page_no: 1, page_size: 5, search_count: true });
    assert_eq!(PageRequest::default(), PageRequest { total: 0, page_no: 1, page_size: 10, search_count: true });
    let s = p.set_total(7).set_page_size(3).set_page_no(2).set_search_count(false);
    assert_eq!((s.get_total(), s.get_page_size(), s.get_page_no(), s.is_search_count()), (7, 3, 2, false));
    assert_eq!(s.get_pages(), 3);
    assert_eq!(s.offset(), 3);
    assert_eq!(s.offset_limit(), 6);
    assert_eq!(s.set_page_size(0).get_pages(), 0);
}

#[test]
fn page_arithmetic_at_the_ends() {
    assert_eq!(Page::<u8>::into_ranges(0, 3), vec![]);
    assert_eq!(Page::<u8>::into_ranges(7, 3), vec![(0, 3), (3, 6), (6, 7)]);
    assert_eq!(Page::<u8>::into_ranges(u64::MAX, u64::MAX - 1), vec![(0, u64::MAX - 1), (u64::MAX - 1, u64::MAX)]);
    let pages = Page::into_pages(vec![1, 2, 3, 4, 5], 2);
    assert_eq!(pages.len(), 3);
    assert_eq!(pages[2].records, vec![5]);
    assert_eq!(pages[2].page_no, 3);
    assert_eq!(pages[2].pages, 3);
    assert_eq!(pages[1].offset(), 2);
    assert_eq!(pages[1].offset_limit(), 4);
}

#[test]
fn page_records_are_converted() {
    let mut p = Page::<u8>::new_total(2, 2, 4).set_records(vec![3, 4]);
    p.get_records_mut().push(5);
    assert_eq!(p.get_records(), &vec![3u8, 4, 5]);
    let q: Page<u64> = Page::from(p);
    assert_eq!(q.records, vec![3u64, 4, 5]);
    assert_eq!((q.page_no, q.page_size, q.total, q.pages), (2, 2, 4, 2));
}
