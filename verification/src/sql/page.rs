//! Pages of records, and the arithmetic of cutting a result into them.

use vstd::prelude::*;
use vstd::std_specs::convert::FromSpec;

verus! {

/// Number of records on a page when none is asked for.
pub const DEFAULT_PAGE_SIZE: u64 = 10;

/// Number of pages that `total` records fill at `page_size` records a page:
/// the quotient rounded up, and zero where the page size is zero.
pub open spec fn page_count(total: int, page_size: int) -> int {
    if page_size <= 0 {
        0
    } else if total % page_size == 0 {
        total / page_size
    } else {
        total / page_size + 1
    }
}

/// Index of the first record of page `page_no`, pages counted from one.
pub open spec fn page_offset(page_no: int, page_size: int) -> int {
    if page_no > 0 {
        (page_no - 1) * page_size
    } else {
        0
    }
}

/// Index one past the last record of page `page_no`: the page never runs past `total`.
pub open spec fn page_limit(page_no: int, page_size: int, total: int) -> int {
    if page_offset(page_no, page_size) + page_size > total {
        total
    } else {
        page_offset(page_no, page_size) + page_size
    }
}

/// The page size that a request for `page_size` records is served with.
pub open spec fn effective_size(page_size: u64) -> u64 {
    if page_size == 0 {
        DEFAULT_PAGE_SIZE
    } else {
        page_size
    }
}

/// The page number that a request for page `page_no` is served with.
pub open spec fn effective_page_no(page_no: u64) -> u64 {
    if page_no < 1 {
        1
    } else {
        page_no
    }
}

/// A full page lies wholly below the start of every later page.
pub proof fn lemma_page_count_bounds(total: int, page_size: int)
    requires
        0 <= total,
        0 < page_size,
    ensures
        0 <= page_count(total, page_size),
        (page_count(total, page_size) - 1) * page_size < total || total == 0,
        total <= page_count(total, page_size) * page_size,
        total == 0 ==> page_count(total, page_size) == 0,
        page_count(total, page_size) <= total,
{
    let q = total / page_size;
    let r = total % page_size;
    assert(total == q * page_size + r && 0 <= r < page_size && 0 <= q) by (nonlinear_arith)
        requires
            0 <= total,
            0 < page_size,
            q == total / page_size,
            r == total % page_size,
    ;
    assert((q - 1) * page_size == q * page_size - page_size) by (nonlinear_arith);
    assert((q + 1) * page_size == q * page_size + page_size) by (nonlinear_arith);
    assert(q <= q * page_size) by (nonlinear_arith)
        requires
            0 <= q,
            0 < page_size,
    ;
}

/// What can be asked of a page request: its size, its number, the total it was
/// made for, and the arithmetic on them.
pub trait IPageRequest: Sized {
    spec fn page_size_spec(&self) -> u64;

    spec fn page_no_spec(&self) -> u64;

    spec fn total_spec(&self) -> u64;

    spec fn search_count_spec(&self) -> bool;

    fn get_page_size(&self) -> (r: u64)
        ensures
            r == self.page_size_spec(),
    ;

    fn get_page_no(&self) -> (r: u64)
        ensures
            r == self.page_no_spec(),
    ;

    fn get_total(&self) -> (r: u64)
        ensures
            r == self.total_spec(),
    ;

    fn is_search_count(&self) -> (r: bool)
        ensures
            r == self.search_count_spec(),
    ;

    fn set_total(self, arg: u64) -> (r: Self)
        ensures
            r.total_spec() == arg,
            r.page_size_spec() == self.page_size_spec(),
            r.page_no_spec() == self.page_no_spec(),
            r.search_count_spec() == self.search_count_spec(),
    ;

    fn set_page_size(self, arg: u64) -> (r: Self)
        ensures
            r.page_size_spec() == arg,
            r.total_spec() == self.total_spec(),
            r.page_no_spec() == self.page_no_spec(),
            r.search_count_spec() == self.search_count_spec(),
    ;

    fn set_page_no(self, arg: u64) -> (r: Self)
        ensures
            r.page_no_spec() == arg,
            r.total_spec() == self.total_spec(),
            r.page_size_spec() == self.page_size_spec(),
            r.search_count_spec() == self.search_count_spec(),
    ;

    fn set_search_count(self, arg: bool) -> (r: Self)
        ensures
            r.search_count_spec() == arg,
            r.total_spec() == self.total_spec(),
            r.page_size_spec() == self.page_size_spec(),
            r.page_no_spec() == self.page_no_spec(),
    ;

    /// Number of pages that the total fills.
    fn get_pages(&self) -> (r: u64)
        ensures
            r == page_count(self.total_spec() as int, self.page_size_spec() as int),
    {
        let size = self.get_page_size();
        let total = self.get_total();
        if size == 0 {
            return 0;
        }
        proof {
            lemma_page_count_bounds(total as int, size as int);
        }
        let mut pages: u64 = total / size;
        if total % size != 0 {
            pages = pages + 1;
        }
        pages
    }

    /// Index of the first record of this page.
    fn offset(&self) -> (r: u64)
        requires
            page_offset(self.page_no_spec() as int, self.page_size_spec() as int) <= u64::MAX,
        ensures
            r == page_offset(self.page_no_spec() as int, self.page_size_spec() as int),
    {
        let page_no = self.get_page_no();
        if page_no > 0 {
            (page_no - 1) * self.get_page_size()
        } else {
            0
        }
    }

    /// Index one past the last record of this page.
    fn offset_limit(&self) -> (r: u64)
        requires
            page_offset(self.page_no_spec() as int, self.page_size_spec() as int)
                + self.page_size_spec() <= u64::MAX,
        ensures
            r == page_limit(
                self.page_no_spec() as int,
                self.page_size_spec() as int,
                self.total_spec() as int,
            ),
    {
        let v: u64 = self.offset() + self.get_page_size();
        let total = self.get_total();
        if v > total {
            return total;
        }
        v
    }
}

/// A page request that also holds the records of its page.
pub trait IPage<T>: IPageRequest {
    spec fn records_spec(&self) -> Seq<T>;

    fn get_records(&self) -> (r: &Vec<T>)
        ensures
            r@ == self.records_spec(),
    ;

    fn get_records_mut(&mut self) -> (r: &mut Vec<T>)
        ensures
            r@ == old(self).records_spec(),
            final(self).records_spec() == final(r)@,
            final(self).total_spec() == old(self).total_spec(),
            final(self).page_size_spec() == old(self).page_size_spec(),
            final(self).page_no_spec() == old(self).page_no_spec(),
            final(self).search_count_spec() == old(self).search_count_spec(),
    ;

    fn set_records(self, arg: Vec<T>) -> (r: Self)
        ensures
            r.records_spec() == arg@,
            r.total_spec() == self.total_spec(),
            r.page_size_spec() == self.page_size_spec(),
            r.page_no_spec() == self.page_no_spec(),
            r.search_count_spec() == self.search_count_spec(),
    ;
}

/// One page of records, with the figures of the whole result.
#[derive(Clone, Debug, Eq, PartialEq)]
pub struct Page<T> {
    /// The records of this page.
    pub records: Vec<T>,
    /// Number of records in the whole result.
    pub total: u64,
    /// Number of pages in the whole result.
    pub pages: u64,
    /// Number of this page, counted from one.
    pub page_no: u64,
    /// Number of records a page holds.
    pub page_size: u64,
    /// Whether the total is to be counted.
    pub search_count: bool,
}

/// A request for one page.
#[derive(Clone, Debug, Eq, PartialEq)]
pub struct PageRequest {
    /// Number of records in the whole result.
    pub total: u64,
    /// Number of the page, counted from one.
    pub page_no: u64,
    /// Number of records a page holds.
    pub page_size: u64,
    /// Whether the total is to be counted.
    pub search_count: bool,
}

impl PageRequest {
    /// A request for page `page_no` of `page_size` records, with the default total.
    pub fn new(page_no: u64, page_size: u64) -> (r: Self)
        ensures
            r == (PageRequest {
                total: DEFAULT_PAGE_SIZE,
                page_no: effective_page_no(page_no),
                page_size,
                search_count: true,
            }),
    {
        PageRequest::new_total(page_no, page_size, DEFAULT_PAGE_SIZE)
    }

    /// As `new`, with page one and the default size where none is given.
    pub fn new_option(page_no: &Option<u64>, page_size: &Option<u64>) -> (r: Self)
        ensures
            r == (PageRequest {
                total: DEFAULT_PAGE_SIZE,
                page_no: effective_page_no(
                    match *page_no {
                        Some(n) => n,
                        None => 1,
                    },
                ),
                page_size: match *page_size {
                    Some(n) => n,
                    None => DEFAULT_PAGE_SIZE,
                },
                search_count: true,
            }),
    {
        let no: u64 = match page_no {
            Some(n) => *n,
            None => 1,
        };
        let size: u64 = match page_size {
            Some(n) => *n,
            None => DEFAULT_PAGE_SIZE,
        };
        PageRequest::new(no, size)
    }

    /// A request for page `page_no` of `page_size` records out of `total`.
    pub fn new_total(page_no: u64, page_size: u64, total: u64) -> (r: Self)
        ensures
            r == (PageRequest {
                total,
                page_no: effective_page_no(page_no),
                page_size,
                search_count: true,
            }),
    {
        PageRequest::new_plugin(String::new(), page_no, page_size, total)
    }

    /// As `new_total`; the plugin's name takes no part in the request.
    pub fn new_plugin(plugin: String, page_no: u64, page_size: u64, total: u64) -> (r: Self)
        ensures
            r == (PageRequest {
                total,
                page_no: effective_page_no(page_no),
                page_size,
                search_count: true,
            }),
    {
        let mut page_no = page_no;
        if page_no < 1 {
            page_no = 1;
        }
        PageRequest { total, page_size, page_no, search_count: true }
    }
}

impl Default for PageRequest {
    fn default() -> (r: Self)
        ensures
            r == (PageRequest {
                total: 0,
                page_no: 1,
                page_size: DEFAULT_PAGE_SIZE,
                search_count: true,
            }),
    {
        PageRequest { total: 0, page_size: DEFAULT_PAGE_SIZE, page_no: 1, search_count: true }
    }
}

impl IPageRequest for PageRequest {
    open spec fn page_size_spec(&self) -> u64 {
        self.page_size
    }

    open spec fn page_no_spec(&self) -> u64 {
        self.page_no
    }

    open spec fn total_spec(&self) -> u64 {
        self.total
    }

    open spec fn search_count_spec(&self) -> bool {
        self.search_count
    }

    fn get_page_size(&self) -> (r: u64) {
        self.page_size
    }

    fn get_page_no(&self) -> (r: u64) {
        self.page_no
    }

    fn get_total(&self) -> (r: u64) {
        self.total
    }

    fn is_search_count(&self) -> (r: bool) {
        self.search_count
    }

    fn set_total(self, arg: u64) -> (r: Self) {
        let mut s = self;
        s.total = arg;
        s
    }

    fn set_page_size(self, arg: u64) -> (r: Self) {
        let mut s = self;
        s.page_size = arg;
        s
    }

    fn set_page_no(self, arg: u64) -> (r: Self) {
        let mut s = self;
        s.page_no = arg;
        s
    }

    fn set_search_count(self, arg: bool) -> (r: Self) {
        let mut s = self;
        s.search_count = arg;
        s
    }
}

/// The figures of the page that `new_total` makes, without its records.
pub open spec fn page_figures<T>(p: Page<T>, page_no: u64, page_size: u64, total: u64) -> bool {
    &&& p.total == total
    &&& p.page_size == effective_size(page_size)
    &&& p.page_no == effective_page_no(page_no)
    &&& p.pages == page_count(total as int, effective_size(page_size) as int)
    &&& p.search_count
}

/// First record of page `idx` (counted from zero) when `total` records are cut
/// into pages of `size`.
pub open spec fn range_start(idx: int, size: int) -> int {
    idx * size
}

/// One past the last record of page `idx` (counted from zero).
pub open spec fn range_end(idx: int, size: int, total: int) -> int {
    if idx * size + size > total {
        total
    } else {
        idx * size + size
    }
}

/// The ranges of consecutive pages follow one another from zero up to the total.
pub proof fn lemma_ranges_tile(idx: int, size: int, total: int)
    requires
        0 < size,
        0 <= total,
        0 <= idx < page_count(total, size),
    ensures
        0 <= range_start(idx, size) < range_end(idx, size, total) <= total,
        idx + 1 < page_count(total, size) ==> range_end(idx, size, total) == range_start(
            idx + 1,
            size,
        ),
        idx + 1 == page_count(total, size) ==> range_end(idx, size, total) == total,
        range_start(idx, size) == page_offset(idx + 1, size),
        range_end(idx, size, total) == page_limit(idx + 1, size, total),
{
    lemma_page_count_bounds(total, size);
    let n = page_count(total, size);
    assert(idx * size <= (n - 1) * size) by (nonlinear_arith)
        requires
            idx <= n - 1,
            0 < size,
    ;
    assert((idx + 1) * size == idx * size + size) by (nonlinear_arith);
    assert(0 <= idx * size) by (nonlinear_arith)
        requires
            0 <= idx,
            0 < size,
    ;
    if idx + 1 < n {
        assert((idx + 1) * size <= (n - 1) * size) by (nonlinear_arith)
            requires
                idx + 1 <= n - 1,
                0 < size,
        ;
    } else {
        assert(n * size == (n - 1) * size + size) by (nonlinear_arith);
    }
}

/// The records of the first `k` of a sequence of pages, one page after the other.
pub open spec fn joined_records<T>(pages: Seq<Seq<T>>, k: int) -> Seq<T>
    decreases k,
{
    if k <= 0 || k > pages.len() {
        Seq::empty()
    } else {
        joined_records(pages, k - 1) + pages[k - 1]
    }
}

/// The pages that records are cut into hold all of them, in their order: one
/// page after the other gives the records back.
pub proof fn law_pages_hold_all_records<T>(data: Seq<T>, size: int, pages: Seq<Seq<T>>)
    requires
        0 < size,
        pages.len() == page_count(data.len() as int, size),
        forall|i: int|
            0 <= i < pages.len() ==> (#[trigger] pages[i]) == data.subrange(
                range_start(i, size),
                range_end(i, size, data.len() as int),
            ),
    ensures
        joined_records(pages, pages.len() as int) == data,
{
    let total = data.len() as int;
    lemma_page_count_bounds(total, size);
    if pages.len() == 0 {
        assert(data =~= Seq::<T>::empty());
    } else {
        lemma_joined_prefix(data, size, pages, pages.len() as int);
        lemma_ranges_tile(pages.len() - 1, size, total);
        assert(data.subrange(0, total) =~= data);
    }
}

proof fn lemma_joined_prefix<T>(data: Seq<T>, size: int, pages: Seq<Seq<T>>, k: int)
    requires
        0 < size,
        pages.len() == page_count(data.len() as int, size),
        forall|i: int|
            0 <= i < pages.len() ==> (#[trigger] pages[i]) == data.subrange(
                range_start(i, size),
                range_end(i, size, data.len() as int),
            ),
        1 <= k <= pages.len(),
    ensures
        joined_records(pages, k) == data.subrange(0, range_end(k - 1, size, data.len() as int)),
    decreases k,
{
    let total = data.len() as int;
    lemma_ranges_tile(k - 1, size, total);
    let last = pages[k - 1];
    assert(last == data.subrange(range_start(k - 1, size), range_end(k - 1, size, total)));
    assert(joined_records(pages, k) == joined_records(pages, k - 1) + last);
    if k == 1 {
        assert(range_start(0, size) == 0) by (nonlinear_arith);
        assert(joined_records(pages, 0) =~= Seq::<T>::empty());
        assert(joined_records(pages, 1) =~= last);
    } else {
        lemma_joined_prefix(data, size, pages, k - 1);
        lemma_ranges_tile(k - 2, size, total);
        assert(joined_records(pages, k) =~= data.subrange(0, range_end(k - 1, size, total)));
    }
}

impl<T> Page<T> {
    /// An empty page `current` of `page_size` records, out of no records at all.
    pub fn new(current: u64, page_size: u64) -> (r: Self)
        ensures
            page_figures(r, current, page_size, 0),
            r.records@.len() == 0,
    {
        Page::new_total(current, page_size, 0)
    }

    /// As `new`, with page one and the default size where none is given.
    pub fn new_option(current: &Option<u64>, page_size: &Option<u64>) -> (r: Self)
        ensures
            page_figures(
                r,
                match *current {
                    Some(n) => n,
                    None => 1,
                },
                match *page_size {
                    Some(n) => n,
                    None => DEFAULT_PAGE_SIZE,
                },
                0,
            ),
            r.records@.len() == 0,
    {
        let no: u64 = match current {
            Some(n) => *n,
            None => 1,
        };
        let size: u64 = match page_size {
            Some(n) => *n,
            None => DEFAULT_PAGE_SIZE,
        };
        Page::new(no, size)
    }

    /// An empty page `page_no` of `page_size` records out of `total`: a size of
    /// zero asks for the default size, a page number of zero for page one.
    pub fn new_total(page_no: u64, page_size: u64, total: u64) -> (r: Self)
        ensures
            page_figures(r, page_no, page_size, total),
            r.records@.len() == 0,
    {
        let mut page_size = page_size;
        if page_size == 0 {
            page_size = DEFAULT_PAGE_SIZE;
        }
        proof {
            lemma_page_count_bounds(total as int, page_size as int);
        }
        let mut pages: u64 = total / page_size;
        if total % page_size != 0 {
            pages += 1;
        }
        let mut page_no = page_no;
        if page_no < 1 {
            page_no = 1;
        }
        Page { total, pages, page_size, page_no, records: Vec::new(), search_count: true }
    }

    /// Cuts `data` into consecutive pages of `page_size` records.
    pub fn into_pages(data: Vec<T>, page_size: u64) -> (result: Vec<Page<T>>)
        ensures
            result@.len() == page_count(data@.len() as int, effective_size(page_size) as int),
            forall|i: int|
                0 <= i < result@.len() ==> {
                    &&& page_figures(
                        #[trigger] result@[i],
                        (i + 1) as u64,
                        page_size,
                        data@.len() as u64,
                    )
                    &&& result@[i].records@ == data@.subrange(
                        range_start(i, effective_size(page_size) as int),
                        range_end(
                            i,
                            effective_size(page_size) as int,
                            data@.len() as int,
                        ),
                    )
                },
    {
        let mut data = data;
        let ghost all = data@;
        let total: u64 = data.len() as u64;
        let mut result: Vec<Page<T>> = Vec::new();
        let page = Page::<T>::new_total(1, page_size, total);
        let size: u64 = page.page_size;
        let pages: u64 = page.pages;
        let mut idx: u64 = 0;
        proof {
            lemma_page_count_bounds(total as int, size as int);
        }
        while idx < pages
            invariant
                idx <= pages,
                all.len() == total,
                size == effective_size(page_size),
                pages == page_count(total as int, size as int),
                result@.len() == idx,
                idx < pages ==> data@ == all.subrange(range_start(idx as int, size as int), total as int),
                idx == pages ==> data@.len() == 0,
                forall|i: int|
                    0 <= i < idx ==> {
                        &&& page_figures(#[trigger] result@[i], (i + 1) as u64, page_size, total)
                        &&& result@[i].records@ == all.subrange(
                            range_start(i, size as int),
                            range_end(i, size as int, total as int),
                        )
                    },
            decreases pages - idx,
        {
            proof {
                lemma_ranges_tile(idx as int, size as int, total as int);
            }
            let mut current_page = Page::<T>::new_total(idx + 1, page_size, total);
            let start: u64 = idx * size;
            let end: u64 = if size > total - start {
                total
            } else {
                start + size
            };
            let mut k: u64 = start;
            while k < end
                invariant
                    start <= k <= end <= total,
                    all.len() == total,
                    data@ == all.subrange(k as int, total as int),
                    current_page.records@ == all.subrange(start as int, k as int),
                    page_figures(current_page, (idx + 1) as u64, page_size, total),
                decreases end - k,
            {
                let item = data.remove(0);
                current_page.records.push(item);
                k += 1;
                assert(data@ =~= all.subrange(k as int, total as int));
                assert(current_page.records@ =~= all.subrange(start as int, k as int));
            }
            result.push(current_page);
            idx += 1;
        }
        result
    }

    /// The index ranges of the consecutive pages that `total` records fill, each
    /// from its first record to one past its last.
    pub fn into_ranges(total: u64, page_size: u64) -> (result: Vec<(u64, u64)>)
        ensures
            result@.len() == page_count(total as int, effective_size(page_size) as int),
            forall|i: int|
                0 <= i < result@.len() ==> {
                    &&& (#[trigger] result@[i]).0 == range_start(
                        i,
                        effective_size(page_size) as int,
                    )
                    &&& result@[i].1 == range_end(
                        i,
                        effective_size(page_size) as int,
                        total as int,
                    )
                },
    {
        let mut result: Vec<(u64, u64)> = Vec::new();
        let page = Page::<T>::new_total(1, page_size, total);
        let size: u64 = page.page_size;
        let pages: u64 = page.pages;
        let mut idx: u64 = 0;
        while idx < pages
            invariant
                idx <= pages,
                size == effective_size(page_size),
                pages == page_count(total as int, size as int),
                result@.len() == idx,
                forall|i: int|
                    0 <= i < idx ==> {
                        &&& (#[trigger] result@[i]).0 == range_start(i, size as int)
                        &&& result@[i].1 == range_end(i, size as int, total as int)
                    },
            decreases pages - idx,
        {
            proof {
                lemma_ranges_tile(idx as int, size as int, total as int);
            }
            let start: u64 = idx * size;
            let end: u64 = if size > total - start {
                total
            } else {
                start + size
            };
            result.push((start, end));
            idx += 1;
        }
        result
    }
}

impl<T> Default for Page<T> {
    fn default() -> (r: Self)
        ensures
            r.records@.len() == 0,
            r.total == 0,
            r.pages == 0,
            r.page_size == DEFAULT_PAGE_SIZE,
            r.page_no == 1,
            r.search_count,
    {
        Page {
            records: Vec::new(),
            total: 0,
            pages: 0,
            page_size: DEFAULT_PAGE_SIZE,
            page_no: 1,
            search_count: true,
        }
    }
}

impl<T> IPageRequest for Page<T> {
    open spec fn page_size_spec(&self) -> u64 {
        self.page_size
    }

    open spec fn page_no_spec(&self) -> u64 {
        self.page_no
    }

    open spec fn total_spec(&self) -> u64 {
        self.total
    }

    open spec fn search_count_spec(&self) -> bool {
        self.search_count
    }

    fn get_page_size(&self) -> (r: u64) {
        self.page_size
    }

    fn get_page_no(&self) -> (r: u64) {
        self.page_no
    }

    fn get_total(&self) -> (r: u64) {
        self.total
    }

    fn is_search_count(&self) -> (r: bool) {
        self.search_count
    }

    fn set_total(self, arg: u64) -> (r: Self) {
        let mut s = self;
        s.total = arg;
        s
    }

    fn set_page_size(self, arg: u64) -> (r: Self) {
        let mut s = self;
        s.page_size = arg;
        s
    }

    fn set_page_no(self, arg: u64) -> (r: Self) {
        let mut s = self;
        s.page_no = arg;
        s
    }

    fn set_search_count(self, arg: bool) -> (r: Self) {
        let mut s = self;
        s.search_count = arg;
        s
    }
}

impl<T> IPage<T> for Page<T> {
    open spec fn records_spec(&self) -> Seq<T> {
        self.records@
    }

    fn get_records(&self) -> (r: &Vec<T>) {
        &self.records
    }

    fn get_records_mut(&mut self) -> (r: &mut Vec<T>) {
        &mut self.records
    }

    fn set_records(self, arg: Vec<T>) -> (r: Self) {
        let mut s = self;
        s.records = arg;
        s
    }
}

impl<V> Page<V> {
    /// The same page with each record converted, in order.
    pub fn from<T>(arg: Page<T>) -> (p: Self) where V: From<T>
        ensures
            p.pages == arg.pages,
            p.page_no == arg.page_no,
            p.page_size == arg.page_size,
            p.total == arg.total,
            p.search_count == arg.search_count,
            p.records@.len() == arg.records@.len(),
            forall|i: int|
                0 <= i < arg.records@.len() ==> call_ensures(
                    V::from,
                    (arg.records@[i],),
                    #[trigger] p.records@[i],
                ),
            V::obeys_from_spec() ==> forall|i: int|
                0 <= i < arg.records@.len() ==> #[trigger] p.records@[i] == V::from_spec(
                    arg.records@[i],
                ),
    {
        let mut p = Page::<V>::new(arg.page_no, arg.page_size);
        p.pages = arg.pages;
        p.page_no = arg.page_no;
        p.page_size = arg.page_size;
        p.total = arg.total;
        p.search_count = arg.search_count;
        let ghost src = arg.records@;
        let mut records: Vec<V> = Vec::with_capacity(arg.records.len());
        for x in it: arg.records
            invariant
                it.seq() == src,
                records@.len() == it.index(),
                forall|i: int|
                    0 <= i < records@.len() ==> call_ensures(
                        V::from,
                        (src[i],),
                        #[trigger] records@[i],
                    ),
                V::obeys_from_spec() ==> forall|i: int|
                    0 <= i < records@.len() ==> #[trigger] records@[i] == V::from_spec(src[i]),
        {
            records.push(V::from(x));
        }
        p.records = records;
        p
    }
}

} // verus!
