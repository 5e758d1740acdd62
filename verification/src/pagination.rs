//! Splitting the ordered entries into index pages, and naming the pages.

use vstd::prelude::*;
use crate::entry::PageData;
use crate::text::{decimal, join2, join3, to_decimal};

verus! {

/// The name of an index page and the file that it is written to.
#[derive(Debug)]
pub struct PaginationData {
    pub name: String,
    pub url: String,
}

/// A `PaginationData` as a mathematical value.
pub struct PaginationDataView {
    pub name: Seq<char>,
    pub url: Seq<char>,
}

impl DeepView for PaginationData {
    type V = PaginationDataView;

    open spec fn deep_view(&self) -> PaginationDataView {
        PaginationDataView { name: self.name@, url: self.url@ }
    }
}

impl Clone for PaginationData {
    fn clone(&self) -> (r: Self)
        ensures
            r.deep_view() == self.deep_view(),
    {
        PaginationData { name: self.name.clone(), url: self.url.clone() }
    }
}

/// How many pages `total` entries fill at `per_page` entries a page: the
/// quotient, rounded up.
pub open spec fn page_count(total: nat, per_page: nat) -> nat {
    if total % per_page == 0 {
        total / per_page
    } else {
        total / per_page + 1
    }
}

/// The name of page `i`: "home" for the first, "page 1", "page 2" and so on
/// for the others.
pub open spec fn page_name(i: nat) -> Seq<char> {
    if i == 0 {
        "home"@
    } else {
        "page "@ + decimal(i)
    }
}

/// The file of page `i`: "index.html" for the first, "index1.html",
/// "index2.html" and so on for the others.
pub open spec fn page_file(i: nat) -> Seq<char> {
    if i == 0 {
        "index.html"@
    } else {
        "index"@ + decimal(i) + ".html"@
    }
}

/// The name and the file of page `i`.
pub open spec fn page_link(i: nat) -> PaginationDataView {
    PaginationDataView { name: page_name(i), url: page_file(i) }
}

/// The names and files of the first `pages` pages.
pub open spec fn pagination_of(pages: nat) -> Seq<PaginationDataView> {
    Seq::new(pages, |i: int| page_link(i as nat))
}

/// The entries of page `i`, `per_page` to a page: those from position
/// `i * per_page` up to, and without, position `(i + 1) * per_page`, as far
/// as there are any.
pub open spec fn page_of<T>(s: Seq<T>, per_page: nat, i: nat) -> Seq<T> {
    let start: int = if i * per_page <= s.len() {
        (i * per_page) as int
    } else {
        s.len() as int
    };
    let end: int = if (i + 1) * per_page <= s.len() {
        ((i + 1) * per_page) as int
    } else {
        s.len() as int
    };
    s.subrange(start, end)
}

/// The pages are just enough for the entries: they hold them all, and one
/// page less would not. Every page but the last is full, and no page is
/// empty.
pub proof fn lemma_page_count(total: nat, per_page: nat)
    requires
        per_page > 0,
    ensures
        page_count(total, per_page) * per_page >= total,
        total > 0 ==> (page_count(total, per_page) - 1) * per_page < total,
        total == 0 ==> page_count(total, per_page) == 0,
        0 < total <= per_page ==> page_count(total, per_page) == 1,
{
    let q = total / per_page;
    let r = total % per_page;
    assert(total == q * per_page + r && 0 <= r < per_page) by (nonlinear_arith)
        requires
            per_page > 0,
            q == total / per_page,
            r == total % per_page,
    ;
    assert((q + 1) * per_page == q * per_page + per_page) by (nonlinear_arith);
    assert((q - 1) * per_page == q * per_page - per_page) by (nonlinear_arith);
    if 0 < total <= per_page {
        if q >= 2 {
            assert(q * per_page >= 2 * per_page) by (nonlinear_arith)
                requires
                    q >= 2,
                    per_page > 0,
            ;
        }
        if q == 0 {
            assert(q * per_page == 0) by (nonlinear_arith)
                requires
                    q == 0,
            ;
        }
    }
    if total == 0 {
        if q >= 1 {
            assert(q * per_page >= per_page) by (nonlinear_arith)
                requires
                    q >= 1,
                    per_page > 0,
            ;
        }
    }
}

/// The page count is the only number of pages that is just enough.
pub proof fn lemma_page_count_unique(total: nat, per_page: nat, k: nat)
    requires
        per_page > 0,
        k * per_page >= total,
        k > 0 ==> (k - 1) * per_page < total,
    ensures
        k == page_count(total, per_page),
{
    lemma_page_count(total, per_page);
    let c = page_count(total, per_page);
    if k < c {
        assert(k * per_page <= (c - 1) * per_page) by (nonlinear_arith)
            requires
                k <= c - 1,
                per_page > 0,
        ;
    } else if k > c {
        assert(c * per_page <= (k - 1) * per_page) by (nonlinear_arith)
            requires
                c <= k - 1,
                per_page > 0,
        ;
    }
}

/// How many pages `total` entries fill at `per_page` entries a page.
pub fn count_pages(total: usize, per_page: usize) -> (r: usize)
    requires
        per_page > 0,
    ensures
        r == page_count(total as nat, per_page as nat),
{
    let full = total / per_page;
    if total % per_page > 0 {
        proof {
            lemma_page_count(total as nat, per_page as nat);
            assert(full * per_page <= total) by (nonlinear_arith)
                requires
                    full == total / per_page,
                    per_page > 0,
            ;
            assert(full * per_page >= full) by (nonlinear_arith)
                requires
                    per_page > 0,
                    full >= 0,
            ;
        }
        full + 1
    } else {
        full
    }
}

/// The name and the file of page `i`.
pub fn link_to_page(i: usize) -> (r: PaginationData)
    ensures
        r.deep_view() == page_link(i as nat),
{
    if i == 0 {
        PaginationData { name: "home".to_owned(), url: "index.html".to_owned() }
    } else {
        let number = to_decimal(i);
        PaginationData {
            name: join2("page ", number.as_str()),
            url: join3("index", number.as_str(), ".html"),
        }
    }
}

/// The names and files of the first `pages` pages.
pub fn pagination(pages: usize) -> (r: Vec<PaginationData>)
    ensures
        r.deep_view() == pagination_of(pages as nat),
{
    let mut r: Vec<PaginationData> = Vec::new();
    let mut i: usize = 0;
    while i < pages
        invariant
            i <= pages,
            r.deep_view() == pagination_of(i as nat),
        decreases pages - i,
    {
        let ghost before = r.deep_view();
        r.push(link_to_page(i));
        assert(r.deep_view() == before.push(page_link(i as nat)));
        assert(before.push(page_link(i as nat)) == pagination_of((i + 1) as nat));
        i += 1;
    }
    r
}

/// Copies of the entries `from..to`.
pub fn copy_entries(entries: &Vec<PageData>, from: usize, to: usize) -> (r: Vec<PageData>)
    requires
        from <= to <= entries.len(),
    ensures
        r.deep_view() == entries.deep_view().subrange(from as int, to as int),
{
    let mut r: Vec<PageData> = Vec::new();
    let mut i: usize = from;
    while i < to
        invariant
            from <= i <= to <= entries.len(),
            r.deep_view() == entries.deep_view().subrange(from as int, i as int),
        decreases to - i,
    {
        let ghost before = r.deep_view();
        let e = entries[i].clone();
        r.push(e);
        assert(r.deep_view() == before.push(e.deep_view()));
        assert(entries.deep_view().subrange(from as int, i + 1) == before.push(
            entries@[i as int].deep_view(),
        ));
        i += 1;
    }
    r
}

/// Splits the entries into pages of `per_page` entries; the last page may
/// hold fewer.
pub fn paginate(entries: &Vec<PageData>, per_page: usize) -> (pages: Vec<Vec<PageData>>)
    requires
        per_page > 0,
    ensures
        pages.len() == page_count(entries.len() as nat, per_page as nat),
        forall|i: int|
            0 <= i < pages.len() ==> (#[trigger] pages@[i]).deep_view() == page_of(
                entries.deep_view(),
                per_page as nat,
                i as nat,
            ),
{
    let n = entries.len();
    let mut pages: Vec<Vec<PageData>> = Vec::new();
    let mut start: usize = 0;
    assert(0 * per_page == 0) by (nonlinear_arith);
    while start < n
        invariant
            n == entries.len(),
            per_page > 0,
            start <= n,
            start < n ==> start == pages.len() * per_page,
            start == n ==> pages.len() * per_page >= n && (pages.len() > 0 ==> (pages.len() - 1)
                * per_page < n),
            forall|i: int|
                0 <= i < pages.len() ==> (#[trigger] pages@[i]).deep_view() == page_of(
                    entries.deep_view(),
                    per_page as nat,
                    i as nat,
                ),
        decreases n - start,
    {
        let ghost k = pages.len() as int;
        let ghost done = pages@;
        let end = if n - start > per_page {
            start + per_page
        } else {
            n
        };
        assert((k + 1) * per_page == k * per_page + per_page) by (nonlinear_arith);
        let page = copy_entries(entries, start, end);
        pages.push(page);
        assert forall|i: int| 0 <= i < pages.len() implies (#[trigger] pages@[i]).deep_view()
            == page_of(entries.deep_view(), per_page as nat, i as nat) by {
            if i < k {
                assert(pages@[i] == done[i]);
            }
        }
        start = end;
    }
    proof {
        lemma_page_count(n as nat, per_page as nat);
        if n > 0 {
            lemma_page_count_unique(n as nat, per_page as nat, pages.len() as nat);
        } else {
            assert(pages.len() == 0);
        }
    }
    pages
}

} // verus!
