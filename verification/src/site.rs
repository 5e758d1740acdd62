//! What a build writes: for every file the template that renders it and
//! the data that the template is given, in the order of writing.

use vstd::prelude::*;
use crate::entry::{copy_text, Config, ConfigView, PageData, PageDataView};
use crate::feed::{feed_entries, feed_entries_of, FeedData, FeedDataView};
use crate::helpers::Timestamp;
use crate::pagination::{
    copy_entries,
    lemma_page_count,
    link_to_page,
    page_count,
    page_file,
    page_of,
    paginate,
    pagination,
    pagination_of,
    PaginationData,
    PaginationDataView,
};
use crate::tags::{all_refs, is_tag_index, tag_index, TagGroup, TagGroupView};

verus! {

/// What the template of an index page is given.
#[derive(Debug)]
pub struct IndexData {
    pub title: String,
    pub entries: Vec<PageData>,
    pub published_at: Timestamp,
    pub site_url: String,
    pub site_description: String,
    pub domain: String,
    pub pagination: Vec<PaginationData>,
    pub share_image: Option<String>,
}

/// An `IndexData` as a mathematical value.
pub struct IndexDataView {
    pub title: Seq<char>,
    pub entries: Seq<PageDataView>,
    pub published_at: Timestamp,
    pub site_url: Seq<char>,
    pub site_description: Seq<char>,
    pub domain: Seq<char>,
    pub pagination: Seq<PaginationDataView>,
    pub share_image: Option<Seq<char>>,
}

impl DeepView for IndexData {
    type V = IndexDataView;

    open spec fn deep_view(&self) -> IndexDataView {
        IndexDataView {
            title: self.title@,
            entries: self.entries.deep_view(),
            published_at: self.published_at,
            site_url: self.site_url@,
            site_description: self.site_description@,
            domain: self.domain@,
            pagination: self.pagination.deep_view(),
            share_image: self.share_image.deep_view(),
        }
    }
}

/// The data of one file, by the kind of the file.
#[derive(Debug)]
pub enum JobData {
    Entry(PageData),
    Feed(FeedData),
    Index(IndexData),
    Tags(Vec<TagGroup>),
}

/// A `JobData` as a mathematical value.
pub enum JobDataView {
    Entry(PageDataView),
    Feed(FeedDataView),
    Index(IndexDataView),
    Tags(Seq<TagGroupView>),
}

impl DeepView for JobData {
    type V = JobDataView;

    open spec fn deep_view(&self) -> JobDataView {
        match *self {
            JobData::Entry(e) => JobDataView::Entry(e.deep_view()),
            JobData::Feed(f) => JobDataView::Feed(f.deep_view()),
            JobData::Index(i) => JobDataView::Index(i.deep_view()),
            JobData::Tags(t) => JobDataView::Tags(t.deep_view()),
        }
    }
}

/// One file to write: the template that renders it, its name below the
/// destination directory, and the data for the template.
#[derive(Debug)]
pub struct RenderJob {
    pub template: String,
    pub file: String,
    pub data: JobData,
}

/// A `RenderJob` as a mathematical value.
pub struct RenderJobView {
    pub template: Seq<char>,
    pub file: Seq<char>,
    pub data: JobDataView,
}

impl DeepView for RenderJob {
    type V = RenderJobView;

    open spec fn deep_view(&self) -> RenderJobView {
        RenderJobView { template: self.template@, file: self.file@, data: self.data.deep_view() }
    }
}

/// The description of the site, empty where the settings give none.
pub open spec fn site_description(opts: ConfigView) -> Seq<char> {
    match opts.description {
        Some(d) => d,
        None => Seq::empty(),
    }
}

/// How many entries a page holds.
pub open spec fn per_page(opts: ConfigView) -> nat {
    opts.entries as nat
}

/// How many index pages the entries fill.
pub open spec fn pages_of(opts: ConfigView, entries: Seq<PageDataView>) -> nat {
    page_count(entries.len(), per_page(opts))
}

/// What the template of index page `i` is given.
pub open spec fn index_of(
    opts: ConfigView,
    domain: Seq<char>,
    entries: Seq<PageDataView>,
    now: Timestamp,
    i: nat,
) -> IndexDataView {
    IndexDataView {
        title: opts.title,
        entries: page_of(entries, per_page(opts), i),
        published_at: now,
        site_url: opts.url,
        site_description: site_description(opts),
        domain,
        pagination: pagination_of(pages_of(opts, entries)),
        share_image: opts.share_image,
    }
}

/// What the template of the feed is given: the entries of the first page.
pub open spec fn feed_of(
    opts: ConfigView,
    domain: Seq<char>,
    entries: Seq<PageDataView>,
    now: Timestamp,
) -> FeedDataView {
    FeedDataView {
        title: opts.title,
        published_at: now,
        domain,
        site_url: opts.url,
        site_description: site_description(opts),
        entries: feed_entries_of(page_of(entries, per_page(opts), 0)),
    }
}

/// The file of one entry: template `entry`, written under the entry's own
/// name.
pub open spec fn entry_job(e: PageDataView) -> RenderJobView {
    RenderJobView { template: "entry"@, file: e.url, data: JobDataView::Entry(e) }
}

/// The files of the entries of one page, in the page's order.
pub open spec fn entry_jobs(page: Seq<PageDataView>) -> Seq<RenderJobView> {
    Seq::new(page.len(), |k: int| entry_job(page[k]))
}

/// The feed's file: template `atom`, written to `index.rss`.
pub open spec fn feed_job(
    opts: ConfigView,
    domain: Seq<char>,
    entries: Seq<PageDataView>,
    now: Timestamp,
) -> RenderJobView {
    RenderJobView {
        template: "atom"@,
        file: "index.rss"@,
        data: JobDataView::Feed(feed_of(opts, domain, entries, now)),
    }
}

/// The file of index page `i`: template `index`, written to `index.html`
/// for the first page and to `index1.html`, `index2.html` and so on for
/// the others.
pub open spec fn index_job(
    opts: ConfigView,
    domain: Seq<char>,
    entries: Seq<PageDataView>,
    now: Timestamp,
    i: nat,
) -> RenderJobView {
    RenderJobView {
        template: "index"@,
        file: page_file(i),
        data: JobDataView::Index(index_of(opts, domain, entries, now, i)),
    }
}

/// The files that page `i` brings: its entries, then the feed if the page
/// is the first, then the page itself.
pub open spec fn page_jobs(
    opts: ConfigView,
    domain: Seq<char>,
    entries: Seq<PageDataView>,
    now: Timestamp,
    i: nat,
) -> Seq<RenderJobView> {
    entry_jobs(page_of(entries, per_page(opts), i)) + (if i == 0 {
        seq![feed_job(opts, domain, entries, now)]
    } else {
        Seq::empty()
    }) + seq![index_job(opts, domain, entries, now, i)]
}

/// The files that the first `k` pages bring, page by page.
pub open spec fn jobs_upto(
    opts: ConfigView,
    domain: Seq<char>,
    entries: Seq<PageDataView>,
    now: Timestamp,
    k: nat,
) -> Seq<RenderJobView>
    decreases k,
{
    if k == 0 {
        Seq::empty()
    } else {
        jobs_upto(opts, domain, entries, now, (k - 1) as nat) + page_jobs(
            opts,
            domain,
            entries,
            now,
            (k - 1) as nat,
        )
    }
}

/// Whether a job is the file of the tag index of the entries: template
/// `tag-list`, written to `tags.html`, with the index of all tags.
pub open spec fn is_tags_job(job: RenderJobView, entries: Seq<PageDataView>) -> bool {
    &&& job.template == "tag-list"@
    &&& job.file == "tags.html"@
    &&& job.data matches JobDataView::Tags(groups) && is_tag_index(groups, all_refs(entries))
}

/// Whether `jobs` are the files of a build, in the order of writing: page
/// by page what `page_jobs` says, and the tag index at the end.
pub open spec fn is_site_plan(
    jobs: Seq<RenderJobView>,
    opts: ConfigView,
    domain: Seq<char>,
    entries: Seq<PageDataView>,
    now: Timestamp,
) -> bool {
    &&& jobs.len() > 0
    &&& jobs.drop_last() == jobs_upto(opts, domain, entries, now, pages_of(opts, entries))
    &&& is_tags_job(jobs.last(), entries)
}

/// How many of `total` entries the first `k` pages hold, `per_page` to a
/// page.
pub open spec fn held_by(total: nat, per_page: nat, k: nat) -> nat {
    if k * per_page <= total {
        k * per_page
    } else {
        total
    }
}

/// The first `k` pages bring one file for each entry that they hold, one
/// for each page, and the feed as soon as there is a page.
pub proof fn lemma_jobs_upto_len(
    opts: ConfigView,
    domain: Seq<char>,
    entries: Seq<PageDataView>,
    now: Timestamp,
    k: nat,
)
    requires
        opts.entries > 0,
    ensures
        jobs_upto(opts, domain, entries, now, k).len() == held_by(entries.len(), per_page(opts), k)
            + k + (if k > 0 {
            1nat
        } else {
            0nat
        }),
    decreases k,
{
    let p = per_page(opts);
    if k == 0 {
        assert(0 * p == 0) by (nonlinear_arith);
    } else {
        let i = (k - 1) as nat;
        lemma_jobs_upto_len(opts, domain, entries, now, i);
        assert((i + 1) * p == i * p + p) by (nonlinear_arith);
        assert(page_of(entries, p, i).len() == held_by(entries.len(), p, k) - held_by(
            entries.len(),
            p,
            i,
        ));
        if i == 0 {
            assert(0 * p == 0) by (nonlinear_arith);
        }
    }
}

/// A plan holds one file for each entry, one for each index page, the feed
/// if there is any entry, and the tag index.
pub proof fn lemma_plan_len(
    jobs: Seq<RenderJobView>,
    opts: ConfigView,
    domain: Seq<char>,
    entries: Seq<PageDataView>,
    now: Timestamp,
)
    requires
        opts.entries > 0,
        is_site_plan(jobs, opts, domain, entries, now),
    ensures
        jobs.len() == entries.len() + pages_of(opts, entries) + (if entries.len() > 0 {
            1nat
        } else {
            0nat
        }) + 1,
{
    let pages = pages_of(opts, entries);
    lemma_jobs_upto_len(opts, domain, entries, now, pages);
    lemma_page_count(entries.len(), per_page(opts));
    if pages == 0 {
        assert(0 * per_page(opts) == 0) by (nonlinear_arith);
    }
}

/// Copies of the names and files of the pages.
fn copy_links(links: &Vec<PaginationData>) -> (r: Vec<PaginationData>)
    ensures
        r.deep_view() == links.deep_view(),
{
    let mut r: Vec<PaginationData> = Vec::new();
    let mut i: usize = 0;
    while i < links.len()
        invariant
            i <= links.len(),
            r.deep_view() == links.deep_view().take(i as int),
        decreases links.len() - i,
    {
        let ghost before = r.deep_view();
        let l = links[i].clone();
        r.push(l);
        assert(r.deep_view() == before.push(l.deep_view()));
        assert(links.deep_view().take(i + 1) == before.push(links.deep_view()[i as int]));
        i += 1;
    }
    assert(links.deep_view().take(links.len() as int) == links.deep_view());
    r
}

fn describe_site(opts: &Config) -> (r: String)
    ensures
        r@ == site_description(opts.deep_view()),
{
    match &opts.description {
        Some(d) => d.clone(),
        None => String::new(),
    }
}

/// Lists the files of a build in the order of writing: for each page its
/// entries, the feed behind the entries of the first page, and the page
/// itself; the tag index comes last.
pub fn plan_site(opts: &Config, domain: &str, entries: &Vec<PageData>, now: Timestamp) -> (jobs:
    Vec<RenderJob>)
    requires
        opts.entries > 0,
    ensures
        is_site_plan(jobs.deep_view(), opts.deep_view(), domain@, entries.deep_view(), now),
{
    let ghost ov = opts.deep_view();
    let ghost ev = entries.deep_view();
    let pages = paginate(entries, opts.entries as usize);
    let links = pagination(pages.len());
    let mut jobs: Vec<RenderJob> = Vec::new();
    let mut i: usize = 0;
    assert(jobs.deep_view() == jobs_upto(ov, domain@, ev, now, 0));
    while i < pages.len()
        invariant
            i <= pages.len(),
            ov == opts.deep_view(),
            ev == entries.deep_view(),
            pages.len() == pages_of(ov, ev),
            links.deep_view() == pagination_of(pages_of(ov, ev)),
            forall|k: int|
                0 <= k < pages.len() ==> (#[trigger] pages@[k]).deep_view() == page_of(
                    ev,
                    per_page(ov),
                    k as nat,
                ),
            jobs.deep_view() == jobs_upto(ov, domain@, ev, now, i as nat),
        decreases pages.len() - i,
    {
        let page = &pages[i];
        let ghost done = jobs.deep_view();
        let ghost pv = page_of(ev, per_page(ov), i as nat);
        assert(page.deep_view() == pv);
        let mut k: usize = 0;
        assert(done + entry_jobs(pv).take(0) == done);
        while k < page.len()
            invariant
                k <= page.len(),
                page.deep_view() == pv,
                jobs.deep_view() == done + entry_jobs(pv).take(k as int),
            decreases page.len() - k,
        {
            let ghost before = jobs.deep_view();
            let e = page[k].clone();
            let job = RenderJob {
                template: "entry".to_owned(),
                file: e.url.clone(),
                data: JobData::Entry(e),
            };
            jobs.push(job);
            proof {
                assert(job.deep_view() == entry_job(pv[k as int]));
                assert(jobs.deep_view() == before.push(job.deep_view()));
                assert(done + entry_jobs(pv).take(k + 1) == (done + entry_jobs(pv).take(
                    k as int,
                )).push(entry_jobs(pv)[k as int]));
            }
            k += 1;
        }
        assert(entry_jobs(pv).take(page.len() as int) == entry_jobs(pv));
        let ghost with_entries = jobs.deep_view();
        if i == 0 {
            let feed = FeedData {
                title: opts.title.clone(),
                published_at: now,
                domain: domain.to_owned(),
                site_url: opts.url.clone(),
                site_description: describe_site(opts),
                entries: feed_entries(page),
            };
            let job = RenderJob {
                template: "atom".to_owned(),
                file: "index.rss".to_owned(),
                data: JobData::Feed(feed),
            };
            jobs.push(job);
            proof {
                assert(job.deep_view() == feed_job(ov, domain@, ev, now));
                assert(jobs.deep_view() == with_entries.push(job.deep_view()));
                assert(with_entries.push(job.deep_view()) == with_entries + seq![
                    feed_job(ov, domain@, ev, now),
                ]);
            }
        } else {
            assert(with_entries + Seq::<RenderJobView>::empty() == with_entries);
        }
        let ghost with_feed = jobs.deep_view();
        let index = IndexData {
            title: opts.title.clone(),
            entries: copy_entries(page, 0, page.len()),
            published_at: now,
            site_url: opts.url.clone(),
            site_description: describe_site(opts),
            domain: domain.to_owned(),
            pagination: copy_links(&links),
            share_image: copy_text(&opts.share_image),
        };
        let link = link_to_page(i);
        let job = RenderJob {
            template: "index".to_owned(),
            file: link.url,
            data: JobData::Index(index),
        };
        jobs.push(job);
        proof {
            assert(page.deep_view().subrange(0, page.len() as int) == page.deep_view());
            assert(job.deep_view() == index_job(ov, domain@, ev, now, i as nat));
            assert(jobs.deep_view() == with_feed.push(job.deep_view()));
            assert(with_feed.push(job.deep_view()) == with_feed + seq![
                index_job(ov, domain@, ev, now, i as nat),
            ]);
            let middle = if i == 0 {
                seq![feed_job(ov, domain@, ev, now)]
            } else {
                Seq::<RenderJobView>::empty()
            };
            assert(with_feed == done + entry_jobs(pv) + middle);
            assert(done + entry_jobs(pv) + middle + seq![
                index_job(ov, domain@, ev, now, i as nat),
            ] == done + (entry_jobs(pv) + middle + seq![index_job(ov, domain@, ev, now, i as nat)]));
        }
        i += 1;
    }
    let ghost paged = jobs.deep_view();
    let groups = tag_index(entries);
    let job = RenderJob {
        template: "tag-list".to_owned(),
        file: "tags.html".to_owned(),
        data: JobData::Tags(groups),
    };
    jobs.push(job);
    proof {
        assert(jobs.deep_view() == paged.push(job.deep_view()));
        assert(jobs.deep_view().drop_last() == paged);
        assert(jobs.deep_view().last() == job.deep_view());
    }
    jobs
}

} // verus!
