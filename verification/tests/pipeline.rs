use site_gen::entry::{Config, PageData};
use site_gen::feed::{feed_entries, feed_entry};
use site_gen::helpers::Timestamp;
use site_gen::ordering::sort_entries;
use site_gen::pagination::{count_pages, link_to_page, paginate, pagination};
use site_gen::site::{plan_site, JobData};
use site_gen::tags::tag_index;

fn at(secs: i64) -> Timestamp {
    Timestamp { secs, nanos: 0, offset: 0 }
}

fn entry(title: &str, created: Timestamp, tags: Option<Vec<&str>>) -> PageData {
    PageData {
        rendered_at: at(1_000_000),
        created_at: created,
        raw_text: format!("text of {}", title),
        contents: format!("<p>text of {}</p>", title),
        tags: tags.map(|t| t.into_iter().map(String::from).collect()),
        title: title.to_string(),
        url: format!("{}.html", title),
        hero_image: None,
        share_image: None,
        description: None,
        site_url: "https://example.com/".to_string(),
        domain: "example.com".to_string(),
        author: Some("Ada".to_string()),
        year: "1970".to_string(),
        site_description: None,
        truncated_contents: format!("text of {}", title),
    }
}

fn titles(entries: &[PageData]) -> Vec<&str> {
    entries.iter().map(|e| e.title.as_str()).collect()
}

fn settings(per_page: u8) -> Config {
    Config {
        entries: per_page,
        template_dir: "tpl".to_string(),
        src: "src".to_string(),
        dest: "out".to_string(),
        title: "Site".to_string(),
        url: "https://example.com/".to_string(),
        truncate: None,
        description: Some("about".to_string()),
        author: None,
        share_image: Some("share.png".to_string()),
    }
}

#[test]
fn sorts_newest_first() {
    let sorted = sort_entries(vec![
        entry("b", at(20), None),
        entry("d", at(40), None),
        entry("a", at(10), None),
        entry("c", at(30), None),
    ]);
    assert_eq!(titles(&sorted), vec!["d", "c", "b", "a"]);
    for pair in sorted.windows(2) {
        assert!(!pair[1].created_at.is_later_than(&pair[0].created_at));
    }
}

#[test]
fn equal_instants_keep_load_order() {
    let sorted = sort_entries(vec![
        entry("x1", at(5), None),
        entry("y1", at(9), None),
        entry("x2", at(5), None),
        entry("y2", at(9), None),
        entry("x3", Timestamp { secs: 5, nanos: 0, offset: 3600 }, None),
    ]);
    assert_eq!(titles(&sorted), vec!["y1", "y2", "x1", "x2", "x3"]);
}

#[test]
fn nanoseconds_decide_within_a_second() {
    let sorted = sort_entries(vec![
        entry("early", Timestamp { secs: 5, nanos: 1, offset: 0 }, None),
        entry("late", Timestamp { secs: 5, nanos: 2, offset: 0 }, None),
    ]);
    assert_eq!(titles(&sorted), vec!["late", "early"]);
}

#[test]
fn sorting_nothing_gives_nothing() {
    assert!(sort_entries(Vec::new()).is_empty());
    assert_eq!(titles(&sort_entries(vec![entry("a", at(1), None)])), vec!["a"]);
}

#[test]
fn counts_pages_rounding_up() {
    assert_eq!(count_pages(0, 2), 0);
    assert_eq!(count_pages(1, 2), 1);
    assert_eq!(count_pages(2, 2), 1);
    assert_eq!(count_pages(3, 2), 2);
    assert_eq!(count_pages(5, 2), 3);
    assert_eq!(count_pages(6, 2), 3);
    assert_eq!(count_pages(7, 1), 7);
    assert_eq!(count_pages(7, 255), 1);
    assert_eq!(count_pages(usize::MAX, 1), usize::MAX);
    assert_eq!(count_pages(usize::MAX, usize::MAX), 1);
}

#[test]
fn names_the_pages() {
    let home = link_to_page(0);
    assert_eq!(home.name, "home");
    assert_eq!(home.url, "index.html");
    let first = link_to_page(1);
    assert_eq!(first.name, "page 1");
    assert_eq!(first.url, "index1.html");
    let twelfth = link_to_page(12);
    assert_eq!(twelfth.name, "page 12");
    assert_eq!(twelfth.url, "index12.html");
}

#[test]
fn pagination_has_one_link_for_each_page() {
    assert!(pagination(0).is_empty());
    let links = pagination(3);
    let names: Vec<&str> = links.iter().map(|l| l.name.as_str()).collect();
    let urls: Vec<&str> = links.iter().map(|l| l.url.as_str()).collect();
    assert_eq!(names, vec!["home", "page 1", "page 2"]);
    assert_eq!(urls, vec!["index.html", "index1.html", "index2.html"]);
}

#[test]
fn splits_into_pages_of_the_given_size() {
    let entries: Vec<PageData> =
        ["a", "b", "c", "d", "e"].iter().map(|t| entry(t, at(1), None)).collect();
    let pages = paginate(&entries, 2);
    assert_eq!(pages.len(), 3);
    assert_eq!(titles(&pages[0]), vec!["a", "b"]);
    assert_eq!(titles(&pages[1]), vec!["c", "d"]);
    assert_eq!(titles(&pages[2]), vec!["e"]);
}

#[test]
fn few_entries_fill_one_page() {
    let entries: Vec<PageData> = ["a", "b"].iter().map(|t| entry(t, at(1), None)).collect();
    assert_eq!(paginate(&entries, 2).len(), 1);
    assert_eq!(paginate(&entries, 3).len(), 1);
    assert_eq!(paginate(&entries, usize::MAX).len(), 1);
    assert_eq!(paginate(&entries, 1).len(), 2);
    assert!(paginate(&Vec::new(), 2).is_empty());
}

#[test]
fn tag_index_collects_references_in_key_order() {
    let entries = vec![
        entry("one", at(3), Some(vec!["a", "b"])),
        entry("two", at(2), Some(vec!["a"])),
        entry("three", at(1), Some(vec!["c"])),
    ];
    let index = tag_index(&entries);
    let keys: Vec<&str> = index.iter().map(|g| g.tag.as_str()).collect();
    assert_eq!(keys, vec!["a", "b", "c"]);
    assert_eq!(index[0].entries.len(), 2);
    assert_eq!(index[1].entries.len(), 1);
    assert_eq!(index[2].entries.len(), 1);
    assert_eq!(index[0].entries[0].title, "one");
    assert_eq!(index[0].entries[0].url, "one.html");
    assert_eq!(index[0].entries[0].tag, "a");
    assert_eq!(index[0].entries[1].title, "two");
    assert_eq!(index[1].entries[0].title, "one");
    assert_eq!(index[2].entries[0].title, "three");
}

#[test]
fn tag_index_sorts_keys_and_tells_them_apart_exactly() {
    let entries = vec![
        entry("one", at(3), Some(vec!["zeta", "Alpha", "alpha"])),
        entry("two", at(2), None),
        entry("three", at(1), Some(vec!["alpha", "alpha ", "beta", "alpha"])),
    ];
    let index = tag_index(&entries);
    let keys: Vec<&str> = index.iter().map(|g| g.tag.as_str()).collect();
    assert_eq!(keys, vec!["Alpha", "alpha", "alpha ", "beta", "zeta"]);
    let under_alpha: Vec<&str> = index[1].entries.iter().map(|r| r.title.as_str()).collect();
    assert_eq!(under_alpha, vec!["one", "three", "three"]);
}

#[test]
fn tag_index_of_nothing_is_empty() {
    assert!(tag_index(&Vec::new()).is_empty());
    assert!(tag_index(&vec![entry("a", at(1), None), entry("b", at(1), Some(vec![]))]).is_empty());
}

#[test]
fn feed_entry_prefers_the_description() {
    let mut e = entry("one", at(3), None);
    e.truncated_contents = "short".to_string();
    let f = feed_entry(&e);
    assert_eq!(f.description, "short");
    assert_eq!(f.title, "one");
    assert_eq!(f.url, "one.html");
    assert_eq!(f.created_at, at(3));
    assert_eq!(f.author.as_deref(), Some("Ada"));
    assert_eq!(f.domain, "example.com");
    e.description = Some("by hand".to_string());
    assert_eq!(feed_entry(&e).description, "by hand");
}

#[test]
fn feed_entries_follow_the_page() {
    let page = vec![entry("one", at(3), None), entry("two", at(2), None)];
    let feed = feed_entries(&page);
    let shown: Vec<&str> = feed.iter().map(|f| f.title.as_str()).collect();
    assert_eq!(shown, vec!["one", "two"]);
    assert!(feed_entries(&Vec::new()).is_empty());
}

#[test]
fn plan_lists_the_files_page_by_page() {
    let entries: Vec<PageData> = ["e5", "e4", "e3", "e2", "e1"]
        .iter()
        .map(|t| entry(t, at(1), Some(vec!["t"])))
        .collect();
    let jobs = plan_site(&settings(2), "example.com", &entries, at(77));
    let files: Vec<&str> = jobs.iter().map(|j| j.file.as_str()).collect();
    assert_eq!(
        files,
        vec![
            "e5.html", "e4.html", "index.rss", "index.html", "e3.html", "e2.html",
            "index1.html", "e1.html", "index2.html", "tags.html"
        ]
    );
    let templates: Vec<&str> = jobs.iter().map(|j| j.template.as_str()).collect();
    assert_eq!(
        templates,
        vec![
            "entry", "entry", "atom", "index", "entry", "entry", "index", "entry", "index",
            "tag-list"
        ]
    );
    match &jobs[2].data {
        JobData::Feed(feed) => {
            let shown: Vec<&str> = feed.entries.iter().map(|f| f.title.as_str()).collect();
            assert_eq!(shown, vec!["e5", "e4"]);
            assert_eq!(feed.title, "Site");
            assert_eq!(feed.published_at, at(77));
            assert_eq!(feed.domain, "example.com");
            assert_eq!(feed.site_url, "https://example.com/");
            assert_eq!(feed.site_description, "about");
        }
        _ => panic!("the third file is the feed"),
    }
    match &jobs[6].data {
        JobData::Index(index) => {
            assert_eq!(titles(&index.entries), vec!["e3", "e2"]);
            assert_eq!(index.title, "Site");
            assert_eq!(index.published_at, at(77));
            assert_eq!(index.site_url, "https://example.com/");
            assert_eq!(index.site_description, "about");
            assert_eq!(index.domain, "example.com");
            assert_eq!(index.share_image.as_deref(), Some("share.png"));
            let names: Vec<&str> = index.pagination.iter().map(|l| l.name.as_str()).collect();
            assert_eq!(names, vec!["home", "page 1", "page 2"]);
        }
        _ => panic!("the seventh file is an index page"),
    }
    match &jobs[7].data {
        JobData::Entry(e) => assert_eq!(e.title, "e1"),
        _ => panic!("the eighth file is an entry"),
    }
    match &jobs[9].data {
        JobData::Tags(groups) => {
            assert_eq!(groups.len(), 1);
            assert_eq!(groups[0].tag, "t");
            assert_eq!(groups[0].entries.len(), 5);
        }
        _ => panic!("the last file is the tag index"),
    }
}

#[test]
fn plan_without_entries_is_the_tag_index_alone() {
    let jobs = plan_site(&settings(2), "example.com", &Vec::new(), at(1));
    assert_eq!(jobs.len(), 1);
    assert_eq!(jobs[0].file, "tags.html");
    assert_eq!(jobs[0].template, "tag-list");
}

#[test]
fn plan_for_one_page_has_the_home_link_alone() {
    let entries = vec![entry("only", at(1), None)];
    let mut opts = settings(2);
    opts.description = None;
    let jobs = plan_site(&opts, "example.com", &entries, at(1));
    let files: Vec<&str> = jobs.iter().map(|j| j.file.as_str()).collect();
    assert_eq!(files, vec!["only.html", "index.rss", "index.html", "tags.html"]);
    match &jobs[2].data {
        JobData::Index(index) => {
            assert_eq!(index.pagination.len(), 1);
            assert_eq!(index.pagination[0].name, "home");
            assert_eq!(index.pagination[0].url, "index.html");
            assert_eq!(index.site_description, "");
        }
        _ => panic!("the third file is the index page"),
    }
}
