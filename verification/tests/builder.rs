use site_gen::builder::{
    assemble_entry, find_clash, page_url, read_entry, template_name, Builder, BuilderError,
    DEFAULT_TRUNCATED,
};
use site_gen::entry::{Config, PageData, SourceFile};
use site_gen::front_matter::{Field, PageMetadata, ParseError};
use site_gen::helpers::Timestamp;
use site_gen::render::Rendered;
use site_gen::site::JobData;

fn now() -> Timestamp {
    // 2021-02-01T10:00:00+01:00
    Timestamp { secs: 1612170000, nanos: 0, offset: 3600 }
}

fn settings(per_page: u8) -> Config {
    Config {
        entries: per_page,
        template_dir: "tpl".to_string(),
        src: "posts".to_string(),
        dest: "out".to_string(),
        title: "Site".to_string(),
        url: "https://blog.example.com/path".to_string(),
        truncate: None,
        description: Some("about".to_string()),
        author: Some("Site Author".to_string()),
        share_image: None,
    }
}

fn document(title: &str, date: &str, extra: &str, body: &str) -> String {
    format!("---\ntitle = \"{}\"\ndate = \"{}\"\n{}---\n{}\n", title, date, extra, body)
}

fn file(name: &str, contents: String) -> SourceFile {
    SourceFile { path: format!("posts/{}", name), contents }
}

fn january(day: u32) -> SourceFile {
    file(
        &format!("jan{}.md", day),
        document(
            &format!("Jan {}", day),
            &format!("2021-01-{:02}T09:00:00+00:00", day),
            "",
            &format!("Written on day {}.", day),
        ),
    )
}

fn titles(entries: &[PageData]) -> Vec<&str> {
    entries.iter().map(|e| e.title.as_str()).collect()
}

#[test]
fn default_excerpt_length_is_300() {
    assert_eq!(DEFAULT_TRUNCATED, 300);
}

#[test]
fn new_takes_the_domain_from_the_address() {
    let b = Builder::new(settings(2), Vec::new()).unwrap();
    assert_eq!(b.domain(), "blog.example.com");
    assert!(b.entries().is_empty());
    let mut opts = settings(2);
    opts.url = "http://127.0.0.1:8080/".to_string();
    assert_eq!(Builder::new(opts, Vec::new()).unwrap().domain(), "127.0.0.1");
    let mut opts = settings(2);
    opts.url = "http://[::1]/".to_string();
    assert_eq!(Builder::new(opts, Vec::new()).unwrap().domain(), "[::1]");
}

#[test]
fn new_rejects_an_address_without_host() {
    let mut opts = settings(2);
    opts.url = "data:text/plain,Stuff".to_string();
    assert_eq!(Builder::new(opts, Vec::new()).unwrap_err(), BuilderError::BadURL);
    let mut opts = settings(2);
    opts.url = "unix:/run/foo.socket".to_string();
    assert_eq!(Builder::new(opts, Vec::new()).unwrap_err(), BuilderError::BadURL);
    let mut opts = settings(2);
    opts.url = "not an address".to_string();
    assert_eq!(Builder::new(opts, Vec::new()).unwrap_err(), BuilderError::BadURL);
    assert_eq!(BuilderError::BadURL.message(), "URL had no host");
}

#[test]
fn entry_file_replaces_the_extension() {
    assert_eq!(page_url("hello.md"), "hello.html");
    assert_eq!(page_url("posts/hello.md"), "hello.html");
    assert_eq!(page_url("a/b/c/hello.world.md"), "hello.world.html");
    assert_eq!(page_url("hello"), "hello.html");
    assert_eq!(page_url("hello."), "hello.html");
    assert_eq!(page_url(".hidden"), ".hidden.html");
    assert_eq!(page_url("dir.d/readme"), "readme.html");
    assert_eq!(page_url("caf\u{e9}.markdown"), "caf\u{e9}.html");
}

#[test]
fn template_is_named_by_its_file_up_to_the_first_dot() {
    assert_eq!(template_name("tpl/entry.hbs"), "entry");
    assert_eq!(template_name("tpl/tag-list.html.hbs"), "tag-list");
    assert_eq!(template_name("atom"), "atom");
    assert_eq!(template_name("a.b/index.hbs"), "index");
    assert_eq!(template_name(".hbs"), "");
}

#[test]
fn assembles_an_entry_from_its_parts() {
    let meta = PageMetadata {
        date: Timestamp { secs: 9, nanos: 0, offset: 0 },
        tag_list: Some(vec!["a".to_string()]),
        title: "T".to_string(),
        share_image: Some("s.png".to_string()),
        hero_image: Some("h.png".to_string()),
        author: None,
        description: Some("d".to_string()),
    };
    let rendered = Rendered { html: "<p>one two three</p>".to_string(), plain_text: "one two three".to_string() };
    let mut opts = settings(2);
    opts.truncate = Some(4);
    let e = assemble_entry(&opts, "example.com", "posts/t.md", meta, rendered, "2021".to_string(), now());
    assert_eq!(e.rendered_at, now());
    assert_eq!(e.created_at, Timestamp { secs: 9, nanos: 0, offset: 0 });
    assert_eq!(e.raw_text, "one two three");
    assert_eq!(e.contents, "<p>one two three</p>");
    assert_eq!(e.tags, Some(vec!["a".to_string()]));
    assert_eq!(e.title, "T");
    assert_eq!(e.url, "t.html");
    assert_eq!(e.hero_image.as_deref(), Some("h.png"));
    assert_eq!(e.share_image.as_deref(), Some("s.png"));
    assert_eq!(e.description.as_deref(), Some("d"));
    assert_eq!(e.site_url, "https://blog.example.com/path");
    assert_eq!(e.domain, "example.com");
    assert_eq!(e.author.as_deref(), Some("Site Author"));
    assert_eq!(e.year, "2021");
    assert_eq!(e.site_description.as_deref(), Some("about"));
    assert_eq!(e.truncated_contents, "one");
}

#[test]
fn reads_a_document() {
    let doc = file(
        "hello.md",
        document(
            "Hello",
            "2021-01-05T09:00:00-05:00",
            "tag_list = \"x, y\"\nauthor = \"Ada\"\n",
            "# Heading\n\nSome *text*.",
        ),
    );
    let e = read_entry(&settings(2), "blog.example.com", &doc, now()).unwrap();
    assert_eq!(e.title, "Hello");
    assert_eq!(e.created_at, Timestamp { secs: 1609855200, nanos: 0, offset: -18000 });
    assert_eq!(e.rendered_at, now());
    assert_eq!(e.contents, "<h1>Heading</h1>\n<p>Some <em>text</em>.</p>\n");
    assert_eq!(e.raw_text, "Heading\nSome text.\n");
    assert_eq!(e.truncated_contents, "Heading\nSome text.\n");
    assert_eq!(e.tags, Some(vec!["x".to_string(), "y".to_string()]));
    assert_eq!(e.url, "hello.html");
    assert_eq!(e.author.as_deref(), Some("Ada"));
    assert_eq!(e.year, "2021");
    assert_eq!(e.domain, "blog.example.com");
    assert_eq!(e.site_url, "https://blog.example.com/path");
}

#[test]
fn author_falls_back_to_the_site() {
    let b = Builder::new(settings(2), Vec::new()).unwrap();
    let e = b.parse_entry(&january(1), now()).unwrap();
    assert_eq!(e.author.as_deref(), Some("Site Author"));
    assert_eq!(e.domain, "blog.example.com");
}

#[test]
fn year_is_that_of_the_build_in_its_own_zone() {
    // 2020-12-31T23:30:00Z is 2021 one hour east of Greenwich
    let new_year = Timestamp { secs: 1609457400, nanos: 0, offset: 3600 };
    let e = read_entry(&settings(2), "d", &january(1), new_year).unwrap();
    assert_eq!(e.year, "2021");
    let e = read_entry(&settings(2), "d", &january(1), Timestamp { offset: 0, ..new_year }).unwrap();
    assert_eq!(e.year, "2020");
}

#[test]
fn document_without_preamble_is_rejected() {
    let doc = file("bad.md", "title = \"x\"\n# no separators\n".to_string());
    let e = read_entry(&settings(2), "d", &doc, now()).unwrap_err();
    assert_eq!(
        e,
        BuilderError::BadEntry {
            file: "posts/bad.md".to_string(),
            error: ParseError::MalformedPreamble
        }
    );
    assert_eq!(e.message(), "posts/bad.md: the preamble needs two separator lines");
}

#[test]
fn document_with_a_bad_preamble_is_rejected() {
    let doc = file("bad.md", "---\ntitle = \"x\"\n---\nbody".to_string());
    assert_eq!(
        read_entry(&settings(2), "d", &doc, now()).unwrap_err(),
        BuilderError::BadEntry {
            file: "posts/bad.md".to_string(),
            error: ParseError::MissingField(Field::Date)
        }
    );
    let doc = file("bad.md", "---\ntitle x\n---\nbody".to_string());
    assert_eq!(
        read_entry(&settings(2), "d", &doc, now()).unwrap_err(),
        BuilderError::BadEntry { file: "posts/bad.md".to_string(), error: ParseError::InvalidToml }
    );
    let doc = file("bad.md", document("x", "last Tuesday", "", "body"));
    let e = read_entry(&settings(2), "d", &doc, now()).unwrap_err();
    assert_eq!(
        e,
        BuilderError::BadEntry { file: "posts/bad.md".to_string(), error: ParseError::BadDate }
    );
    assert_eq!(e.message(), "posts/bad.md: the date is not an RFC 3339 date");
}

#[test]
fn build_time_out_of_range_is_rejected() {
    let far = Timestamp { secs: i64::MAX, nanos: 0, offset: 0 };
    let e = read_entry(&settings(2), "d", &january(1), far).unwrap_err();
    assert_eq!(e, BuilderError::BadTime);
    assert_eq!(e.message(), "the time of the build cannot be shown as a year");
}

#[test]
fn five_entries_two_to_a_page() {
    let files = vec![january(3), january(5), january(1), january(4), january(2)];
    let mut b = Builder::new(settings(2), files).unwrap();
    let jobs = b.build(now()).unwrap();
    assert_eq!(titles(b.entries()), vec!["Jan 5", "Jan 4", "Jan 3", "Jan 2", "Jan 1"]);

    let files: Vec<&str> = jobs.iter().map(|j| j.file.as_str()).collect();
    assert_eq!(
        files,
        vec![
            "jan5.html", "jan4.html", "index.rss", "index.html", "jan3.html", "jan2.html",
            "index1.html", "jan1.html", "index2.html", "tags.html"
        ]
    );
    let mut entry_files = 0;
    let mut index_pages: Vec<(String, Vec<String>)> = Vec::new();
    let mut feeds: Vec<Vec<String>> = Vec::new();
    for job in &jobs {
        match &job.data {
            JobData::Entry(_) => entry_files += 1,
            JobData::Index(index) => index_pages.push((
                job.file.clone(),
                index.entries.iter().map(|e| e.title.clone()).collect(),
            )),
            JobData::Feed(feed) => {
                feeds.push(feed.entries.iter().map(|e| e.title.clone()).collect())
            }
            JobData::Tags(_) => {}
        }
    }
    assert_eq!(entry_files, 5);
    assert_eq!(
        index_pages,
        vec![
            ("index.html".to_string(), vec!["Jan 5".to_string(), "Jan 4".to_string()]),
            ("index1.html".to_string(), vec!["Jan 3".to_string(), "Jan 2".to_string()]),
            ("index2.html".to_string(), vec!["Jan 1".to_string()]),
        ]
    );
    assert_eq!(feeds, vec![vec!["Jan 5".to_string(), "Jan 4".to_string()]]);
}

#[test]
fn feed_description_is_cut_at_white_space() {
    let body = "abcdefghi ".repeat(40);
    let long = file("long.md", document("Long", "2021-01-05T09:00:00+00:00", "", &body));
    let mut b = Builder::new(settings(2), vec![long]).unwrap();
    let jobs = b.build(now()).unwrap();
    let entry = &b.entries()[0];
    assert!(entry.raw_text.chars().count() > 300);
    assert_eq!(entry.description, None);
    let feed = jobs
        .iter()
        .find_map(|j| match &j.data {
            JobData::Feed(f) => Some(f),
            _ => None,
        })
        .unwrap();
    let description = &feed.entries[0].description;
    assert_eq!(description.chars().count(), 299);
    assert!(description.chars().count() <= DEFAULT_TRUNCATED as usize);
    assert!(entry.raw_text.starts_with(description.as_str()));
    assert_eq!(entry.raw_text.chars().nth(299), Some(' '));
    assert_eq!(*description, "abcdefghi ".repeat(30).trim_end());
    assert_eq!(*description, entry.truncated_contents);
}

#[test]
fn feed_description_goes_by_the_configured_length() {
    let body = "abcdefghi ".repeat(40);
    let long = file("long.md", document("Long", "2021-01-05T09:00:00+00:00", "", &body));
    let mut opts = settings(2);
    opts.truncate = Some(50);
    let mut b = Builder::new(opts, vec![long]).unwrap();
    let jobs = b.build(now()).unwrap();
    match &jobs[1].data {
        JobData::Feed(f) => assert_eq!(f.entries[0].description, "abcdefghi ".repeat(5).trim_end()),
        _ => panic!("the second file is the feed"),
    }
}

#[test]
fn feed_prefers_the_description_of_the_author() {
    let body = "abcdefghi ".repeat(40);
    let long = file(
        "long.md",
        document("Long", "2021-01-05T09:00:00+00:00", "description = \"In short.\"\n", &body),
    );
    let mut b = Builder::new(settings(2), vec![long]).unwrap();
    let jobs = b.build(now()).unwrap();
    match &jobs[1].data {
        JobData::Feed(f) => assert_eq!(f.entries[0].description, "In short."),
        _ => panic!("the second file is the feed"),
    }
}

#[test]
fn build_stops_at_the_first_bad_document() {
    let files = vec![
        january(1),
        file("bad.md", "no preamble".to_string()),
        file("worse.md", "---\n---\n".to_string()),
    ];
    let mut b = Builder::new(settings(2), files).unwrap();
    assert_eq!(
        b.build(now()).unwrap_err(),
        BuilderError::BadEntry {
            file: "posts/bad.md".to_string(),
            error: ParseError::MalformedPreamble
        }
    );
    assert!(b.entries().is_empty());
}

#[test]
fn build_rejects_two_documents_for_one_file() {
    let files = vec![
        january(1),
        file("jan2.md", document("a", "2021-01-02T09:00:00+00:00", "", "a")),
        file("jan2.txt", document("b", "2021-01-03T09:00:00+00:00", "", "b")),
        file("jan1.markdown", document("c", "2021-01-04T09:00:00+00:00", "", "c")),
    ];
    let mut b = Builder::new(settings(2), files).unwrap();
    let e = b.build(now()).unwrap_err();
    assert_eq!(e, BuilderError::DuplicateUrl { url: "jan2.html".to_string() });
    assert_eq!(e.message(), "more than one document would be written to jan2.html");
    assert!(b.entries().is_empty());
}

#[test]
fn finds_the_first_entry_that_takes_a_used_file() {
    let mut b = Builder::new(settings(9), vec![january(1), january(2), january(3)]).unwrap();
    b.build(now()).unwrap();
    let mut entries: Vec<PageData> = b.entries().clone();
    assert_eq!(find_clash(&entries), None);
    entries[2].url = entries[0].url.clone();
    assert_eq!(find_clash(&entries), Some(2));
    entries[1].url = entries[0].url.clone();
    assert_eq!(find_clash(&entries), Some(1));
    assert_eq!(find_clash(&Vec::new()), None);
}

#[test]
fn build_without_documents_writes_the_tag_index_alone() {
    let mut b = Builder::new(settings(2), Vec::new()).unwrap();
    let jobs = b.build(now()).unwrap();
    assert_eq!(jobs.len(), 1);
    assert_eq!(jobs[0].file, "tags.html");
}

#[test]
fn building_again_gives_the_same_plan() {
    let files = vec![january(2), january(1), january(3)];
    let mut b = Builder::new(settings(2), files).unwrap();
    let first: Vec<String> = b.build(now()).unwrap().iter().map(|j| j.file.clone()).collect();
    let second: Vec<String> = b.build(now()).unwrap().iter().map(|j| j.file.clone()).collect();
    assert_eq!(first, second);
    assert_eq!(b.entries().len(), 3);
    let again: Vec<String> = b.build_blog(now()).iter().map(|j| j.file.clone()).collect();
    assert_eq!(first, again);
}

#[test]
fn tags_of_all_pages_reach_the_index() {
    let files = vec![
        file("one.md", document("One", "2021-01-03T00:00:00Z", "tag_list = [\"a\", \"b\"]\n", "1")),
        file("two.md", document("Two", "2021-01-02T00:00:00Z", "tag_list = [\"a\"]\n", "2")),
        file("three.md", document("Three", "2021-01-01T00:00:00Z", "tag_list = \"c\"\n", "3")),
    ];
    let mut b = Builder::new(settings(1), files).unwrap();
    let jobs = b.build(now()).unwrap();
    match &jobs.last().unwrap().data {
        JobData::Tags(groups) => {
            let keys: Vec<&str> = groups.iter().map(|g| g.tag.as_str()).collect();
            assert_eq!(keys, vec!["a", "b", "c"]);
            let counts: Vec<usize> = groups.iter().map(|g| g.entries.len()).collect();
            assert_eq!(counts, vec![2, 1, 1]);
            assert_eq!(groups[0].entries[0].url, "one.html");
            assert_eq!(groups[0].entries[1].url, "two.html");
        }
        _ => panic!("the last file is the tag index"),
    }
}
