//! The build itself: from the settings and the documents to the ordered
//! entries and the list of files to render.

use vstd::prelude::*;
pub use crate::front_matter::{PageMetadata, HEADER_DELIMITER};
use crate::entry::{copy_text, Config, ConfigView, PageData, PageDataView, SourceFile, SourceFileView};
use crate::front_matter::{
    extract_preamble,
    metadata_of_fields,
    parse_message,
    parse_metadata,
    preamble_of,
    toml_fields,
    PageMetadataView,
    ParseError,
};
use crate::helpers::{formatted, Timestamp};
use crate::ordering::{is_sorted_form, sort_entries};
use crate::render::{document_html, render, without_tags, Rendered};
use crate::site::{is_site_plan, plan_site, RenderJob};
use crate::text::{chars_of, join2, join3, string_of};
use crate::truncate::{truncate, truncated};

verus! {

/// The length that excerpts are shortened to where the settings name none.
pub const DEFAULT_TRUNCATED: u32 = 300;

/// Why a build failed.
#[derive(Debug, PartialEq, Eq)]
pub enum BuilderError {
    /// The address of the site names no host.
    BadURL,
    /// A document could not be read.
    BadEntry { file: String, error: ParseError },
    /// Two documents would be written to the same file.
    DuplicateUrl { url: String },
    /// The time of the build cannot be shown as a year.
    BadTime,
}

/// A `BuilderError` as a mathematical value.
pub enum BuilderErrorView {
    BadURL,
    BadEntry { file: Seq<char>, error: ParseError },
    DuplicateUrl { url: Seq<char> },
    BadTime,
}

impl DeepView for BuilderError {
    type V = BuilderErrorView;

    open spec fn deep_view(&self) -> BuilderErrorView {
        match *self {
            BuilderError::BadURL => BuilderErrorView::BadURL,
            BuilderError::BadEntry { file, error } => BuilderErrorView::BadEntry {
                file: file@,
                error,
            },
            BuilderError::DuplicateUrl { url } => BuilderErrorView::DuplicateUrl { url: url@ },
            BuilderError::BadTime => BuilderErrorView::BadTime,
        }
    }
}

/// The host that an address names; `None` where the text is no address or
/// the address names no host.
pub uninterp spec fn url_host(url: Seq<char>) -> Option<Seq<char>>;

/// `url::Url::parse`, then `Url::host`, written out with the host's
/// `to_string`. The contract names the result; a text that does not parse
/// has no host.
#[verifier::external_body]
pub(crate) fn host_of(url: &str) -> (r: Option<String>)
    ensures
        r.deep_view() == url_host(url@),
{
    match url::Url::parse(url) {
        Ok(parsed) => match parsed.host() {
            Some(host) => Some(host.to_string()),
            None => None,
        },
        Err(_) => None,
    }
}

/// The position behind the last `c` among the first `i` characters of `s`,
/// or 0 where there is none.
pub open spec fn after_last(s: Seq<char>, c: char, i: int) -> int
    decreases i,
{
    if i <= 0 || i > s.len() {
        0
    } else if s[i - 1] == c {
        i
    } else {
        after_last(s, c, i - 1)
    }
}

/// The position of the first `c` at or behind position `i` of `s`, or the
/// length of `s` where there is none.
pub open spec fn first_of(s: Seq<char>, c: char, i: int) -> int
    decreases s.len() - i,
{
    if i < 0 || i >= s.len() {
        s.len() as int
    } else if s[i] == c {
        i
    } else {
        first_of(s, c, i + 1)
    }
}

/// The last part of a path: what follows its last slash.
pub open spec fn file_name(path: Seq<char>) -> Seq<char> {
    path.skip(after_last(path, '/', path.len() as int))
}

/// A file name without its extension: without its last dot and what
/// follows it, unless that dot is the first character.
pub open spec fn file_stem(name: Seq<char>) -> Seq<char> {
    let behind_dot = after_last(name, '.', name.len() as int);
    if behind_dot <= 1 {
        name
    } else {
        name.take(behind_dot - 1)
    }
}

/// The file that the entry of a document is written to: the name of the
/// document with `.html` in place of its extension.
pub open spec fn entry_url(path: Seq<char>) -> Seq<char> {
    file_stem(file_name(path)) + ".html"@
}

/// The name under which a template is known: the name of its file up to
/// the first dot.
pub open spec fn template_name_of(path: Seq<char>) -> Seq<char> {
    let name = file_name(path);
    name.take(first_of(name, '.', 0))
}

fn find_after_last(chars: &Vec<char>, c: char, from: usize, to: usize) -> (r: usize)
    requires
        from <= to <= chars.len(),
    ensures
        from <= r <= to,
        r == from + after_last(chars@.subrange(from as int, to as int), c, to - from),
{
    let ghost part = chars@.subrange(from as int, to as int);
    let mut i: usize = to;
    while i > from
        invariant
            from <= i <= to <= chars.len(),
            part == chars@.subrange(from as int, to as int),
            after_last(part, c, to - from) == after_last(part, c, i - from),
        decreases i,
    {
        assert(part[i - from - 1] == chars@[i - 1]);
        if chars[i - 1] == c {
            return i;
        }
        i -= 1;
    }
    from
}

fn find_first(chars: &Vec<char>, c: char, from: usize, to: usize) -> (r: usize)
    requires
        from <= to <= chars.len(),
    ensures
        from <= r <= to,
        r == from + first_of(chars@.subrange(from as int, to as int), c, 0),
{
    let ghost part = chars@.subrange(from as int, to as int);
    let mut i: usize = from;
    while i < to
        invariant
            from <= i <= to <= chars.len(),
            part == chars@.subrange(from as int, to as int),
            first_of(part, c, 0) == first_of(part, c, i - from),
        decreases to - i,
    {
        assert(part[i - from] == chars@[i as int]);
        if chars[i] == c {
            return i;
        }
        i += 1;
    }
    to
}

/// The file that the entry of a document is written to: the name of the
/// document with `.html` in place of its extension.
pub fn page_url(path: &str) -> (r: String)
    ensures
        r@ == entry_url(path@),
{
    let chars = chars_of(path);
    let n = chars.len();
    let start = find_after_last(&chars, '/', 0, n);
    assert(chars@.subrange(0, n as int) == path@);
    assert(chars@.subrange(start as int, n as int) == file_name(path@));
    let behind_dot = find_after_last(&chars, '.', start, n);
    let end = if behind_dot - start <= 1 {
        n
    } else {
        behind_dot - 1
    };
    let stem = string_of(&chars, start, end);
    proof {
        let name = file_name(path@);
        if behind_dot - start > 1 {
            assert(name.take(behind_dot - start - 1) == chars@.subrange(start as int, end as int));
        } else {
            assert(name == chars@.subrange(start as int, end as int));
        }
    }
    join2(stem.as_str(), ".html")
}

/// The name under which a template is known: the name of its file up to
/// the first dot.
pub fn template_name(path: &str) -> (r: String)
    ensures
        r@ == template_name_of(path@),
{
    let chars = chars_of(path);
    let n = chars.len();
    let start = find_after_last(&chars, '/', 0, n);
    assert(chars@.subrange(0, n as int) == path@);
    assert(chars@.subrange(start as int, n as int) == file_name(path@));
    let dot = find_first(&chars, '.', start, n);
    let r = string_of(&chars, start, dot);
    assert(file_name(path@).take(dot - start) == chars@.subrange(start as int, dot as int));
    r
}

/// The length that excerpts are shortened to.
pub open spec fn truncate_length(opts: ConfigView) -> int {
    match opts.truncate {
        Some(n) => n as int,
        None => DEFAULT_TRUNCATED as int,
    }
}

/// The entry of a document, given what its preamble says and what its text
/// renders to. The author is the document's, or else the site's.
pub open spec fn assembled(
    opts: ConfigView,
    domain: Seq<char>,
    path: Seq<char>,
    meta: PageMetadataView,
    html: Seq<char>,
    plain_text: Seq<char>,
    year: Seq<char>,
    now: Timestamp,
) -> PageDataView {
    PageDataView {
        rendered_at: now,
        created_at: meta.date,
        raw_text: plain_text,
        contents: html,
        tags: meta.tag_list,
        title: meta.title,
        url: entry_url(path),
        hero_image: meta.hero_image,
        share_image: meta.share_image,
        description: meta.description,
        site_url: opts.url,
        domain,
        author: match meta.author {
            Some(a) => Some(a),
            None => opts.author,
        },
        year,
        site_description: opts.description,
        truncated_contents: truncated(plain_text, truncate_length(opts)),
    }
}

/// What reading a document gives: its entry, or why it has none. The
/// preamble is looked at first, then the time of the build.
pub open spec fn entry_of(
    opts: ConfigView,
    domain: Seq<char>,
    file: SourceFileView,
    now: Timestamp,
) -> Result<PageDataView, BuilderErrorView> {
    match preamble_of(file.contents) {
        None => Err(
            BuilderErrorView::BadEntry { file: file.path, error: ParseError::MalformedPreamble },
        ),
        Some(preamble) => match metadata_of_fields(toml_fields(preamble)) {
            Err(error) => Err(BuilderErrorView::BadEntry { file: file.path, error }),
            Ok(meta) => match formatted(now, "%Y"@) {
                None => Err(BuilderErrorView::BadTime),
                Some(year) => {
                    let html = document_html(file.contents);
                    Ok(
                        assembled(
                            opts,
                            domain,
                            file.path,
                            meta,
                            html,
                            without_tags(html),
                            year,
                            now,
                        ),
                    )
                },
            },
        },
    }
}

/// The view of what reading a document gives.
pub open spec fn entry_result(r: Result<PageData, BuilderError>) -> Result<
    PageDataView,
    BuilderErrorView,
> {
    match r {
        Ok(e) => Ok(e.deep_view()),
        Err(e) => Err(e.deep_view()),
    }
}

/// Puts an entry together from what the preamble of its document says and
/// what the text of the document renders to.
pub fn assemble_entry(
    opts: &Config,
    domain: &str,
    path: &str,
    meta: PageMetadata,
    rendered: Rendered,
    year: String,
    now: Timestamp,
) -> (r: PageData)
    ensures
        r.deep_view() == assembled(
            opts.deep_view(),
            domain@,
            path@,
            meta.deep_view(),
            rendered.html@,
            rendered.plain_text@,
            year@,
            now,
        ),
{
    let max_len = match opts.truncate {
        Some(n) => n,
        None => DEFAULT_TRUNCATED,
    };
    let truncated_contents = truncate(rendered.plain_text.as_str(), max_len as usize);
    let author = match meta.author {
        Some(a) => Some(a),
        None => copy_text(&opts.author),
    };
    PageData {
        rendered_at: now,
        created_at: meta.date,
        raw_text: rendered.plain_text,
        contents: rendered.html,
        tags: meta.tag_list,
        title: meta.title,
        url: page_url(path),
        hero_image: meta.hero_image,
        share_image: meta.share_image,
        description: meta.description,
        site_url: opts.url.clone(),
        domain: domain.to_owned(),
        author,
        year,
        site_description: copy_text(&opts.description),
        truncated_contents,
    }
}

/// Reads one document: finds and decodes its preamble, renders its text and
/// puts the entry together.
pub fn read_entry(opts: &Config, domain: &str, file: &SourceFile, now: Timestamp) -> (r: Result<
    PageData,
    BuilderError,
>)
    ensures
        entry_result(r) == entry_of(opts.deep_view(), domain@, file.deep_view(), now),
{
    let preamble = match extract_preamble(file.contents.as_str()) {
        Some(p) => p,
        None => {
            return Err(
                BuilderError::BadEntry {
                    file: file.path.clone(),
                    error: ParseError::MalformedPreamble,
                },
            );
        },
    };
    let meta = match parse_metadata(preamble.as_str()) {
        Ok(m) => m,
        Err(error) => {
            return Err(BuilderError::BadEntry { file: file.path.clone(), error });
        },
    };
    let year = match now.format("%Y") {
        Some(y) => y,
        None => {
            return Err(BuilderError::BadTime);
        },
    };
    let rendered = render(file.contents.as_str());
    Ok(assemble_entry(opts, domain, file.path.as_str(), meta, rendered, year, now))
}

/// What reading the first `n` documents gives: their entries in the order
/// of the documents, or the error of the first document that has one.
pub open spec fn loaded(
    opts: ConfigView,
    domain: Seq<char>,
    files: Seq<SourceFileView>,
    now: Timestamp,
    n: nat,
) -> Result<Seq<PageDataView>, BuilderErrorView>
    decreases n,
{
    if n == 0 {
        Ok(Seq::empty())
    } else {
        match loaded(opts, domain, files, now, (n - 1) as nat) {
            Err(e) => Err(e),
            Ok(entries) => match entry_of(opts, domain, files[n - 1], now) {
                Err(e) => Err(e),
                Ok(entry) => Ok(entries.push(entry)),
            },
        }
    }
}

/// Whether the file of entry `j` is also that of an entry before it.
pub open spec fn url_taken(entries: Seq<PageDataView>, j: int) -> bool {
    exists|i: int| 0 <= i < j && (#[trigger] entries[i]).url == entries[j].url
}

/// The first entry at or behind position `from` whose file is also that of
/// an entry before it.
pub open spec fn first_clash(entries: Seq<PageDataView>, from: int) -> Option<int>
    decreases entries.len() - from,
{
    if from < 0 || from >= entries.len() {
        None
    } else if url_taken(entries, from) {
        Some(from)
    } else {
        first_clash(entries, from + 1)
    }
}

/// Whether no two entries are written to the same file.
pub open spec fn urls_differ(entries: Seq<PageDataView>) -> bool {
    forall|i: int, j: int|
        0 <= i < j < entries.len() ==> (#[trigger] entries[i]).url != (#[trigger] entries[j]).url
}

/// The entries of a build in the order of their documents, or the reason
/// why the build fails: the first document that cannot be read, or else the
/// first entry that would be written over an earlier one.
pub open spec fn gathered(
    opts: ConfigView,
    domain: Seq<char>,
    files: Seq<SourceFileView>,
    now: Timestamp,
) -> Result<Seq<PageDataView>, BuilderErrorView> {
    match loaded(opts, domain, files, now, files.len()) {
        Err(e) => Err(e),
        Ok(entries) => match first_clash(entries, 0) {
            Some(j) => Err(BuilderErrorView::DuplicateUrl { url: entries[j].url }),
            None => Ok(entries),
        },
    }
}

/// Where `first_clash` finds nothing from the start, no two entries are
/// written to the same file.
pub proof fn lemma_no_clash(entries: Seq<PageDataView>, from: int)
    requires
        0 <= from,
        first_clash(entries, from) is None,
    ensures
        forall|i: int, j: int|
            0 <= i < j < entries.len() && from <= j ==> (#[trigger] entries[i]).url != (
            #[trigger] entries[j]).url,
    decreases entries.len() - from,
{
    if from < entries.len() {
        lemma_no_clash(entries, from + 1);
        assert(!url_taken(entries, from));
    }
}

/// Putting entries in another order does not make two of them share a
/// file.
pub proof fn lemma_reordered_urls_differ(sorted: Seq<PageDataView>, entries: Seq<PageDataView>)
    requires
        sorted.to_multiset() == entries.to_multiset(),
        urls_differ(entries),
    ensures
        urls_differ(sorted),
{
    assert(entries.no_duplicates()) by {
        assert forall|i: int, j: int|
            0 <= i < entries.len() && 0 <= j < entries.len() && i != j implies entries[i]
            != entries[j] by {
            if i < j {
                assert(entries[i].url != entries[j].url);
            } else {
                assert(entries[j].url != entries[i].url);
            }
        }
    }
    entries.lemma_multiset_has_no_duplicates();
    sorted.lemma_multiset_has_no_duplicates_conv();
    sorted.to_multiset_ensures();
    entries.to_multiset_ensures();
    assert forall|i: int, j: int| 0 <= i < j < sorted.len() implies (#[trigger] sorted[i]).url != (
    #[trigger] sorted[j]).url by {
        assert(sorted.contains(sorted[i]));
        assert(sorted.contains(sorted[j]));
        assert(sorted.to_multiset().count(sorted[i]) > 0);
        assert(sorted.to_multiset().count(sorted[j]) > 0);
        assert(entries.to_multiset().count(sorted[i]) > 0);
        assert(entries.to_multiset().count(sorted[j]) > 0);
        assert(entries.contains(sorted[i]));
        assert(entries.contains(sorted[j]));
        let a = choose|a: int| 0 <= a < entries.len() && entries[a] == sorted[i];
        let b = choose|b: int| 0 <= b < entries.len() && entries[b] == sorted[j];
        if a < b {
            assert(entries[a].url != entries[b].url);
        } else if b < a {
            assert(entries[b].url != entries[a].url);
        } else {
            assert(sorted[i] != sorted[j]);
        }
    }
}

/// Looks for the first entry that would be written over an earlier one.
pub fn find_clash(entries: &Vec<PageData>) -> (r: Option<usize>)
    ensures
        match r {
            Some(j) => first_clash(entries.deep_view(), 0) == Some(j as int) && j < entries.len(),
            None => first_clash(entries.deep_view(), 0) is None && urls_differ(
                entries.deep_view(),
            ),
        },
{
    let ghost ev = entries.deep_view();
    let mut j: usize = 0;
    while j < entries.len()
        invariant
            j <= entries.len(),
            ev == entries.deep_view(),
            first_clash(ev, 0) == first_clash(ev, j as int),
        decreases entries.len() - j,
    {
        let mut i: usize = 0;
        while i < j
            invariant
                i <= j < entries.len(),
                ev == entries.deep_view(),
                first_clash(ev, 0) == first_clash(ev, j as int),
                forall|k: int| 0 <= k < i ==> (#[trigger] ev[k]).url != ev[j as int].url,
            decreases j - i,
        {
            if entries[i].url == entries[j].url {
                assert(ev[i as int].url == ev[j as int].url);
                assert(url_taken(ev, j as int));
                assert(first_clash(ev, j as int) == Some(j as int));
                return Some(j);
            }
            i += 1;
        }
        assert(!url_taken(ev, j as int));
        j += 1;
    }
    proof {
        lemma_no_clash(ev, 0);
    }
    None
}

/// A build: the settings, the documents, and the entries once they are
/// read.
#[derive(Debug)]
pub struct Builder {
    opts: Config,
    files: Vec<SourceFile>,
    entries: Vec<PageData>,
    domain: String,
}

/// A `Builder` as a mathematical value.
pub struct BuilderView {
    pub opts: ConfigView,
    pub files: Seq<SourceFileView>,
    pub entries: Seq<PageDataView>,
    pub domain: Seq<char>,
}

impl DeepView for Builder {
    type V = BuilderView;

    closed spec fn deep_view(&self) -> BuilderView {
        BuilderView {
            opts: self.opts.deep_view(),
            files: self.files.deep_view(),
            entries: self.entries.deep_view(),
            domain: self.domain@,
        }
    }
}

/// What `Builder::new` gives for the settings and the documents.
pub open spec fn new_builder(opts: ConfigView, files: Seq<SourceFileView>) -> Result<
    BuilderView,
    BuilderErrorView,
> {
    match url_host(opts.url) {
        Some(domain) => Ok(BuilderView { opts, files, entries: Seq::empty(), domain }),
        None => Err(BuilderErrorView::BadURL),
    }
}

impl Builder {
    /// Whether the builder is one that `new` made: its pages hold at
    /// least one entry, and its domain is the host of the site's address.
    pub open spec fn wf(&self) -> bool {
        &&& self.deep_view().opts.entries > 0
        &&& url_host(self.deep_view().opts.url) == Some(self.deep_view().domain)
    }

    /// Starts a build. Fails with `BadURL` where the address of the site
    /// names no host.
    pub fn new(opts: Config, files: Vec<SourceFile>) -> (r: Result<Builder, BuilderError>)
        requires
            opts.entries > 0,
        ensures
            match r {
                Ok(b) => new_builder(opts.deep_view(), files.deep_view()) == Ok::<
                    BuilderView,
                    BuilderErrorView,
                >(b.deep_view()) && b.wf(),
                Err(e) => new_builder(opts.deep_view(), files.deep_view()) == Err::<
                    BuilderView,
                    BuilderErrorView,
                >(e.deep_view()),
            },
    {
        match host_of(opts.url.as_str()) {
            Some(domain) => {
                let entries: Vec<PageData> = Vec::new();
                assert(entries.deep_view() == Seq::<PageDataView>::empty());
                Ok(Builder { opts, files, entries, domain })
            },
            None => Err(BuilderError::BadURL),
        }
    }

    /// The host of the site.
    pub fn domain(&self) -> (r: &String)
        ensures
            r@ == self.deep_view().domain,
    {
        &self.domain
    }

    /// The entries, in order once `build` has run.
    pub fn entries(&self) -> (r: &Vec<PageData>)
        ensures
            r.deep_view() == self.deep_view().entries,
    {
        &self.entries
    }

    /// Reads one document as this build reads it.
    pub fn parse_entry(&self, file: &SourceFile, now: Timestamp) -> (r: Result<
        PageData,
        BuilderError,
    >)
        ensures
            entry_result(r) == entry_of(
                self.deep_view().opts,
                self.deep_view().domain,
                file.deep_view(),
                now,
            ),
    {
        read_entry(&self.opts, self.domain.as_str(), file, now)
    }

    fn load(&self, now: Timestamp) -> (r: Result<Vec<PageData>, BuilderError>)
        ensures
            match r {
                Ok(entries) => gathered(
                    self.deep_view().opts,
                    self.deep_view().domain,
                    self.deep_view().files,
                    now,
                ) == Ok::<Seq<PageDataView>, BuilderErrorView>(entries.deep_view())
                    && urls_differ(entries.deep_view()),
                Err(e) => gathered(
                    self.deep_view().opts,
                    self.deep_view().domain,
                    self.deep_view().files,
                    now,
                ) == Err::<Seq<PageDataView>, BuilderErrorView>(e.deep_view()),
            },
    {
        let ghost b = self.deep_view();
        let mut entries: Vec<PageData> = Vec::new();
        let mut i: usize = 0;
        assert(entries.deep_view() == Seq::<PageDataView>::empty());
        while i < self.files.len()
            invariant
                i <= self.files.len(),
                b == self.deep_view(),
                loaded(b.opts, b.domain, b.files, now, i as nat) == Ok::<
                    Seq<PageDataView>,
                    BuilderErrorView,
                >(entries.deep_view()),
            decreases self.files.len() - i,
        {
            let ghost before = entries.deep_view();
            assert(b.files[i as int] == self.files@[i as int].deep_view());
            match self.parse_entry(&self.files[i], now) {
                Ok(entry) => {
                    entries.push(entry);
                    assert(entries.deep_view() == before.push(entry.deep_view()));
                },
                Err(e) => {
                    proof {
                        lemma_loaded_fails(b.opts, b.domain, b.files, now, i as nat + 1, b.files.len());
                    }
                    return Err(e);
                },
            }
            i += 1;
        }
        match find_clash(&entries) {
            Some(j) => Err(BuilderError::DuplicateUrl { url: entries[j].url.clone() }),
            None => Ok(entries),
        }
    }

    /// Lists the files to write for the entries as they stand.
    pub fn build_blog(&self, now: Timestamp) -> (jobs: Vec<RenderJob>)
        requires
            self.wf(),
        ensures
            is_site_plan(
                jobs.deep_view(),
                self.deep_view().opts,
                self.deep_view().domain,
                self.deep_view().entries,
                now,
            ),
    {
        plan_site(&self.opts, self.domain.as_str(), &self.entries, now)
    }

    /// Runs the build: reads every document, puts the entries in order,
    /// newest first, and lists the files to write.
    ///
    /// The build fails at the first document that cannot be read, and
    /// where two documents would be written to the same file. A build that
    /// fails leaves the builder as it was.
    pub fn build(&mut self, now: Timestamp) -> (r: Result<Vec<RenderJob>, BuilderError>)
        requires
            old(self).wf(),
        ensures
            final(self).wf(),
            final(self).deep_view().opts == old(self).deep_view().opts,
            final(self).deep_view().files == old(self).deep_view().files,
            final(self).deep_view().domain == old(self).deep_view().domain,
            match gathered(
                old(self).deep_view().opts,
                old(self).deep_view().domain,
                old(self).deep_view().files,
                now,
            ) {
                Ok(entries) => r matches Ok(jobs) && is_sorted_form(
                    final(self).deep_view().entries,
                    entries,
                ) && urls_differ(final(self).deep_view().entries) && is_site_plan(
                    jobs.deep_view(),
                    final(self).deep_view().opts,
                    final(self).deep_view().domain,
                    final(self).deep_view().entries,
                    now,
                ),
                Err(e) => r matches Err(x) && x.deep_view() == e && final(self).deep_view() == old(
                    self,
                ).deep_view(),
            },
    {
        match self.load(now) {
            Err(e) => Err(e),
            Ok(entries) => {
                let ghost gv = entries.deep_view();
                let sorted = sort_entries(entries);
                proof {
                    lemma_reordered_urls_differ(sorted.deep_view(), gv);
                }
                self.entries = sorted;
                Ok(self.build_blog(now))
            },
        }
    }
}

/// Once a document fails, reading more documents gives the same failure.
proof fn lemma_loaded_fails(
    opts: ConfigView,
    domain: Seq<char>,
    files: Seq<SourceFileView>,
    now: Timestamp,
    n: nat,
    m: nat,
)
    requires
        n <= m,
        loaded(opts, domain, files, now, n) is Err,
    ensures
        loaded(opts, domain, files, now, m) == loaded(opts, domain, files, now, n),
    decreases m - n,
{
    if n < m {
        lemma_loaded_fails(opts, domain, files, now, n, (m - 1) as nat);
    }
}

/// What a `BuilderError` says to the user. A document that cannot be read
/// is named.
pub open spec fn builder_message(e: BuilderErrorView) -> Seq<char> {
    match e {
        BuilderErrorView::BadURL => "URL had no host"@,
        BuilderErrorView::BadEntry { file, error } => file + ": "@ + parse_message(error),
        BuilderErrorView::DuplicateUrl { url } => "more than one document would be written to "@
            + url,
        BuilderErrorView::BadTime => "the time of the build cannot be shown as a year"@,
    }
}

impl BuilderError {
    /// What the error says to the user.
    pub fn message(&self) -> (r: String)
        ensures
            r@ == builder_message(self.deep_view()),
    {
        match self {
            BuilderError::BadURL => "URL had no host".to_owned(),
            BuilderError::BadEntry { file, error } => {
                let text = error.message();
                join3(file.as_str(), ": ", text.as_str())
            },
            BuilderError::DuplicateUrl { url } => join2(
                "more than one document would be written to ",
                url.as_str(),
            ),
            BuilderError::BadTime => "the time of the build cannot be shown as a year".to_owned(),
        }
    }
}

} // verus!
